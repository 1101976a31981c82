use texel::common::fio::{path_base, path_extension, path_file_name, path_join, sprite_from_text};
use texel::common::{Action, ClipboardOp, Event, Mode, SelectMode};
use texel::components::World;
use texel::os::Terminal;
use texel::resources::{CmdLine, ColorPalette, FileListing, State};
use texel::systems::action_handler::import_sprite;
use texel::systems::clip::clipboard;
use texel::systems::input_handler::{color_select_event, objmode_event, objmode_region_event, write_event};
use texel::texel_types::{Bounds, Dimension, Position, Position2D, SymbolStyle, Translation};

fn pos(x: i32, y: i32, z: i32) -> Position {
    Position { x, y, z }
}

#[test]
fn paste_after_copy_adds_copies_of_selection() {
    let mut state = State::default_state();
    let mut world = World::new_world();
    for (text, p, selected) in [("ab", pos(3, 3, 0), true), ("c", pos(9, 1, 0), false), ("de", pos(5, 7, 1), true)] {
        let s = sprite_from_text(text).unwrap();
        assert!(import_sprite(s, Some(p), selected, &mut world, &state).is_ok());
    }
    assert!(!clipboard(ClipboardOp::Copy, &mut world, &mut state));
    assert_eq!(world.objects.len(), 3);
    assert!(clipboard(ClipboardOp::Paste, &mut world, &mut state));
    assert_eq!(world.objects.len(), 5);
    for o in world.objects[..3].iter() {
        assert!(!o.selected);
    }
    assert!(world.objects[3].selected && world.objects[4].selected);
    assert_eq!(world.objects[3].sprite.body.frame_iter()[0].symbol, 'a');
    assert_eq!(world.objects[4].sprite.body.frame_iter()[1].symbol, 'e');
    // pasted at the new object position in the viewport
    assert_eq!(world.objects[3].pos, pos(10, 10, 0));
}

#[test]
fn cut_removes_selection_until_pasted() {
    let mut state = State::default_state();
    let mut world = World::new_world();
    let s = sprite_from_text("x").unwrap();
    assert!(import_sprite(s, Some(pos(1, 1, 0)), true, &mut world, &state).is_ok());
    assert!(clipboard(ClipboardOp::Cut, &mut world, &mut state));
    assert!(world.objects.is_empty());
    assert!(clipboard(ClipboardOp::Paste, &mut world, &mut state));
    assert_eq!(world.objects.len(), 1);
}

#[test]
fn command_line_opens_from_modes() {
    let mut state = State::default_state();
    let command = (Event::Mode(Mode::Command), Some(':'));
    objmode_event(command, &mut state);
    objmode_region_event(command, &mut state);
    write_event(command, &mut state);
    let a: Vec<Action> = std::iter::from_fn(|| state.pop_action()).collect();
    assert_eq!(a.len(), 4);
    assert!(matches!(a[0], Action::SetMode(Mode::Command)));
    assert!(matches!(a[1], Action::SetMode(Mode::Command)));
    assert!(matches!(a[2], Action::ApplySymbol(':')));
    assert!(matches!(a[3], Action::Translate(Translation::Relative(1, 0, 0))));
}

#[test]
fn escape_cancels_in_modes() {
    let mut state = State::default_state();
    let mut colors = ColorPalette::default_palette();
    let esc = (Event::Cancel, None);
    objmode_event(esc, &mut state);
    write_event(esc, &mut state);
    color_select_event(esc, &mut state, 0, &mut colors, 24);
    let a: Vec<Action> = std::iter::from_fn(|| state.pop_action()).collect();
    assert_eq!(a.len(), 3);
    assert!(a.iter().all(|x| matches!(x, Action::Cancel)));
}

#[test]
fn entered_command_is_recalled_first() {
    let mut cmdline = CmdLine::default_cmdline();
    let listing = FileListing { is_dir: false, entries: Ok(Vec::new()) };
    for c in "w a.rgz".chars() {
        let _ = cmdline.input((Event::Noop, Some(c)), &listing);
    }
    let _ = cmdline.input((Event::Confirm, None), &listing);
    assert_eq!(cmdline.cmd(), "");
    let _ = cmdline.input((Event::ArrowUp, None), &listing);
    assert_eq!(cmdline.cmd(), "w a.rgz");
    assert_eq!(cmdline.cursor_pos(), 7);
}

#[test]
fn opposite_moves_return() {
    let mut p = pos(4, -2, 1);
    let free = Bounds::Free(Position2D { x: 0, y: 0 }, Dimension { w: 10, h: 10 });
    assert!(p.apply(Translation::Relative(3, 5, -1), free));
    assert_eq!(p, pos(7, 3, 0));
    assert!(p.apply(Translation::Relative(-3, -5, 1), free));
    assert_eq!(p, pos(4, -2, 1));
}

#[test]
fn binding_bounds_clamp_moves() {
    let mut p = pos(1, 1, 0);
    let area = Bounds::Binding(Position2D { x: 0, y: 0 }, Dimension { w: 5, h: 5 });
    assert!(!p.apply(Translation::Relative(-3, 0, 0), area));
    assert_eq!(p, pos(0, 1, 0));
}

#[test]
fn terminal_sequences() {
    assert_eq!(Terminal::goto(0, 0), "\x1b[1;1H");
    assert_eq!(Terminal::goto(9, 4), "\x1b[5;10H");
    assert_eq!(Terminal::goto(-3, 2), "\x1b[3;1H");
    assert_eq!(Terminal::reset_sequence(), "\x1b[0m");
    assert_eq!(Terminal::bg_color_sequence(16), "\x1b[48;5;16m");
    assert_eq!(Terminal::fg_color_sequence(255), "\x1b[38;5;255m");
    assert_eq!(Terminal::style_sequence(SymbolStyle::Bold), "\x1b[1m");
    assert_eq!(Terminal::style_sequence(SymbolStyle::Underline), "\x1b[4m");
    assert_eq!(Terminal::rgb_u8(1, 3, 1), 71);
    assert_eq!(Terminal::grayscale_u8(23), 255);
    let blank = Terminal::blank_to_black((2, 1));
    assert_eq!(blank, "\x1b[0m\x1b[1;1H\x1b[48;5;16m  ");
}

#[test]
fn palette_sequences() {
    assert_eq!(ColorPalette::default_fg(), "\x1b[39m");
    assert_eq!(ColorPalette::default_bg(), "\x1b[49m");
    assert_eq!(ColorPalette::u8_to_fg(3), "\x1b[38;5;3m");
    assert_eq!(ColorPalette::u8_to_bg(200), "\x1b[48;5;200m");
    assert_eq!(ColorPalette::subselection_bg_u8(), 0xE8 + 10);
}

#[test]
fn paths() {
    assert_eq!(path_base("dir/sub/file.txt"), "dir/sub");
    assert_eq!(path_base("file.txt"), "");
    assert_eq!(path_file_name("dir/file.txt"), Some(String::from("file.txt")));
    assert_eq!(path_join("dir", "file"), "dir/file");
    assert_eq!(path_extension("a/b.tar.gz"), Some(String::from("gz")));
    assert_eq!(path_extension(".hidden"), None);
}

#[test]
fn object_mode_is_default() {
    let state = State::default_state();
    assert_eq!(state.mode(), Mode::Object(SelectMode::Object));
    assert!(!state.quitting());
}

#[test]
fn filled_defaults_bind_every_default_event_when_keys_apart() {
    let mut own = texel::common::CharMap::new();
    own.insert('g', Event::Undo);
    own.insert('o', Event::Left(texel::common::MoveMeta::ToEdge));
    let mut modes = texel::common::ModesCharMap::from_char_map(own);
    modes.fill_defaults();
    let all = modes.all_modes();
    for (_, e) in texel::common::CharMap::default_map().0.iter() {
        assert!(all.has_event(*e));
    }
    assert_eq!(all.get('g'), Some(Event::Undo));
    assert_eq!(all.get('o'), Some(Event::Left(texel::common::MoveMeta::ToEdge)));
}
