use texel::common::fio::sprite_from_text;
use texel::common::texel::TexelExt;
use texel::common::{Error, Event, Mode};
use texel::components::{Subselection, World};
use texel::os::Terminal;
use texel::resources::palette::{invert_luminance, luminance};
use texel::resources::{CmdLine, ColorPalette, FileListing, State, SymbolPalette, SyncTerm};
use texel::systems::action_handler::import_sprite;
use texel::systems::renderers::cmdline_renderer::render_cmdline;
use texel::systems::renderers::meta_renderer::render_meta_info;
use texel::systems::renderers::sprite_renderer::render_sprites;
use texel::systems::renderers::subselection_renderer::render_subselections;
use texel::texel_types::{
    ColorMode, Dimension, Position, Position2D, SymbolStyle, SymbolStyles, Texel, DEFAULT_BG_U8, DEFAULT_FG_U8,
};

fn plain_texel(x: i32, y: i32, symbol: char) -> Texel {
    Texel { pos: Position2D { x, y }, symbol, bg: DEFAULT_BG_U8, fg: DEFAULT_FG_U8, styles: SymbolStyles::new() }
}

fn bold_texel(x: i32, y: i32, symbol: char, bg: u8, fg: u8) -> Texel {
    Texel { pos: Position2D { x, y }, symbol, bg, fg, styles: SymbolStyles::only(SymbolStyle::Bold) }
}

#[test]
fn sync_term_flushes_changed_texels_then_cursor() {
    let mut t = SyncTerm::with_origin(10, 3, 0);
    t.write_line_default(2, 1, "ab");
    t.set_cursor_pos(0, 0);
    let expected = plain_texel(2, 1, 'a').to_string() + &plain_texel(3, 1, 'b').to_string() + &Terminal::goto(0, 0);
    assert_eq!(t.flush_text(), expected);
}

#[test]
fn sync_term_unchanged_frame_flushes_only_cursor() {
    let mut t = SyncTerm::with_origin(10, 3, 0);
    t.write_line_default(2, 1, "ab");
    t.flip_buffers();
    t.write_line_default(2, 1, "ab");
    t.set_cursor_pos(4, 2);
    assert_eq!(t.flush_text(), Terminal::goto(4, 2));
}

#[test]
fn sync_term_blank_after_flip_shows_erased_cells() {
    let mut t = SyncTerm::with_origin(10, 3, 0);
    t.write_texel(plain_texel(1, 1, 'x'));
    t.flip_buffers();
    t.set_cursor_pos(0, 0);
    // the cell drawn in the last frame is blank again in this one
    let expected = plain_texel(1, 1, ' ').to_string() + &Terminal::goto(0, 0);
    assert_eq!(t.flush_text(), expected);
}

#[test]
fn sync_term_drops_texels_off_screen() {
    let mut t = SyncTerm::with_origin(10, 3, 0);
    t.write_texel(plain_texel(10, 1, 'x'));
    t.write_texel(plain_texel(-1, 1, 'x'));
    t.write_texel(plain_texel(1, 3, 'x'));
    t.set_cursor_pos(0, 0);
    assert_eq!(t.flush_text(), Terminal::goto(0, 0));
}

#[test]
fn sync_term_positions_from_one() {
    let mut t = SyncTerm::new(4, 4);
    assert_eq!(t.cursor_pos(), (1, 1));
    t.write_texel(plain_texel(0, 1, 'x'));
    t.write_texel(plain_texel(4, 4, 'y'));
    let expected = plain_texel(4, 4, 'y').to_string() + &Terminal::goto(1, 1);
    assert_eq!(t.flush_text(), expected);
}

#[test]
fn sync_term_override_keeps_symbol() {
    let mut t = SyncTerm::with_origin(10, 3, 0);
    t.write_texel(plain_texel(5, 2, 'q'));
    t.override_texel_bg(Texel { bg: 42, ..plain_texel(5, 2, ' ') });
    t.set_cursor_pos(0, 0);
    let expected = Texel { bg: 42, ..plain_texel(5, 2, 'q') }.to_string() + &Terminal::goto(0, 0);
    assert_eq!(t.flush_text(), expected);
}

#[test]
fn luminance_matches_float_formula() {
    for color in 0..=255u8 {
        let base = color.wrapping_sub(16);
        let (r, g, b) = (base / 36, (base / 6) % 6, base % 6);
        let expected = (0.2126 * f32::from(r) + 0.7151 * f32::from(g) + 0.0721 * f32::from(b)) as u8;
        assert_eq!(luminance(color), expected, "color {}", color);
        let gray = if expected >= 2 { 0xE8 + 5 } else { 0xE8 + 17 };
        assert_eq!(invert_luminance(color), gray, "color {}", color);
    }
}

#[test]
fn color_palette_line_and_selector_texels() {
    let palette = ColorPalette::default_palette();
    let line = palette.line_texels(24, 5, ColorMode::Bg);
    assert_eq!(line.len(), 16);
    let first = palette.color(1);
    assert_eq!(line[0], bold_texel(24, 5, '1', first, invert_luminance(first)));
    let last_slot = palette.color(15);
    assert_eq!(line[15], bold_texel(39, 5, 'f', last_slot, invert_luminance(last_slot)));
    let fg_line = palette.line_texels(0, 0, ColorMode::Fg);
    assert_eq!(fg_line[9], bold_texel(9, 0, '0', invert_luminance(palette.color(0)), palette.color(0)));
    let sel = palette.selector_texel(0, Position2D { x: 3, y: 4 }, ColorMode::Fg);
    assert_eq!(sel, bold_texel(3, 4, char::from(1u8), invert_luminance(palette.color(1)), palette.color(1)));
}

#[test]
fn error_text_shown_to_user() {
    assert_eq!(Error::InvalidCommand.to_string(), "Error: Invalid command");
    assert_eq!(Error::InvalidParam("Missing x").to_string(), "Error: Missing x");
    assert_eq!(Error::execution("Index out of bounds").to_string(), "Error: Index out of bounds");
}

#[test]
fn area_texels_column_after_column() {
    let cells = Position2D { x: 1, y: 2 }.area_texels(Dimension { w: 2, h: 2 });
    let expected = vec![
        Position2D { x: 1, y: 2 },
        Position2D { x: 1, y: 3 },
        Position2D { x: 2, y: 2 },
        Position2D { x: 2, y: 3 },
    ];
    assert_eq!(cells, expected);
}

#[test]
fn status_line_in_object_mode() {
    let state = State::default_state();
    let cmdline = CmdLine::default_cmdline();
    let mut t = SyncTerm::with_origin(80, 24, 0);
    render_cmdline(&state, &cmdline, &SymbolPalette::default_palette(), &ColorPalette::default_palette(), &mut t);
    assert_eq!(t.cursor_pos(), (79, 23));
    let text = t.flush_text();
    let white = Terminal::grayscale_u8(23);
    assert!(text.contains(&bold_texel(0, 23, '-', DEFAULT_BG_U8, white).to_string()));
    assert!(text.contains(&bold_texel(2, 23, 'O', DEFAULT_BG_U8, white).to_string()));
    assert!(text.contains(&bold_texel(17, 23, '-', DEFAULT_BG_U8, white).to_string()));
    let swatch = Texel {
        pos: Position2D { x: 42, y: 23 },
        symbol: '▞',
        bg: state.color(ColorMode::Bg),
        fg: state.color(ColorMode::Fg),
        styles: SymbolStyles::new(),
    };
    assert!(text.contains(&swatch.to_string()));
}

#[test]
fn status_line_shows_error_over_mode() {
    let mut state = State::default_state();
    state.set_error(Error::InvalidCommand);
    let cmdline = CmdLine::default_cmdline();
    let mut t = SyncTerm::with_origin(80, 24, 0);
    render_cmdline(&state, &cmdline, &SymbolPalette::default_palette(), &ColorPalette::default_palette(), &mut t);
    assert_eq!(t.cursor_pos(), (79, 23));
    let text = t.flush_text();
    assert!(text.contains(&bold_texel(1, 23, 'E', Terminal::rgb_u8(5, 0, 0), Terminal::rgb_u8(5, 5, 5)).to_string()));
    assert!(!text.contains(&bold_texel(2, 23, 'O', DEFAULT_BG_U8, Terminal::grayscale_u8(23)).to_string()));
}

#[test]
fn status_line_in_command_mode_moves_cursor() {
    let mut state = State::default_state();
    state.set_mode(Mode::Command);
    let mut cmdline = CmdLine::default_cmdline();
    let listing = FileListing { is_dir: false, entries: Ok(Vec::new()) };
    let _ = cmdline.input((Event::Noop, Some('w')), &listing);
    let mut t = SyncTerm::with_origin(80, 24, 0);
    render_cmdline(&state, &cmdline, &SymbolPalette::default_palette(), &ColorPalette::default_palette(), &mut t);
    assert_eq!(t.cursor_pos(), (2, 24));
    let text = t.flush_text();
    assert!(text.contains(&plain_texel(0, 23, ':').to_string()));
    assert!(text.contains(&plain_texel(1, 23, 'w').to_string()));
}

#[test]
fn subselection_shaded_in_edit_mode_only() {
    let mut world = World::new_world();
    world.subselection = Some((
        Position2D { x: 2, y: 2 },
        Dimension { w: 2, h: 1 },
        Subselection { active: true, initial_pos: Position2D { x: 2, y: 2 } },
    ));
    let mut state = State::default_state();
    let mut t = SyncTerm::with_origin(10, 5, 0);
    render_subselections(&world, &state, &mut t);
    t.set_cursor_pos(0, 0);
    assert_eq!(t.flush_text(), Terminal::goto(0, 0));

    state.set_mode(Mode::Edit);
    let mut t = SyncTerm::with_origin(10, 5, 0);
    render_subselections(&world, &state, &mut t);
    t.set_cursor_pos(0, 0);
    let shade = ColorPalette::subselection_bg_u8();
    let expected = Texel { bg: shade, ..plain_texel(2, 2, ' ') }.to_string()
        + &Texel { bg: shade, ..plain_texel(3, 2, ' ') }.to_string()
        + &Terminal::goto(0, 0);
    assert_eq!(t.flush_text(), expected);
}

#[test]
fn meta_overlay_shows_file_name_and_bookmarks_title() {
    let world = World::new_world();
    let mut state = State::default_state();
    let mut t = SyncTerm::with_origin(80, 24, 0);
    render_meta_info(&world, &state, &mut t);
    t.set_cursor_pos(0, 0);
    assert_eq!(t.flush_text(), Terminal::goto(0, 0));

    state.set_show_meta(true);
    render_meta_info(&world, &state, &mut t);
    let text = t.flush_text();
    // "<NONE>" centered: 80 / 2 - 4 / 2
    assert!(text.contains(&plain_texel(38, 1, '<').to_string()));
    assert!(text.contains(&plain_texel(43, 1, '>').to_string()));
    assert!(text.contains(&plain_texel(1, 1, '=').to_string()));
    assert!(text.contains(&plain_texel(6, 1, 'B').to_string()));
}

#[test]
fn deeper_objects_drawn_first() {
    let state = State::default_state();
    let mut world = World::new_world();
    let shallow = sprite_from_text("b").unwrap_or_else(|_| panic!("sprite text refused"));
    let deep = sprite_from_text("a").unwrap_or_else(|_| panic!("sprite text refused"));
    assert!(import_sprite(shallow, Some(Position { x: 3, y: 3, z: 0 }), false, &mut world, &state).is_ok());
    assert!(import_sprite(deep, Some(Position { x: 3, y: 3, z: 5 }), false, &mut world, &state).is_ok());
    let mut t = SyncTerm::with_origin(20, 10, 0);
    render_sprites(&world, &state, None, &mut t);
    let text = t.flush_text();
    let tv = world.objects[0].sprite.body.frames[0][0];
    let top = Texel { pos: Position2D { x: 3 + tv.x, y: 3 + tv.y }, symbol: tv.symbol, bg: tv.bg, fg: tv.fg, styles: tv.styles };
    assert_eq!(top.symbol, 'b');
    assert!(text.contains(&top.to_string()));
    let hidden = Texel { symbol: 'a', ..top };
    assert!(!text.contains(&hidden.to_string()));
}

#[test]
fn clear_screen_starts_a_blank_frame() {
    let mut t = SyncTerm::with_origin(10, 3, 0);
    t.write_texel(plain_texel(1, 1, 'x'));
    texel::systems::renderers::ClearScreen.run(&mut t);
    t.set_cursor_pos(0, 0);
    let expected = plain_texel(1, 1, ' ').to_string() + &Terminal::goto(0, 0);
    assert_eq!(t.flush_text(), expected);
}
