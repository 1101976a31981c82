use texel::common::{Action, Error, Event, Layout, Mode, OnQuit, SelectMode};
use texel::resources::{CmdLine, ColorPalette, FileListing, State, SymbolPalette};
use texel::texel_types::{ColorMode, Position2D, Scene, Translation};

fn words(list: &[&str]) -> Vec<String> {
    list.iter().map(|w| String::from(*w)).collect()
}

fn no_listing() -> FileListing {
    FileListing { is_dir: false, entries: Ok(Vec::new()) }
}

#[test]
fn undo_after_push_returns_previous_snapshot() {
    let mut state = State::default_state();
    state.set_dirty(true);
    state.push_history(Scene::default_scene(), vec![0]);
    state.set_dirty(true);
    state.push_history(Scene::default_scene(), vec![1]);
    let back = state.undo();
    assert!(back.is_some());
    assert_eq!(back.unwrap().selections, vec![0]);
    let forward = state.redo();
    assert_eq!(forward.unwrap().selections, vec![1]);
    assert!(state.redo().is_none());
}

#[test]
fn undo_at_oldest_snapshot_gives_nothing() {
    let mut state = State::default_state();
    assert!(state.undo().is_none());
}

#[test]
fn reverse_mode_returns_to_previous_mode() {
    let mut state = State::default_state();
    assert_eq!(state.mode(), Mode::Object(SelectMode::Object));
    assert!(state.set_mode(Mode::Edit));
    assert_eq!(state.mode(), Mode::Edit);
    assert!(!state.set_mode(Mode::Edit));
    assert!(state.reverse_mode());
    assert_eq!(state.mode(), Mode::Object(SelectMode::Object));
    assert!(!state.reverse_mode());
}

#[test]
fn errors_are_set_and_cleared() {
    let mut state = State::default_state();
    state.set_error(Error::execution("boom"));
    assert_eq!(state.error(), &Some(Error::ExecutionError(String::from("boom"))));
    state.clear_error();
    assert_eq!(state.error(), &None);
}

#[test]
fn swapping_colors() {
    let mut state = State::default_state();
    state.set_color(3, ColorMode::Bg);
    state.set_color(9, ColorMode::Fg);
    state.swap_color();
    assert_eq!(state.color(ColorMode::Bg), 9);
    assert_eq!(state.color(ColorMode::Fg), 3);
}

#[test]
fn parses_layout_commands() {
    let r = CmdLine::parse_words(&words(&["layout", "column", "3", "2"]));
    assert!(matches!(r, Ok(Action::Layout(Layout::Column(3, (2, 2))))));
    let r = CmdLine::parse_words(&words(&["layout", "column", "3", "2", "5"]));
    assert!(matches!(r, Ok(Action::Layout(Layout::Column(3, (2, 5))))));
    let r = CmdLine::parse_words(&words(&["layout", "random"]));
    assert!(matches!(r, Ok(Action::Layout(Layout::Random))));
    let r = CmdLine::parse_words(&words(&["layout", "column"]));
    assert!(matches!(r, Err(Error::InvalidParam("No columns specified"))));
    let r = CmdLine::parse_words(&words(&["layout", "column", "0", "1"]));
    assert!(matches!(r, Err(Error::InvalidParam("Columns must be positive"))));
    let r = CmdLine::parse_words(&words(&["layout", "spiral"]));
    assert!(matches!(r, Err(Error::InvalidParam("Invalid layout type"))));
}

#[test]
fn parses_other_commands() {
    assert!(matches!(CmdLine::parse_words(&words(&["q!"])), Ok(Action::SetMode(Mode::Quitting(OnQuit::Force)))));
    assert!(matches!(
        CmdLine::parse_words(&words(&["translate", "4", "-2"])),
        Ok(Action::Translate(Translation::Absolute(4, -2, None)))
    ));
    assert!(matches!(CmdLine::parse_words(&words(&["translate", "4"])), Err(Error::InvalidParam("No Y specified"))));
    assert!(matches!(CmdLine::parse_words(&words(&["duplicate"])), Ok(Action::Duplicate(1))));
    assert!(matches!(CmdLine::parse_words(&words(&["r"])), Err(Error::InvalidParam("No path specified"))));
    assert!(matches!(CmdLine::parse_words(&words(&["w", "a.rgz"])), Ok(Action::Write(Some(p))) if p == "a.rgz"));
    assert!(matches!(CmdLine::parse_words(&words(&["frobnicate"])), Err(Error::InvalidCommand)));
}

#[test]
fn typed_command_is_run_on_confirm() {
    let mut cmdline = CmdLine::default_cmdline();
    let listing = no_listing();
    for c in "new!".chars() {
        let r = cmdline.input((Event::Noop, Some(c)), &listing);
        assert!(matches!(r, Ok(Action::Noop)));
    }
    assert_eq!(cmdline.cmd(), "new!");
    let r = cmdline.input((Event::Confirm, None), &listing);
    assert!(matches!(r, Ok(Action::New(true))));
    assert_eq!(cmdline.cmd(), "");
}

#[test]
fn backspace_removes_before_cursor() {
    let mut cmdline = CmdLine::default_cmdline();
    let listing = no_listing();
    for c in "abc".chars() {
        let _ = cmdline.input((Event::Noop, Some(c)), &listing);
    }
    let _ = cmdline.input((Event::ArrowLeft, None), &listing);
    let _ = cmdline.input((Event::Backspace, None), &listing);
    assert_eq!(cmdline.cmd(), "ac");
    assert_eq!(cmdline.cursor_pos(), 1);
}

#[test]
fn palette_slots_and_errors() {
    let mut colors = ColorPalette::default_palette();
    // palette keys 1 to 9 read slots 0 to 8, key 0 reads slot 9
    assert!(colors.set_color(2, 42).is_ok());
    assert_eq!(colors.color(3), 42);
    assert!(colors.set_color(9, 7).is_ok());
    assert_eq!(colors.color(0), 7);
    assert!(matches!(colors.set_color(16, 1), Err(Error::ExecutionError(m)) if m == "Index out of bounds"));
    let mut symbols = SymbolPalette::default_palette();
    assert!(symbols.set_symbol(0, '#').is_ok());
    assert_eq!(symbols.symbol(0), '#');
    assert!(matches!(symbols.set_symbol(99, 'x'), Err(Error::ExecutionError(m)) if m == "Symbol index out of bounds"));
}

#[test]
fn color_under_palette_position() {
    // the palette is drawn 14 rows from the bottom, 24 columns from the left
    let top_left = ColorPalette::pos_to_color(Position2D { x: 24, y: 10 }, 24);
    assert_eq!(top_left, 16);
    let next = ColorPalette::pos_to_color(Position2D { x: 25, y: 10 }, 24);
    assert_eq!(next, 17);
    let next_row = ColorPalette::pos_to_color(Position2D { x: 24, y: 11 }, 24);
    assert_eq!(next_row, 32);
}

#[test]
fn single_missing_file_becomes_save_file() {
    let mut state = State::default_state();
    let args = vec![String::from("texel"), String::from("new.rgz")];
    assert!(texel::common::program::load_from(&args, false, &mut state));
    assert_eq!(state.filename(), "new.rgz");
    assert!(state.pop_action().is_none());
}

#[test]
fn single_existing_file_is_read_and_saved_to() {
    let mut state = State::default_state();
    let args = vec![String::from("texel"), String::from("a.rgz")];
    assert!(texel::common::program::load_from(&args, true, &mut state));
    assert_eq!(state.filename(), "a.rgz");
    match state.pop_action() {
        Some(texel::common::Action::Read(p)) => assert_eq!(p, "a.rgz"),
        _ => panic!("expected a read action"),
    }
    assert!(state.pop_action().is_none());
}

#[test]
fn several_files_are_read_in_order() {
    let mut state = State::default_state();
    let args = vec![String::from("texel"), String::from("a.rgz"), String::from("b.txt")];
    assert!(texel::common::program::load_from(&args, false, &mut state));
    assert_eq!(state.filename(), "NONE");
    let reads: Vec<String> = std::iter::from_fn(|| state.pop_action())
        .map(|a| match a {
            texel::common::Action::Read(p) => p,
            _ => panic!("expected a read action"),
        })
        .collect();
    assert_eq!(reads, vec![String::from("a.rgz"), String::from("b.txt")]);
}

#[test]
fn no_files_named() {
    let mut state = State::default_state();
    assert!(!texel::common::program::load_from(&vec![String::from("texel")], false, &mut state));
    assert!(state.pop_action().is_none());
}

#[test]
fn terminal_minimum_size() {
    assert!(texel::common::program::terminal_size_ok((60, 16)));
    assert!(!texel::common::program::terminal_size_ok((59, 40)));
    assert!(!texel::common::program::terminal_size_ok((200, 15)));
}

#[test]
fn undo_after_edit_while_browsing_a_full_history() {
    let mut state = State::default_state();
    for i in 0..25usize {
        state.set_dirty(true);
        state.push_history(Scene::default_scene(), vec![i]);
    }
    // the history holds the last 20 snapshots; step back five of them
    for _ in 0..5 {
        assert!(state.undo().is_some());
    }
    state.set_dirty(true);
    state.push_history(Scene::default_scene(), vec![99]);
    match state.undo() {
        Some(snap) => assert_eq!(snap.selections, vec![19]),
        None => panic!("nothing to undo"),
    }
    assert!(state.redo().is_some());
    assert!(state.redo().is_none());
}
