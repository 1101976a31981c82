use texel::common::{Action, CharMap, ClipboardOp, Event, Mode, ModesCharMap, MoveMeta, SelectMode, MODE_COUNT};
use texel::os::input_crossterm::{
    char_to_key, default_map, map_input, InputSource, Key, KeyModifiers, KeyPress, RawEvent,
};
use texel::resources::{State, SymbolPalette};
use texel::systems::input_handler::{
    edit_event, help_event, objmode_event, objmode_region_event, write_event,
};
use texel::texel_types::{ColorMode, Direction, Translation, Which};

fn queued(state: &mut State) -> Vec<Action> {
    let mut out = Vec::new();
    while let Some(a) = state.pop_action() {
        out.push(a);
    }
    out
}

#[test]
fn default_bindings_map_keys_to_events() {
    let map = CharMap::default_map();
    assert_eq!(map.0.len(), 67);
    assert_eq!(map.get(':'), Some(Event::Mode(Mode::Command)));
    assert_eq!(map.get('h'), Some(Event::Left(MoveMeta::Relative)));
    assert_eq!(map.get('L'), Some(Event::Right(MoveMeta::ToEdge)));
    assert_eq!(map.get('!'), Some(Event::EditPalette(0)));
    assert_eq!(map.get('F'), Some(Event::EditPalette(15)));
    assert_eq!(map.get('0'), Some(Event::SelectPalette(9)));
    assert_eq!(map.get('f'), Some(Event::SelectPalette(15)));
    assert_eq!(map.get('p'), Some(Event::Clipboard(ClipboardOp::Paste)));
    assert_eq!(map.get('t'), Some(Event::Duplicate(1)));
    assert_eq!(map.get('\n'), Some(Event::Confirm));
    assert_eq!(map.get('\t'), Some(Event::SelectObject(Which::Next, false)));
    assert_eq!(map.get('~'), None);
}

#[test]
fn later_binding_replaces_earlier() {
    let mut map = CharMap::new();
    assert_eq!(map.get('a'), None);
    map.insert('a', Event::Undo);
    map.insert('b', Event::Redo);
    map.insert('a', Event::Cancel);
    assert_eq!(map.get('a'), Some(Event::Cancel));
    assert_eq!(map.get('b'), Some(Event::Redo));
    assert!(!map.has_event(Event::Undo));
    assert!(map.has_event(Event::Cancel));
}

#[test]
fn fill_defaults_binds_only_unbound_events() {
    let mut own = CharMap::new();
    own.insert('g', Event::Undo);
    let mut modes = ModesCharMap::from_char_map(own);
    modes.fill_defaults();
    let all = modes.all_modes();
    // undo keeps its own key and gets no default one
    assert_eq!(all.get('g'), Some(Event::Undo));
    assert_eq!(all.get('u'), None);
    // events without a key get their defaults
    assert_eq!(all.get('U'), Some(Event::Redo));
    assert_eq!(all.get('h'), Some(Event::Left(MoveMeta::Relative)));
    assert_eq!(all.get('z'), Some(Event::ApplyColor(ColorMode::Fg)));
}

#[test]
fn fill_defaults_default_key_takes_over() {
    // 'x' is the default key of the background color, which has no key yet
    let mut own = CharMap::new();
    own.insert('x', Event::Undo);
    let mut modes = ModesCharMap::from_char_map(own);
    modes.fill_defaults();
    let all = modes.all_modes();
    assert_eq!(all.get('x'), Some(Event::ApplyColor(ColorMode::Bg)));
    // undo lost its key and gets its default one
    assert_eq!(all.get('u'), Some(Event::Undo));
}

#[test]
fn object_mode_overrides_edit_key() {
    let modes = ModesCharMap::default_modes();
    let overrides = modes.overrides();
    assert_eq!(overrides.len(), MODE_COUNT);
    let object = Mode::Object(SelectMode::Object).index();
    assert_eq!(overrides[object].get('e'), Some(Event::Mode(Mode::Edit)));
    let edit = Mode::Edit.index();
    assert_eq!(overrides[edit].get('e'), None);
}

#[test]
fn key_presses_for_characters() {
    assert_eq!(char_to_key('\n').key, Key::Enter);
    assert_eq!(char_to_key('\t').key, Key::Tab);
    let upper = char_to_key('A');
    assert_eq!(upper.key, Key::Char('A'));
    assert!(upper.modifiers.shift);
    let lower = char_to_key('a');
    assert!(!lower.modifiers.shift);
}

#[test]
fn raw_map_holds_character_and_meta_keys() {
    let map = default_map(&CharMap::default_map());
    assert_eq!(map.0.len(), 67 + 15);
    assert_eq!(map.get(char_to_key('A')), Some(Event::EditPalette(10)));
    let esc = KeyPress { key: Key::Esc, modifiers: KeyModifiers { shift: false, control: false, alt: false } };
    assert_eq!(map.get(esc), Some(Event::Cancel));
    let ctrl_a = KeyPress { key: Key::Char('a'), modifiers: KeyModifiers { shift: false, control: true, alt: false } };
    assert_eq!(map.get(ctrl_a), Some(Event::SelectObject(Which::All, false)));
    let typed = map_input(RawEvent::Key(char_to_key('h')), &map);
    assert_eq!(typed, (Event::Left(MoveMeta::Relative), Some('h')));
    assert_eq!(map_input(RawEvent::Resize(10, 10), &map), (Event::Resize, None));
    assert_eq!(map_input(RawEvent::Other, &map), (Event::Noop, None));
    let unbound = KeyPress { key: Key::Other, modifiers: KeyModifiers { shift: false, control: false, alt: false } };
    assert_eq!(map_input(RawEvent::Key(unbound), &map), (Event::Noop, None));
}

#[test]
fn mode_maps_apply_overrides() {
    let source = InputSource::from_char_maps(ModesCharMap::default_modes());
    let e = RawEvent::Key(char_to_key('e'));
    assert_eq!(source.map_event(Mode::Object(SelectMode::Object), e), (Event::Mode(Mode::Edit), Some('e')));
    assert_eq!(source.map_event(Mode::Edit, e), (Event::SelectPalette(14), Some('e')));
}

#[test]
fn object_mode_events_queue_actions() {
    let mut state = State::default_state();
    objmode_event((Event::SelectPalette(3), None), &mut state);
    objmode_event((Event::SelectPalette(12), None), &mut state);
    objmode_event((Event::EditPalette(2), None), &mut state);
    objmode_event((Event::ArrowLeft, None), &mut state);
    objmode_event((Event::Up(MoveMeta::ToEdge), None), &mut state);
    objmode_event((Event::SelectRegion, None), &mut state);
    let actions = queued(&mut state);
    assert_eq!(actions.len(), 5);
    assert!(matches!(actions[0], Action::Bookmark(3, false)));
    assert!(matches!(actions[1], Action::Bookmark(2, true)));
    assert!(matches!(actions[2], Action::Translate(Translation::Relative(-1, 0, 0))));
    assert!(matches!(actions[3], Action::Translate(Translation::ToEdge(Direction::Top))));
    assert!(matches!(actions[4], Action::SetMode(Mode::Object(SelectMode::Region))));
}

#[test]
fn region_delete_applies_region_first() {
    let mut state = State::default_state();
    objmode_region_event((Event::Backspace, None), &mut state);
    let actions = queued(&mut state);
    assert_eq!(actions.len(), 2);
    assert!(matches!(actions[0], Action::ApplyRegion));
    assert!(matches!(actions[1], Action::Delete));
}

#[test]
fn write_mode_writes_typed_characters() {
    let mut state = State::default_state();
    write_event((Event::Noop, Some('q')), &mut state);
    write_event((Event::Confirm, None), &mut state);
    write_event((Event::Noop, None), &mut state);
    let actions = queued(&mut state);
    assert_eq!(actions.len(), 4);
    assert!(matches!(actions[0], Action::ApplySymbol('q')));
    assert!(matches!(actions[1], Action::Translate(Translation::Relative(1, 0, 0))));
    assert!(matches!(actions[2], Action::Translate(Translation::ToEdge(Direction::Left))));
    assert!(matches!(actions[3], Action::Translate(Translation::Relative(0, 1, 0))));
}

#[test]
fn edit_mode_applies_palette_symbol() {
    let mut state = State::default_state();
    let palette = SymbolPalette::default_palette();
    let expected = palette.symbol(4);
    edit_event((Event::SelectPalette(4), None), &mut state, &palette);
    edit_event((Event::EditPalette(4), None), &mut state, &palette);
    let actions = queued(&mut state);
    assert_eq!(actions.len(), 2);
    assert!(matches!(actions[0], Action::ApplySymbol(c) if c == expected));
    assert!(matches!(actions[1], Action::SetMode(Mode::SelectSymbol(4))));
}

#[test]
fn help_mode_leaves_on_any_event() {
    let mut state = State::default_state();
    help_event((Event::Undo, None), &mut state);
    help_event((Event::Mode(Mode::Command), None), &mut state);
    let actions = queued(&mut state);
    assert!(matches!(actions[0], Action::ReverseMode));
    assert!(matches!(actions[1], Action::SetMode(Mode::Command)));
}
