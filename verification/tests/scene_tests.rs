use texel::common::fio::{file_kind, path_with_ext, sprite_from_text, FileKind};
use texel::common::loader::Loader;
use texel::common::selected_info::{decimal_string, SelectedInfo};
use texel::common::text::ends_with;
use texel::common::{Action, Error, Layout};
use texel::components::World;
use texel::exporters::Plaintext;
use texel::resources::State;
use texel::systems::action_handler::{import_sprite, scene_from_world, IoRequest};
use texel::systems::dispatch::handle_action;
use texel::systems::history_handler::preserve_history;
use texel::systems::layout::apply_layout_to_selected;
use texel::systems::renderers::{render_border, render_sprite};
use texel::texel_types::{Dimension, Position, Position2D, Sprite};

fn sprite(text: &str) -> Sprite {
    match sprite_from_text(text) {
        Ok(s) => s,
        Err(_) => panic!("sprite text refused"),
    }
}

fn world_with(objects: &[(&str, Position, bool)], state: &State) -> World {
    let mut world = World::new_world();
    for (text, pos, selected) in objects {
        let r = import_sprite(sprite(text), Some(*pos), *selected, &mut world, state);
        assert!(r.is_ok());
    }
    world
}

fn pos(x: i32, y: i32, z: i32) -> Position {
    Position { x, y, z }
}

#[test]
fn column_layout_places_selected_objects() {
    let state = State::default_state();
    let mut world = world_with(
        &[
            ("aa\naa", pos(5, 5, 0), true),
            ("b", pos(2, 9, 0), true),
            ("ccc", pos(40, 40, 0), false),
            ("d\nd\nd", pos(7, 3, 0), true),
        ],
        &state,
    );
    let moved = apply_layout_to_selected(Layout::Column(2, (1, 1)), &mut world, &state, (80, 24));
    assert!(moved);
    // top left of the selection is (2, 3); columns are 2 then 1 wide, rows 2 then 3 high
    assert_eq!(world.objects[0].pos, pos(2, 3, 0));
    assert_eq!(world.objects[1].pos, pos(2 + (2 + 1), 3, 0));
    assert_eq!(world.objects[2].pos, pos(40, 40, 0));
    assert_eq!(world.objects[3].pos, pos(2, 3 + (2 + 1), 0));
}

#[test]
fn layout_without_selection_moves_nothing() {
    let state = State::default_state();
    let mut world = world_with(&[("a", pos(1, 1, 0), false)], &state);
    assert!(!apply_layout_to_selected(Layout::Column(3, (0, 0)), &mut world, &state, (80, 24)));
    assert!(!apply_layout_to_selected(Layout::Unset, &mut world, &state, (80, 24)));
    assert_eq!(world.objects[0].pos, pos(1, 1, 0));
}

#[test]
fn random_layout_keeps_objects_in_viewport() {
    let state = State::default_state();
    let mut world = world_with(&[("ab\ncd", pos(100, 100, 3), true), ("x", pos(1, 1, 0), false)], &state);
    let moved = apply_layout_to_selected(Layout::Random, &mut world, &state, (20, 10));
    assert!(moved);
    let p = world.objects[0].pos;
    assert!(0 <= p.x && p.x < 20 - 2);
    assert!(0 <= p.y && p.y < 10 - 2);
    assert_eq!(p.z, 3);
    assert_eq!(world.objects[1].pos, pos(1, 1, 0));
}

#[test]
fn border_surrounds_object() {
    let texels = render_border(pos(3, 2, 0), Dimension { w: 2, h: 1 }, Position2D { x: 1, y: 0 });
    // 3 rows of sides, 4 columns of top and bottom
    assert_eq!(texels.len(), 2 * 3 + 2 * 4);
    assert_eq!(texels[0].symbol, '|');
    assert_eq!(texels[0].pos, Position2D { x: 1, y: 1 });
    assert_eq!(texels[1].pos, Position2D { x: 4, y: 1 });
    assert_eq!(texels[6].symbol, '-');
    assert_eq!(texels[6].pos, Position2D { x: 1, y: 1 });
    assert_eq!(texels[7].symbol, '_');
    assert_eq!(texels[7].pos, Position2D { x: 1, y: 3 });
    assert_eq!(texels[13].pos, Position2D { x: 4, y: 3 });
}

#[test]
fn border_stops_at_origin() {
    let texels = render_border(pos(0, 0, 0), Dimension { w: 1, h: 1 }, Position2D { x: 0, y: 0 });
    assert_eq!(texels[0].pos, Position2D { x: 0, y: 0 });
}

#[test]
fn sprite_texels_on_screen() {
    let s = sprite("a b\nc");
    let texels = render_sprite(&s.body, pos(10, 5, 0), Position2D { x: 8, y: 5 });
    assert_eq!(texels.len(), 3);
    assert_eq!((texels[0].symbol, texels[0].pos), ('a', Position2D { x: 2, y: 0 }));
    assert_eq!((texels[1].symbol, texels[1].pos), ('b', Position2D { x: 4, y: 0 }));
    assert_eq!((texels[2].symbol, texels[2].pos), ('c', Position2D { x: 2, y: 1 }));
}

#[test]
fn plaintext_draws_deeper_objects_first() {
    let state = State::default_state();
    let world = world_with(&[("XX", pos(1, 0, 5), false), ("ab\ncd", pos(0, 0, 1), false), ("q", pos(-1, 0, 0), false)], &state);
    let text = Plaintext::export(scene_from_world(&world));
    assert_eq!(text, "aXX\ncd\n");
}

#[test]
fn plaintext_of_empty_scene() {
    let world = World::new_world();
    assert_eq!(Plaintext::export(scene_from_world(&world)), "");
}

#[test]
fn decimal_text_of_numbers() {
    assert_eq!(decimal_string(0), "0");
    assert_eq!(decimal_string(-42), "-42");
    assert_eq!(decimal_string(i32::MIN), "-2147483648");
    assert_eq!(decimal_string(1234567), "1234567");
}

#[test]
fn status_line_shows_offset_and_selection() {
    let state = State::default_state();
    let mut info = SelectedInfo::from_offset(Position2D { x: 3, y: -4 });
    let s = sprite("ab");
    info.append(&s, &pos(12, 7, 2));
    let line = info.texels(&state, 80, 24);
    assert_eq!(line.len(), 36);
    let text: String = line.iter().map(|t| t.symbol).collect();
    assert_eq!(text, " ▞   12,  7,  2 :   1/  1 :   3, -4 ");
    assert_eq!(line[0].pos, Position2D { x: 80 - 39, y: 23 });
    assert_eq!(line[5].fg, 255);
    assert_eq!(line[20].fg, 71);
    assert_eq!(line[30].fg, 61);
}

#[test]
fn file_kinds_by_extension() {
    assert_eq!(file_kind("scene.rgz"), Ok(FileKind::Scene));
    assert_eq!(file_kind("dir/art.txt"), Ok(FileKind::Sprite));
    assert_eq!(file_kind("image.png"), Err(Error::ExecutionError(String::from("Unknown file type"))));
    assert_eq!(file_kind("noext"), Err(Error::ExecutionError(String::from("Unknown file type"))));
    assert_eq!(Loader::from_file("a.rgz"), Ok(FileKind::Scene));
}

#[test]
fn loader_reads_txt_sprites_only() {
    assert!(matches!(Loader::from_txt_file("a.png", "x"), Err(Error::ExecutionError(m)) if m == "Unknown file type"));
    let s = Loader::from_txt_file("art.txt", "x y\n z");
    assert!(s.is_ok());
    let s = s.unwrap();
    let frame = s.body.frame_iter();
    assert_eq!(frame.len(), 3);
    assert_eq!((frame[1].x, frame[1].y, frame[1].symbol), (2, 0, 'y'));
    assert_eq!((frame[2].x, frame[2].y, frame[2].symbol), (1, 1, 'z'));
}

#[test]
fn too_long_sprite_text_is_refused() {
    let long = "x".repeat(0x10000);
    assert!(sprite_from_text(&long).is_err());
}

#[test]
fn ends_with_suffix() {
    assert!(ends_with("file.txt", "txt"));
    assert!(!ends_with("txt", "file.txt"));
    assert!(ends_with("abc", ""));
}

#[test]
fn history_records_changes_and_undo_restores() {
    let mut state = State::default_state();
    let mut world = world_with(&[("a", pos(1, 1, 0), true)], &state);
    state.set_dirty(true);
    preserve_history(&world, &mut state);
    assert!(!state.dirty());
    world.objects[0].pos = pos(4, 4, 0);
    state.set_dirty(true);
    preserve_history(&world, &mut state);
    let r = handle_action(Action::Undo, &mut world, &mut state, (80, 24));
    assert!(r.is_none());
    assert_eq!(world.objects[0].pos, pos(1, 1, 0));
    assert!(world.objects[0].selected);
    handle_action(Action::Redo, &mut world, &mut state, (80, 24));
    assert_eq!(world.objects[0].pos, pos(4, 4, 0));
}

#[test]
fn file_actions_become_requests() {
    let mut state = State::default_state();
    let mut world = World::new_world();
    let r = handle_action(Action::Read(String::from("x.rgz")), &mut world, &mut state, (80, 24));
    assert!(matches!(r, Some(IoRequest::Load(p)) if p == "x.rgz"));
    let r = handle_action(Action::Write(None), &mut world, &mut state, (80, 24));
    assert!(r.is_none());
    assert!(state.error().is_some());
    let r = handle_action(Action::Write(Some(String::from("out"))), &mut world, &mut state, (80, 24));
    assert!(matches!(r, Some(IoRequest::Save(p, _, _)) if p == "out"));
}

#[test]
fn noop_changes_nothing() {
    let mut state = State::default_state();
    let mut world = World::new_world();
    let r = handle_action(Action::Noop, &mut world, &mut state, (80, 24));
    assert!(r.is_none());
    assert!(!state.dirty());
    assert!(world.objects.is_empty());
}

#[test]
fn sprite_and_scene_check_before_loading() {
    let ok = sprite("ab\ncd");
    assert!(ok.body.is_ok());
    let mut far = sprite("x");
    far.body.frames[0][0].x = i32::MAX;
    assert!(!far.body.is_ok());
    let mut no_frames = sprite("x");
    no_frames.body.frames.clear();
    no_frames.body.index = 0;
    assert!(!no_frames.body.is_ok());
    let mut bad_index = sprite("x");
    bad_index.body.index = 1;
    assert!(!bad_index.body.is_ok());

    let state = State::default_state();
    let good_world = world_with(&[("ab", Position { x: 1, y: 1, z: 0 }, false)], &state);
    let scene = texel::systems::action_handler::scene_from_world(&good_world);
    assert!(scene.is_ok());
}

#[test]
fn save_path_gets_the_extension() {
    assert_eq!(path_with_ext("scene.rgz", "rgz"), "scene.rgz");
    assert_eq!(path_with_ext("scene", "rgz"), "scene.rgz");
    assert_eq!(path_with_ext("scene.txt", "rgz"), "scene.rgz");
    assert_eq!(path_with_ext("dir/art.v1", "txt"), "dir/art.txt");
}

#[test]
fn later_label_replaces_value_of_same_key() {
    let mut state = State::default_state();
    let mut world = world_with(&[("ab", Position { x: 1, y: 1, z: 0 }, true)], &state);
    let first = match texel::common::MetadataType::parse_labels("a=1, a=2, b=3") {
        Ok(m) => m,
        Err(_) => panic!("labels refused"),
    };
    assert!(texel::systems::clip::set_metadata(first, &mut world, &mut state));
    let second = match texel::common::MetadataType::parse_labels("b=4") {
        Ok(m) => m,
        Err(_) => panic!("labels refused"),
    };
    assert!(texel::systems::clip::set_metadata(second, &mut world, &mut state));
    let labels = &world.objects[0].sprite.labels;
    assert_eq!(labels.len(), 2);
    assert_eq!(labels[0], (String::from("a"), String::from("2")));
    assert_eq!(labels[1], (String::from("b"), String::from("4")));
}

#[test]
fn scene_bytes_round_trip_through_gzip() {
    let text = b"V2(( objects: [], bookmarks: [] ))".to_vec();
    let packed = match texel::common::fio::rgz_from_scene_bytes(&text) {
        Ok(p) => p,
        Err(_) => panic!("encoding failed"),
    };
    assert_ne!(packed, text);
    match texel::common::fio::scene_bytes_from_rgz(&packed) {
        Ok(back) => assert_eq!(back, text),
        Err(_) => panic!("decoding failed"),
    }
    assert!(texel::common::fio::scene_bytes_from_rgz(b"not gzip").is_err());
}
