use crate::common::{Action, Clipboard, ClipboardOp, Error, ErrorView, Layout, MetadataType, Mode, OnQuit, SelectMode};
use crate::components::{
    deselected, first_selected_from, labels_with, selected_count, translated_selected, without_selected, Bookmark, Object,
    ObjectView, Subselection, World, WorldView,
};
use crate::resources::{
    frame_mode, frame_offset, frame_unsaved, State, StateFrame, PALETTE_H, PALETTE_OFFSET, PALETTE_W,
};
use crate::texel_types::{
    dim_of, lemma_sprite_ok, sprite_ok, Bounds, ColorMode, Dimension, Position, Position2D, Scene,
    SceneV2, SceneView, Sprite, SpriteData, SymbolStyle, Translation, Which,
};
use vstd::prelude::*;

verus! {

/// Where new objects go, before the viewport offset
pub open spec fn spec_new_position() -> Position {
    Position { x: 10, y: 10, z: 0 }
}

/// Where new objects go, before the viewport offset
pub fn new_position() -> (r: Position)
    ensures
        r == spec_new_position(),
{
    Position { x: 10, y: 10, z: 0 }
}

/// `pos` moved by a viewport offset
pub open spec fn offset_position(pos: Position, offset: Position2D) -> Position {
    pos.spec_plus_2d(offset)
}

/// Whether `pos` can be moved by `offset`
pub open spec fn offset_fits(pos: Position, offset: Position2D) -> bool {
    i32::MIN <= pos.x + offset.x <= i32::MAX && i32::MIN <= pos.y + offset.y <= i32::MAX
}

/// A sprite placed at `pos`, sized to its texels, not yet carrying a saved cursor
pub open spec fn placed(sprite: SpriteData, pos: Position, selected: bool) -> ObjectView {
    ObjectView { sprite, pos, dim: dim_of(sprite.body), selected, cursor: None }
}

/// A sprite with one empty frame and no metadata
pub open spec fn empty_sprite() -> SpriteData {
    SpriteData {
        body: crate::texel_types::SpriteModel { frames: seq![Seq::empty()], index: 0 },
        id: None,
        labels: Seq::empty(),
    }
}

/// The world with every object deselected and a new empty sprite, selected, at `pos`
pub open spec fn with_new_sprite(w: WorldView, pos: Position) -> WorldView {
    WorldView { objects: deselected(w.objects).push(placed(empty_sprite(), pos, true)), ..w }
}

/// Deselects every object; returns false (nothing to record)
pub fn deselect_obj(world: &mut World) -> (r: bool)
    requires
        old(world).wf(),
    ensures
        !r,
        final(world).wf(),
        final(world)@ == (WorldView { objects: deselected(old(world)@.objects), ..old(world)@ }),
{
    world.deselect_all();
    false
}

/// Drops the region being selected; returns false (nothing to record)
pub fn clear_subselection(world: &mut World) -> (r: bool)
    ensures
        !r,
        final(world).wf() == old(world).wf(),
        final(world)@ == (WorldView { subselection: None, ..old(world)@ }),
{
    world.clear_subselection();
    false
}

/// Places a sprite at `pos`, or at the new object position in the viewport, optionally
/// selected
pub fn import_sprite(
    sprite: Sprite,
    pos: Option<Position>,
    pre_select: bool,
    world: &mut World,
    state: &State,
) -> (r: Result<(), Error>)
    requires
        old(world).wf(),
        state.wf(),
        sprite_ok(sprite@.body),
        pos is None ==> offset_fits(spec_new_position(), state.current_offset()),
    ensures
        r is Ok,
        final(world).wf(),
        final(world)@ == (WorldView {
            objects: old(world)@.objects.push(
                placed(
                    sprite@,
                    match pos {
                        Some(p) => p,
                        None => offset_position(spec_new_position(), state.current_offset()),
                    },
                    pre_select,
                ),
            ),
            ..old(world)@
        }),
{
    let at = match pos {
        Some(p) => p,
        None => new_position().plus_2d(state.offset()),
    };
    proof {
        lemma_sprite_ok(&sprite.body);
    }
    let dim = Dimension::for_sprite(&sprite.body);
    world.push_object(Object { sprite, pos: at, dim, selected: pre_select, cursor: None });
    Ok(())
}

/// Adds an empty sprite, the only one selected, at `pos` or the new object position;
/// returns true (the scene changed)
pub fn new_sprite(world: &mut World, state: &State, pos: Option<Position>) -> (r: bool)
    requires
        old(world).wf(),
        state.wf(),
        pos is None ==> offset_fits(spec_new_position(), state.current_offset()),
    ensures
        r,
        final(world).wf(),
        final(world)@ == with_new_sprite(
            old(world)@,
            match pos {
                Some(p) => p,
                None => offset_position(spec_new_position(), state.current_offset()),
            },
        ),
{
    deselect_obj(world);
    let sprite = Sprite::new_empty();
    proof {
        let fv = sprite.body.fv();
        assert(fv.drop_last() =~= Seq::<Seq<crate::texel_types::TexelV1>>::empty());
        assert(crate::texel_types::flat(fv.drop_last()) =~= Seq::<crate::texel_types::TexelV1>::empty());
        assert(crate::texel_types::flat(fv) =~= Seq::<crate::texel_types::TexelV1>::empty());
        assert(sprite@.labels =~= Seq::<(Seq<char>, Seq<char>)>::empty());
        assert(sprite@ == SpriteData {
            body: crate::texel_types::SpriteModel { frames: seq![Seq::empty()], index: 0 },
            id: None,
            labels: Seq::empty(),
        });
    }
    let _ = import_sprite(sprite, pos, true, world, state);
    true
}

/// The 2D part of a position
pub open spec fn pos2d(p: Position) -> Position2D {
    Position2D { x: p.x, y: p.y }
}

/// Cursor position saved on an object at `pos`: relative to the object, plus the offset
pub open spec fn saved_cursor(cursor: Position2D, pos: Position, offset: Position2D) -> Position2D {
    cursor.spec_minus(pos2d(pos)).spec_plus(offset)
}

/// Saving the cursor on the first selected object stays within 32 bits
pub open spec fn save_cursor_fits(w: WorldView, cursor: Position2D, offset: Position2D) -> bool {
    match first_selected_from(w.objects, 0) {
        Some(i) => cursor.fits_minus(pos2d(w.objects[i].pos)) && cursor.spec_minus(
            pos2d(w.objects[i].pos),
        ).fits_plus(offset),
        None => true,
    }
}

/// The world after saving the cursor on the first selected object
pub open spec fn with_saved_cursor(w: WorldView, cursor: Position2D, offset: Position2D) -> WorldView {
    match first_selected_from(w.objects, 0) {
        Some(i) => WorldView {
            objects: w.objects.update(
                i,
                ObjectView {
                    cursor: Some(saved_cursor(cursor, w.objects[i].pos, offset)),
                    ..w.objects[i]
                },
            ),
            ..w
        },
        None => w,
    }
}

/// Restoring the cursor from the first selected object stays within 32 bits
pub open spec fn restore_cursor_fits(w: WorldView, offset: Position2D) -> bool {
    match first_selected_from(w.objects, 0) {
        Some(i) => {
            let p = pos2d(w.objects[i].pos);
            &&& p.fits_minus(offset)
            &&& match w.objects[i].cursor {
                Some(cp) => cp.fits_plus(p.spec_minus(offset)),
                None => true,
            }
        },
        None => true,
    }
}

/// Cursor restored from the first selected object: its saved cursor placed relative to the
/// object in the viewport, else the object's corner; unchanged without a selection
pub open spec fn restored_cursor(w: WorldView, cursor: Position2D, offset: Position2D) -> Position2D {
    match first_selected_from(w.objects, 0) {
        Some(i) => {
            let p = pos2d(w.objects[i].pos).spec_minus(offset);
            match w.objects[i].cursor {
                Some(cp) => cp.spec_plus(p),
                None => p,
            }
        },
        None => cursor,
    }
}

/// Saves the cursor on the first selected object, relative to it
pub fn save_cursor_pos(world: &mut World, state: &State)
    requires
        old(world).wf(),
        state.wf(),
        save_cursor_fits(old(world)@, state.spec_cursor(), state.current_offset()),
    ensures
        final(world).wf(),
        final(world)@ == with_saved_cursor(old(world)@, state.spec_cursor(), state.current_offset()),
{
    if let Some(i) = world.first_selected() {
        assert(world@.objects[i as int] == world.objects@[i as int]@);
        let pos2d = Position2D::from_position(world.objects[i].pos);
        let save_pos = state.cursor().minus(pos2d).plus(state.offset());
        world.set_cursor_of(i, save_pos);
    }
}

/// Puts the cursor back where it was saved on the first selected object
pub fn restore_cursor_pos(world: &World, state: &mut State)
    requires
        world.wf(),
        old(state).wf(),
        restore_cursor_fits(world@, old(state).current_offset()),
    ensures
        final(state).frame() == (StateFrame {
            cursor: restored_cursor(world@, old(state).spec_cursor(), old(state).current_offset()),
            ..old(state).frame()
        }),
{
    if let Some(i) = world.first_selected() {
        assert(world@.objects[i as int] == world.objects@[i as int]@);
        let pos2d = Position2D::from_position(world.objects[i].pos).minus(state.offset());
        match world.objects[i].cursor {
            Some(cp) => state.set_cursor(cp.plus(pos2d)),
            None => state.set_cursor(pos2d),
        }
    }
}

/// Moves the cursor to the first selected object's saved cursor, else its corner; returns
/// whether an object is selected
pub fn cursor_to_selected(world: &World, state: &mut State) -> (r: bool)
    requires
        world.wf(),
    ensures
        r == (first_selected_from(world@.objects, 0) is Some),
        final(state).frame() == (StateFrame {
            cursor: match first_selected_from(world@.objects, 0) {
                Some(i) => match world@.objects[i].cursor {
                    Some(cp) => cp,
                    None => pos2d(world@.objects[i].pos),
                },
                None => old(state).spec_cursor(),
            },
            ..old(state).frame()
        }),
{
    if let Some(i) = world.first_selected() {
        assert(world@.objects[i as int] == world.objects@[i as int]@);
        match world.objects[i].cursor {
            Some(cp) => state.set_cursor(cp),
            None => state.set_cursor(Position2D::from_position(world.objects[i].pos)),
        }
        true
    } else {
        false
    }
}

/// The viewport: the offset and the screen size
pub fn viewport_bounds(state: &State, screen: (u16, u16)) -> (r: Bounds)
    requires
        state.wf(),
    ensures
        r == Bounds::Free(state.current_offset(), Dimension { w: screen.0, h: screen.1 }),
{
    Bounds::Free(state.offset(), Dimension::from_wh(screen.0, screen.1))
}

/// Bounds of the first selected object in the viewport
pub fn selected_bounds(world: &World, state: &State) -> (r: Option<Bounds>)
    requires
        world.wf(),
        state.wf(),
        match first_selected_from(world@.objects, 0) {
            Some(i) => pos2d(world@.objects[i].pos).fits_minus(state.current_offset()),
            None => true,
        },
    ensures
        r == match first_selected_from(world@.objects, 0) {
            Some(i) => Some(
                Bounds::Free(
                    pos2d(world@.objects[i].pos).spec_minus(state.current_offset()),
                    world@.objects[i].dim,
                ),
            ),
            None => None,
        },
{
    if let Some(i) = world.first_selected() {
        assert(world@.objects[i as int] == world.objects@[i as int]@);
        let pos2d = Position2D::from_position(world.objects[i].pos);
        Some(Bounds::Free(pos2d.minus(state.offset()), world.objects[i].dim))
    } else {
        None
    }
}

/// The region being selected, in scene coordinates
pub open spec fn spec_subselection(w: WorldView, offset: Position2D) -> Option<Bounds> {
    match w.subselection {
        Some((p, d, _)) => Some(Bounds::Binding(p.spec_plus(offset), d)),
        None => None,
    }
}

/// The region being selected, in scene coordinates
pub fn subselection(world: &World, state: &State) -> (r: Option<Bounds>)
    requires
        state.wf(),
        match world@.subselection {
            Some((p, _, _)) => p.fits_plus(state.current_offset()),
            None => true,
        },
    ensures
        r == spec_subselection(world@, state.current_offset()),
{
    match world.subselection {
        Some((pos, dim, _)) => Some(Bounds::Binding(pos.plus(state.offset()), dim)),
        None => None,
    }
}

/// The region being selected, else the cell under the cursor, in scene coordinates
pub open spec fn spec_subselection_bounds(w: WorldView, cursor: Position2D, offset: Position2D) -> Bounds {
    match spec_subselection(w, offset) {
        Some(b) => b,
        None => Bounds::Binding(cursor.spec_plus(offset), Dimension { w: 1, h: 1 }),
    }
}

/// Positions involved in `spec_subselection_bounds` stay within 32 bits
pub open spec fn subselection_fits(w: WorldView, cursor: Position2D, offset: Position2D) -> bool {
    match w.subselection {
        Some((p, _, _)) => p.fits_plus(offset),
        None => cursor.fits_plus(offset),
    }
}

/// The region being selected, else the cell under the cursor, in scene coordinates
pub fn subselection_bounds(world: &World, state: &State) -> (r: Bounds)
    requires
        state.wf(),
        subselection_fits(world@, state.spec_cursor(), state.current_offset()),
    ensures
        r == spec_subselection_bounds(world@, state.spec_cursor(), state.current_offset()),
{
    match subselection(world, state) {
        Some(b) => b,
        None => Bounds::point(state.cursor().plus(state.offset())),
    }
}

/// Whether the mode moves the cursor inside the selected object
pub open spec fn modifies_cursor(m: Mode) -> bool {
    m == Mode::Edit || m == Mode::Write
}

/// Leaving the current mode: the cursor is saved on the selected object when leaving edit
/// or write mode, then restored from it; with no mode to go back to, the region being
/// selected is dropped instead. The flag tells whether a mode was left.
pub open spec fn spec_reverse_mode(w: WorldView, f: StateFrame) -> (WorldView, StateFrame, bool) {
    if f.modes.len() > 1 {
        let f1 = StateFrame { modes: f.modes.drop_last(), ..f };
        let off = frame_offset(f1);
        let w1 = if modifies_cursor(frame_mode(f)) {
            with_saved_cursor(w, f.cursor, off)
        } else {
            w
        };
        (w1, StateFrame { cursor: restored_cursor(w1, f.cursor, off), ..f1 }, true)
    } else {
        (WorldView { subselection: None, ..w }, f, false)
    }
}

/// Leaving the current mode keeps positions within 32 bits
pub open spec fn reverse_mode_fits(w: WorldView, f: StateFrame) -> bool {
    f.modes.len() > 1 ==> {
        let f1 = StateFrame { modes: f.modes.drop_last(), ..f };
        let off = frame_offset(f1);
        let w1 = if modifies_cursor(frame_mode(f)) {
            with_saved_cursor(w, f.cursor, off)
        } else {
            w
        };
        &&& modifies_cursor(frame_mode(f)) ==> save_cursor_fits(w, f.cursor, off)
        &&& restore_cursor_fits(w1, off)
    }
}

/// Leaves the current mode; returns whether it did
pub fn reverse_mode(world: &mut World, state: &mut State) -> (r: bool)
    requires
        old(world).wf(),
        old(state).wf(),
        reverse_mode_fits(old(world)@, old(state).frame()),
    ensures
        final(world).wf(),
        final(state).wf(),
        (final(world)@, final(state).frame(), r) == spec_reverse_mode(old(world)@, old(state).frame()),
{
    let modifies = state.mode().modifies_cursor();
    if state.reverse_mode() {
        if modifies {
            save_cursor_pos(world, state);
        }
        restore_cursor_pos(world, state);
        true
    } else {
        clear_subselection(world)
    }
}

/// Cancel: clears the error if there is one, else leaves the current mode, else deselects
pub open spec fn spec_cancel(w: WorldView, f: StateFrame) -> (WorldView, StateFrame) {
    if f.error is Some {
        (w, StateFrame { error: None, ..f })
    } else {
        let (w1, f1, left) = spec_reverse_mode(w, f);
        if left {
            (w1, f1)
        } else {
            (WorldView { objects: deselected(w1.objects), ..w1 }, f1)
        }
    }
}

/// Cancels; returns false (nothing to record)
pub fn cancel(world: &mut World, state: &mut State) -> (r: bool)
    requires
        old(world).wf(),
        old(state).wf(),
        old(state).spec_error() is None ==> reverse_mode_fits(old(world)@, old(state).frame()),
    ensures
        !r,
        final(world).wf(),
        final(state).wf(),
        (final(world)@, final(state).frame()) == spec_cancel(old(world)@, old(state).frame()),
{
    if state.error().is_some() {
        state.clear_error()
    } else if !reverse_mode(world, state) {
        deselect_obj(world)
    } else {
        false
    }
}

/// The scene held by the world: its sprites with their positions, and its bookmarks
pub open spec fn spec_scene_of(w: WorldView) -> SceneView {
    SceneView::V2(
        crate::texel_types::SceneData {
            objects: w.objects.map_values(|o: ObjectView| (o.sprite, o.pos)),
            bookmarks: w.bookmarks,
        },
    )
}

/// The scene held by the world
pub fn scene_from_world(world: &World) -> (r: Scene)
    ensures
        r@ == spec_scene_of(world@),
{
    let mut objects: Vec<(Sprite, Position)> = Vec::new();
    let mut i: usize = 0;
    while i < world.objects.len()
        invariant
            i <= world@.objects.len(),
            objects@.len() == i,
            forall|j: int|
                0 <= j < i ==> (#[trigger] objects@[j]).0@ == world@.objects[j].sprite && objects@[j].1
                    == world@.objects[j].pos,
        decreases world@.objects.len() - i,
    {
        assert(world@.objects[i as int] == world.objects@[i as int]@);
        objects.push((world.objects[i].sprite.duplicate(), world.objects[i].pos));
        i = i + 1;
    }
    let mut bookmarks: Vec<(usize, Position2D)> = Vec::new();
    let mut k: usize = 0;
    while k < world.bookmarks.len()
        invariant
            k <= world@.bookmarks.len(),
            bookmarks@ == world@.bookmarks.take(k as int),
        decreases world@.bookmarks.len() - k,
    {
        assert(world@.bookmarks[k as int] == (world.bookmarks@[k as int].0.0, world.bookmarks@[k as int].1));
        bookmarks.push((world.bookmarks[k].0.0, world.bookmarks[k].1));
        assert(world@.bookmarks.take(k + 1) =~= world@.bookmarks.take(k as int).push(
            world@.bookmarks[k as int],
        ));
        k = k + 1;
    }
    assert(world@.bookmarks.take(world@.bookmarks.len() as int) =~= world@.bookmarks);
    let r = Scene::V2(SceneV2 { objects, bookmarks });
    assert(match r@ {
        SceneView::V2(d) => d.objects =~= world@.objects.map_values(
            |o: ObjectView| (o.sprite, o.pos),
        ),
        _ => false,
    });
    r
}

/// What to do once a scene has been written
pub enum AfterSave {
    /// Record the save, under the given path if one was named
    Write(Option<String>),
    /// Enter the quitting mode
    Quit,
}

/// Work with files that an action leaves to the program around the library
pub enum IoRequest {
    /// Write the scene to the path, then finish with `finish_save`
    Save(String, Scene, AfterSave),
    /// Export the scene to the path in the format, then finish with `finish_export`
    Export(crate::common::fio::ExportFormat, String, Scene),
    /// Load the file at the path, then finish with `finish_load`
    Load(String),
    /// Load the tutorial scene, then finish with `finish_tutorial`
    Tutorial,
}

/// The world after entering edit or write mode with no object selected: a new sprite at
/// the new object position
pub open spec fn spec_set_mode_prepare(
    w0: WorldView,
    f: StateFrame,
    mode: Mode,
    screen_h: u16,
) -> (WorldView, StateFrame, bool, bool) {
    match mode {
        Mode::Quitting(OnQuit::Check) => if frame_unsaved(f) {
            (
                w0,
                StateFrame {
                    error: Some(ErrorView::ExecutionError("Unsaved changes, use q! to quit without saving"@)),
                    ..f
                },
                false,
                false,
            )
        } else {
            (w0, f, true, false)
        },
        Mode::Edit | Mode::Write => {
            let n = selected_count(w0.objects);
            if n == 1 {
                (
                    w0,
                    StateFrame { error: None, cursor: restored_cursor(w0, f.cursor, frame_offset(f)), ..f },
                    true,
                    false,
                )
            } else if n == 0 {
                (
                    with_new_sprite(w0, offset_position(spec_new_position(), frame_offset(f))),
                    StateFrame { error: None, cursor: Position2D { x: 10, y: 10 }, ..f },
                    true,
                    true,
                )
            } else {
                (
                    w0,
                    StateFrame {
                        error: Some(ErrorView::ExecutionError("Multiple objects selected"@)),
                        ..f
                    },
                    false,
                    false,
                )
            }
        },
        Mode::SelectColor(_, _) => (
            w0,
            StateFrame { cursor: Position2D { x: PALETTE_OFFSET, y: (screen_h - 14) as i32 }, ..f },
            true,
            false,
        ),
        Mode::Object(SelectMode::Region) => (
            WorldView { objects: deselected(w0.objects), ..w0 },
            StateFrame {
                cursor: match first_selected_from(w0.objects, 0) {
                    Some(i) => match w0.objects[i].cursor {
                        Some(cp) => cp,
                        None => pos2d(w0.objects[i].pos),
                    },
                    None => f.cursor,
                },
                ..f
            },
            true,
            false,
        ),
        _ => (w0, f, true, false),
    }
}

/// Entering `mode`: the cursor is saved on the selected object when leaving edit or write
/// mode; quitting is refused with unsaved changes; edit and write need one selected object
/// (with none a new sprite is made, with several it is an error); color selection puts the
/// cursor on the palette; region selection starts at the selected object. Entering the mode
/// queues clearing the error and drops the region being selected. The flag tells whether
/// the scene changed.
pub open spec fn spec_set_mode(w: WorldView, f: StateFrame, mode: Mode, screen_h: u16) -> (
    WorldView,
    StateFrame,
    bool,
) {
    let w0 = if modifies_cursor(frame_mode(f)) {
        with_saved_cursor(w, f.cursor, frame_offset(f))
    } else {
        w
    };
    let (w1, f1, ok, dirty) = spec_set_mode_prepare(w0, f, mode, screen_h);
    if ok && mode != frame_mode(f1) {
        (
            WorldView { subselection: None, ..w1 },
            StateFrame { modes: f1.modes.push(mode), actions: f1.actions.push(Action::ClearError), ..f1 },
            dirty,
        )
    } else {
        (w1, f1, dirty)
    }
}

/// Positions involved in entering `mode` stay within 32 bits
pub open spec fn set_mode_fits(w: WorldView, f: StateFrame, mode: Mode) -> bool {
    let w0 = if modifies_cursor(frame_mode(f)) {
        with_saved_cursor(w, f.cursor, frame_offset(f))
    } else {
        w
    };
    &&& modifies_cursor(frame_mode(f)) ==> save_cursor_fits(w, f.cursor, frame_offset(f))
    &&& (mode == Mode::Edit || mode == Mode::Write) ==> restore_cursor_fits(w0, frame_offset(f))
        && offset_fits(spec_new_position(), frame_offset(f))
}

/// What `set_mode` does: whether the scene changed, the file request, and the scene and
/// state after it
pub open spec fn set_mode_outcome(
    mode: Mode,
    screen: (u16, u16),
    w: WorldView,
    s: State,
    w2: WorldView,
    s2: State,
    r: (bool, Option<IoRequest>),
) -> bool {
    &&& (mode != Mode::Quitting(OnQuit::Save) || !frame_unsaved(s.frame()) ==> {
        &&& r.1 is None
        &&& (w2, s2.frame(), r.0) == spec_set_mode(
            w,
            s.frame(),
            mode,
            screen.1,
        )
    })
    &&& (mode == Mode::Quitting(OnQuit::Save) && frame_unsaved(s.frame()) ==> {
        let w0 = if modifies_cursor(frame_mode(s.frame())) {
            with_saved_cursor(w, s.spec_cursor(), s.current_offset())
        } else {
            w
        };
        &&& !r.0
        &&& w2 == w0
        &&& match s.spec_save_path() {
            Some(p) => r.1 matches Some(IoRequest::Save(path, scene, AfterSave::Quit)) && path@ == p
                && scene@ == spec_scene_of(w0) && s2.frame() == s.frame(),
            None => r.1 is None && s2.frame() == (StateFrame {
                error: Some(ErrorView::ExecutionError("No file path specified"@)),
                ..s.frame()
            }),
        }
    })
}

/// Enters `mode`. Quitting with a save is done once the scene is written: with unsaved
/// changes this returns the request to write it (or sets the error when there is no file
/// to write to). Returns whether the scene changed, and the request.
pub fn set_mode(mode: Mode, world: &mut World, state: &mut State, screen: (u16, u16)) -> (r: (
    bool,
    Option<IoRequest>,
))
    requires
        old(world).wf(),
        old(state).wf(),
        set_mode_fits(old(world)@, old(state).frame(), mode),
    ensures
        final(world).wf(),
        final(state).wf(),
        set_mode_outcome(mode, screen, old(world)@, *old(state), final(world)@, *final(state), r),
{
    let mut dirty = false;
    if state.mode().modifies_cursor() {
        save_cursor_pos(world, state);
    }
    let ok = match mode {
        Mode::Quitting(OnQuit::Check) => {
            if state.unsaved_changes() {
                state.set_error(Error::execution("Unsaved changes, use q! to quit without saving"))
            } else {
                true
            }
        },
        Mode::Quitting(OnQuit::Save) => {
            if state.unsaved_changes() {
                return match state.save_file(&None) {
                    Ok(path) => (false, Some(IoRequest::Save(path, scene_from_world(world), AfterSave::Quit))),
                    Err(e) => {
                        state.set_error(e);
                        (false, None)
                    },
                };
            } else {
                true
            }
        },
        Mode::Edit | Mode::Write => {
            let n = world.selected_count();
            if n == 1 {
                state.clear_error();
                restore_cursor_pos(world, state);
                true
            } else if n == 0 {
                state.clear_error();
                state.set_cursor(Position2D::from_position(new_position()));
                dirty = new_sprite(world, state, None);
                dirty
            } else {
                state.set_error(Error::execution("Multiple objects selected"))
            }
        },
        Mode::SelectColor(_, _) => {
            state.set_cursor(Position2D { x: PALETTE_OFFSET, y: screen.1 as i32 - 14 });
            true
        },
        Mode::Object(SelectMode::Region) => {
            cursor_to_selected(world, state);
            deselect_obj(world);
            true
        },
        _ => true,
    };
    if ok && state.set_mode(mode) {
        clear_subselection(world);
    }
    (dirty, None)
}

/// Result of moving a 2D position: like a 3D position at depth 0, and kept where it was
/// when binding bounds refuse the move
pub open spec fn apply2d(p: Position2D, t: Translation, b: Bounds) -> (Position2D, bool) {
    let (q, ok) = Position { x: p.x, y: p.y, z: 0 }.spec_apply(t, b);
    if ok {
        (Position2D { x: q.x, y: q.y }, true)
    } else {
        (p, false)
    }
}

/// Moving the 2D position stays within 32 bits
pub open spec fn apply2d_fits(p: Position2D, t: Translation, b: Bounds) -> bool {
    Position { x: p.x, y: p.y, z: 0 }.apply_fits(t, b)
}

/// The corners of a region being sized stay at most `i32::MAX - 1` apart
pub open spec fn area_fits(a: Position2D, b: Position2D) -> bool {
    a.x - b.x < i32::MAX && b.x - a.x < i32::MAX && a.y - b.y < i32::MAX && b.y - a.y < i32::MAX
}

/// Moving the cursor within `area`; when it moves, a region being sized follows it
pub open spec fn spec_translate_subselection(
    w: WorldView,
    f: StateFrame,
    t: Translation,
    area: Option<Bounds>,
) -> (WorldView, StateFrame) {
    match area {
        None => (w, f),
        Some(b) => {
            let (c, ok) = apply2d(f.cursor, t, b);
            if ok {
                let w1 = match w.subselection {
                    Some((_, _, sel)) => if sel.active {
                        let eb = sel.initial_pos.spec_area(c);
                        WorldView {
                            subselection: Some((eb.spec_position(), eb.spec_dimension(), sel)),
                            ..w
                        }
                    } else {
                        w
                    },
                    None => w,
                };
                (w1, StateFrame { cursor: c, ..f })
            } else {
                (w, f)
            }
        },
    }
}

/// Moving the cursor within `area` stays within 32 bits
pub open spec fn translate_subselection_fits(
    w: WorldView,
    f: StateFrame,
    t: Translation,
    area: Option<Bounds>,
) -> bool {
    match area {
        None => true,
        Some(b) => {
            &&& apply2d_fits(f.cursor, t, b)
            &&& match w.subselection {
                Some((_, _, sel)) => sel.active ==> area_fits(sel.initial_pos, apply2d(f.cursor, t, b).0),
                None => true,
            }
        },
    }
}

/// Moves the cursor within `area`, a region being sized following it; returns false
pub fn translate_subselection(
    t: Translation,
    area_bounds: Option<Bounds>,
    world: &mut World,
    state: &mut State,
) -> (r: bool)
    requires
        old(world).wf(),
        translate_subselection_fits(old(world)@, old(state).frame(), t, area_bounds),
    ensures
        !r,
        final(world).wf(),
        (final(world)@, final(state).frame()) == spec_translate_subselection(
            old(world)@,
            old(state).frame(),
            t,
            area_bounds,
        ),
{
    if let Some(bounds) = area_bounds {
        if state.translate_cursor(t, bounds) {
            if let Some((_, _, sub_sel)) = world.subselection {
                if sub_sel.active {
                    let edit_box = sub_sel.initial_pos.area(state.cursor());
                    world.subselection = Some((edit_box.position(), edit_box.dimension(), sub_sel));
                }
            }
        }
    }
    false
}

/// Moving every selected object stays within 32 bits
pub open spec fn translate_selected_fits(objs: Seq<ObjectView>, t: Translation, screen: Dimension) -> bool {
    forall|i: int|
        0 <= i < objs.len() && (#[trigger] objs[i]).selected ==> objs[i].pos.apply_fits(
            t,
            Bounds::Free(Position2D { x: 0, y: 0 }, screen.spec_minus_dim(objs[i].dim)),
        )
}

/// Palette area on a screen `screen_h` rows high
pub open spec fn palette_bounds(screen_h: u16) -> Bounds {
    Bounds::Binding(
        Position2D { x: PALETTE_OFFSET, y: (screen_h - 14) as i32 },
        Dimension { w: PALETTE_W as u16, h: PALETTE_H as u16 },
    )
}

/// Translation by mode: in edit mode the cursor moves within the selected object (sizing a
/// region), in region selection within the viewport, in object mode the selected objects
/// move (or the viewport when nothing is selected), in write mode the cursor moves within
/// the selected object, in color selection within the palette. The flag tells whether an
/// object moved (or the palette cursor did).
pub open spec fn spec_translate_object(
    w: WorldView,
    f: StateFrame,
    t: Translation,
    screen: (u16, u16),
) -> (WorldView, StateFrame, bool) {
    let screen_dim = Dimension { w: screen.0, h: screen.1 };
    let off = frame_offset(f);
    let sel = match first_selected_from(w.objects, 0) {
        Some(i) => Some(Bounds::Free(pos2d(w.objects[i].pos).spec_minus(off), w.objects[i].dim)),
        None => None,
    };
    match frame_mode(f) {
        Mode::Edit => {
            let (w1, f1) = spec_translate_subselection(w, f, t, sel);
            (w1, f1, false)
        },
        Mode::Object(SelectMode::Region) => {
            let (w1, f1) = spec_translate_subselection(w, f, t, Some(Bounds::Free(off, screen_dim)));
            (w1, f1, false)
        },
        Mode::Object(SelectMode::Object) => if selected_count(w.objects) == 0 {
            let (q, ok) = Position { x: f.offset.x, y: f.offset.y, z: 0 }.spec_apply(
                t,
                Bounds::Free(Position2D { x: 0, y: 0 }, screen_dim),
            );
            (w, StateFrame { offset: Position2D { x: q.x, y: q.y }, ..f }, false)
        } else {
            (WorldView { objects: translated_selected(w.objects, t, screen_dim), ..w }, f, true)
        },
        Mode::Write => match sel {
            Some(b) => (w, StateFrame { cursor: apply2d(f.cursor, t, b).0, ..f }, false),
            None => (w, f, false),
        },
        Mode::SelectColor(_, _) => {
            let (c, ok) = apply2d(f.cursor, t, palette_bounds(screen.1));
            (w, StateFrame { cursor: c, ..f }, ok)
        },
        _ => (w, f, false),
    }
}

/// Translation by mode stays within 32 bits
pub open spec fn translate_object_fits(w: WorldView, f: StateFrame, t: Translation, screen: (u16, u16)) -> bool {
    let screen_dim = Dimension { w: screen.0, h: screen.1 };
    let off = frame_offset(f);
    let sel = match first_selected_from(w.objects, 0) {
        Some(i) => Some(Bounds::Free(pos2d(w.objects[i].pos).spec_minus(off), w.objects[i].dim)),
        None => None,
    };
    let sel_fits = match first_selected_from(w.objects, 0) {
        Some(i) => pos2d(w.objects[i].pos).fits_minus(off),
        None => true,
    };
    match frame_mode(f) {
        Mode::Edit => sel_fits && translate_subselection_fits(w, f, t, sel),
        Mode::Object(SelectMode::Region) => translate_subselection_fits(
            w,
            f,
            t,
            Some(Bounds::Free(off, screen_dim)),
        ),
        Mode::Object(SelectMode::Object) => if selected_count(w.objects) == 0 {
            Position { x: f.offset.x, y: f.offset.y, z: 0 }.apply_fits(
                t,
                Bounds::Free(Position2D { x: 0, y: 0 }, screen_dim),
            )
        } else {
            translate_selected_fits(w.objects, t, screen_dim)
        },
        Mode::Write => sel_fits && match sel {
            Some(b) => apply2d_fits(f.cursor, t, b),
            None => true,
        },
        Mode::SelectColor(_, _) => apply2d_fits(f.cursor, t, palette_bounds(screen.1)),
        _ => true,
    }
}

/// Applies a translation as the mode directs; returns whether an object moved (or the
/// palette cursor did)
pub fn translate_object(t: Translation, world: &mut World, state: &mut State, screen: (u16, u16)) -> (r: bool)
    requires
        old(world).wf(),
        old(state).wf(),
        translate_object_fits(old(world)@, old(state).frame(), t, screen),
    ensures
        final(world).wf(),
        final(state).wf(),
        (final(world)@, final(state).frame(), r) == spec_translate_object(
            old(world)@,
            old(state).frame(),
            t,
            screen,
        ),
{
    let screen_dim = Dimension::from_wh(screen.0, screen.1);
    let palette_pos = Position2D { x: PALETTE_OFFSET, y: screen.1 as i32 - 14 };
    let palette_dim = Dimension::from_wh(PALETTE_W as u16, PALETTE_H as u16);
    let palette = Bounds::Binding(palette_pos, palette_dim);
    match state.mode() {
        Mode::Edit => {
            let sprite_bounds = selected_bounds(world, state);
            translate_subselection(t, sprite_bounds, world, state)
        },
        Mode::Object(SelectMode::Region) => {
            let viewport = viewport_bounds(state, screen);
            translate_subselection(t, Some(viewport), world, state)
        },
        Mode::Object(SelectMode::Object) => {
            if world.selected_count() == 0 {
                let screen_bounds = Bounds::Free(Position2D { x: 0, y: 0 }, screen_dim);
                state.translate_offset(t, screen_bounds);
                false
            } else {
                world.translate_selected(t, screen_dim)
            }
        },
        Mode::Write => {
            if let Some(sprite_bounds) = selected_bounds(world, state) {
                state.translate_cursor(t, sprite_bounds);
            }
            false
        },
        Mode::SelectColor(_, _) => state.translate_cursor(t, palette),
        _ => false,
    }
}

} // verus!
