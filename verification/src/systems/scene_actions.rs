//! Whole-scene actions: loading a scene into the world, new scenes, undo and redo,
//! bookmarks, and deleting.

use crate::common::{Error, ErrorView, Mode, SelectMode};
use crate::components::{labels_with, selected_count, ObjectView, World, WorldView};
use crate::resources::{frame_mode, frame_unsaved, frame_wf, SnapshotView, State, StateFrame};
use crate::systems::action_handler::{
    clear_subselection, deselect_obj, import_sprite, offset_fits, offset_position, placed, scene_from_world,
    spec_new_position, spec_scene_of, AfterSave, IoRequest, with_new_sprite,
};
use crate::common::fio::{ExportFormat, Loaded};
use crate::components::deselected;
use crate::texel_types::sprite_ok;
use crate::systems::clip::delete_selected;
use crate::systems::edit::{clear_fits, clear_symbol_on_selected, cleared_objects};
use crate::texel_types::{
    current_bookmarks, current_objects, scene_ok, Position2D, Scene, SceneView, SpriteData, Position,
};
use vstd::prelude::*;

verus! {

/// Bookmarks after setting each of `list` in order
pub open spec fn with_bookmarks(marks: Seq<(usize, Position2D)>, list: Seq<(usize, Position2D)>) -> Seq<
    (usize, Position2D),
>
    decreases list.len(),
{
    if list.len() == 0 {
        marks
    } else {
        labels_with(with_bookmarks(marks, list.drop_last()), list.last().0, list.last().1)
    }
}

/// Objects of a scene placed in the world, those at the listed indexes selected
pub open spec fn scene_objects(s: SceneView, selections: Seq<usize>) -> Seq<ObjectView> {
    let objs = current_objects(s);
    Seq::new(objs.len(), |i: int| placed(objs[i].0, objs[i].1, selections.contains(i as usize)))
}

/// The world after loading a scene: its objects replace the world's, its bookmarks are set
pub open spec fn scene_applied(w: WorldView, s: SceneView, selections: Seq<usize>) -> WorldView {
    WorldView {
        objects: scene_objects(s, selections),
        bookmarks: with_bookmarks(w.bookmarks, current_bookmarks(s)),
        subselection: w.subselection,
    }
}

fn contains_index(v: &Vec<usize>, i: usize) -> (r: bool)
    ensures
        r == v@.contains(i),
{
    let mut k: usize = 0;
    while k < v.len()
        invariant
            k <= v@.len(),
            forall|j: int| 0 <= j < k ==> v@[j] != i,
        decreases v@.len() - k,
    {
        if v[k] == i {
            assert(v@[k as int] == i);
            return true;
        }
        k = k + 1;
    }
    false
}

/// Replaces the world's objects with the scene's (those at the listed indexes selected) and
/// sets its bookmarks
pub fn apply_scene(scene: Scene, world: &mut World, state: &State, selections: Option<Vec<usize>>) -> (r: Result<(), Error>)
    requires
        old(world).wf(),
        state.wf(),
        scene_ok(scene@),
    ensures
        r is Ok,
        final(world).wf(),
        final(world)@ == scene_applied(
            old(world)@,
            scene@,
            match selections {
                Some(v) => v@,
                None => Seq::empty(),
            },
        ),
{
    let ghost sv = scene@;
    let sel = match selections {
        Some(v) => v,
        None => Vec::new(),
    };
    let ghost selv = sel@;
    world.clear_objects();
    let current = scene.current();
    let ghost objs = current_objects(sv);
    let objects = current.objects;
    let bookmarks = current.bookmarks;
    let ghost w0 = world@;
    let mut rest = objects;
    let n = rest.len();
    let mut i: usize = 0;
    while rest.len() > 0
        invariant
            world.wf(),
            state.wf(),
            sel@ == selv,
            n == objs.len(),
            i + rest@.len() == n,
            forall|k: int| 0 <= k < objs.len() ==> crate::texel_types::sprite_ok((#[trigger] objs[k]).0.body),
            forall|k: int|
                0 <= k < rest@.len() ==> (#[trigger] rest@[k]).0@ == objs[i + k].0 && rest@[k].1 == objs[i + k].1,
            world@.bookmarks == w0.bookmarks,
            world@.subselection == w0.subselection,
            world@.objects == Seq::new(
                i as nat,
                |k: int| placed(objs[k].0, objs[k].1, selv.contains(k as usize)),
            ),
        decreases rest@.len(),
    {
        let ghost before = rest@;
        let (sprite, pos) = rest.remove(0);
        assert(forall|k: int| 0 <= k < rest@.len() ==> rest@[k] == before[k + 1]);
        let selected = contains_index(&sel, i);
        let ghost prev = world@.objects;
        let _ = import_sprite(sprite, Some(pos), selected, world, state);
        assert(world@.objects =~= Seq::new(
            (i + 1) as nat,
            |k: int| placed(objs[k].0, objs[k].1, selv.contains(k as usize)),
        ));
        i = i + 1;
    }
    assert(world@.objects =~= scene_objects(sv, selv));
    let ghost marks = current_bookmarks(sv);
    let mut k: usize = 0;
    while k < bookmarks.len()
        invariant
            world.wf(),
            k <= bookmarks@.len(),
            bookmarks@ == marks,
            world@.objects == scene_objects(sv, selv),
            world@.subselection == w0.subselection,
            world@.bookmarks == with_bookmarks(w0.bookmarks, marks.take(k as int)),
        decreases bookmarks@.len() - k,
    {
        let (index, pos) = bookmarks[k];
        assert(marks.take(k + 1).drop_last() =~= marks.take(k as int));
        world.set_bookmark(index, pos);
        k = k + 1;
    }
    assert(marks.take(marks.len() as int) =~= marks);
    Ok(())
}

/// An empty scene in the current version
pub open spec fn empty_scene() -> SceneView {
    SceneView::V2(crate::texel_types::SceneData { objects: Seq::empty(), bookmarks: Seq::empty() })
}

/// What `new` does: the result and the scene and state after it
pub open spec fn new_outcome(force: bool, w: WorldView, s: State, w2: WorldView, s2: State, r: bool) -> bool {
    &&& (!r)
    &&& (!force && frame_unsaved(s.frame()) ==> w2 == w && s2.frame() == (StateFrame {
        error: Some(ErrorView::ExecutionError("Unsaved changes, save before opening new scene"@)),
        ..s.frame()
    }))
    &&& (force || !frame_unsaved(s.frame()) ==> {
        &&& w2 == scene_applied(w, empty_scene(), Seq::empty())
        &&& s2.frame() == (StateFrame {
            hist: seq![SnapshotView { scene: empty_scene(), selections: Seq::empty() }],
            history_index: 0,
            dirty: false,
            save_path: None,
            changes: 0,
            saved_index: 0,
            ..s.frame()
        })
    })
}

/// Starts a new scene unless there are unsaved changes (overridable with `force`): the
/// world's objects go, the history restarts from the empty scene and the save file is
/// forgotten. Returns false (a new scene does not need recording).
pub fn new(force: bool, world: &mut World, state: &mut State) -> (r: bool)
    requires
        old(world).wf(),
        old(state).wf(),
    ensures
        final(world).wf(),
        final(state).wf(),
        new_outcome(force, old(world)@, *old(state), final(world)@, *final(state), r),
{
    if !force && state.unsaved_changes() {
        state.set_error(Error::execution("Unsaved changes, save before opening new scene"));
        false
    } else {
        let scene = Scene::default_scene();
        assert(match scene@ {
            SceneView::V2(d) => d.objects =~= Seq::<(SpriteData, Position)>::empty() && d.bookmarks =~= Seq::<
                (usize, Position2D),
            >::empty(),
            _ => false,
        });
        assert(scene@ == empty_scene());
        let _ = apply_scene(scene, world, state, None);
        let fresh = Scene::default_scene();
        assert(match fresh@ {
            SceneView::V2(d) => d.objects =~= Seq::<(SpriteData, Position)>::empty() && d.bookmarks =~= Seq::<
                (usize, Position2D),
            >::empty(),
            _ => false,
        });
        assert(fresh@ == empty_scene());
        state.clear_history(fresh);
        state.reset_save_file();
        false
    }
}

/// Leaves modes until the mode suits the number of selected objects (edit and write need
/// exactly one); returns false
pub fn validate_mode(world: &World, state: &mut State) -> (r: bool)
    requires
        old(state).wf(),
    ensures
        !r,
        final(state).wf(),
        ({
            let n = selected_count(world@.objects);
            let stack = final(state).frame().modes;
            &&& stack.len() <= old(state).frame().modes.len()
            &&& stack == old(state).frame().modes.take(stack.len() as int)
            &&& ((stack.last() == Mode::Edit || stack.last() == Mode::Write) ==> n == 1)
            &&& forall|k: int|
                stack.len() <= k < old(state).frame().modes.len() ==> (#[trigger] old(state).frame().modes[k]
                    == Mode::Edit || old(state).frame().modes[k] == Mode::Write) && n != 1
            &&& final(state).frame() == (StateFrame { modes: stack, ..old(state).frame() })
        }),
{
    let selected = world.selected_count();
    let ghost modes0 = state.frame().modes;
    while !state.mode().valid_selection(selected)
        invariant
            state.wf(),
            selected == selected_count(world@.objects),
            state.frame().modes.len() <= modes0.len(),
            state.frame().modes == modes0.take(state.frame().modes.len() as int),
            forall|k: int|
                state.frame().modes.len() <= k < modes0.len() ==> (#[trigger] modes0[k] == Mode::Edit
                    || modes0[k] == Mode::Write) && selected != 1,
            state.frame() == (StateFrame { modes: state.frame().modes, ..old(state).frame() }),
        decreases state.frame().modes.len(),
    {
        let ghost before = state.frame().modes;
        assert(before.len() > 1) by {
            if before.len() == 1 {
                assert(before[0] == Mode::Object(SelectMode::Object));
            }
        }
        state.reverse_mode();
        assert(modes0.take(before.len() - 1) =~= before.drop_last());
    }
    false
}

/// What `undo` does: the result and the scene and state after it
pub open spec fn undo_outcome(w: WorldView, s: State, w2: WorldView, s2: State, r: bool) -> bool {
    &&& (!r)
    &&& (s.spec_history_index() == 0 ==> w2 == w && s2.frame() == (StateFrame {
        error: Some(ErrorView::ExecutionError("Nothing to undo"@)),
        ..s.frame()
    }))
    &&& (s.spec_history_index() > 0 ==> {
        let snap = s.hist()[s.spec_history_index() - 1];
        &&& w2 == scene_applied(w, snap.scene, snap.selections)
        &&& s2.spec_history_index() == s.spec_history_index() - 1
        &&& s2.spec_changes() == s.spec_changes() + 1
        &&& s2.hist() == s.hist()
    })
}

/// Loading a snapshot's scene and selection, then fixing the mode
pub fn undo(world: &mut World, state: &mut State) -> (r: bool)
    requires
        old(world).wf(),
        old(state).wf(),
        old(state).spec_history_index() > 0 ==> old(state).spec_changes() < usize::MAX,
        forall|i: int| 0 <= i < old(state).hist().len() ==> scene_ok((#[trigger] old(state).hist()[i]).scene),
    ensures
        final(world).wf(),
        final(state).wf(),
        undo_outcome(old(world)@, *old(state), final(world)@, *final(state), r),
{
    if let Some(snap) = state.undo() {
        let _ = apply_scene(snap.scene, world, state, Some(snap.selections));
        validate_mode(world, state)
    } else {
        state.set_error(Error::execution("Nothing to undo"));
        false
    }
}

/// What `redo` does: the result and the scene and state after it
pub open spec fn redo_outcome(w: WorldView, s: State, w2: WorldView, s2: State, r: bool) -> bool {
    &&& (!r)
    &&& (s.spec_history_index() + 1 >= s.hist().len() ==> w2 == w
        && s2.frame() == (StateFrame {
        error: Some(ErrorView::ExecutionError("Nothing to redo"@)),
        ..s.frame()
    }))
    &&& (s.spec_history_index() + 1 < s.hist().len() ==> {
        let snap = s.hist()[s.spec_history_index() + 1];
        &&& w2 == scene_applied(w, snap.scene, snap.selections)
        &&& s2.spec_history_index() == s.spec_history_index() + 1
        &&& s2.spec_changes() == s.spec_changes() + 1
        &&& s2.hist() == s.hist()
    })
}

/// Loading the next snapshot's scene and selection, then fixing the mode
pub fn redo(world: &mut World, state: &mut State) -> (r: bool)
    requires
        old(world).wf(),
        old(state).wf(),
        old(state).spec_history_index() + 1 < old(state).hist().len() ==> old(state).spec_changes() < usize::MAX,
        forall|i: int| 0 <= i < old(state).hist().len() ==> scene_ok((#[trigger] old(state).hist()[i]).scene),
    ensures
        final(world).wf(),
        final(state).wf(),
        redo_outcome(old(world)@, *old(state), final(world)@, *final(state), r),
{
    if let Some(snap) = state.redo() {
        let _ = apply_scene(snap.scene, world, state, Some(snap.selections));
        validate_mode(world, state)
    } else {
        state.set_error(Error::execution("Nothing to redo"));
        false
    }
}

/// Sets bookmark `index` to the viewport offset `location`; returns true
pub fn set_bookmark(index: usize, location: Position2D, world: &mut World) -> (r: bool)
    ensures
        r,
        final(world).wf() == old(world).wf(),
        final(world)@ == (WorldView { bookmarks: labels_with(old(world)@.bookmarks, index, location), ..old(world)@ }),
{
    world.set_bookmark(index, location);
    true
}

/// Moves the viewport to bookmark `index`; an error when it is not set. Returns false.
pub fn jump_to_bookmark(index: usize, world: &World, state: &mut State) -> (r: bool)
    ensures
        !r,
        final(state).frame() == match crate::components::bookmark_at(world@.bookmarks, index) {
            Some(p) => StateFrame { offset: p, ..old(state).frame() },
            None => StateFrame {
                error: Some(ErrorView::ExecutionError("Bookmark not found"@)),
                ..old(state).frame()
            },
        },
{
    if let Some(pos) = world.bookmark(index) {
        state.set_offset(pos);
    } else {
        state.set_error(Error::execution("Bookmark not found"));
    }
    false
}

/// Shows the help page; returns false
pub fn show_help(index: usize, state: &mut State) -> (r: bool)
    requires
        old(state).wf(),
    ensures
        !r,
        final(state).wf(),
        Mode::Help(index) != frame_mode(old(state).frame()) ==> final(state).frame() == (StateFrame {
            modes: old(state).frame().modes.push(Mode::Help(index)),
            actions: old(state).frame().actions.push(crate::common::Action::ClearError),
            ..old(state).frame()
        }),
        Mode::Help(index) == frame_mode(old(state).frame()) ==> final(state).frame() == old(state).frame(),
{
    state.set_mode(Mode::Help(index));
    false
}

/// Shows or hides the metadata; returns false
pub fn toggle_metadata(state: &mut State) -> (r: bool)
    ensures
        !r,
        final(state).frame() == (StateFrame { show_meta: !old(state).frame().show_meta, ..old(state).frame() }),
{
    let shown = state.show_meta();
    state.set_show_meta(!shown);
    false
}

/// What `delete_object` does: the result and the scene and state after it
pub open spec fn delete_object_outcome(w: WorldView, s: State, w2: WorldView, s2: State, r: bool) -> bool {
    &&& (frame_mode(s.frame()) == Mode::Edit || frame_mode(s.frame()) == Mode::Write ==> {
        let sb = crate::systems::action_handler::spec_subselection_bounds(
            w,
            s.spec_cursor(),
            s.current_offset(),
        );
        &&& r == (selected_count(w.objects) > 0)
        &&& w2.objects == cleared_objects(w.objects, sb)
        &&& w2.bookmarks == w.bookmarks
        &&& w2.subselection == if r { None } else { w.subselection }
        &&& s2.frame() == s.frame()
    })
    &&& (!(frame_mode(s.frame()) == Mode::Edit || frame_mode(s.frame()) == Mode::Write) ==> {
        if selected_count(w.objects) == 0 {
            !r && w2 == w && s2.frame() == (StateFrame {
                error: Some(ErrorView::ExecutionError("No entity to delete"@)),
                ..s.frame()
            })
        } else {
            r && s2.frame() == s.frame() && w2 == (WorldView {
                objects: crate::components::without_selected(w.objects),
                ..w
            })
        }
    })
}

/// Deleting: in edit and write mode clears the selected region (or the cell under the
/// cursor) from the selected objects, else deletes the selected objects (an error when
/// none is selected). Returns whether the scene changed.
pub fn delete_object(world: &mut World, state: &mut State) -> (r: bool)
    requires
        old(world).wf(),
        old(state).wf(),
        frame_mode(old(state).frame()) == Mode::Edit || frame_mode(old(state).frame()) == Mode::Write ==> {
            &&& crate::systems::action_handler::subselection_fits(old(world)@, old(state).spec_cursor(), old(state).current_offset())
            &&& ({
                let sb = crate::systems::action_handler::spec_subselection_bounds(
                    old(world)@,
                    old(state).spec_cursor(),
                    old(state).current_offset(),
                );
                forall|i: int|
                    0 <= i < old(world)@.objects.len() && (#[trigger] old(world)@.objects[i]).selected
                        ==> clear_fits(old(world)@.objects[i], sb)
            })
        },
    ensures
        final(world).wf(),
        final(state).wf(),
        delete_object_outcome(old(world)@, *old(state), final(world)@, *final(state), r),
{
    let mode = state.mode();
    if mode == Mode::Edit || mode == Mode::Write {
        clear_symbol_on_selected(world, state)
    } else {
        match delete_selected(world) {
            Err(err) => state.set_error(err),
            Ok(_) => true,
        }
    }
}

/// What `write_scene_to_file` does: the request to write the scene to the given path, else
/// to the save file; an error when there is neither
pub open spec fn write_scene_outcome(path: Option<String>, w: WorldView, s: State, s2: State, r: Option<IoRequest>) -> bool {
    match path {
        Some(p) => s2.frame() == s.frame() && (r matches Some(IoRequest::Save(q, scene, AfterSave::Write(Some(n))))
            && q@ == p@ && n@ == p@ && scene@ == spec_scene_of(w)),
        None => match s.spec_save_path() {
            Some(p) => s2.frame() == s.frame() && (r matches Some(IoRequest::Save(q, scene, AfterSave::Write(None)))
                && q@ == p && scene@ == spec_scene_of(w)),
            None => r is None && s2.frame() == (StateFrame {
                error: Some(ErrorView::ExecutionError("No file path specified"@)),
                ..s.frame()
            }),
        },
    }
}

/// The request to save, now also quitting once the scene is written
pub open spec fn quitting_after(r: Option<IoRequest>) -> Option<IoRequest> {
    match r {
        Some(IoRequest::Save(target, scene, _)) => Some(IoRequest::Save(target, scene, AfterSave::Quit)),
        other => other,
    }
}

/// What `tutorial` does: the request to load the tutorial, refused with unsaved changes
pub open spec fn tutorial_outcome(s: State, s2: State, r: Option<IoRequest>) -> bool {
    &&& frame_unsaved(s.frame()) ==> r is None && s2.frame() == (StateFrame {
        error: Some(ErrorView::ExecutionError("Unsaved changes, save before opening tutorial"@)),
        ..s.frame()
    })
    &&& !frame_unsaved(s.frame()) ==> (r matches Some(IoRequest::Tutorial)) && s2.frame() == s.frame()
}

/// Writing the scene: asks for it to be written to the given path or the save file; an
/// error when there is neither
pub fn write_scene_to_file(path: Option<String>, world: &World, state: &mut State) -> (r: Option<IoRequest>)
    ensures
        write_scene_outcome(path, world@, *old(state), *final(state), r),
{
    match state.save_file(&path) {
        Ok(target) => Some(IoRequest::Save(target, scene_from_world(world), AfterSave::Write(path))),
        Err(err) => {
            state.set_error(err);
            None
        },
    }
}

/// Finishes writing a scene: records the save (under the new path if one was named), or
/// enters the quitting mode; a failed write sets the error. Returns false.
pub fn finish_save(result: Result<(), Error>, after: AfterSave, world: &mut World, state: &mut State) -> (r: bool)
    requires
        old(state).wf(),
        old(world).wf(),
    ensures
        !r,
        final(state).wf(),
        final(world).wf(),
        match result {
            Err(e) => final(world)@ == old(world)@ && final(state).frame() == (StateFrame {
                error: Some(e@),
                ..old(state).frame()
            }),
            Ok(_) => match after {
                AfterSave::Write(Some(p)) => final(world)@ == old(world)@ && final(state).frame() == (StateFrame {
                    save_path: Some(p@),
                    changes: 0,
                    saved_index: old(state).spec_history_index(),
                    ..old(state).frame()
                }),
                AfterSave::Write(None) => final(world)@ == old(world)@ && final(state).frame() == (StateFrame {
                    changes: 0,
                    saved_index: old(state).spec_history_index(),
                    ..old(state).frame()
                }),
                AfterSave::Quit => if frame_mode(old(state).frame()) != Mode::Quitting(crate::common::OnQuit::Save) {
                    final(world)@ == (WorldView { subselection: None, ..old(world)@ }) && final(state).frame() == (StateFrame {
                        modes: old(state).frame().modes.push(Mode::Quitting(crate::common::OnQuit::Save)),
                        actions: old(state).frame().actions.push(crate::common::Action::ClearError),
                        ..old(state).frame()
                    })
                } else {
                    final(world)@ == old(world)@ && final(state).frame() == old(state).frame()
                },
            },
        },
{
    match result {
        Err(e) => state.set_error(e),
        Ok(_) => match after {
            AfterSave::Write(Some(p)) => state.saved(p),
            AfterSave::Write(None) => state.clear_changes(),
            AfterSave::Quit => {
                if state.set_mode(Mode::Quitting(crate::common::OnQuit::Save)) {
                    clear_subselection(world);
                }
                false
            },
        },
    }
}

/// Exporting: asks for the scene to be exported
pub fn export_to_file(format: ExportFormat, path: String, world: &World) -> (r: IoRequest)
    ensures
        r matches IoRequest::Export(f, p, scene) && f == format && p@ == path@ && scene@ == spec_scene_of(world@),
{
    IoRequest::Export(format, path, scene_from_world(world))
}

/// Finishes an export: a failure sets the error. Returns false.
pub fn finish_export(result: Result<(), Error>, state: &mut State) -> (r: bool)
    ensures
        !r,
        match result {
            Err(e) => final(state).frame() == (StateFrame { error: Some(e@), ..old(state).frame() }),
            Ok(_) => final(state).frame() == old(state).frame(),
        },
{
    match result {
        Err(e) => state.set_error(e),
        Ok(_) => false,
    }
}

/// Finishes loading a file: a scene replaces the world's (refused with unsaved changes),
/// back in object mode, with the history restarted from it and the file recorded as the
/// save file; a sprite is added as the only selected object, marking the scene dirty. A
/// failed load sets the error. Returns whether the scene changed.
pub fn finish_load(result: Result<Loaded, Error>, path: String, world: &mut World, state: &mut State) -> (r: bool)
    requires
        old(world).wf(),
        old(state).wf(),
        result matches Ok(Loaded::Scene(s)) ==> scene_ok(s@),
        result matches Ok(Loaded::Sprite(s)) ==> sprite_ok(s@.body) && offset_fits(
            spec_new_position(),
            old(state).current_offset(),
        ),
    ensures
        final(world).wf(),
        final(state).wf(),
        match result {
            Err(e) => !r && final(world)@ == old(world)@ && final(state).frame() == (StateFrame {
                error: Some(e@),
                ..old(state).frame()
            }),
            Ok(Loaded::Scene(s)) => !r && if frame_unsaved(old(state).frame()) {
                final(world)@ == old(world)@ && final(state).frame() == (StateFrame {
                    error: Some(ErrorView::ExecutionError("Unsaved changes, save before opening another scene"@)),
                    ..old(state).frame()
                })
            } else {
                &&& final(world)@ == scene_applied(old(world)@, s@, Seq::empty())
                &&& final(state).frame() == (StateFrame {
                    modes: seq![Mode::Object(SelectMode::Object)],
                    hist: seq![SnapshotView { scene: s@, selections: Seq::empty() }],
                    history_index: 0,
                    dirty: false,
                    save_path: Some(path@),
                    changes: 0,
                    saved_index: 0,
                    ..old(state).frame()
                })
            },
            Ok(Loaded::Sprite(s)) => r && final(state).frame() == (StateFrame { dirty: true, ..old(state).frame() })
                && final(world)@ == (WorldView {
                objects: deselected(old(world)@.objects).push(
                    placed(s@, offset_position(spec_new_position(), old(state).current_offset()), true),
                ),
                ..old(world)@
            }),
        },
{
    match result {
        Err(e) => state.set_error(e),
        Ok(Loaded::Scene(scene)) => {
            if state.unsaved_changes() {
                state.set_error(Error::execution("Unsaved changes, save before opening another scene"))
            } else {
                state.reset_mode();
                let copy = scene.duplicate();
                let _ = apply_scene(copy, world, state, None);
                state.clear_history(scene);
                state.saved(path);
                false
            }
        },
        Ok(Loaded::Sprite(sprite)) => {
            deselect_obj(world);
            let _ = import_sprite(sprite, None, true, world, state);
            state.set_dirty(true);
            true
        },
    }
}

/// The tutorial: asks for the tutorial scene unless there are unsaved changes
pub fn tutorial(state: &mut State) -> (r: Option<IoRequest>)
    ensures
        tutorial_outcome(*old(state), *final(state), r),
{
    if state.unsaved_changes() {
        state.set_error(Error::execution("Unsaved changes, save before opening tutorial"));
        None
    } else {
        Some(IoRequest::Tutorial)
    }
}

/// Finishes loading the tutorial scene: it replaces the world's, back in object mode, with
/// the history restarted from it and no save file. Returns false.
pub fn finish_tutorial(result: Result<Loaded, Error>, world: &mut World, state: &mut State) -> (r: bool)
    requires
        old(world).wf(),
        old(state).wf(),
        result matches Ok(Loaded::Scene(s)) ==> scene_ok(s@),
    ensures
        !r,
        final(world).wf(),
        final(state).wf(),
        match result {
            Err(e) => final(world)@ == old(world)@ && final(state).frame() == (StateFrame {
                error: Some(e@),
                ..old(state).frame()
            }),
            Ok(Loaded::Scene(s)) => {
                &&& final(world)@ == scene_applied(old(world)@, s@, Seq::empty())
                &&& final(state).frame() == (StateFrame {
                    modes: seq![Mode::Object(SelectMode::Object)],
                    hist: seq![SnapshotView { scene: s@, selections: Seq::empty() }],
                    history_index: 0,
                    dirty: false,
                    save_path: None,
                    changes: 0,
                    saved_index: 0,
                    ..old(state).frame()
                })
            },
            Ok(Loaded::Sprite(_)) => final(world)@ == old(world)@ && final(state).frame() == (StateFrame {
                error: Some(ErrorView::ExecutionError("Invalid const situation"@)),
                ..old(state).frame()
            }),
        },
{
    match result {
        Err(e) => state.set_error(e),
        Ok(Loaded::Scene(scene)) => {
            let copy = scene.duplicate();
            let _ = apply_scene(copy, world, state, None);
            state.reset_mode();
            state.clear_history(scene);
            state.reset_save_file();
            false
        },
        Ok(Loaded::Sprite(_)) => state.set_error(Error::execution("Invalid const situation")),
    }
}

} // verus!
