//! Applying one queued action: the handler that each action names, with the scene marked
//! dirty by the handlers that change it.

use crate::common::{Action, ClipboardOp, ClipboardView, ErrorView, Layout, Mode, SelectMode};
use crate::components::{bookmark_at, deselected, first_selected_from, labels_with, selected_count, World, WorldView};
use crate::resources::{frame_mode, State, StateFrame};
use crate::systems::action_handler::{
    set_mode_outcome,
    offset_position, spec_cancel, spec_reverse_mode, spec_translate_object, with_new_sprite,
    area_fits, cancel, clear_subselection, deselect_obj, new_sprite, pos2d, offset_fits, reverse_mode, reverse_mode_fits,
    scene_from_world, set_mode, set_mode_fits, spec_new_position, spec_scene_of, spec_subselection,
    spec_subselection_bounds, subselection, subselection_fits, translate_object, translate_object_fits, AfterSave,
    IoRequest,
};
use crate::systems::clip::{
    clipboard_outcome, duplicate_selected_outcome, set_metadata_outcome,
    clipboard, clipboard_sprites, clipboard_texels, copy_fits, copy_shift, duplicate_selected, paste_offset,
    pasted_frames, selected_entries, set_metadata, shift_fits,
};
use crate::systems::edit::{
    apply_color_to_selected_outcome, apply_style_to_selected_outcome, apply_symbol_to_selected_outcome,
    change_frame_on_selected_outcome, clear_blank_texels_outcome, delete_frame_on_selected_outcome,
    new_frame_on_selected_outcome, pick_color_outcome,
    apply_color_to_selected, apply_style_to_selected, apply_symbol_to_selected, change_frame_on_selected,
    clear_blank_texels, clear_fits, delete_frame_on_selected, edit_area_fits, frame_color, move_fits,
    new_frame_on_selected, pick_color, symbol_fits,
};
use crate::systems::layout::{apply_layout_to_selected, apply_layout_to_selected_outcome, columns_fit, layout_items};
use crate::systems::scene_actions::{
    quitting_after, tutorial_outcome, write_scene_outcome,
    delete_object_outcome, new_outcome, redo_outcome, undo_outcome,
    delete_object, export_to_file, jump_to_bookmark, new, redo, set_bookmark, show_help, toggle_metadata, tutorial,
    undo, write_scene_to_file,
};
use crate::systems::select::{
    apply_region_outcome, select_obj_outcome, select_region_outcome,
    apply_region, objects_fit_offset, region_applied, scores_fit, select_obj, select_region,
    spec_mark_subselection,
};
use crate::texel_types::{normalized_bounds, scene_ok, sprite_ok, spread_fits, texel_pos, Bounds, ColorMode, Dimension, Which};
use vstd::prelude::*;

verus! {

/// Clipboard operations keep positions within 32 bits
pub open spec fn clipboard_fits(w: WorldView, s: State, op: ClipboardOp) -> bool {
    &&& frame_mode(s.frame()) == Mode::Edit ==> match op {
        ClipboardOp::Paste => {
            &&& match s.spec_clipboard() {
                ClipboardView::Sprites(sp) => forall|i: int|
                    0 <= i < sp.len() ==> (#[trigger] sp[i]).body.frames.len() > 0 ==> sp[i].body.index
                        < sp[i].body.frames.len(),
                _ => true,
            }
            &&& !(s.spec_clipboard() is Empty) ==> match first_selected_from(w.objects, 0) {
                Some(i) => {
                    let o = w.objects[i];
                    let at = paste_offset(o, s.spec_cursor(), s.current_offset());
                    let ts = clipboard_texels(s.spec_clipboard());
                    &&& s.spec_cursor().fits_plus(s.current_offset())
                    &&& s.spec_cursor().spec_plus(s.current_offset()).fits_minus(pos2d(o.pos))
                    &&& forall|k: int| 0 <= k < ts.len() ==> #[trigger] texel_pos(ts[k]).fits_plus(at)
                    &&& spread_fits(pasted_frames(o, ts, at))
                    &&& move_fits(o, normalized_bounds(pasted_frames(o, ts, at)))
                },
                None => true,
            }
        },
        _ => {
            &&& subselection_fits(w, s.spec_cursor(), s.current_offset())
            &&& ({
                let sb = spec_subselection_bounds(w, s.spec_cursor(), s.current_offset());
                match first_selected_from(w.objects, 0) {
                    Some(i) => copy_fits(w.objects[i], sb) && (op == ClipboardOp::Cut ==> clear_fits(
                        w.objects[i],
                        sb,
                    )),
                    None => true,
                }
            })
        },
    }
    &&& frame_mode(s.frame()) is Object && op == ClipboardOp::Paste ==> {
        &&& offset_fits(spec_new_position(), s.current_offset())
        &&& forall|i: int|
            0 <= i < clipboard_sprites(s.spec_clipboard()).len() ==> sprite_ok(
                (#[trigger] clipboard_sprites(s.spec_clipboard())[i]).body,
            )
    }
}

/// Clearing the selected region (or the cell under the cursor) keeps positions within 32 bits
pub open spec fn clear_area_fits(w: WorldView, s: State) -> bool {
    &&& subselection_fits(w, s.spec_cursor(), s.current_offset())
    &&& ({
        let sb = spec_subselection_bounds(w, s.spec_cursor(), s.current_offset());
        forall|i: int| 0 <= i < w.objects.len() && (#[trigger] w.objects[i]).selected ==> clear_fits(w.objects[i], sb)
    })
}

/// Applying a region as the selection keeps positions within 32 bits
pub open spec fn region_fits(w: WorldView, s: State, region: Option<Bounds>) -> bool {
    region matches Some(area) ==> objects_fit_offset(w.objects, s.current_offset()) && reverse_mode_fits(
        region_applied(w, area, s.current_offset()),
        s.frame(),
    )
}

/// What the handler of `action` needs of the world and state: that the history holds
/// scenes that can be placed, and that the positions it computes stay within 32 bits
pub open spec fn action_fits(w: WorldView, s: State, action: Action, screen: (u16, u16)) -> bool {
    match action {
        Action::Undo => {
            &&& s.spec_history_index() > 0 ==> s.spec_changes() < usize::MAX
            &&& forall|i: int| 0 <= i < s.hist().len() ==> scene_ok((#[trigger] s.hist()[i]).scene)
        },
        Action::Redo => {
            &&& s.spec_history_index() + 1 < s.hist().len() ==> s.spec_changes() < usize::MAX
            &&& forall|i: int| 0 <= i < s.hist().len() ==> scene_ok((#[trigger] s.hist()[i]).scene)
        },
        Action::Clipboard(op) => clipboard_fits(w, s, op),
        Action::NewObject => offset_fits(spec_new_position(), s.current_offset()),
        Action::Duplicate(count) => {
            &&& count > 0 ==> (count - 1) * 2 <= usize::MAX
            &&& forall|k: int|
                0 <= k < selected_entries(w.objects).len() ==> sprite_ok(
                    (#[trigger] selected_entries(w.objects)[k]).0.body,
                )
            &&& forall|i: int, k: int|
                0 <= i < count && 0 <= k < selected_entries(w.objects).len() ==> shift_fits(
                    (#[trigger] selected_entries(w.objects)[k]).1,
                    #[trigger] copy_shift(i),
                )
        },
        Action::NewFrame => forall|i: int|
            0 <= i < w.objects.len() ==> (#[trigger] w.objects[i]).sprite.body.index < usize::MAX,
        Action::Cancel => s.spec_error() is None ==> reverse_mode_fits(w, s.frame()),
        Action::SetMode(mode) => set_mode_fits(w, s.frame(), mode),
        Action::ApplyColor(_) => subselection_fits(w, s.spec_cursor(), s.current_offset()) && edit_area_fits(
            w.objects,
            s.frame(),
            spec_subselection_bounds(w, s.spec_cursor(), s.current_offset()),
        ),
        Action::ApplyStyle(_) => subselection_fits(w, s.spec_cursor(), s.current_offset()) && edit_area_fits(
            w.objects,
            s.frame(),
            spec_subselection_bounds(w, s.spec_cursor(), s.current_offset()),
        ),
        Action::ApplySymbol(symbol) => {
            &&& subselection_fits(w, s.spec_cursor(), s.current_offset())
            &&& ({
                let sb = spec_subselection_bounds(w, s.spec_cursor(), s.current_offset());
                forall|i: int|
                    0 <= i < w.objects.len() && (#[trigger] w.objects[i]).selected ==> symbol_fits(
                        w.objects[i],
                        symbol,
                        frame_color(s.frame(), ColorMode::Bg),
                        frame_color(s.frame(), ColorMode::Fg),
                        sb,
                    )
            })
        },
        Action::ApplyRegion => {
            &&& match w.subselection {
                Some((p, _, _)) => p.fits_plus(s.current_offset()),
                None => true,
            }
            &&& region_fits(w, s, spec_subselection(w, s.current_offset()))
        },
        Action::PickColor(_) => match first_selected_from(w.objects, 0) {
            Some(i) => s.spec_cursor().fits_minus(pos2d(w.objects[i].pos)),
            None => true,
        },
        Action::Translate(t) => translate_object_fits(w, s.frame(), t, screen),
        Action::Layout(layout) => {
            &&& layout matches Layout::Column(cols, padding) ==> (cols > 0 || selected_count(w.objects) == 0)
                && columns_fit(layout_items(w.objects), cols as nat, padding)
            &&& layout is Random ==> ({
                let b = Bounds::Free(s.current_offset(), Dimension { w: screen.0, h: screen.1 });
                &&& b.spec_position().x + b.spec_dimension().w <= i32::MAX
                &&& b.spec_position().y + b.spec_dimension().h <= i32::MAX
            })
        },
        Action::SelectObject(which, _) => {
            &&& which is Next || which is Previous ==> scores_fit(
                w.objects,
                Bounds::Free(s.current_offset(), Dimension { w: screen.0, h: screen.1 }),
            )
            &&& which matches Which::At(at) ==> at.fits_plus(s.current_offset())
        },
        Action::SelectRegion => {
            &&& match w.subselection {
                Some((_, _, sel)) => sel.active ==> area_fits(sel.initial_pos, s.spec_cursor()),
                None => true,
            }
            &&& frame_mode(s.frame()) == Mode::Object(SelectMode::Region) ==> {
                let (w1, region) = spec_mark_subselection(w, s.spec_cursor());
                region_fits(w1, s, region)
            }
        },
        Action::Delete => frame_mode(s.frame()) == Mode::Edit || frame_mode(s.frame()) == Mode::Write
            ==> clear_area_fits(w, s),
        Action::ReverseMode => reverse_mode_fits(w, s.frame()),
        _ => true,
    }
}

/// What the handler of a scene or history action does: the result, and the scene and state
/// after it (actions of other kinds change nothing)
pub open spec fn scene_handled(action: Action, w: WorldView, s: State, w2: WorldView, s2: State, r: bool) -> bool {
    match action {
        Action::New(force) => new_outcome(force, w, s, w2, s2, r),
        Action::Undo => undo_outcome(w, s, w2, s2, r),
        Action::Redo => redo_outcome(w, s, w2, s2, r),
        Action::Delete => delete_object_outcome(w, s, w2, s2, r),
        Action::Bookmark(index, true) => r && s2 == s && w2 == (WorldView {
            bookmarks: labels_with(w.bookmarks, index, s.current_offset()),
            ..w
        }),
        Action::Bookmark(index, false) => !r && w2 == w && s2.frame() == match bookmark_at(w.bookmarks, index) {
            Some(p) => StateFrame { offset: p, ..s.frame() },
            None => StateFrame { error: Some(ErrorView::ExecutionError("Bookmark not found"@)), ..s.frame() },
        },
        Action::ShowHelp(index) => !r && w2 == w && s2.frame() == if Mode::Help(index) != frame_mode(s.frame()) {
            StateFrame {
                modes: s.frame().modes.push(Mode::Help(index)),
                actions: s.frame().actions.push(Action::ClearError),
                ..s.frame()
            }
        } else {
            s.frame()
        },
        Action::ToggleMetadata => !r && w2 == w && s2.frame() == (StateFrame {
            show_meta: !s.frame().show_meta,
            ..s.frame()
        }),
        Action::ClearError => !r && w2 == w && s2.frame() == (StateFrame { error: None, ..s.frame() }),
        Action::SwapColor => !r && w2 == w && s2.frame() == (StateFrame {
            selected_color: (s.frame().selected_color.1, s.frame().selected_color.0),
            ..s.frame()
        }),
        Action::Cancel => !r && (w2, s2.frame()) == spec_cancel(w, s.frame()),
        Action::ReverseMode => !r && w2 == spec_reverse_mode(w, s.frame()).0 && s2.frame() == spec_reverse_mode(
            w,
            s.frame(),
        ).1,
        _ => !r && w2 == w && s2 == s,
    }
}

/// What the handler of an action on the selected objects does: the result, and the scene
/// and state after it (actions of other kinds change nothing)
pub open spec fn edit_handled(action: Action, w: WorldView, s: State, w2: WorldView, s2: State, r: bool) -> bool {
    match action {
        Action::Clipboard(op) => clipboard_outcome(op, w, s, w2, s2, r),
        Action::SetMetadata(mt) => set_metadata_outcome(mt, w, s, w2, s2, r),
        Action::NewObject => r && s2 == s && w2 == with_new_sprite(
            w,
            offset_position(spec_new_position(), s.current_offset()),
        ),
        Action::Duplicate(count) => s2 == s && duplicate_selected_outcome(count, w, s, w2, r),
        Action::NewFrame => new_frame_on_selected_outcome(w, s, w2, s2, r),
        Action::DeleteFrame => delete_frame_on_selected_outcome(w, s, w2, s2, r),
        Action::ApplyColor(cm) => s2 == s && apply_color_to_selected_outcome(cm, w, s, w2, r),
        Action::ApplySymbol(symbol) => s2 == s && apply_symbol_to_selected_outcome(symbol, w, s, w2, r),
        Action::ApplyStyle(style) => s2 == s && apply_style_to_selected_outcome(style, w, s, w2, r),
        Action::PickColor(cm) => w2 == w && pick_color_outcome(cm, w, s, s2, r),
        Action::SelectFrame(which) => change_frame_on_selected_outcome(which, w, s, w2, s2, r),
        Action::ClearBlank => clear_blank_texels_outcome(w, s, w2, s2, r),
        _ => !r && w2 == w && s2 == s,
    }
}

/// What the handler of a selecting or moving action does on a screen of size `screen`: the
/// result, and the scene and state after it (actions of other kinds change nothing)
pub open spec fn select_handled(
    action: Action,
    w: WorldView,
    s: State,
    w2: WorldView,
    s2: State,
    r: bool,
    screen: (u16, u16),
) -> bool {
    match action {
        Action::ApplyRegion => apply_region_outcome(spec_subselection(w, s.current_offset()), w, s, w2, s2, r),
        Action::Deselect => !r && s2 == s && w2 == (WorldView {
            objects: deselected(w.objects),
            subselection: None,
            ..w
        }),
        Action::Translate(t) => (w2, s2.frame(), r) == spec_translate_object(w, s.frame(), t, screen),
        Action::Layout(layout) => s2 == s && apply_layout_to_selected_outcome(layout, screen, w, s, w2, r),
        Action::SelectObject(which, sticky) => s2 == s && select_obj_outcome(which, sticky, screen, w, s, w2, r),
        Action::SelectRegion => select_region_outcome(w, s, w2, s2, r),
        _ => !r && w2 == w && s2 == s,
    }
}

/// Runs the handler of an action on the scene's objects or history; returns whether the
/// scene changed
fn scene_action(action: Action, world: &mut World, state: &mut State) -> (r: bool)
    requires
        old(world).wf(),
        old(state).wf(),
        action_fits(old(world)@, *old(state), action, (0, 0)),
    ensures
        final(world).wf(),
        final(state).wf(),
        scene_handled(action, old(world)@, *old(state), final(world)@, *final(state), r),
{
    match action {
        Action::New(force) => new(force, world, state),
        Action::Undo => undo(world, state),
        Action::Redo => redo(world, state),
        Action::Delete => delete_object(world, state),
        Action::Bookmark(index, true) => {
            let at = state.offset();
            set_bookmark(index, at, world)
        },
        Action::Bookmark(index, false) => jump_to_bookmark(index, world, state),
        Action::ShowHelp(index) => show_help(index, state),
        Action::ToggleMetadata => toggle_metadata(state),
        Action::ClearError => state.clear_error(),
        Action::SwapColor => state.swap_color(),
        Action::Cancel => cancel(world, state),
        Action::ReverseMode => {
            reverse_mode(world, state);
            false
        },
        _ => false,
    }
}

/// Runs the handler of an action that edits the selected objects; returns whether the
/// scene changed
fn edit_action(action: Action, world: &mut World, state: &mut State) -> (r: bool)
    requires
        old(world).wf(),
        old(state).wf(),
        action_fits(old(world)@, *old(state), action, (0, 0)),
    ensures
        final(world).wf(),
        final(state).wf(),
        edit_handled(action, old(world)@, *old(state), final(world)@, *final(state), r),
{
    match action {
        Action::Clipboard(op) => clipboard(op, world, state),
        Action::SetMetadata(mt) => set_metadata(mt, world, state),
        Action::NewObject => new_sprite(world, state, None),
        Action::Duplicate(count) => duplicate_selected(count, world, state),
        Action::NewFrame => new_frame_on_selected(world, state),
        Action::DeleteFrame => delete_frame_on_selected(world, state),
        Action::ApplyColor(cm) => apply_color_to_selected(cm, world, state),
        Action::ApplySymbol(symbol) => apply_symbol_to_selected(symbol, world, state),
        Action::ApplyStyle(style) => apply_style_to_selected(style, world, state),
        Action::PickColor(cm) => pick_color(cm, world, state),
        Action::SelectFrame(which) => change_frame_on_selected(which, world, state),
        Action::ClearBlank => clear_blank_texels(world, state),
        _ => false,
    }
}

/// Runs the handler of an action that selects or moves objects; returns whether the scene
/// changed
fn select_action(action: Action, world: &mut World, state: &mut State, screen: (u16, u16)) -> (r: bool)
    requires
        old(world).wf(),
        old(state).wf(),
        action_fits(old(world)@, *old(state), action, screen),
    ensures
        final(world).wf(),
        final(state).wf(),
        select_handled(action, old(world)@, *old(state), final(world)@, *final(state), r, screen),
{
    match action {
        Action::ApplyRegion => {
            let region = subselection(world, state);
            apply_region(region, world, state)
        },
        Action::Deselect => {
            let cleared = clear_subselection(world);
            cleared || deselect_obj(world)
        },
        Action::Translate(t) => translate_object(t, world, state, screen),
        Action::Layout(layout) => apply_layout_to_selected(layout, world, state, screen),
        Action::SelectObject(which, sticky) => select_obj(which, sticky, world, state, screen),
        Action::SelectRegion => select_region(world, state),
        _ => false,
    }
}

/// Whether the handler of `action` works with files, which is left to the program
pub open spec fn is_file_action(action: Action) -> bool {
    action is Read || action is Export || action is Tutorial || action is Write || action is WriteAndQuit
}

/// Runs the handler of an action that works with files: the work is returned as a request
fn file_action(action: Action, world: &mut World, state: &mut State) -> (r: Option<IoRequest>)
    requires
        old(world).wf(),
        old(state).wf(),
        is_file_action(action),
    ensures
        final(world)@ == old(world)@,
        final(world).wf(),
        final(state).wf(),
        action matches Action::Read(p) ==> r matches Some(IoRequest::Load(q)) && q@ == p@ && final(state).frame()
            == old(state).frame(),
        action matches Action::Export(f, p) ==> (r matches Some(IoRequest::Export(g, q, scene)) && g == f && q@
            == p@ && scene@ == spec_scene_of(old(world)@)) && final(state).frame() == old(state).frame(),
        action is Tutorial ==> tutorial_outcome(*old(state), *final(state), r),
        action matches Action::Write(p) ==> write_scene_outcome(p, old(world)@, *old(state), *final(state), r),
        action matches Action::WriteAndQuit(p) ==> exists|w: Option<IoRequest>|
            write_scene_outcome(p, old(world)@, *old(state), *final(state), w) && r == quitting_after(w),
{
    match action {
        Action::Write(path) => write_scene_to_file(path, world, state),
        Action::WriteAndQuit(path) => {
            let written = write_scene_to_file(path, world, state);
            let ghost before = written;
            let quitting = match written {
                Some(IoRequest::Save(target, scene, _)) => Some(IoRequest::Save(target, scene, AfterSave::Quit)),
                other => other,
            };
            assert(quitting == quitting_after(before));
            quitting
        },
        Action::Read(path) => Some(IoRequest::Load(path)),
        Action::Tutorial => tutorial(state),
        Action::Export(format, path) => Some(export_to_file(format, path, world)),
        _ => None,
    }
}

/// Actions on the selected objects
pub open spec fn is_edit_action(action: Action) -> bool {
    action is Clipboard || action is SetMetadata || action is NewObject || action is Duplicate || action is NewFrame
        || action is DeleteFrame || action is ApplyColor || action is ApplySymbol || action is ApplyStyle
        || action is PickColor || action is SelectFrame || action is ClearBlank
}

/// Actions that select or move objects
pub open spec fn is_select_action(action: Action) -> bool {
    action is ApplyRegion || action is Deselect || action is Translate || action is Layout || action is SelectObject
        || action is SelectRegion
}

/// The state after a handler left `sh`, with the scene marked dirty when the handler
/// `changed` it
pub open spec fn marked_dirty(sh: State, changed: bool) -> StateFrame {
    StateFrame { dirty: sh.frame().dirty || changed, ..sh.frame() }
}

/// Applies one action: calls its handler and marks the state dirty when the handler changed
/// the scene (a dirty state stays dirty unless the handler itself cleaned it). Work on files
/// is handed back as a request for the program to perform.
pub fn handle_action(action: Action, world: &mut World, state: &mut State, screen: (u16, u16)) -> (r: Option<IoRequest>)
    requires
        old(world).wf(),
        old(state).wf(),
        action_fits(old(world)@, *old(state), action, screen),
    ensures
        final(world).wf(),
        final(state).wf(),
        action is Noop ==> r is None && final(world)@ == old(world)@ && final(state).frame() == old(state).frame(),
        action matches Action::Read(p) ==> r matches Some(IoRequest::Load(q)) && q@ == p@ && final(world)@
            == old(world)@ && final(state).frame() == old(state).frame(),
        action matches Action::Export(f, p) ==> (r matches Some(IoRequest::Export(g, q, scene)) && g == f && q@
            == p@ && scene@ == spec_scene_of(old(world)@)) && final(world)@ == old(world)@ && final(state).frame()
            == old(state).frame(),
        action is Tutorial ==> final(world)@ == old(world)@ && tutorial_outcome(*old(state), *final(state), r),
        action matches Action::Write(p) ==> final(world)@ == old(world)@ && write_scene_outcome(
            p,
            old(world)@,
            *old(state),
            *final(state),
            r,
        ),
        action matches Action::WriteAndQuit(p) ==> final(world)@ == old(world)@ && exists|w: Option<IoRequest>|
            write_scene_outcome(p, old(world)@, *old(state), *final(state), w) && r == quitting_after(w),
        !(is_file_action(action) || action is SetMode) ==> r is None,
        action matches Action::SetMode(mode) ==> exists|sh: State, res: (bool, Option<IoRequest>)|
            set_mode_outcome(mode, screen, old(world)@, *old(state), final(world)@, sh, res) && r == res.1
                && final(state).frame() == marked_dirty(sh, res.0),
        is_edit_action(action) ==> exists|sh: State, changed: bool|
            edit_handled(action, old(world)@, *old(state), final(world)@, sh, changed) && final(state).frame()
                == marked_dirty(sh, changed),
        is_select_action(action) ==> exists|sh: State, changed: bool|
            select_handled(action, old(world)@, *old(state), final(world)@, sh, changed, screen)
                && final(state).frame() == marked_dirty(sh, changed),
        !(action is Noop || action is SetMode || is_file_action(action) || is_edit_action(action) || is_select_action(
            action,
        )) ==> exists|sh: State, changed: bool|
            scene_handled(action, old(world)@, *old(state), final(world)@, sh, changed) && final(state).frame()
                == marked_dirty(sh, changed),
{
    let (dirty, request) = match action {
        Action::Noop => (false, None),
        Action::SetMode(mode) => set_mode(mode, world, state, screen),
        Action::Read(_) | Action::Export(_, _) | Action::Tutorial | Action::Write(_) | Action::WriteAndQuit(_) => (
            false,
            file_action(action, world, state),
        ),
        Action::ApplyRegion | Action::Deselect | Action::Translate(_) | Action::Layout(_) | Action::SelectObject(_, _)
        | Action::SelectRegion => (select_action(action, world, state, screen), None),
        Action::Clipboard(_) | Action::SetMetadata(_) | Action::NewObject | Action::Duplicate(_) | Action::NewFrame
        | Action::DeleteFrame | Action::ApplyColor(_) | Action::ApplySymbol(_) | Action::ApplyStyle(_)
        | Action::PickColor(_) | Action::SelectFrame(_) | Action::ClearBlank => (
            edit_action(action, world, state),
            None,
        ),
        _ => (scene_action(action, world, state), None),
    };
    let ghost sh = *state;
    let was = state.dirty();
    state.set_dirty(was || dirty);
    assert(state.frame() == marked_dirty(sh, dirty));
    request
}

} // verus!
