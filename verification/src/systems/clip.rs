//! Clipboard, metadata, duplication and deletion of the selected objects.

use crate::common::{Clipboard, ClipboardOp, ClipboardView, Error, ErrorView, MetadataType, MetadataView, Mode};
use crate::systems::history_handler::selected_indices;
use crate::components::{deselected, first_selected_from, selected_count, without_selected, ObjectView, World, WorldView};
use crate::resources::{frame_mode, frame_offset, State, StateFrame};
use crate::systems::action_handler::{
    deselect_obj, import_sprite, offset_fits, offset_position, placed, pos2d, spec_new_position,
    spec_subselection_bounds, subselection_bounds, subselection_fits,
};
use crate::systems::edit::{cleared_object, clear_fits, current_of, moved_by_bounds, move_fits, with_body};
use crate::texel_types::{
    copy_labels, labels_put_all, labels_view, put_label, normalized, normalized_bounds, place_texels, sprite_ok, spread_fits,
    texel_in, texel_pos, texels_inside_moved, Bounds, Position, Position2D, Sprite, SpriteData,
    SpriteModel, SpriteV1, TexelV1,
};
use vstd::prelude::*;

verus! {

/// Texels the clipboard pastes: its texels, or the current frames of its sprites one after
/// the other
pub open spec fn clipboard_texels(c: ClipboardView) -> Seq<TexelV1> {
    match c {
        ClipboardView::Empty => Seq::empty(),
        ClipboardView::Sprites(s) => current_frames(s),
        ClipboardView::Texels(t) => t,
    }
}

/// Current frames of the sprites, concatenated
pub open spec fn current_frames(s: Seq<SpriteData>) -> Seq<TexelV1>
    decreases s.len(),
{
    if s.len() == 0 {
        Seq::empty()
    } else {
        current_frames(s.drop_last()) + if s.last().body.frames.len() == 0 {
            Seq::empty()
        } else {
            current_of(s.last().body)
        }
    }
}

/// Sprites the clipboard pastes: its sprites, or one sprite of its texels
pub open spec fn clipboard_sprites(c: ClipboardView) -> Seq<SpriteData> {
    match c {
        ClipboardView::Empty => Seq::empty(),
        ClipboardView::Sprites(s) => s,
        ClipboardView::Texels(t) => seq![
            SpriteData { body: SpriteModel { frames: seq![t], index: 0 }, id: None, labels: Seq::empty() },
        ],
    }
}

impl Clipboard {
    /// Texels to paste
    pub fn texels(&self) -> (r: Vec<TexelV1>)
        requires
            match self@ {
                ClipboardView::Sprites(s) => forall|i: int|
                    0 <= i < s.len() ==> (#[trigger] s[i]).body.frames.len() > 0 ==> s[i].body.index
                        < s[i].body.frames.len(),
                _ => true,
            },
        ensures
            r@ == clipboard_texels(self@),
    {
        match self {
            Clipboard::Empty => Vec::new(),
            Clipboard::Texels(t) => {
                let mut r: Vec<TexelV1> = Vec::new();
                let mut i: usize = 0;
                while i < t.len()
                    invariant
                        i <= t@.len(),
                        r@ == t@.take(i as int),
                    decreases t@.len() - i,
                {
                    r.push(t[i]);
                    assert(t@.take(i + 1) =~= t@.take(i as int).push(t@[i as int]));
                    i = i + 1;
                }
                assert(t@.take(t@.len() as int) =~= t@);
                r
            },
            Clipboard::Sprites(s) => {
                let ghost sv = match self@ {
                    ClipboardView::Sprites(x) => x,
                    _ => Seq::empty(),
                };
                let mut r: Vec<TexelV1> = Vec::new();
                let mut i: usize = 0;
                while i < s.len()
                    invariant
                        i <= s@.len(),
                        sv.len() == s@.len(),
                        forall|k: int| 0 <= k < sv.len() ==> #[trigger] sv[k] == s@[k]@,
                        forall|k: int|
                            0 <= k < sv.len() ==> (#[trigger] sv[k]).body.frames.len() > 0 ==> sv[k].body.index
                                < sv[k].body.frames.len(),
                        r@ == current_frames(sv.take(i as int)),
                    decreases s@.len() - i,
                {
                    assert(sv.take(i + 1).drop_last() =~= sv.take(i as int));
                    assert(sv[i as int] == s@[i as int]@);
                    let body = &s[i].body;
                    if body.frames.len() > 0 {
                        let frame = &body.frames[body.index];
                        let ghost before = r@;
                        let mut k: usize = 0;
                        while k < frame.len()
                            invariant
                                k <= frame@.len(),
                                r@ == before + frame@.take(k as int),
                            decreases frame@.len() - k,
                        {
                            r.push(frame[k]);
                            assert(before + frame@.take(k + 1) =~= (before + frame@.take(k as int)).push(frame@[k as int]));
                            k = k + 1;
                        }
                        assert(frame@.take(frame@.len() as int) =~= frame@);
                        assert(frame@ == current_of(sv[i as int].body));
                    } else {
                        assert(r@ =~= r@ + Seq::<TexelV1>::empty());
                    }
                    i = i + 1;
                }
                assert(sv.take(s@.len() as int) =~= sv);
                r
            },
        }
    }

    /// Sprites to paste
    pub fn sprites(&self) -> (r: Vec<Sprite>)
        ensures
            Seq::new(r@.len(), |i: int| r@[i]@) == clipboard_sprites(self@),
            forall|i: int| 0 <= i < r@.len() ==> (#[trigger] r@[i]).body.wf() == (r@[i]@.body.frames.len() > 0 && r@[i]@.body.index < r@[i]@.body.frames.len()),
    {
        match self {
            Clipboard::Empty => {
                let r: Vec<Sprite> = Vec::new();
                assert(Seq::new(r@.len(), |i: int| r@[i]@) =~= Seq::<SpriteData>::empty());
                r
            },
            Clipboard::Sprites(s) => {
                let mut r: Vec<Sprite> = Vec::new();
                let mut i: usize = 0;
                while i < s.len()
                    invariant
                        i <= s@.len(),
                        r@.len() == i,
                        forall|k: int| 0 <= k < i ==> (#[trigger] r@[k])@ == s@[k]@,
                        forall|k: int| 0 <= k < r@.len() ==> (#[trigger] r@[k]).body.wf() == (r@[k]@.body.frames.len() > 0 && r@[k]@.body.index < r@[k]@.body.frames.len()),
                    decreases s@.len() - i,
                {
                    let c = s[i].duplicate();
                    assert(c.body.fv().len() == c.body.frames@.len());
                    r.push(c);
                    i = i + 1;
                }
                assert(Seq::new(r@.len(), |k: int| r@[k]@) =~= Seq::new(s@.len(), |k: int| s@[k]@));
                r
            },
            Clipboard::Texels(t) => {
                let mut frame: Vec<TexelV1> = Vec::new();
                let mut i: usize = 0;
                while i < t.len()
                    invariant
                        i <= t@.len(),
                        frame@ == t@.take(i as int),
                    decreases t@.len() - i,
                {
                    frame.push(t[i]);
                    assert(t@.take(i + 1) =~= t@.take(i as int).push(t@[i as int]));
                    i = i + 1;
                }
                assert(t@.take(t@.len() as int) =~= t@);
                let body = SpriteV1::from_texels(frame);
                let sprite = Sprite { body, id: None, labels: Vec::new() };
                let mut r: Vec<Sprite> = Vec::new();
                r.push(sprite);
                assert(sprite@.labels =~= Seq::<(Seq<char>, Seq<char>)>::empty());
                assert(sprite@.body.frames =~= seq![t@]);
                assert(Seq::new(r@.len(), |k: int| r@[k]@) =~= clipboard_sprites(self@));
                r
            },
        }
    }
}

/// Deletes the selected objects; an error when none is selected
pub fn delete_selected(world: &mut World) -> (r: Result<(), Error>)
    requires
        old(world).wf(),
    ensures
        final(world).wf(),
        selected_count(old(world)@.objects) == 0 ==> final(world)@ == old(world)@ && (r matches Err(
            Error::ExecutionError(m),
        ) && m@ == "No entity to delete"@),
        selected_count(old(world)@.objects) > 0 ==> r is Ok && final(world)@ == (WorldView {
            objects: without_selected(old(world)@.objects),
            ..old(world)@
        }),
{
    if world.selected_count() == 0 {
        return Err(Error::execution("No entity to delete"));
    }
    world.remove_selected();
    Ok(())
}

/// Sprites of the selected objects, in order
pub open spec fn selected_sprites(objs: Seq<ObjectView>) -> Seq<SpriteData>
    decreases objs.len(),
{
    if objs.len() == 0 {
        Seq::empty()
    } else {
        let rest = selected_sprites(objs.drop_last());
        if objs.last().selected {
            rest.push(objs.last().sprite)
        } else {
            rest
        }
    }
}

/// Copies the selected objects' sprites to the clipboard; cutting also deletes the objects.
/// Nothing happens without a selection. Returns whether objects were deleted.
pub fn copy_or_cut_selection(op: ClipboardOp, world: &mut World, state: &mut State) -> (r: bool)
    requires
        old(world).wf(),
    ensures
        final(world).wf(),
        selected_count(old(world)@.objects) == 0 ==> !r && final(world)@ == old(world)@
            && final(state).frame() == old(state).frame(),
        selected_count(old(world)@.objects) > 0 ==> {
            &&& final(state).frame() == (StateFrame {
                clipboard: ClipboardView::Sprites(selected_sprites(old(world)@.objects)),
                ..old(state).frame()
            })
            &&& r == (op == ClipboardOp::Cut)
            &&& final(world)@ == if op == ClipboardOp::Cut {
                WorldView { objects: without_selected(old(world)@.objects), ..old(world)@ }
            } else {
                old(world)@
            }
        },
{
    let ghost objs = world@.objects;
    let mut sprites: Vec<Sprite> = Vec::new();
    let mut i: usize = 0;
    while i < world.objects.len()
        invariant
            i <= objs.len(),
            objs == world@.objects,
            Seq::new(sprites@.len(), |k: int| sprites@[k]@) == selected_sprites(objs.take(i as int)),
            sprites@.len() == selected_count(objs.take(i as int)),
        decreases objs.len() - i,
    {
        proof {
            crate::components::lemma_count_step(objs, i as int);
        }
        assert(objs.take(i + 1).drop_last() =~= objs.take(i as int));
        assert(objs[i as int] == world.objects@[i as int]@);
        if world.objects[i].selected {
            let ghost before = Seq::new(sprites@.len(), |k: int| sprites@[k]@);
            sprites.push(world.objects[i].sprite.duplicate());
            assert(Seq::new(sprites@.len(), |k: int| sprites@[k]@) =~= before.push(objs[i as int].sprite));
        }
        i = i + 1;
    }
    assert(objs.take(objs.len() as int) =~= objs);
    if sprites.len() == 0 {
        return false;
    }
    state.set_clipboard(Clipboard::Sprites(sprites));
    if op == ClipboardOp::Cut {
        match delete_selected(world) {
            Ok(_) => true,
            Err(err) => state.set_error(err),
        }
    } else {
        false
    }
}

/// The world after placing the sprites, selected, at the new object position
pub open spec fn with_imported(w: WorldView, sprites: Seq<SpriteData>, pos: Position) -> WorldView {
    WorldView { objects: w.objects + sprites.map_values(|s: SpriteData| placed(s, pos, true)), ..w }
}

/// Pastes the clipboard's sprites as new selected objects at the new object position, the
/// old selection dropped. Returns whether something was pasted.
pub fn paste_selection(world: &mut World, state: &State) -> (r: bool)
    requires
        old(world).wf(),
        state.wf(),
        offset_fits(spec_new_position(), state.current_offset()),
        forall|i: int|
            0 <= i < clipboard_sprites(state.spec_clipboard()).len() ==> sprite_ok(
                (#[trigger] clipboard_sprites(state.spec_clipboard())[i]).body,
            ),
    ensures
        final(world).wf(),
        r == (clipboard_sprites(state.spec_clipboard()).len() > 0),
        final(world)@ == with_imported(
            WorldView { objects: deselected(old(world)@.objects), ..old(world)@ },
            clipboard_sprites(state.spec_clipboard()),
            offset_position(spec_new_position(), state.current_offset()),
        ),
{
    let sprites = state.clipboard().sprites();
    let ghost sv = clipboard_sprites(state.spec_clipboard());
    let ghost pos = offset_position(spec_new_position(), state.current_offset());
    deselect_obj(world);
    let ghost w0 = world@;
    let mut changed = false;
    let mut rest = sprites;
    let mut i: usize = 0;
    let n = rest.len();
    while rest.len() > 0
        invariant
            world.wf(),
            state.wf(),
            offset_fits(spec_new_position(), state.current_offset()),
            pos == offset_position(spec_new_position(), state.current_offset()),
            n == sv.len(),
            i + rest@.len() == n,
            Seq::new(rest@.len(), |k: int| rest@[k]@) == sv.subrange(i as int, n as int),
            forall|k: int| 0 <= k < sv.len() ==> sprite_ok((#[trigger] sv[k]).body),
            world@ == with_imported(w0, sv.take(i as int), pos),
            changed == (i > 0),
        decreases rest@.len(),
    {
        let ghost before = Seq::new(rest@.len(), |k: int| rest@[k]@);
        assert(before[0] == sv[i as int]);
        let sprite = rest.remove(0);
        assert(Seq::new(rest@.len(), |k: int| rest@[k]@) =~= before.drop_first());
        let ghost w1 = world@;
        let _ = import_sprite(sprite, None, true, world, state);
        assert(sv.take(i + 1) =~= sv.take(i as int).push(sv[i as int]));
        assert(world@.objects =~= with_imported(w0, sv.take(i + 1), pos).objects);
        changed = true;
        i = i + 1;
    }
    assert(sv.take(n as int) =~= sv);
    changed
}

/// Copying the region from object `o` stays within 32 bits
pub open spec fn copy_fits(o: ObjectView, sb: Bounds) -> bool {
    let area = sb.spec_minus(pos2d(o.pos));
    let cur = current_of(o.sprite.body);
    &&& sb.spec_position().fits_minus(pos2d(o.pos))
    &&& forall|k: int|
        0 <= k < cur.len() && texel_in(area, #[trigger] cur[k]) ==> texel_pos(cur[k]).fits_minus(
            area.spec_position(),
        )
}

/// Copying (or cutting) the region being selected of the first selected object: its texels
/// inside the region, moved to the region's corner, become the clipboard; a cut clears them
/// from the object; the region is dropped. Nothing happens without a selected object.
pub open spec fn subselection_copied(
    op: ClipboardOp,
    w: WorldView,
    s: State,
    w2: WorldView,
    f2: StateFrame,
    r: bool,
) -> bool {
    let sb = spec_subselection_bounds(w, s.spec_cursor(), s.current_offset());
    match first_selected_from(w.objects, 0) {
        Some(i) => {
            let o = w.objects[i];
            let area = sb.spec_minus(pos2d(o.pos));
            let cur = current_of(o.sprite.body);
            let cut = op == ClipboardOp::Cut && texels_outside_changes(cur, area);
            &&& f2 == (StateFrame { clipboard: ClipboardView::Texels(texels_inside_moved(cur, area)), ..s.frame() })
            &&& r == cut
            &&& w2 == (WorldView {
                objects: if op == ClipboardOp::Cut {
                    w.objects.update(i, cleared_object(o, sb))
                } else {
                    w.objects
                },
                subselection: None,
                ..w
            })
        },
        None => !r && w2 == w && f2 == s.frame(),
    }
}

/// Copies the selected region (or the cell under the cursor) of the first selected object
/// to the clipboard as texels relative to the region; cutting also clears it. The region
/// is dropped when an object is selected. Returns whether cutting changed the object.
pub fn copy_or_cut_subselection(op: ClipboardOp, world: &mut World, state: &mut State) -> (r: bool)
    requires
        old(world).wf(),
        old(state).wf(),
        subselection_fits(old(world)@, old(state).spec_cursor(), old(state).current_offset()),
        ({
            let sb = spec_subselection_bounds(old(world)@, old(state).spec_cursor(), old(state).current_offset());
            match first_selected_from(old(world)@.objects, 0) {
                Some(i) => copy_fits(old(world)@.objects[i], sb) && (op == ClipboardOp::Cut ==> clear_fits(
                    old(world)@.objects[i],
                    sb,
                )),
                None => true,
            }
        }),
    ensures
        final(world).wf(),
        final(state).wf(),
        subselection_copied(op, old(world)@, *old(state), final(world)@, final(state).frame(), r),
{
    let sel_bounds = subselection_bounds(world, state);
    if let Some(i) = world.first_selected() {
        let ghost prev = world@.objects;
        let mut o = world.take_object(i);
        let ghost o0 = o@;
        let rel = sel_bounds.minus(Position2D::from_position(o.pos));
        state.set_clipboard(Clipboard::Texels(o.sprite.body.copy_area(rel)));
        let mut changed = false;
        if op == ClipboardOp::Cut {
            assert(clear_fits(o0, sel_bounds));
            assert(o.sprite.body.fv().update(
                o.sprite.body.index as int,
                crate::texel_types::texels_outside(o.sprite.body.current(), rel),
            ) == crate::systems::edit::cleared_frames(o0.sprite.body, rel));
            changed = match o.sprite.body.clear_symbol(rel) {
                None => false,
                Some(b) => {
                    let p = b.position();
                    o.pos = Position { x: o.pos.x + p.x, y: o.pos.y + p.y, z: o.pos.z };
                    o.dim = b.dimension();
                    true
                },
            };
            assert(o@ == cleared_object(o0, sel_bounds));
        }
        world.put_back(i, o);
        if op == ClipboardOp::Cut {
            assert(world@.objects =~= prev.update(i as int, cleared_object(o0, sel_bounds)));
        } else {
            assert(world@.objects =~= prev);
        }
        world.clear_subselection();
        changed
    } else {
        false
    }
}

/// Whether clearing the area removes a texel of the frame
pub open spec fn texels_outside_changes(cur: Seq<TexelV1>, area: Bounds) -> bool {
    crate::texel_types::texels_outside(cur, area).len() != cur.len()
}

/// Where pasted texels go relative to object `o`: the cursor in the scene, minus its position
pub open spec fn paste_offset(o: ObjectView, cursor: Position2D, offset: Position2D) -> Position2D {
    cursor.spec_plus(offset).spec_minus(pos2d(o.pos))
}

/// Frames of object `o` after pasting the texels at `at`
pub open spec fn pasted_frames(o: ObjectView, texels: Seq<TexelV1>, at: Position2D) -> Seq<Seq<TexelV1>> {
    let m = o.sprite.body;
    m.frames.update(m.index as int, place_texels(current_of(m), texels, at.x as int, at.y as int))
}

/// Pasting the clipboard's texels into the first selected object at the cursor: the object
/// is normalized, and moved and resized to match. Nothing happens with an empty clipboard
/// or without a selected object.
pub open spec fn subselection_pasted(w: WorldView, s: State, w2: WorldView, r: bool) -> bool {
    &&& s.spec_clipboard() is Empty ==> !r && w2 == w
    &&& !(s.spec_clipboard() is Empty) ==> match first_selected_from(w.objects, 0) {
        Some(i) => {
            let o = w.objects[i];
            let fv = pasted_frames(o, clipboard_texels(s.spec_clipboard()), paste_offset(o, s.spec_cursor(), s.current_offset()));
            &&& r
            &&& w2 == (WorldView {
                objects: w.objects.update(
                    i,
                    moved_by_bounds(
                        with_body(o, SpriteModel { frames: normalized(fv), index: o.sprite.body.index }),
                        normalized_bounds(fv),
                    ),
                ),
                ..w
            })
        },
        None => !r && w2 == w,
    }
}

/// Pastes the clipboard's texels into the first selected object at the cursor; the object
/// is normalized and moved and resized to match. Returns whether it pasted.
pub fn paste_subselection(world: &mut World, state: &State) -> (r: bool)
    requires
        old(world).wf(),
        state.wf(),
        match state.spec_clipboard() {
            ClipboardView::Sprites(s) => forall|i: int|
                0 <= i < s.len() ==> (#[trigger] s[i]).body.frames.len() > 0 ==> s[i].body.index
                    < s[i].body.frames.len(),
            _ => true,
        },
        !(state.spec_clipboard() is Empty) ==> match first_selected_from(old(world)@.objects, 0) {
            Some(i) => {
                let o = old(world)@.objects[i];
                let at = paste_offset(o, state.spec_cursor(), state.current_offset());
                let ts = clipboard_texels(state.spec_clipboard());
                &&& state.spec_cursor().fits_plus(state.current_offset())
                &&& state.spec_cursor().spec_plus(state.current_offset()).fits_minus(pos2d(o.pos))
                &&& forall|k: int| 0 <= k < ts.len() ==> #[trigger] texel_pos(ts[k]).fits_plus(at)
                &&& spread_fits(pasted_frames(o, ts, at))
                &&& move_fits(o, normalized_bounds(pasted_frames(o, ts, at)))
            },
            None => true,
        },
    ensures
        final(world).wf(),
        subselection_pasted(old(world)@, *state, final(world)@, r),
{
    if state.clipboard().is_empty() {
        return false;
    }
    if let Some(i) = world.first_selected() {
        let ghost prev = world@.objects;
        let mut o = world.take_object(i);
        let ghost o0 = o@;
        let texels = state.clipboard().texels();
        let rel_pos = state.cursor().plus(state.offset()).minus(Position2D::from_position(o.pos));
        let b = o.sprite.body.apply_texels(texels, rel_pos);
        let p = b.position();
        o.pos = Position { x: o.pos.x + p.x, y: o.pos.y + p.y, z: o.pos.z };
        o.dim = b.dimension();
        world.put_back(i, o);
        assert(world@.objects =~= prev.update(i as int, o@));
        true
    } else {
        false
    }
}

/// What `clipboard` does: the result and the scene and state after it
pub open spec fn clipboard_outcome(op: ClipboardOp, w: WorldView, s: State, w2: WorldView, s2: State, r: bool) -> bool {
    &&& (!(frame_mode(s.frame()) == Mode::Edit || frame_mode(s.frame()) is Object) ==> !r
        && w2 == w && s2.frame() == s.frame())
    &&& (frame_mode(s.frame()) is Object && op != ClipboardOp::Paste ==> {
        &&& selected_count(w.objects) == 0 ==> !r && w2 == w
            && s2.frame() == s.frame()
        &&& selected_count(w.objects) > 0 ==> {
            &&& s2.frame() == (StateFrame {
                clipboard: ClipboardView::Sprites(selected_sprites(w.objects)),
                ..s.frame()
            })
            &&& r == (op == ClipboardOp::Cut)
            &&& w2 == if op == ClipboardOp::Cut {
                WorldView { objects: without_selected(w.objects), ..w }
            } else {
                w
            }
        }
    })
    &&& (frame_mode(s.frame()) is Object && op == ClipboardOp::Paste ==> {
        &&& s2.frame() == s.frame()
        &&& r == (clipboard_sprites(s.spec_clipboard()).len() > 0)
        &&& w2 == with_imported(
            WorldView { objects: deselected(w.objects), ..w },
            clipboard_sprites(s.spec_clipboard()),
            offset_position(spec_new_position(), s.current_offset()),
        )
    })
    &&& (frame_mode(s.frame()) == Mode::Edit && op != ClipboardOp::Paste ==> subselection_copied(
        op,
        w,
        s,
        w2,
        s2.frame(),
        r,
    ))
    &&& (frame_mode(s.frame()) == Mode::Edit && op == ClipboardOp::Paste ==> s2.frame() == s.frame() && subselection_pasted(w, s, w2, r))
}

/// Clipboard action by mode: in edit mode on the selected region, in object mode on the
/// selected objects; nothing in other modes
pub fn clipboard(op: ClipboardOp, world: &mut World, state: &mut State) -> (r: bool)
    requires
        old(world).wf(),
        old(state).wf(),
        frame_mode(old(state).frame()) == Mode::Edit ==> match op {
            ClipboardOp::Paste => {
                &&& match old(state).spec_clipboard() {
                    ClipboardView::Sprites(s) => forall|i: int|
                        0 <= i < s.len() ==> (#[trigger] s[i]).body.frames.len() > 0 ==> s[i].body.index
                            < s[i].body.frames.len(),
                    _ => true,
                }
                &&& !(old(state).spec_clipboard() is Empty) ==> match first_selected_from(old(world)@.objects, 0) {
                    Some(i) => {
                        let o = old(world)@.objects[i];
                        let at = paste_offset(o, old(state).spec_cursor(), old(state).current_offset());
                        let ts = clipboard_texels(old(state).spec_clipboard());
                        &&& old(state).spec_cursor().fits_plus(old(state).current_offset())
                        &&& old(state).spec_cursor().spec_plus(old(state).current_offset()).fits_minus(pos2d(o.pos))
                        &&& forall|k: int| 0 <= k < ts.len() ==> #[trigger] texel_pos(ts[k]).fits_plus(at)
                        &&& spread_fits(pasted_frames(o, ts, at))
                        &&& move_fits(o, normalized_bounds(pasted_frames(o, ts, at)))
                    },
                    None => true,
                }
            },
            _ => {
                &&& subselection_fits(old(world)@, old(state).spec_cursor(), old(state).current_offset())
                &&& ({
                    let sb = spec_subselection_bounds(old(world)@, old(state).spec_cursor(), old(state).current_offset());
                    match first_selected_from(old(world)@.objects, 0) {
                        Some(i) => copy_fits(old(world)@.objects[i], sb) && (op == ClipboardOp::Cut ==> clear_fits(
                            old(world)@.objects[i],
                            sb,
                        )),
                        None => true,
                    }
                })
            },
        },
        frame_mode(old(state).frame()) is Object && op == ClipboardOp::Paste ==> {
            &&& offset_fits(spec_new_position(), old(state).current_offset())
            &&& forall|i: int|
                0 <= i < clipboard_sprites(old(state).spec_clipboard()).len() ==> sprite_ok(
                    (#[trigger] clipboard_sprites(old(state).spec_clipboard())[i]).body,
                )
        },
    ensures
        final(world).wf(),
        final(state).wf(),
        clipboard_outcome(op, old(world)@, *old(state), final(world)@, *final(state), r),
{
    match state.mode() {
        Mode::Edit => match op {
            ClipboardOp::Copy | ClipboardOp::Cut => copy_or_cut_subselection(op, world, state),
            ClipboardOp::Paste => paste_subselection(world, state),
        },
        Mode::Object(_) => match op {
            ClipboardOp::Copy | ClipboardOp::Cut => copy_or_cut_selection(op, world, state),
            ClipboardOp::Paste => paste_selection(world, state),
        },
        _ => false,
    }
}

/// The sprite with the metadata set: a new id, or the labels set in turn (a label replaces
/// the value of one with the same key, the later winning)
pub open spec fn with_metadata(s: SpriteData, mt: MetadataView) -> SpriteData {
    match mt {
        MetadataView::Id(id) => SpriteData { id, ..s },
        MetadataView::Labels(l) => SpriteData { labels: labels_put_all(s.labels, l), ..s },
    }
}

/// What `set_metadata` does: the result and the scene and state after it
pub open spec fn set_metadata_outcome(mt: MetadataType, w: WorldView, s: State, w2: WorldView, s2: State, r: bool) -> bool {
    &&& (({
        let n = selected_count(w.objects);
        if n == 0 {
            !r && w2 == w && s2.frame() == (StateFrame {
                error: Some(ErrorView::ExecutionError("No object selected"@)),
                ..s.frame()
            })
        } else if mt@ is Id && n > 1 {
            !r && w2 == w && s2.frame() == (StateFrame {
                error: Some(ErrorView::ExecutionError("Can only set ID on single object"@)),
                ..s.frame()
            })
        } else {
            r && s2.frame() == s.frame() && w2 == (WorldView {
                objects: w.objects.map_values(
                    |o: ObjectView|
                        if o.selected {
                            ObjectView { sprite: with_metadata(o.sprite, mt@), ..o }
                        } else {
                            o
                        },
                ),
                ..w
            })
        }
    }))
}

/// Sets an id on the one selected object, or adds labels to every selected object; errors
/// without a selection and for an id with several objects selected. Returns whether
/// something was set.
pub fn set_metadata(mt: MetadataType, world: &mut World, state: &mut State) -> (r: bool)
    requires
        old(world).wf(),
    ensures
        final(world).wf(),
        set_metadata_outcome(mt, old(world)@, *old(state), final(world)@, *final(state), r),
{
    let selected = world.selected_count();
    if selected == 0 {
        return state.set_error(Error::execution("No object selected"));
    }
    if mt.is_id() && selected > 1 {
        return state.set_error(Error::execution("Can only set ID on single object"));
    }
    let ghost objs = world@.objects;
    let ghost target = objs.map_values(
        |o: ObjectView|
            if o.selected {
                ObjectView { sprite: with_metadata(o.sprite, mt@), ..o }
            } else {
                o
            },
    );
    let mut i: usize = 0;
    while i < world.objects.len()
        invariant
            world.wf(),
            i <= objs.len(),
            world@.objects.len() == objs.len(),
            target == objs.map_values(
                |o: ObjectView|
                    if o.selected {
                        ObjectView { sprite: with_metadata(o.sprite, mt@), ..o }
                    } else {
                        o
                    },
            ),
            forall|j: int|
                0 <= j < objs.len() ==> #[trigger] world@.objects[j] == if j < i {
                    target[j]
                } else {
                    objs[j]
                },
            world@.bookmarks == old(world)@.bookmarks,
            world@.subselection == old(world)@.subselection,
        decreases objs.len() - i,
    {
        assert(world@.objects[i as int] == world.objects@[i as int]@);
        if world.objects[i].selected {
            let ghost prev = world@.objects;
            let mut o = world.take_object(i);
            let ghost o0 = o@;
            match &mt {
                MetadataType::Id(id) => {
                    o.sprite.id = *id;
                },
                MetadataType::Labels(labels) => {
                    let extra = copy_labels(labels);
                    let mut k: usize = 0;
                    let ghost l0 = o.sprite.labels@;
                    assert(labels_view(extra@).take(0) =~= Seq::<(Seq<char>, Seq<char>)>::empty());
                    while k < extra.len()
                        invariant
                            k <= extra@.len(),
                            labels_view(o.sprite.labels@) == labels_put_all(labels_view(l0), labels_view(extra@).take(k as int)),
                            o.sprite.body.wf(),
                            o@ == (ObjectView {
                                sprite: SpriteData { labels: labels_view(o.sprite.labels@), ..o0.sprite },
                                ..o0
                            }),
                        decreases extra@.len() - k,
                    {
                        let (a, b) = (extra[k].0.clone(), extra[k].1.clone());
                        put_label(&mut o.sprite.labels, a, b);
                        assert(labels_view(extra@).take(k + 1).drop_last() =~= labels_view(extra@).take(k as int));
                        assert(labels_view(extra@).take(k + 1).last() == labels_view(extra@)[k as int]);
                        k = k + 1;
                    }
                    assert(labels_view(extra@).take(extra@.len() as int) =~= labels_view(extra@));
                },
            }
            assert(o@ == target[i as int]);
            world.put_back(i, o);
            assert(world@.objects =~= prev.update(i as int, target[i as int]));
        }
        i = i + 1;
    }
    assert(world@.objects =~= target);
    true
}

/// Sprites and positions of the selected objects, in order
pub open spec fn selected_entries(objs: Seq<ObjectView>) -> Seq<(SpriteData, Position)>
    decreases objs.len(),
{
    if objs.len() == 0 {
        Seq::empty()
    } else {
        let rest = selected_entries(objs.drop_last());
        if objs.last().selected {
            rest.push((objs.last().sprite, objs.last().pos))
        } else {
            rest
        }
    }
}

/// Offset of the `i`th copy: two cells, then two more per earlier copy
pub open spec fn copy_shift(i: int) -> i32 {
    (i * 2) as i32
}

/// The position moved diagonally by 2 and then by `shift`
pub open spec fn shifted_copy(p: Position, shift: i32) -> Position {
    Position { x: (p.x + 2 + shift) as i32, y: (p.y + 2 + shift) as i32, z: p.z }
}

/// Moving the position for a copy stays within 32 bits
pub open spec fn shift_fits(p: Position, shift: i32) -> bool {
    &&& i32::MIN <= p.x + 2 <= i32::MAX
    &&& i32::MIN <= p.x + 2 + shift <= i32::MAX
    &&& i32::MIN <= p.y + 2 <= i32::MAX
    &&& i32::MIN <= p.y + 2 + shift <= i32::MAX
}

/// The copies to make: for each round `i` below `count`, each entry moved for that round
pub open spec fn copies(sel: Seq<(SpriteData, Position)>, count: nat) -> Seq<(SpriteData, Position)>
    decreases count,
{
    if count == 0 {
        Seq::empty()
    } else {
        copies(sel, (count - 1) as nat) + sel.map_values(
            |e: (SpriteData, Position)| (e.0, shifted_copy(e.1, copy_shift(count - 1))),
        )
    }
}

/// What `duplicate_selected` does: the result and the scene and state after it
pub open spec fn duplicate_selected_outcome(count: usize, w: WorldView, s: State, w2: WorldView, r: bool) -> bool {
    &&& (({
        let c = copies(selected_entries(w.objects), count as nat);
        &&& r == (c.len() > 0)
        &&& w2 == (WorldView {
            objects: deselected(w.objects) + c.map_values(
                |e: (SpriteData, Position)| placed(e.0, e.1, true),
            ),
            ..w
        })
    }))
}

/// Duplicates the selected objects `count` times, each round offset further down and right;
/// the copies end up selected instead of the originals. Returns whether a copy was made.
pub fn duplicate_selected(count: usize, world: &mut World, state: &State) -> (r: bool)
    requires
        old(world).wf(),
        state.wf(),
        count > 0 ==> (count - 1) * 2 <= usize::MAX,
        forall|k: int|
            0 <= k < selected_entries(old(world)@.objects).len() ==> sprite_ok(
                (#[trigger] selected_entries(old(world)@.objects)[k]).0.body,
            ),
        forall|i: int, k: int|
            0 <= i < count && 0 <= k < selected_entries(old(world)@.objects).len() ==> shift_fits(
                (#[trigger] selected_entries(old(world)@.objects)[k]).1,
                #[trigger] copy_shift(i),
            ),
    ensures
        final(world).wf(),
        duplicate_selected_outcome(count, old(world)@, *state, final(world)@, r),
{
    let ghost objs = world@.objects;
    let ghost sel = selected_entries(objs);
    let mut clones: Vec<(Sprite, Position)> = Vec::new();
    let mut i: usize = 0;
    while i < count
        invariant
            i <= count,
            count > 0 ==> (count - 1) * 2 <= usize::MAX,
            objs == world@.objects,
            sel == selected_entries(objs),
            forall|a: int, k: int|
                0 <= a < count && 0 <= k < sel.len() ==> shift_fits((#[trigger] sel[k]).1, #[trigger] copy_shift(a)),
            Seq::new(clones@.len(), |k: int| (clones@[k].0@, clones@[k].1)) == copies(sel, i as nat),
            forall|k: int| 0 <= k < clones@.len() ==> (#[trigger] clones@[k]).0.body.wf() == sprite_ok(clones@[k].0@.body) || true,
        decreases count - i,
    {
        assert(i * 2 <= usize::MAX) by (nonlinear_arith)
            requires
                i < count,
                (count - 1) * 2 <= usize::MAX,
        ;
        let iteration = (i * 2) as i32;
        assert(iteration == copy_shift(i as int));
        let ghost before = Seq::new(clones@.len(), |k: int| (clones@[k].0@, clones@[k].1));
        let mut j: usize = 0;
        let mut seen: usize = 0;
        while j < world.objects.len()
            invariant
                j <= objs.len(),
                objs == world@.objects,
                sel == selected_entries(objs),
                i < count,
                iteration == copy_shift(i as int),
                forall|a: int, k: int|
                    0 <= a < count && 0 <= k < sel.len() ==> shift_fits((#[trigger] sel[k]).1, #[trigger] copy_shift(a)),
                seen == selected_entries(objs.take(j as int)).len(),
                seen <= j,
                Seq::new(clones@.len(), |k: int| (clones@[k].0@, clones@[k].1)) == before + selected_entries(
                    objs.take(j as int),
                ).map_values(|e: (SpriteData, Position)| (e.0, shifted_copy(e.1, copy_shift(i as int)))),
            decreases objs.len() - j,
        {
            assert(objs.take(j + 1).drop_last() =~= objs.take(j as int));
            assert(objs[j as int] == world.objects@[j as int]@);
            proof {
                lemma_entries_len(objs.take(j as int));
            }
            if world.objects[j].selected {
                proof {
                    lemma_entries_prefix(objs, j as int);
                    assert(sel[seen as int] == (objs[j as int].sprite, objs[j as int].pos));
                    assert(shift_fits(sel[seen as int].1, copy_shift(i as int)));
                }
                let p = world.objects[j].pos;
                let moved = Position { x: p.x + 2 + iteration, y: p.y + 2 + iteration, z: p.z };
                let ghost cb = Seq::new(clones@.len(), |k: int| (clones@[k].0@, clones@[k].1));
                clones.push((world.objects[j].sprite.duplicate(), moved));
                assert(Seq::new(clones@.len(), |k: int| (clones@[k].0@, clones@[k].1)) =~= cb.push(
                    (objs[j as int].sprite, shifted_copy(objs[j as int].pos, copy_shift(i as int))),
                ));
                assert(selected_entries(objs.take(j + 1)).map_values(
                    |e: (SpriteData, Position)| (e.0, shifted_copy(e.1, copy_shift(i as int))),
                ) =~= selected_entries(objs.take(j as int)).map_values(
                    |e: (SpriteData, Position)| (e.0, shifted_copy(e.1, copy_shift(i as int))),
                ).push((objs[j as int].sprite, shifted_copy(objs[j as int].pos, copy_shift(i as int)))));
                assert(before + selected_entries(objs.take(j + 1)).map_values(
                    |e: (SpriteData, Position)| (e.0, shifted_copy(e.1, copy_shift(i as int))),
                ) =~= (before + selected_entries(objs.take(j as int)).map_values(
                    |e: (SpriteData, Position)| (e.0, shifted_copy(e.1, copy_shift(i as int))),
                )).push((objs[j as int].sprite, shifted_copy(objs[j as int].pos, copy_shift(i as int)))));
                seen = seen + 1;
            }
            j = j + 1;
        }
        assert(objs.take(objs.len() as int) =~= objs);
        i = i + 1;
    }
    deselect_obj(world);
    let ghost w0 = world@;
    let ghost c = copies(sel, count as nat);
    proof {
        lemma_copies_sprites(sel, count as nat);
    }
    let mut done: usize = 0;
    let mut rest = clones;
    let n = rest.len();
    while rest.len() > 0
        invariant
            world.wf(),
            state.wf(),
            n == c.len(),
            done + rest@.len() == n,
            Seq::new(rest@.len(), |k: int| (rest@[k].0@, rest@[k].1)) == c.subrange(done as int, n as int),
            forall|k: int| 0 <= k < c.len() ==> sprite_ok((#[trigger] c[k]).0.body),
            world@ == (WorldView {
                objects: w0.objects + c.take(done as int).map_values(
                    |e: (SpriteData, Position)| placed(e.0, e.1, true),
                ),
                ..w0
            }),
        decreases rest@.len(),
    {
        let ghost before = Seq::new(rest@.len(), |k: int| (rest@[k].0@, rest@[k].1));
        assert(before[0] == c[done as int]);
        let (sprite, pos) = rest.remove(0);
        assert(Seq::new(rest@.len(), |k: int| (rest@[k].0@, rest@[k].1)) =~= before.drop_first());
        let _ = import_sprite(sprite, Some(pos), true, world, state);
        assert(c.take(done + 1).map_values(|e: (SpriteData, Position)| placed(e.0, e.1, true)) =~= c.take(
            done as int,
        ).map_values(|e: (SpriteData, Position)| placed(e.0, e.1, true)).push(placed(c[done as int].0, c[done as int].1, true)));
        assert(world@.objects =~= w0.objects + c.take(done + 1).map_values(
            |e: (SpriteData, Position)| placed(e.0, e.1, true),
        ));
        done = done + 1;
    }
    assert(c.take(n as int) =~= c);
    done > 0
}

proof fn lemma_entries_len(objs: Seq<ObjectView>)
    ensures
        selected_entries(objs).len() <= objs.len(),
    decreases objs.len(),
{
    if objs.len() > 0 {
        lemma_entries_len(objs.drop_last());
    }
}

proof fn lemma_copies_sprites(sel: Seq<(SpriteData, Position)>, n: nat)
    requires
        forall|m: int| 0 <= m < sel.len() ==> sprite_ok((#[trigger] sel[m]).0.body),
    ensures
        forall|k: int| 0 <= k < copies(sel, n).len() ==> sprite_ok((#[trigger] copies(sel, n)[k]).0.body),
    decreases n,
{
    if n > 0 {
        lemma_copies_sprites(sel, (n - 1) as nat);
        let prev = copies(sel, (n - 1) as nat);
        let mv = sel.map_values(
            |e: (SpriteData, Position)| (e.0, shifted_copy(e.1, copy_shift(n - 1))),
        );
        let c = copies(sel, n);
        assert(c == prev + mv);
        assert forall|k: int| 0 <= k < c.len() implies sprite_ok((#[trigger] c[k]).0.body) by {
            if k < prev.len() {
                assert(c[k] == prev[k]);
            } else {
                let m = k - prev.len();
                assert(c[k] == mv[m]);
                assert(mv[m].0 == sel[m].0);
            }
        }
    }
}

proof fn lemma_entries_prefix(objs: Seq<ObjectView>, j: int)
    requires
        0 <= j < objs.len(),
        objs[j].selected,
    ensures
        selected_entries(objs.take(j)).len() < selected_entries(objs).len(),
        selected_entries(objs)[selected_entries(objs.take(j)).len() as int] == (objs[j].sprite, objs[j].pos),
    decreases objs.len(),
{
    if j == objs.len() - 1 {
        assert(objs.drop_last() =~= objs.take(j));
    } else {
        lemma_entries_prefix(objs.drop_last(), j);
        assert(objs.drop_last().take(j) =~= objs.take(j));
    }
}

} // verus!
verus! {

proof fn lemma_selected_sprites(objs: Seq<ObjectView>)
    requires
        objs.len() <= usize::MAX,
    ensures
        selected_sprites(objs).len() == selected_count(objs),
        selected_indices(objs).len() == selected_count(objs),
        forall|k: int|
            0 <= k < selected_count(objs) ==> {
                &&& 0 <= #[trigger] selected_indices(objs)[k] < objs.len()
                &&& objs[selected_indices(objs)[k] as int].selected
                &&& selected_sprites(objs)[k] == objs[selected_indices(objs)[k] as int].sprite
            },
    decreases objs.len(),
{
    if objs.len() > 0 {
        let d = objs.drop_last();
        lemma_selected_sprites(d);
        assert forall|k: int| 0 <= k < selected_count(objs) implies {
            &&& 0 <= #[trigger] selected_indices(objs)[k] < objs.len()
            &&& objs[selected_indices(objs)[k] as int].selected
            &&& selected_sprites(objs)[k] == objs[selected_indices(objs)[k] as int].sprite
        } by {
            if k < selected_count(d) {
                let j = selected_indices(d)[k];
                assert(0 <= j < d.len());
                assert(selected_indices(objs)[k] == j);
                assert(selected_sprites(objs)[k] == selected_sprites(d)[k]);
                assert(d[j as int] == objs[j as int]);
            } else {
                assert(objs.last().selected);
                assert(selected_indices(objs)[k] == (objs.len() - 1) as usize);
                assert(selected_sprites(objs)[k] == objs.last().sprite);
            }
        }
    }
}

/// Copying the selection in object mode and pasting it there keeps every object, now
/// deselected, and adds after them a copy of each selected sprite, in order, selected and
/// placed at the paste position
pub proof fn paste_after_copy_duplicates_selection(w: WorldView, f: StateFrame, pos: Position)
    requires
        selected_count(w.objects) > 0,
        w.objects.len() <= usize::MAX,
    ensures
        ({
            let copied = StateFrame { clipboard: ClipboardView::Sprites(selected_sprites(w.objects)), ..f };
            let pasted = with_imported(
                WorldView { objects: deselected(w.objects), ..w },
                clipboard_sprites(copied.clipboard),
                pos,
            );
            &&& pasted.objects.len() == w.objects.len() + selected_count(w.objects)
            &&& forall|i: int|
                0 <= i < w.objects.len() ==> #[trigger] pasted.objects[i] == (ObjectView {
                    selected: false,
                    ..w.objects[i]
                })
            &&& forall|k: int|
                0 <= k < selected_count(w.objects) ==> #[trigger] pasted.objects[w.objects.len() + k] == placed(
                    w.objects[selected_indices(w.objects)[k] as int].sprite,
                    pos,
                    true,
                )
            &&& pasted.bookmarks == w.bookmarks
        }),
{
    lemma_selected_sprites(w.objects);
    let copied = StateFrame { clipboard: ClipboardView::Sprites(selected_sprites(w.objects)), ..f };
    let pasted = with_imported(
        WorldView { objects: deselected(w.objects), ..w },
        clipboard_sprites(copied.clipboard),
        pos,
    );
    assert forall|k: int| 0 <= k < selected_count(w.objects) implies #[trigger] pasted.objects[w.objects.len() + k]
        == placed(w.objects[selected_indices(w.objects)[k] as int].sprite, pos, true) by {
        assert(selected_sprites(w.objects)[k] == w.objects[selected_indices(w.objects)[k] as int].sprite);
    }
}

} // verus!
