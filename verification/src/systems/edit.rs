//! Editing the selected objects: colors, styles and frames.

use crate::common::{Error, ErrorView, Mode};
use crate::components::{ObjectView, World, WorldView};
use crate::resources::{frame_mode, frame_offset, State, StateFrame};
use crate::systems::action_handler::{
    pos2d, spec_subselection_bounds, subselection_bounds, subselection_fits,
};
use crate::components::selected_count;
use crate::components::first_selected_from;
use crate::texel_types::{
    color_of, first_at, frame_with_symbol, has_at, normalized, normalized_bounds, spread_fits, texel_in,
    texels_outside, with_color, without_blanks, Bounds, ColorMode, Position, Position2D, SpriteData,
    SpriteModel, SymbolStyle, TexelV1, Which,
};
use vstd::prelude::*;

verus! {

/// The object with its sprite's frames and index replaced
pub open spec fn with_body(o: ObjectView, body: SpriteModel) -> ObjectView {
    ObjectView { sprite: SpriteData { body, ..o.sprite }, ..o }
}

/// Texels of the current frame
pub open spec fn current_of(m: SpriteModel) -> Seq<TexelV1> {
    m.frames[m.index as int]
}

/// Whether the texel is affected: everywhere without an area, else inside it
pub open spec fn in_area(area: Option<Bounds>, t: TexelV1) -> bool {
    match area {
        Some(a) => texel_in(a, t),
        None => true,
    }
}

/// The sprite with the color channel of the current frame's texels (in the area) set
pub open spec fn recolored(m: SpriteModel, cm: ColorMode, color: u8, area: Option<Bounds>) -> SpriteModel {
    SpriteModel {
        frames: m.frames.update(
            m.index as int,
            current_of(m).map_values(
                |t: TexelV1|
                    if in_area(area, t) {
                        with_color(t, cm, color)
                    } else {
                        t
                    },
            ),
        ),
        index: m.index,
    }
}

/// Whether setting the color changes some texel
pub open spec fn recolor_changes(m: SpriteModel, cm: ColorMode, color: u8, area: Option<Bounds>) -> bool {
    exists|k: int|
        0 <= k < current_of(m).len() && in_area(area, #[trigger] current_of(m)[k]) && color_of(
            current_of(m)[k],
            cm,
        ) != color
}

/// The sprite with the style of the current frame's texels (in the area) toggled
pub open spec fn restyled(m: SpriteModel, style: SymbolStyle, area: Option<Bounds>) -> SpriteModel {
    SpriteModel {
        frames: m.frames.update(
            m.index as int,
            current_of(m).map_values(
                |t: TexelV1|
                    if in_area(area, t) {
                        TexelV1 { styles: t.styles.toggled(style), ..t }
                    } else {
                        t
                    },
            ),
        ),
        index: m.index,
    }
}

/// Whether toggling the style touches some texel
pub open spec fn restyle_changes(m: SpriteModel, area: Option<Bounds>) -> bool {
    exists|k: int| 0 <= k < current_of(m).len() && in_area(area, #[trigger] current_of(m)[k])
}

/// Area an edit applies to on object `o`: the selected region relative to the object in
/// edit mode, the whole frame otherwise
pub open spec fn edit_area(o: ObjectView, f: StateFrame, sb: Bounds) -> Option<Bounds> {
    if frame_mode(f) == Mode::Edit {
        Some(sb.spec_minus(pos2d(o.pos)))
    } else {
        None
    }
}

/// The selected region can be moved relative to every selected object in edit mode
pub open spec fn edit_area_fits(objs: Seq<ObjectView>, f: StateFrame, sb: Bounds) -> bool {
    frame_mode(f) == Mode::Edit ==> forall|i: int|
        0 <= i < objs.len() && (#[trigger] objs[i]).selected ==> sb.spec_position().fits_minus(
            pos2d(objs[i].pos),
        )
}

/// Selected color for the channel
pub open spec fn frame_color(f: StateFrame, cm: ColorMode) -> u8 {
    match cm {
        ColorMode::Bg => f.selected_color.0,
        ColorMode::Fg => f.selected_color.1,
    }
}

/// Objects after applying the selected color to the selected ones
pub open spec fn colored_objects(objs: Seq<ObjectView>, f: StateFrame, sb: Bounds, cm: ColorMode) -> Seq<
    ObjectView,
> {
    objs.map_values(
        |o: ObjectView|
            if o.selected {
                with_body(o, recolored(o.sprite.body, cm, frame_color(f, cm), edit_area(o, f, sb)))
            } else {
                o
            },
    )
}

/// Whether applying the color changes some selected object
pub open spec fn colors_change(objs: Seq<ObjectView>, f: StateFrame, sb: Bounds, cm: ColorMode) -> bool {
    exists|i: int|
        0 <= i < objs.len() && (#[trigger] objs[i]).selected && recolor_changes(
            objs[i].sprite.body,
            cm,
            frame_color(f, cm),
            edit_area(objs[i], f, sb),
        )
}

/// What `apply_color_to_selected` does: the result and the scene and state after it
pub open spec fn apply_color_to_selected_outcome(cm: ColorMode, w: WorldView, s: State, w2: WorldView, r: bool) -> bool {
    &&& (({
        let sb = spec_subselection_bounds(w, s.spec_cursor(), s.current_offset());
        &&& r == colors_change(w.objects, s.frame(), sb, cm)
        &&& w2.objects == colored_objects(w.objects, s.frame(), sb, cm)
        &&& w2.bookmarks == w.bookmarks
        &&& w2.subselection == if frame_mode(s.frame()) == Mode::Edit && r {
            None
        } else {
            w.subselection
        }
    }))
}

/// Applies the selected color of the channel to the selected objects: in edit mode inside
/// the selected region (which is then dropped if something changed), else to the whole
/// current frame. Returns whether a texel changed.
pub fn apply_color_to_selected(cm: ColorMode, world: &mut World, state: &State) -> (r: bool)
    requires
        old(world).wf(),
        state.wf(),
        subselection_fits(old(world)@, state.spec_cursor(), state.current_offset()),
        edit_area_fits(
            old(world)@.objects,
            state.frame(),
            spec_subselection_bounds(old(world)@, state.spec_cursor(), state.current_offset()),
        ),
    ensures
        final(world).wf(),
        apply_color_to_selected_outcome(cm, old(world)@, *state, final(world)@, r),
{
    let color = state.color(cm);
    let sel_bounds = subselection_bounds(world, state);
    let edit = state.mode() == Mode::Edit;
    let ghost objs = world@.objects;
    let ghost f = state.frame();
    let mut changed = false;
    let mut i: usize = 0;
    while i < world.objects.len()
        invariant
            world.wf(),
            i <= objs.len(),
            world@.objects.len() == objs.len(),
            f == state.frame(),
            color == frame_color(f, cm),
            edit == (frame_mode(f) == Mode::Edit),
            edit_area_fits(objs, f, sel_bounds),
            forall|j: int|
                0 <= j < objs.len() ==> #[trigger] world@.objects[j] == if j < i {
                    colored_objects(objs, f, sel_bounds, cm)[j]
                } else {
                    objs[j]
                },
            changed == exists|j: int|
                0 <= j < i && (#[trigger] objs[j]).selected && recolor_changes(
                    objs[j].sprite.body,
                    cm,
                    color,
                    edit_area(objs[j], f, sel_bounds),
                ),
            world@.bookmarks == old(world)@.bookmarks,
            world@.subselection == old(world)@.subselection,
        decreases objs.len() - i,
    {
        assert(world@.objects[i as int] == world.objects@[i as int]@);
        if world.objects[i].selected {
            let ghost prev = world@.objects;
            let mut o = world.take_object(i);
            let ghost o0 = o@;
            let c = if edit {
                let rel = sel_bounds.minus(Position2D::from_position(o.pos));
                let c = o.sprite.body.apply_color(cm, color, rel);
                proof {
                    let m = o0.sprite.body;
                    assert(current_of(m) == o0.sprite.body.frames[m.index as int]);
                    assert(o.sprite.body@.frames[m.index as int] =~= recolored(m, cm, color, Some(rel)).frames[m.index as int]);
                    assert(o.sprite.body@.frames =~= recolored(m, cm, color, Some(rel)).frames);
                    if c {
                        let k = choose|k: int|
                            0 <= k < current_of(m).len() && texel_in(rel, #[trigger] current_of(m)[k])
                                && color_of(current_of(m)[k], cm) != color;
                        assert(in_area(Some(rel), current_of(m)[k]));
                    }
                }
                c
            } else {
                let c = o.sprite.body.fill_color(cm, color);
                proof {
                    let m = o0.sprite.body;
                    assert(o.sprite.body@.frames[m.index as int] =~= recolored(m, cm, color, None).frames[m.index as int]);
                    assert(o.sprite.body@.frames =~= recolored(m, cm, color, None).frames);
                    if c {
                        let k = choose|k: int|
                            0 <= k < current_of(m).len() && color_of(#[trigger] current_of(m)[k], cm) != color;
                        assert(in_area(None, current_of(m)[k]));
                    }
                }
                c
            };
            assert(o@ == colored_objects(objs, f, sel_bounds, cm)[i as int]);
            assert(c == recolor_changes(o0.sprite.body, cm, color, edit_area(o0, f, sel_bounds)));
            world.put_back(i, o);
            assert(world@.objects =~= prev.update(i as int, colored_objects(objs, f, sel_bounds, cm)[i as int]));
            if c {
                changed = true;
            }
        }
        i = i + 1;
    }
    assert(world@.objects =~= colored_objects(objs, f, sel_bounds, cm));
    if edit && changed {
        world.clear_subselection();
    }
    changed
}

/// Objects after toggling the style on the selected ones
pub open spec fn styled_objects(objs: Seq<ObjectView>, f: StateFrame, sb: Bounds, style: SymbolStyle) -> Seq<
    ObjectView,
> {
    objs.map_values(
        |o: ObjectView|
            if o.selected {
                with_body(o, restyled(o.sprite.body, style, edit_area(o, f, sb)))
            } else {
                o
            },
    )
}

/// Whether toggling the style touches some selected object
pub open spec fn styles_change(objs: Seq<ObjectView>, f: StateFrame, sb: Bounds) -> bool {
    exists|i: int|
        0 <= i < objs.len() && (#[trigger] objs[i]).selected && restyle_changes(
            objs[i].sprite.body,
            edit_area(objs[i], f, sb),
        )
}

/// What `apply_style_to_selected` does: the result and the scene and state after it
pub open spec fn apply_style_to_selected_outcome(style: SymbolStyle, w: WorldView, s: State, w2: WorldView, r: bool) -> bool {
    &&& (({
        let sb = spec_subselection_bounds(w, s.spec_cursor(), s.current_offset());
        &&& r == styles_change(w.objects, s.frame(), sb)
        &&& w2.objects == styled_objects(w.objects, s.frame(), sb, style)
        &&& w2.bookmarks == w.bookmarks
        &&& w2.subselection == if frame_mode(s.frame()) == Mode::Edit && r {
            None
        } else {
            w.subselection
        }
    }))
}

/// Toggles the style on the selected objects: in edit mode inside the selected region
/// (which is then dropped if something changed), else on the whole current frame. Returns
/// whether a texel changed.
pub fn apply_style_to_selected(style: SymbolStyle, world: &mut World, state: &State) -> (r: bool)
    requires
        old(world).wf(),
        state.wf(),
        subselection_fits(old(world)@, state.spec_cursor(), state.current_offset()),
        edit_area_fits(
            old(world)@.objects,
            state.frame(),
            spec_subselection_bounds(old(world)@, state.spec_cursor(), state.current_offset()),
        ),
    ensures
        final(world).wf(),
        apply_style_to_selected_outcome(style, old(world)@, *state, final(world)@, r),
{
    let sel_bounds = subselection_bounds(world, state);
    let edit = state.mode() == Mode::Edit;
    let ghost objs = world@.objects;
    let ghost f = state.frame();
    let mut changed = false;
    let mut i: usize = 0;
    while i < world.objects.len()
        invariant
            world.wf(),
            i <= objs.len(),
            world@.objects.len() == objs.len(),
            f == state.frame(),
            edit == (frame_mode(f) == Mode::Edit),
            edit_area_fits(objs, f, sel_bounds),
            forall|j: int|
                0 <= j < objs.len() ==> #[trigger] world@.objects[j] == if j < i {
                    styled_objects(objs, f, sel_bounds, style)[j]
                } else {
                    objs[j]
                },
            changed == exists|j: int|
                0 <= j < i && (#[trigger] objs[j]).selected && restyle_changes(
                    objs[j].sprite.body,
                    edit_area(objs[j], f, sel_bounds),
                ),
            world@.bookmarks == old(world)@.bookmarks,
            world@.subselection == old(world)@.subselection,
        decreases objs.len() - i,
    {
        assert(world@.objects[i as int] == world.objects@[i as int]@);
        if world.objects[i].selected {
            let ghost prev = world@.objects;
            let mut o = world.take_object(i);
            let ghost o0 = o@;
            let c = if edit {
                let rel = sel_bounds.minus(Position2D::from_position(o.pos));
                let c = o.sprite.body.apply_style(style, rel);
                proof {
                    let m = o0.sprite.body;
                    assert(o.sprite.body@.frames[m.index as int] =~= restyled(m, style, Some(rel)).frames[m.index as int]);
                    assert(o.sprite.body@.frames =~= restyled(m, style, Some(rel)).frames);
                    if c {
                        let k = choose|k: int| 0 <= k < current_of(m).len() && texel_in(rel, #[trigger] current_of(m)[k]);
                        assert(in_area(Some(rel), current_of(m)[k]));
                    }
                }
                c
            } else {
                let c = o.sprite.body.fill_style(style);
                proof {
                    let m = o0.sprite.body;
                    assert(o.sprite.body@.frames[m.index as int] =~= restyled(m, style, None).frames[m.index as int]);
                    assert(o.sprite.body@.frames =~= restyled(m, style, None).frames);
                    if c {
                        assert(in_area(None, current_of(m)[0]));
                    }
                }
                c
            };
            assert(o@ == styled_objects(objs, f, sel_bounds, style)[i as int]);
            assert(c == restyle_changes(o0.sprite.body, edit_area(o0, f, sel_bounds)));
            world.put_back(i, o);
            assert(world@.objects =~= prev.update(i as int, styled_objects(objs, f, sel_bounds, style)[i as int]));
            if c {
                changed = true;
            }
        }
        i = i + 1;
    }
    assert(world@.objects =~= styled_objects(objs, f, sel_bounds, style));
    if edit && changed {
        world.clear_subselection();
    }
    changed
}

/// The sprite with a copy of the current frame inserted and made current
pub open spec fn with_new_frame(m: SpriteModel) -> SpriteModel {
    SpriteModel {
        frames: m.frames.insert(m.index as int, current_of(m)),
        index: (m.index + 1) as usize,
    }
}

/// The sprite without its current frame (the previous one current), unless it is the only one
pub open spec fn without_frame(m: SpriteModel) -> SpriteModel {
    if m.frames.len() > 1 {
        SpriteModel {
            frames: m.frames.remove(m.index as int),
            index: if m.index > 1 {
                (m.index - 1) as usize
            } else {
                0
            },
        }
    } else {
        m
    }
}

/// Frame index after moving to the next, previous or given frame when it exists
pub open spec fn frame_moved(m: SpriteModel, which: Which<usize>) -> usize {
    let len = m.frames.len();
    match which {
        Which::All => m.index,
        Which::Next => if m.index < usize::MAX && m.index + 1 < len {
            (m.index + 1) as usize
        } else {
            m.index
        },
        Which::Previous => {
            let target = if m.index > 1 {
                m.index - 1
            } else {
                0
            };
            if target < len {
                target as usize
            } else {
                m.index
            }
        },
        Which::At(i) => if i < len {
            i
        } else {
            m.index
        },
    }
}

/// Objects with a sprite change applied to the selected ones
pub open spec fn frames_changed(objs: Seq<ObjectView>, op: spec_fn(SpriteModel) -> SpriteModel) -> Seq<ObjectView> {
    objs.map_values(|o: ObjectView| if o.selected { with_body(o, op(o.sprite.body)) } else { o })
}

/// Error for frame actions without a selection
pub open spec fn no_selection_error(f: StateFrame) -> StateFrame {
    StateFrame { error: Some(ErrorView::ExecutionError("No objects selected"@)), ..f }
}

/// What `new_frame_on_selected` does: the result and the scene and state after it
pub open spec fn new_frame_on_selected_outcome(w: WorldView, s: State, w2: WorldView, s2: State, r: bool) -> bool {
    &&& (r == (selected_count(w.objects) > 0))
    &&& (!r ==> w2 == w && s2.frame() == no_selection_error(s.frame()))
    &&& (r ==> w2 == (WorldView {
        objects: frames_changed(w.objects, |m: SpriteModel| with_new_frame(m)),
        ..w
    }) && s2.frame() == s.frame())
}

/// Adds a copy of the current frame to each selected object, moving to it; an error without a
/// selection. Returns whether something changed.
pub fn new_frame_on_selected(world: &mut World, state: &mut State) -> (r: bool)
    requires
        old(world).wf(),
        forall|i: int| 0 <= i < old(world)@.objects.len() ==> (#[trigger] old(world)@.objects[i]).sprite.body.index < usize::MAX,
    ensures
        final(world).wf(),
        new_frame_on_selected_outcome(old(world)@, *old(state), final(world)@, *final(state), r),
{
    if world.selected_count() == 0 {
        state.set_error(Error::execution("No objects selected"));
        return false;
    }
    let ghost objs = world@.objects;
    let ghost op = |m: SpriteModel| with_new_frame(m);
    let mut i: usize = 0;
    while i < world.objects.len()
        invariant
            world.wf(),
            i <= objs.len(),
            world@.objects.len() == objs.len(),
            op == (|m: SpriteModel| with_new_frame(m)),
            forall|j: int| 0 <= j < objs.len() ==> (#[trigger] objs[j]).sprite.body.index < usize::MAX,
            forall|j: int|
                0 <= j < objs.len() ==> #[trigger] world@.objects[j] == if j < i {
                    frames_changed(objs, op)[j]
                } else {
                    objs[j]
                },
            world@.bookmarks == old(world)@.bookmarks,
            world@.subselection == old(world)@.subselection,
        decreases objs.len() - i,
    {
        assert(world@.objects[i as int] == world.objects@[i as int]@);
        if world.objects[i].selected {
            let ghost prev = world@.objects;
            let mut o = world.take_object(i);
            let ghost o0 = o@;
            o.sprite.body.new_frame();
            assert(o.sprite.body@ == with_new_frame(o0.sprite.body));
            assert(o@ == frames_changed(objs, op)[i as int]);
            world.put_back(i, o);
            assert(world@.objects =~= prev.update(i as int, frames_changed(objs, op)[i as int]));
        }
        i = i + 1;
    }
    assert(world@.objects =~= frames_changed(objs, op));
    true
}

/// What `delete_frame_on_selected` does: the result and the scene and state after it
pub open spec fn delete_frame_on_selected_outcome(w: WorldView, s: State, w2: WorldView, s2: State, r: bool) -> bool {
    &&& (selected_count(w.objects) == 0 ==> !r && w2 == w
        && s2.frame() == no_selection_error(s.frame()))
    &&& (selected_count(w.objects) > 0 ==> {
        &&& w2 == (WorldView {
            objects: frames_changed(w.objects, |m: SpriteModel| without_frame(m)),
            ..w
        })
        &&& s2.frame() == s.frame()
        &&& r == exists|i: int|
            0 <= i < w.objects.len() && (#[trigger] w.objects[i]).selected
                && w.objects[i].sprite.body.frames.len() > 1
    })
}

/// Deletes the current frame of each selected object that has more than one; an error
/// without a selection. Returns whether a frame was deleted.
pub fn delete_frame_on_selected(world: &mut World, state: &mut State) -> (r: bool)
    requires
        old(world).wf(),
    ensures
        final(world).wf(),
        delete_frame_on_selected_outcome(old(world)@, *old(state), final(world)@, *final(state), r),
{
    if world.selected_count() == 0 {
        state.set_error(Error::execution("No objects selected"));
        return false;
    }
    let ghost objs = world@.objects;
    let ghost op = |m: SpriteModel| without_frame(m);
    let mut changed = false;
    let mut i: usize = 0;
    while i < world.objects.len()
        invariant
            world.wf(),
            i <= objs.len(),
            world@.objects.len() == objs.len(),
            op == (|m: SpriteModel| without_frame(m)),
            forall|j: int|
                0 <= j < objs.len() ==> #[trigger] world@.objects[j] == if j < i {
                    frames_changed(objs, op)[j]
                } else {
                    objs[j]
                },
            changed == exists|j: int|
                0 <= j < i && (#[trigger] objs[j]).selected && objs[j].sprite.body.frames.len() > 1,
            world@.bookmarks == old(world)@.bookmarks,
            world@.subselection == old(world)@.subselection,
        decreases objs.len() - i,
    {
        assert(world@.objects[i as int] == world.objects@[i as int]@);
        if world.objects[i].selected {
            let ghost prev = world@.objects;
            let mut o = world.take_object(i);
            let ghost o0 = o@;
            let c = o.sprite.body.delete_frame();
            assert(o.sprite.body@ == without_frame(o0.sprite.body));
            assert(o@ == frames_changed(objs, op)[i as int]);
            world.put_back(i, o);
            assert(world@.objects =~= prev.update(i as int, frames_changed(objs, op)[i as int]));
            if c {
                changed = true;
            }
        }
        i = i + 1;
    }
    assert(world@.objects =~= frames_changed(objs, op));
    changed
}

/// What `change_frame_on_selected` does: the result and the scene and state after it
pub open spec fn change_frame_on_selected_outcome(which: Which<usize>, w: WorldView, s: State, w2: WorldView, s2: State, r: bool) -> bool {
    &&& (r == (selected_count(w.objects) > 0))
    &&& (!r ==> w2 == w && s2.frame() == no_selection_error(s.frame()))
    &&& (r ==> w2 == (WorldView {
        objects: frames_changed(
            w.objects,
            |m: SpriteModel| SpriteModel { index: frame_moved(m, which), ..m },
        ),
        ..w
    }) && s2.frame() == s.frame())
}

/// Moves each selected object to the next, previous or given frame; an error without a
/// selection. Returns whether an object is selected.
pub fn change_frame_on_selected(which: Which<usize>, world: &mut World, state: &mut State) -> (r: bool)
    requires
        old(world).wf(),
    ensures
        final(world).wf(),
        change_frame_on_selected_outcome(which, old(world)@, *old(state), final(world)@, *final(state), r),
{
    if world.selected_count() == 0 {
        return state.set_error(Error::execution("No objects selected"));
    }
    let ghost objs = world@.objects;
    let ghost op = |m: SpriteModel| SpriteModel { index: frame_moved(m, which), ..m };
    let mut i: usize = 0;
    while i < world.objects.len()
        invariant
            world.wf(),
            i <= objs.len(),
            world@.objects.len() == objs.len(),
            op == (|m: SpriteModel| SpriteModel { index: frame_moved(m, which), ..m }),
            forall|j: int|
                0 <= j < objs.len() ==> #[trigger] world@.objects[j] == if j < i {
                    frames_changed(objs, op)[j]
                } else {
                    objs[j]
                },
            world@.bookmarks == old(world)@.bookmarks,
            world@.subselection == old(world)@.subselection,
        decreases objs.len() - i,
    {
        assert(world@.objects[i as int] == world.objects@[i as int]@);
        if world.objects[i].selected {
            let ghost prev = world@.objects;
            let mut o = world.take_object(i);
            let ghost o0 = o@;
            o.sprite.body.apply_frame_change(which);
            assert(o.sprite.body@ == SpriteModel { index: frame_moved(o0.sprite.body, which), ..o0.sprite.body });
            assert(o@ == frames_changed(objs, op)[i as int]);
            world.put_back(i, o);
            assert(world@.objects =~= prev.update(i as int, frames_changed(objs, op)[i as int]));
        }
        i = i + 1;
    }
    assert(world@.objects =~= frames_changed(objs, op));
    true
}

/// The sprite without blanks on the default background in its current frame
pub open spec fn blanks_cleared(m: SpriteModel) -> SpriteModel {
    SpriteModel { frames: m.frames.update(m.index as int, without_blanks(current_of(m), None)), ..m }
}

/// What `clear_blank_texels` does: the result and the scene and state after it
pub open spec fn clear_blank_texels_outcome(w: WorldView, s: State, w2: WorldView, s2: State, r: bool) -> bool {
    &&& (r == (selected_count(w.objects) > 0))
    &&& (w2 == (WorldView {
        objects: frames_changed(w.objects, |m: SpriteModel| blanks_cleared(m)),
        ..w
    }))
    &&& (!r ==> s2.frame() == no_selection_error(s.frame()))
    &&& (r ==> s2.frame() == s.frame())
}

/// Removes blanks on the default background from each selected object's current frame; an
/// error without a selection. Returns whether an object is selected.
pub fn clear_blank_texels(world: &mut World, state: &mut State) -> (r: bool)
    requires
        old(world).wf(),
    ensures
        final(world).wf(),
        clear_blank_texels_outcome(old(world)@, *old(state), final(world)@, *final(state), r),
{
    let ghost objs = world@.objects;
    let ghost op = |m: SpriteModel| blanks_cleared(m);
    let mut changed = false;
    let mut i: usize = 0;
    while i < world.objects.len()
        invariant
            world.wf(),
            i <= objs.len(),
            world@.objects.len() == objs.len(),
            op == (|m: SpriteModel| blanks_cleared(m)),
            forall|j: int|
                0 <= j < objs.len() ==> #[trigger] world@.objects[j] == if j < i {
                    frames_changed(objs, op)[j]
                } else {
                    objs[j]
                },
            changed == (selected_count(objs.take(i as int)) > 0),
            world@.bookmarks == old(world)@.bookmarks,
            world@.subselection == old(world)@.subselection,
        decreases objs.len() - i,
    {
        proof {
            crate::components::lemma_count_step(objs, i as int);
        }
        assert(world@.objects[i as int] == world.objects@[i as int]@);
        if world.objects[i].selected {
            let ghost prev = world@.objects;
            let mut o = world.take_object(i);
            let ghost o0 = o@;
            o.sprite.body.clear_blank_texels(None);
            assert(o.sprite.body@.frames =~= blanks_cleared(o0.sprite.body).frames);
            assert(o@ == frames_changed(objs, op)[i as int]);
            world.put_back(i, o);
            assert(world@.objects =~= prev.update(i as int, frames_changed(objs, op)[i as int]));
            changed = true;
        }
        i = i + 1;
    }
    assert(objs.take(objs.len() as int) =~= objs);
    assert(world@.objects =~= frames_changed(objs, op));
    if !changed {
        state.set_error(Error::execution("No objects selected"))
    } else {
        changed
    }
}

/// What `pick_color` does: the result and the scene and state after it
pub open spec fn pick_color_outcome(cm: ColorMode, w: WorldView, s: State, s2: State, r: bool) -> bool {
    &&& (!r)
    &&& (s2.frame() == match first_selected_from(w.objects, 0) {
        Some(i) => {
            let m = w.objects[i].sprite.body;
            let p = s.spec_cursor().spec_minus(pos2d(w.objects[i].pos));
            if has_at(current_of(m), p.x, p.y) {
                let fg = current_of(m)[first_at(current_of(m), p.x, p.y)].fg;
                StateFrame {
                    selected_color: match cm {
                        ColorMode::Bg => (fg, s.frame().selected_color.1),
                        ColorMode::Fg => (s.frame().selected_color.0, fg),
                    },
                    ..s.frame()
                }
            } else {
                s.frame()
            }
        },
        None => s.frame(),
    })
}

/// Picks the foreground color of the first selected object's texel under the cursor as
/// the selected color of the channel; returns false (nothing to record)
pub fn pick_color(cm: ColorMode, world: &World, state: &mut State) -> (r: bool)
    requires
        world.wf(),
        match first_selected_from(world@.objects, 0) {
            Some(i) => old(state).spec_cursor().fits_minus(pos2d(world@.objects[i].pos)),
            None => true,
        },
    ensures
        pick_color_outcome(cm, world@, *old(state), *final(state), r),
{
    if let Some(i) = world.first_selected() {
        assert(world@.objects[i as int] == world.objects@[i as int]@);
        let o = &world.objects[i];
        let rel = state.cursor().minus(Position2D::from_position(o.pos));
        if let Some(texel) = o.sprite.body.read_texel(rel) {
            state.set_color(texel.fg, cm);
        }
    }
    false
}

/// The object moved by the corner of `b` and sized to it
pub open spec fn moved_by_bounds(o: ObjectView, b: Bounds) -> ObjectView {
    ObjectView {
        pos: Position {
            x: (o.pos.x + b.spec_position().x) as i32,
            y: (o.pos.y + b.spec_position().y) as i32,
            z: o.pos.z,
        },
        dim: b.spec_dimension(),
        ..o
    }
}

/// The object can be moved by the corner of `b` within 32 bits
pub open spec fn move_fits(o: ObjectView, b: Bounds) -> bool {
    i32::MIN <= o.pos.x + b.spec_position().x <= i32::MAX && i32::MIN <= o.pos.y
        + b.spec_position().y <= i32::MAX
}

/// Frames after clearing the area in the current frame
pub open spec fn cleared_frames(m: SpriteModel, area: Bounds) -> Seq<Seq<TexelV1>> {
    m.frames.update(m.index as int, texels_outside(current_of(m), area))
}

/// Clearing the area of object `o` (area relative to the scene): the texels inside go;
/// if any did, the frames are normalized and the object moved and resized to match
pub open spec fn cleared_object(o: ObjectView, sb: Bounds) -> ObjectView {
    let m = o.sprite.body;
    let area = sb.spec_minus(pos2d(o.pos));
    let fv = cleared_frames(m, area);
    if texels_outside(current_of(m), area).len() != current_of(m).len() {
        moved_by_bounds(with_body(o, SpriteModel { frames: normalized(fv), index: m.index }), normalized_bounds(fv))
    } else {
        o
    }
}

/// Clearing stays within 32 bits for object `o`
pub open spec fn clear_fits(o: ObjectView, sb: Bounds) -> bool {
    let m = o.sprite.body;
    let area = sb.spec_minus(pos2d(o.pos));
    &&& sb.spec_position().fits_minus(pos2d(o.pos))
    &&& spread_fits(cleared_frames(m, area))
    &&& move_fits(o, normalized_bounds(cleared_frames(m, area)))
}

/// Objects after clearing the area from the selected ones
pub open spec fn cleared_objects(objs: Seq<ObjectView>, sb: Bounds) -> Seq<ObjectView> {
    objs.map_values(|o: ObjectView| if o.selected { cleared_object(o, sb) } else { o })
}

/// Clears the selected region (or the cell under the cursor) from the selected objects;
/// the region is dropped when an object is selected. Returns whether an object is selected.
pub fn clear_symbol_on_selected(world: &mut World, state: &State) -> (r: bool)
    requires
        old(world).wf(),
        state.wf(),
        subselection_fits(old(world)@, state.spec_cursor(), state.current_offset()),
        ({
            let sb = spec_subselection_bounds(old(world)@, state.spec_cursor(), state.current_offset());
            forall|i: int|
                0 <= i < old(world)@.objects.len() && (#[trigger] old(world)@.objects[i]).selected
                    ==> clear_fits(old(world)@.objects[i], sb)
        }),
    ensures
        final(world).wf(),
        r == (selected_count(old(world)@.objects) > 0),
        ({
            let sb = spec_subselection_bounds(old(world)@, state.spec_cursor(), state.current_offset());
            &&& final(world)@.objects == cleared_objects(old(world)@.objects, sb)
            &&& final(world)@.bookmarks == old(world)@.bookmarks
            &&& final(world)@.subselection == if r {
                None
            } else {
                old(world)@.subselection
            }
        }),
{
    let sel_bounds = subselection_bounds(world, state);
    let ghost objs = world@.objects;
    let mut changed = false;
    let mut i: usize = 0;
    while i < world.objects.len()
        invariant
            world.wf(),
            i <= objs.len(),
            world@.objects.len() == objs.len(),
            forall|j: int| 0 <= j < objs.len() && (#[trigger] objs[j]).selected ==> clear_fits(objs[j], sel_bounds),
            forall|j: int|
                0 <= j < objs.len() ==> #[trigger] world@.objects[j] == if j < i {
                    cleared_objects(objs, sel_bounds)[j]
                } else {
                    objs[j]
                },
            changed == (selected_count(objs.take(i as int)) > 0),
            world@.bookmarks == old(world)@.bookmarks,
            world@.subselection == old(world)@.subselection,
        decreases objs.len() - i,
    {
        proof {
            crate::components::lemma_count_step(objs, i as int);
        }
        assert(world@.objects[i as int] == world.objects@[i as int]@);
        if world.objects[i].selected {
            let ghost prev = world@.objects;
            let mut o = world.take_object(i);
            let ghost o0 = o@;
            assert(clear_fits(o0, sel_bounds));
            let rel = sel_bounds.minus(Position2D::from_position(o.pos));
            assert(o.sprite.body.fv().update(o.sprite.body.index as int, texels_outside(o.sprite.body.current(), rel)) == cleared_frames(o0.sprite.body, rel));
            match o.sprite.body.clear_symbol(rel) {
                None => {},
                Some(b) => {
                    let p = b.position();
                    o.pos = Position { x: o.pos.x + p.x, y: o.pos.y + p.y, z: o.pos.z };
                    o.dim = b.dimension();
                },
            }
            assert(o@ == cleared_objects(objs, sel_bounds)[i as int]);
            world.put_back(i, o);
            assert(world@.objects =~= prev.update(i as int, cleared_objects(objs, sel_bounds)[i as int]));
            changed = true;
        }
        i = i + 1;
    }
    assert(objs.take(objs.len() as int) =~= objs);
    assert(world@.objects =~= cleared_objects(objs, sel_bounds));
    if changed {
        world.clear_subselection();
    }
    changed
}

/// Frames after writing the symbol over the area of the current frame
pub open spec fn symbol_frames(m: SpriteModel, symbol: char, bg: u8, fg: u8, area: Bounds) -> Seq<Seq<TexelV1>> {
    m.frames.update(m.index as int, frame_with_symbol(current_of(m), symbol, bg, fg, area))
}

/// Writing the symbol over the area of object `o` (area relative to the scene): the frames
/// are normalized and the object moved and resized to match
pub open spec fn symbol_object(o: ObjectView, symbol: char, bg: u8, fg: u8, sb: Bounds) -> ObjectView {
    let m = o.sprite.body;
    let fv = symbol_frames(m, symbol, bg, fg, sb.spec_minus(pos2d(o.pos)));
    moved_by_bounds(with_body(o, SpriteModel { frames: normalized(fv), index: m.index }), normalized_bounds(fv))
}

/// Writing the symbol stays within 32 bits for object `o`
pub open spec fn symbol_fits(o: ObjectView, symbol: char, bg: u8, fg: u8, sb: Bounds) -> bool {
    let m = o.sprite.body;
    let area = sb.spec_minus(pos2d(o.pos));
    let fv = symbol_frames(m, symbol, bg, fg, area);
    &&& sb.spec_position().fits_minus(pos2d(o.pos))
    &&& area.spec_dimension().area() <= u16::MAX
    &&& area.edges_fit()
    &&& spread_fits(fv)
    &&& move_fits(o, normalized_bounds(fv))
}

/// Objects after writing the symbol over the area of the selected ones
pub open spec fn symbol_objects(objs: Seq<ObjectView>, symbol: char, bg: u8, fg: u8, sb: Bounds) -> Seq<
    ObjectView,
> {
    objs.map_values(|o: ObjectView| if o.selected { symbol_object(o, symbol, bg, fg, sb) } else { o })
}

/// What `apply_symbol_to_selected` does: the result and the scene and state after it
pub open spec fn apply_symbol_to_selected_outcome(symbol: char, w: WorldView, s: State, w2: WorldView, r: bool) -> bool {
    &&& (r == (selected_count(w.objects) > 0))
    &&& (({
        let sb = spec_subselection_bounds(w, s.spec_cursor(), s.current_offset());
        let f = s.frame();
        &&& w2.objects == symbol_objects(
            w.objects,
            symbol,
            frame_color(f, ColorMode::Bg),
            frame_color(f, ColorMode::Fg),
            sb,
        )
        &&& w2.bookmarks == w.bookmarks
        &&& w2.subselection == if r {
            None
        } else {
            w.subselection
        }
    }))
}

/// Writes the symbol in the selected colors over the selected region (or the cell under the
/// cursor) of each selected object; the region is dropped when an object is selected.
/// Returns whether an object is selected.
pub fn apply_symbol_to_selected(symbol: char, world: &mut World, state: &State) -> (r: bool)
    requires
        old(world).wf(),
        state.wf(),
        subselection_fits(old(world)@, state.spec_cursor(), state.current_offset()),
        ({
            let sb = spec_subselection_bounds(old(world)@, state.spec_cursor(), state.current_offset());
            let f = state.frame();
            forall|i: int|
                0 <= i < old(world)@.objects.len() && (#[trigger] old(world)@.objects[i]).selected
                    ==> symbol_fits(
                    old(world)@.objects[i],
                    symbol,
                    frame_color(f, ColorMode::Bg),
                    frame_color(f, ColorMode::Fg),
                    sb,
                )
        }),
    ensures
        final(world).wf(),
        apply_symbol_to_selected_outcome(symbol, old(world)@, *state, final(world)@, r),
{
    let bg = state.color(ColorMode::Bg);
    let fg = state.color(ColorMode::Fg);
    let sel_bounds = subselection_bounds(world, state);
    let ghost objs = world@.objects;
    let mut changed = false;
    let mut i: usize = 0;
    while i < world.objects.len()
        invariant
            world.wf(),
            i <= objs.len(),
            world@.objects.len() == objs.len(),
            forall|j: int|
                0 <= j < objs.len() && (#[trigger] objs[j]).selected ==> symbol_fits(objs[j], symbol, bg, fg, sel_bounds),
            forall|j: int|
                0 <= j < objs.len() ==> #[trigger] world@.objects[j] == if j < i {
                    symbol_objects(objs, symbol, bg, fg, sel_bounds)[j]
                } else {
                    objs[j]
                },
            changed == (selected_count(objs.take(i as int)) > 0),
            world@.bookmarks == old(world)@.bookmarks,
            world@.subselection == old(world)@.subselection,
        decreases objs.len() - i,
    {
        proof {
            crate::components::lemma_count_step(objs, i as int);
        }
        assert(world@.objects[i as int] == world.objects@[i as int]@);
        if world.objects[i].selected {
            let ghost prev = world@.objects;
            let mut o = world.take_object(i);
            let ghost o0 = o@;
            assert(symbol_fits(o0, symbol, bg, fg, sel_bounds));
            let rel = sel_bounds.minus(Position2D::from_position(o.pos));
            assert(o.sprite.body.fv().update(
                o.sprite.body.index as int,
                frame_with_symbol(o.sprite.body.current(), symbol, bg, fg, rel),
            ) == symbol_frames(o0.sprite.body, symbol, bg, fg, rel));
            let b = o.sprite.body.apply_symbol(symbol, bg, fg, rel);
            let p = b.position();
            o.pos = Position { x: o.pos.x + p.x, y: o.pos.y + p.y, z: o.pos.z };
            o.dim = b.dimension();
            assert(o@ == symbol_objects(objs, symbol, bg, fg, sel_bounds)[i as int]);
            world.put_back(i, o);
            assert(world@.objects =~= prev.update(i as int, symbol_objects(objs, symbol, bg, fg, sel_bounds)[i as int]));
            changed = true;
        }
        i = i + 1;
    }
    assert(objs.take(objs.len() as int) =~= objs);
    assert(world@.objects =~= symbol_objects(objs, symbol, bg, fg, sel_bounds));
    if changed {
        world.clear_subselection();
    }
    changed
}

} // verus!
