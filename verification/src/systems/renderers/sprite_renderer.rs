//! The scene on screen: every object's current frame, deepest first, a border around each
//! selected one, then the status of the selection; or the help topic's scene while help is
//! shown.

use crate::common::selected_info::{info_line, signed_decimal, SelectedInfo};
use crate::components::{ObjectView, World};
use crate::exporters::plaintext::{current_frame, lemma_order_range, sorted_by_depth, z_order};
use crate::resources::sync_term::{lemma_put_all_concat, put_all, SyncTerm};
use crate::resources::State;
use crate::systems::renderers::{border_fits, render_border, render_sprite, screen_texel, spec_border, sprite_fits};
use crate::texel_types::{current_objects, Position, Position2D, Scene, SpriteData, Texel, TexelV1};
use vstd::prelude::*;

verus! {

/// Keys that order the objects deepest first: their depths negated
pub open spec fn deeper_first_keys(objs: Seq<ObjectView>) -> Seq<i64> {
    objs.map_values(|o: ObjectView| (-(o.pos.z as int)) as i64)
}

/// Drawing order of the objects: deepest first, objects at one depth in scene order
pub open spec fn draw_order(objs: Seq<ObjectView>) -> Seq<int> {
    z_order(objs.len(), deeper_first_keys(objs))
}

/// The current frame of a sprite at `p`, on a screen showing the scene from `offset`
pub open spec fn frame_texels(s: SpriteData, p: Position, offset: Position2D) -> Seq<Texel> {
    current_frame(s).map_values(|t: TexelV1| screen_texel(t, p, offset))
}

/// What an object draws: its current frame, then its border when it is selected
pub open spec fn object_texels(o: ObjectView, offset: Position2D) -> Seq<Texel> {
    frame_texels(o.sprite, o.pos, offset) + if o.selected {
        spec_border(o.pos, o.dim, offset)
    } else {
        Seq::<Texel>::empty()
    }
}

/// What the objects at the indices `order` draw, in that order
pub open spec fn objects_texels(objs: Seq<ObjectView>, order: Seq<int>, offset: Position2D) -> Seq<Texel>
    decreases order.len(),
{
    if order.len() == 0 {
        Seq::empty()
    } else {
        objects_texels(objs, order.drop_last(), offset) + object_texels(objs[order.last()], offset)
    }
}

/// The selection status after counting the selected object `o`
pub open spec fn counted(info: SelectedInfo, o: ObjectView) -> SelectedInfo {
    let count = info.selected_count + 1;
    SelectedInfo {
        selected_count: count as usize,
        frame_index: o.sprite.body.index,
        frame_count: o.sprite.body.frames.len() as usize,
        pos: Position {
            x: if o.pos.x < info.pos.x {
                o.pos.x
            } else {
                info.pos.x
            },
            y: if o.pos.y < info.pos.y {
                o.pos.y
            } else {
                info.pos.y
            },
            z: if count > 1 {
                0
            } else {
                o.pos.z
            },
        },
        offset: info.offset,
    }
}

/// The selection status after counting the selected objects among those at the indices
/// `order`, in that order
pub open spec fn counted_all(info: SelectedInfo, objs: Seq<ObjectView>, order: Seq<int>) -> SelectedInfo
    decreases order.len(),
{
    if order.len() == 0 {
        info
    } else {
        let before = counted_all(info, objs, order.drop_last());
        if objs[order.last()].selected {
            counted(before, objs[order.last()])
        } else {
            before
        }
    }
}

/// The status of the selection on a screen showing the scene from `offset`
pub open spec fn selection_status(objs: Seq<ObjectView>, offset: Position2D) -> SelectedInfo {
    counted_all(
        SelectedInfo {
            selected_count: 0,
            frame_index: 0,
            frame_count: 0,
            pos: Position { x: i32::MAX, y: i32::MAX, z: 0 },
            offset,
        },
        objs,
        draw_order(objs),
    )
}

/// Every object's current frame exists, its frame and border stay within 32 bits, and the
/// status of the selection fits its line
pub open spec fn sprites_fit(objs: Seq<ObjectView>, offset: Position2D) -> bool {
    let status = selection_status(objs, offset);
    &&& objs.len() < usize::MAX
    &&& forall|i: int|
        0 <= i < objs.len() ==> {
            &&& (#[trigger] objs[i]).sprite.body.index < objs[i].sprite.body.frames.len()
            &&& sprite_fits(current_frame(objs[i].sprite), objs[i].pos, offset)
            &&& objs[i].selected ==> border_fits(objs[i].pos, objs[i].dim, offset)
        }
    &&& status.selected_count > 0 ==> signed_decimal(status.pos.x as int).len() <= 7 && (status.frame_index as i32)
        < i32::MAX
}

/// What the objects of a help scene draw, in scene order
pub open spec fn help_texels(objs: Seq<(SpriteData, Position)>, offset: Position2D) -> Seq<Texel>
    decreases objs.len(),
{
    if objs.len() == 0 {
        Seq::empty()
    } else {
        help_texels(objs.drop_last(), offset) + frame_texels(objs.last().0, objs.last().1, offset)
    }
}

/// Every object's current frame of a help scene exists and stays within 32 bits
pub open spec fn help_fits(objs: Seq<(SpriteData, Position)>, offset: Position2D) -> bool {
    forall|i: int|
        0 <= i < objs.len() ==> {
            &&& (#[trigger] objs[i]).0.body.index < objs[i].0.body.frames.len()
            &&& sprite_fits(current_frame(objs[i].0), objs[i].1, offset)
        }
}

/// What the scene layer draws on a screen `w` by `h`: the help scene while help is shown,
/// else the objects and the status of the selection
pub open spec fn scene_layer(world: World, state: State, help: Option<Scene>, w: int, h: int) -> Seq<Texel> {
    let offset = state.current_offset();
    if state.spec_show_help() is Some {
        match help {
            Some(s) => help_texels(current_objects(s@), offset),
            None => Seq::empty(),
        }
    } else {
        let objs = world@.objects;
        objects_texels(objs, draw_order(objs), offset) + info_line(
            selection_status(objs, offset),
            state.spec_selected_color(),
            state.spec_unsaved_changes(),
            w as u16,
            h as u16,
        )
    }
}

/// Draws the help topic's scene `help` while help is shown; else every object's current
/// frame, deepest first (objects at one depth in scene order), a border around each selected
/// one, and the status of the selection on the bottom row
pub fn render_sprites(world: &World, state: &State, help: Option<Scene>, out: &mut SyncTerm)
    requires
        old(out).wf(),
        state.wf(),
        state.spec_show_help() is None ==> sprites_fit(world@.objects, state.current_offset()),
        help matches Some(s) ==> help_fits(current_objects(s@), state.current_offset()),
    ensures
        final(out).wf(),
        final(out).width() == old(out).width(),
        final(out).height() == old(out).height(),
        final(out).origin() == old(out).origin(),
        final(out).previous() == old(out).previous(),
        final(out).cursor() == old(out).cursor(),
        final(out).current() == put_all(
            old(out).width(),
            old(out).height(),
            old(out).origin(),
            old(out).current(),
            scene_layer(*world, *state, help, old(out).width(), old(out).height()),
        ),
{
    let offset = state.offset();
    let ghost (gw, gh, go) = (out.width(), out.height(), out.origin());
    let ghost c0 = out.current();
    if state.show_help().is_some() {
        match help {
            Some(scene) => {
                let ghost objs = current_objects(scene@);
                let current = scene.current();
                let mut i: usize = 0;
                while i < current.objects.len()
                    invariant
                        current@.objects == objs,
                        forall|k: int|
                            0 <= k < current.objects@.len() ==> (#[trigger] current.objects@[k]).0.body@ == objs[k].0.body,
                        help_fits(objs, offset),
                        i <= objs.len(),
                        out.wf(),
                        out.width() == gw,
                        out.height() == gh,
                        out.origin() == go,
                        out.previous() == old(out).previous(),
                        out.cursor() == old(out).cursor(),
                        out.current() == put_all(gw, gh, go, c0, help_texels(objs.take(i as int), offset)),
                    decreases objs.len() - i,
                {
                    let o = &current.objects[i];
                    assert(current@.objects[i as int].1 == o.1);
                    assert(o.0.body@ == objs[i as int].0.body);
                    assert(objs.take(i + 1).drop_last() =~= objs.take(i as int));
                    let texels = render_sprite(&o.0.body, o.1, offset);
                    let ghost c = out.current();
                    out.write_texels(texels);
                    proof {
                        lemma_put_all_concat(gw, gh, go, c0, help_texels(objs.take(i as int), offset), texels@);
                        assert(texels@ =~= frame_texels(objs[i as int].0, objs[i as int].1, offset));
                    }
                    i = i + 1;
                }
                assert(objs.take(objs.len() as int) =~= objs);
            },
            None => {
                assert(put_all(gw, gh, go, c0, Seq::<Texel>::empty()) == c0);
            },
        }
        return;
    }
    let ghost objs = world@.objects;
    let ghost keys = deeper_first_keys(objs);
    let mut key_list: Vec<i64> = Vec::new();
    let mut i: usize = 0;
    while i < world.objects.len()
        invariant
            objs == world@.objects,
            keys == deeper_first_keys(objs),
            i <= objs.len(),
            key_list@ == keys.take(i as int),
        decreases objs.len() - i,
    {
        assert(keys[i as int] == (-(world.objects@[i as int].pos.z as int)) as i64);
        key_list.push(-(world.objects[i].pos.z as i64));
        assert(keys.take(i + 1) =~= keys.take(i as int).push(keys[i as int]));
        i = i + 1;
    }
    assert(keys.take(objs.len() as int) =~= keys);
    let order = sorted_by_depth(&key_list);
    proof {
        lemma_order_range(objs.len(), keys);
    }
    let ghost ord = draw_order(objs);
    let mut info = SelectedInfo::from_offset(offset);
    let mut k: usize = 0;
    while k < order.len()
        invariant
            objs == world@.objects,
            keys == deeper_first_keys(objs),
            ord == z_order(objs.len(), keys),
            sprites_fit(objs, offset),
            order@.len() == objs.len(),
            ord.len() == objs.len(),
            forall|m: int| 0 <= m < order@.len() ==> #[trigger] order@[m] as int == ord[m],
            forall|m: int| 0 <= m < objs.len() ==> 0 <= #[trigger] ord[m] < objs.len(),
            k <= order@.len(),
            info == counted_all(
                SelectedInfo {
                    selected_count: 0,
                    frame_index: 0,
                    frame_count: 0,
                    pos: Position { x: i32::MAX, y: i32::MAX, z: 0 },
                    offset,
                },
                objs,
                ord.take(k as int),
            ),
            info.selected_count <= k,
            out.wf(),
            out.width() == gw,
            out.height() == gh,
            out.origin() == go,
            out.previous() == old(out).previous(),
            out.cursor() == old(out).cursor(),
            out.current() == put_all(gw, gh, go, c0, objects_texels(objs, ord.take(k as int), offset)),
        decreases order@.len() - k,
    {
        let idx = order[k];
        assert(0 <= ord[k as int] < objs.len());
        let o = &world.objects[idx];
        let ghost ov = objs[idx as int];
        assert(ov == world.objects@[idx as int]@);
        assert(ord.take(k + 1).drop_last() =~= ord.take(k as int));
        assert(ord.take(k + 1).last() == idx as int);
        let ghost c = out.current();
        let texels = render_sprite(&o.sprite.body, o.pos, offset);
        out.write_texels(texels);
        proof {
            assert(texels@ =~= frame_texels(ov.sprite, ov.pos, offset));
        }
        if o.selected {
            let border = render_border(o.pos, o.dim, offset);
            let ghost c1 = out.current();
            out.write_texels(border);
            info.append(&o.sprite, &o.pos);
            proof {
                lemma_put_all_concat(gw, gh, go, c, texels@, border@);
            }
        } else {
            proof {
                assert(texels@ + Seq::<Texel>::empty() =~= texels@);
            }
        }
        proof {
            lemma_put_all_concat(gw, gh, go, c0, objects_texels(objs, ord.take(k as int), offset), object_texels(ov, offset));
        }
        k = k + 1;
    }
    assert(ord.take(objs.len() as int) =~= ord);
    let (sx, sy) = out.size();
    let ghost c2 = out.current();
    let line = info.texels(state, sx as u16, sy as u16);
    out.write_texels(line);
    proof {
        lemma_put_all_concat(gw, gh, go, c0, objects_texels(objs, ord, offset), line@);
    }
}

} // verus!
