//! The region being selected, shaded in edit mode and in region selection mode.

use crate::common::{Mode, SelectMode};
use crate::components::World;
use crate::resources::sync_term::{shade_all, SyncTerm};
use crate::resources::{ColorPalette, State};
use crate::texel_types::{SymbolStyles, Texel, DEFAULT_FG_U8};
use vstd::prelude::*;

verus! {

/// Whether the mode shows the region being selected
pub open spec fn shows_subselection(mode: Mode) -> bool {
    mode == Mode::Edit || mode == Mode::Object(SelectMode::Region)
}

/// The region being selected on `cells`, shaded when `mode` shows it
pub open spec fn with_subselection(
    size_x: int,
    size_y: int,
    origin: int,
    cells: Seq<Texel>,
    world: World,
    mode: Mode,
) -> Seq<Texel> {
    match world.subselection {
        Some((pos, dim, _)) => if shows_subselection(mode) {
            shade_all(size_x, size_y, origin, cells, pos.spec_area_texels(dim), (0xE8 + 10) as u8)
        } else {
            cells
        },
        None => cells,
    }
}

/// Gives the cells of the region being selected the selection background, in edit mode and
/// in region selection mode
pub fn render_subselections(world: &World, state: &State, out: &mut SyncTerm)
    requires
        old(out).wf(),
        state.wf(),
        world.subselection matches Some((p, d, _)) ==> p.x + d.w <= i32::MAX && p.y + d.h <= i32::MAX,
    ensures
        final(out).wf(),
        final(out).width() == old(out).width(),
        final(out).height() == old(out).height(),
        final(out).origin() == old(out).origin(),
        final(out).previous() == old(out).previous(),
        final(out).cursor() == old(out).cursor(),
        final(out).current() == with_subselection(
            old(out).width(),
            old(out).height(),
            old(out).origin(),
            old(out).current(),
            *world,
            state.spec_mode(),
        ),
{
    match state.mode() {
        Mode::Edit | Mode::Object(SelectMode::Region) => {},
        _ => return ,
    }
    let select_color = ColorPalette::subselection_bg_u8();
    if let Some((pos, dim, _)) = world.subselection {
        let cells = pos.area_texels(dim);
        let ghost (gw, gh, go) = (out.width(), out.height(), out.origin());
        let ghost c0 = out.current();
        let mut i: usize = 0;
        while i < cells.len()
            invariant
                out.wf(),
                out.width() == gw,
                out.height() == gh,
                out.origin() == go,
                out.previous() == old(out).previous(),
                out.cursor() == old(out).cursor(),
                c0 == old(out).current(),
                select_color == 0xE8 + 10,
                i <= cells@.len(),
                out.current() == shade_all(gw, gh, go, c0, cells@.take(i as int), select_color),
            decreases cells@.len() - i,
        {
            assert(cells@.take(i + 1).drop_last() =~= cells@.take(i as int));
            out.override_texel_bg(
                Texel { pos: cells[i], symbol: ' ', bg: select_color, fg: DEFAULT_FG_U8, styles: SymbolStyles::new() },
            );
            i = i + 1;
        }
        assert(cells@.take(cells@.len() as int) =~= cells@);
    }
}

} // verus!
