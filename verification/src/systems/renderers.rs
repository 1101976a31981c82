//! What is drawn on screen, as texels in screen coordinates and in drawing order; the
//! program writes them to the terminal.

pub mod cmdline_renderer;
pub mod meta_renderer;
pub mod sprite_renderer;
pub mod subselection_renderer;

use crate::resources::sync_term::{blank_screen, SyncTerm};
use crate::texel_types::{
    Dimension, Position, Position2D, SpriteV1, SymbolStyles, Texel, TexelV1, DEFAULT_BG_U8, DEFAULT_FG_U8,
};
use vstd::prelude::*;

verus! {

/// Starts each frame: the screen drawn last becomes the one shown, and the other is blanked
/// for drawing
pub struct ClearScreen;

impl ClearScreen {
    /// Flips the screen's buffers
    pub fn run(&mut self, out: &mut SyncTerm)
        requires
            old(out).wf(),
        ensures
            final(out).wf(),
            final(out).width() == old(out).width(),
            final(out).height() == old(out).height(),
            final(out).origin() == old(out).origin(),
            final(out).previous() == old(out).current(),
            final(out).current() == blank_screen(old(out).width(), old(out).height(), old(out).origin()),
            final(out).cursor() == old(out).cursor(),
    {
        out.flip_buffers();
    }
}

/// A border texel of `symbol` at scene position (`x`, `y`), drawn on a screen showing the
/// scene from `offset`
pub open spec fn border_texel(symbol: char, x: int, y: int, offset: Position2D) -> Texel {
    Texel {
        symbol,
        pos: Position2D { x: (x - offset.x) as i32, y: (y - offset.y) as i32 },
        styles: SymbolStyles::spec_empty(),
        bg: DEFAULT_BG_U8,
        fg: DEFAULT_FG_U8,
    }
}

/// Left edge of the border of an object at `p`: one column before it, but not left of 0
pub open spec fn border_left(p: Position) -> int {
    if p.x - 1 > 0 {
        p.x - 1
    } else {
        0
    }
}

/// Top edge of the border of an object at `p`: one row above it, but not above 0
pub open spec fn border_top(p: Position) -> int {
    if p.y - 1 > 0 {
        p.y - 1
    } else {
        0
    }
}

/// The border around an object at `p` of size `d`: the sides (`|`) row by row from the
/// top, left then right, then the top (`-`) and bottom (`_`) column by column from the left
pub open spec fn spec_border(p: Position, d: Dimension, offset: Position2D) -> Seq<Texel> {
    let x0 = border_left(p);
    let y0 = border_top(p);
    let bw = d.w + 1;
    let bh = d.h + 1;
    let sides = 2 * (bh + 1);
    Seq::new(
        (sides + 2 * (bw + 1)) as nat,
        |i: int|
            if i < sides {
                if i % 2 == 0 {
                    border_texel('|', x0, y0 + i / 2, offset)
                } else {
                    border_texel('|', x0 + bw, y0 + i / 2, offset)
                }
            } else {
                let j = i - sides;
                if j % 2 == 0 {
                    border_texel('-', x0 + j / 2, y0, offset)
                } else {
                    border_texel('_', x0 + j / 2, y0 + bh, offset)
                }
            },
    )
}

/// The border's coordinates stay within 32 bits, on the scene and on the screen
pub open spec fn border_fits(p: Position, d: Dimension, offset: Position2D) -> bool {
    &&& d.w < u16::MAX
    &&& d.h < u16::MAX
    &&& p.x > i32::MIN
    &&& p.y > i32::MIN
    &&& border_left(p) + d.w + 1 <= i32::MAX
    &&& border_top(p) + d.h + 1 <= i32::MAX
    &&& i32::MIN <= border_left(p) - offset.x
    &&& border_left(p) + d.w + 1 - offset.x <= i32::MAX
    &&& i32::MIN <= border_top(p) - offset.y
    &&& border_top(p) + d.h + 1 - offset.y <= i32::MAX
}

fn texel_at(symbol: char, x: i32, y: i32, offset: Position2D) -> (r: Texel)
    requires
        i32::MIN <= x - offset.x <= i32::MAX,
        i32::MIN <= y - offset.y <= i32::MAX,
    ensures
        r == border_texel(symbol, x as int, y as int, offset),
{
    Texel {
        symbol,
        pos: Position2D { x: x - offset.x, y: y - offset.y },
        styles: SymbolStyles::new(),
        bg: DEFAULT_BG_U8,
        fg: DEFAULT_FG_U8,
    }
}

/// The border drawn around a selected object at `p` of size `d`, on a screen showing the
/// scene from `offset`
pub fn render_border(p: Position, d: Dimension, offset: Position2D) -> (r: Vec<Texel>)
    requires
        border_fits(p, d, offset),
    ensures
        r@ == spec_border(p, d, offset),
{
    let min_x: i32 = if p.x - 1 > 0 {
        p.x - 1
    } else {
        0
    };
    let min_y: i32 = if p.y - 1 > 0 {
        p.y - 1
    } else {
        0
    };
    let b_w: i32 = (d.w + 1) as i32;
    let b_h: i32 = (d.h + 1) as i32;
    let ghost target = spec_border(p, d, offset);
    let mut result: Vec<Texel> = Vec::new();
    let mut k: i32 = 0;
    while k <= b_h
        invariant
            min_x == border_left(p),
            min_y == border_top(p),
            b_w == d.w + 1,
            b_h == d.h + 1,
            border_fits(p, d, offset),
            target == spec_border(p, d, offset),
            0 <= k <= b_h + 1,
            result@.len() == 2 * k,
            forall|i: int| 0 <= i < result@.len() ==> #[trigger] result@[i] == target[i],
        decreases b_h + 1 - k,
    {
        let y = min_y + k;
        result.push(texel_at('|', min_x, y, offset));
        result.push(texel_at('|', min_x + b_w, y, offset));
        proof {
            assert((2 * k) / 2 == k && (2 * k) % 2 == 0);
            assert((2 * k + 1) / 2 == k && (2 * k + 1) % 2 == 1);
        }
        k = k + 1;
    }
    let ghost sides = 2 * (b_h + 1);
    let mut k: i32 = 0;
    while k <= b_w
        invariant
            min_x == border_left(p),
            min_y == border_top(p),
            b_w == d.w + 1,
            b_h == d.h + 1,
            sides == 2 * (b_h + 1),
            border_fits(p, d, offset),
            target == spec_border(p, d, offset),
            0 <= k <= b_w + 1,
            result@.len() == sides + 2 * k,
            forall|i: int| 0 <= i < result@.len() ==> #[trigger] result@[i] == target[i],
        decreases b_w + 1 - k,
    {
        let x = min_x + k;
        result.push(texel_at('-', x, min_y, offset));
        result.push(texel_at('_', x, min_y + b_h, offset));
        proof {
            assert((2 * k) / 2 == k && (2 * k) % 2 == 0);
            assert((2 * k + 1) / 2 == k && (2 * k + 1) % 2 == 1);
        }
        k = k + 1;
    }
    assert(result@ =~= target);
    result
}

/// A sprite texel of an object at `p`, drawn on a screen showing the scene from `offset`
pub open spec fn screen_texel(t: TexelV1, p: Position, offset: Position2D) -> Texel {
    Texel {
        pos: Position2D { x: (p.x + t.x - offset.x) as i32, y: (p.y + t.y - offset.y) as i32 },
        symbol: t.symbol,
        styles: t.styles,
        fg: t.fg,
        bg: t.bg,
    }
}

/// The texels of the current frame of a sprite at `p` stay within 32 bits, on the scene
/// and on the screen
pub open spec fn sprite_fits(ts: Seq<TexelV1>, p: Position, offset: Position2D) -> bool {
    forall|k: int|
        0 <= k < ts.len() ==> {
            &&& i32::MIN <= p.x + (#[trigger] ts[k]).x <= i32::MAX
            &&& i32::MIN <= p.y + ts[k].y <= i32::MAX
            &&& i32::MIN <= p.x + ts[k].x - offset.x <= i32::MAX
            &&& i32::MIN <= p.y + ts[k].y - offset.y <= i32::MAX
        }
}

/// The current frame of a sprite at `p`, in its order, on a screen showing the scene from
/// `offset`
pub fn render_sprite(sprite: &SpriteV1, p: Position, offset: Position2D) -> (r: Vec<Texel>)
    requires
        sprite.wf(),
        sprite_fits(sprite.current(), p, offset),
    ensures
        r@ == sprite.current().map_values(|t: TexelV1| screen_texel(t, p, offset)),
{
    let frame = sprite.frame_iter();
    let mut result: Vec<Texel> = Vec::new();
    let mut i: usize = 0;
    while i < frame.len()
        invariant
            frame@ == sprite.current(),
            sprite_fits(sprite.current(), p, offset),
            i <= frame@.len(),
            result@.len() == i,
            forall|k: int| 0 <= k < i ==> #[trigger] result@[k] == screen_texel(frame@[k], p, offset),
        decreases frame@.len() - i,
    {
        let t = frame[i];
        assert(i32::MIN <= p.x + frame@[i as int].x <= i32::MAX);
        let x = p.x + t.x;
        let y = p.y + t.y;
        result.push(
            Texel {
                pos: Position2D { x: x - offset.x, y: y - offset.y },
                symbol: t.symbol,
                styles: t.styles,
                fg: t.fg,
                bg: t.bg,
            },
        );
        i = i + 1;
    }
    assert(result@ =~= sprite.current().map_values(|t: TexelV1| screen_texel(t, p, offset)));
    result
}

} // verus!
