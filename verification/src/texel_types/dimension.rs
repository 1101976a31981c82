use crate::texel_types::{Position2D, SpriteV1};
use vstd::prelude::*;

verus! {

/// 2D dimension of up to 16 bit size
#[derive(Debug, Clone, Copy, PartialEq, Eq, Structural)]
pub struct Dimension {
    pub w: u16,
    pub h: u16,
}

impl Dimension {
    pub open spec fn area(self) -> int {
        self.w * self.h
    }

    /// Width/height pair with the size of each side saturating at zero
    pub open spec fn spec_minus_dim(self, other: Self) -> Dimension {
        Dimension {
            w: (if other.w > self.w { 0 } else { self.w - other.w }) as u16,
            h: (if other.h > self.h { 0 } else { self.h - other.h }) as u16,
        }
    }

    /// Width/height pair with the size of each side saturating at zero
    pub fn saturating_minus(self, other: Self) -> (r: Dimension)
        ensures
            r == self.spec_minus_dim(other),
            r.w == (if other.w > self.w { 0 } else { self.w - other.w }),
            r.h == (if other.h > self.h { 0 } else { self.h - other.h }),
    {
        let w = if other.w > self.w { 0 } else { self.w - other.w };
        let h = if other.h > self.h { 0 } else { self.h - other.h };
        Dimension { w, h }
    }

    /// Single unit size dimension (w = 1, h = 1)
    pub fn unit() -> (r: Self)
        ensures
            r == (Dimension { w: 1, h: 1 }),
    {
        Dimension { w: 1, h: 1 }
    }

    /// Area size as w * h; the product is computed in 16 bits.
    pub fn size(self) -> (r: usize)
        requires
            self.w * self.h <= u16::MAX,
        ensures
            r == self.w * self.h,
    {
        proof {
            assert(self.w * self.h >= 0) by (nonlinear_arith);
        }
        (self.w * self.h) as usize
    }

    /// Dimension of the area between two corners, unit size for the same point
    pub fn for_area(top_left: Position2D, bottom_right: Position2D) -> (r: Self)
        ensures
            r.w == (bottom_right.x - top_left.x + 1) as u16,
            r.h == (bottom_right.y - top_left.y + 1) as u16,
    {
        Dimension {
            w: (bottom_right.x as i64 - top_left.x as i64 + 1) as u16,
            h: (bottom_right.y as i64 - top_left.y as i64 + 1) as u16,
        }
    }

    /// Arbitrary width and height
    pub fn from_wh(w: u16, h: u16) -> (r: Self)
        ensures
            r == (Dimension { w, h }),
    {
        Dimension { w, h }
    }

    /// Dimension from a (w, h) pair
    pub fn from_pair(source: (u16, u16)) -> (r: Self)
        ensures
            r == (Dimension { w: source.0, h: source.1 }),
    {
        Dimension { w: source.0, h: source.1 }
    }

    /// Dimension covering all texels of the sprite measured from the origin:
    /// one more than the largest coordinate (at least 1), zero when that does not fit 16 bits.
    pub fn for_sprite(sprite: &SpriteV1) -> (r: Self)
        requires
            sprite.coords_below_max(),
        ensures
            r.w == u16_or_zero(crate::texel_types::max_x_seq(crate::texel_types::flat(sprite.fv())) + 1),
            r.h == u16_or_zero(crate::texel_types::max_y_seq(crate::texel_types::flat(sprite.fv())) + 1),
    {
        let (w32, h32) = sprite.max_coords();
        proof {
            crate::texel_types::lemma_max_below(crate::texel_types::flat(sprite.fv()));
        }
        let w32 = w32 + 1;
        let h32 = h32 + 1;
        Dimension { w: i32_to_u16_or_zero(w32), h: i32_to_u16_or_zero(h32) }
    }
}

/// `v` as a 16 bit width when it fits, zero otherwise.
pub open spec fn u16_or_zero(v: int) -> u16 {
    if 0 <= v <= u16::MAX {
        v as u16
    } else {
        0
    }
}

fn i32_to_u16_or_zero(v: i32) -> (r: u16)
    ensures
        r == u16_or_zero(v as int),
{
    if 0 <= v && v <= 0xffff {
        v as u16
    } else {
        0
    }
}

} // verus!
