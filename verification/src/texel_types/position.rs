use crate::texel_types::Dimension;
use vstd::prelude::*;

verus! {

/// 3D position
#[derive(Debug, Clone, Copy, PartialEq, Eq, Structural)]
pub struct Position {
    pub x: i32,
    pub y: i32,
    pub z: i32,
}

/// 2D position
#[derive(Debug, Clone, Copy, PartialEq, Eq, Structural)]
pub struct Position2D {
    pub x: i32,
    pub y: i32,
}

/// Two dimensional boundary; binding bounds constrain movement to their area,
/// free bounds only describe an area.
#[derive(Debug, Clone, Copy, PartialEq, Eq, Structural)]
pub enum Bounds {
    Binding(Position2D, Dimension),
    Free(Position2D, Dimension),
}

/// Direction towards an edge
#[derive(Debug, Clone, Copy, PartialEq, Eq, Structural)]
pub enum Direction {
    Left,
    Top,
    Bottom,
    Right,
}

/// Translation operation
#[derive(Debug, Clone, Copy, PartialEq, Eq, Structural)]
pub enum Translation {
    /// No movement
    Stay,
    /// Relative to the current position
    Relative(i32, i32, i32),
    /// Absolute, with optional Z coordinate
    Absolute(i32, i32, Option<i32>),
    /// To the edge of the bounding area in the given direction
    ToEdge(Direction),
}

impl Position2D {
    pub fn from_xy(x: i32, y: i32) -> (r: Self)
        ensures
            r == (Position2D { x, y }),
    {
        Position2D { x, y }
    }

    pub open spec fn spec_plus(self, other: Position2D) -> Position2D {
        Position2D { x: (self.x + other.x) as i32, y: (self.y + other.y) as i32 }
    }

    pub open spec fn spec_minus(self, other: Position2D) -> Position2D {
        Position2D { x: (self.x - other.x) as i32, y: (self.y - other.y) as i32 }
    }

    pub open spec fn fits_plus(self, other: Position2D) -> bool {
        i32::MIN <= self.x + other.x <= i32::MAX && i32::MIN <= self.y + other.y <= i32::MAX
    }

    pub open spec fn fits_minus(self, other: Position2D) -> bool {
        i32::MIN <= self.x - other.x <= i32::MAX && i32::MIN <= self.y - other.y <= i32::MAX
    }

    /// Component-wise sum
    pub fn plus(self, other: Position2D) -> (r: Position2D)
        requires
            self.fits_plus(other),
        ensures
            r == self.spec_plus(other),
    {
        Position2D { x: self.x + other.x, y: self.y + other.y }
    }

    /// Component-wise difference
    pub fn minus(self, other: Position2D) -> (r: Position2D)
        requires
            self.fits_minus(other),
        ensures
            r == self.spec_minus(other),
    {
        Position2D { x: self.x - other.x, y: self.y - other.y }
    }

    /// The 2D part of a 3D position
    pub fn from_position(pos: Position) -> (r: Position2D)
        ensures
            r == (Position2D { x: pos.x, y: pos.y }),
    {
        Position2D { x: pos.x, y: pos.y }
    }

    pub open spec fn spec_area(self, other: Position2D) -> Bounds {
        let left = if self.x <= other.x { self.x } else { other.x };
        let top = if self.y <= other.y { self.y } else { other.y };
        let right = if self.x <= other.x { other.x } else { self.x };
        let bottom = if self.y <= other.y { other.y } else { self.y };
        Bounds::Binding(
            Position2D { x: left, y: top },
            Dimension { w: (right - left + 1) as u16, h: (bottom - top + 1) as u16 },
        )
    }

    /// Cell `k` of the area `dim` with its top left corner here: column after column, each
    /// from the top down
    pub open spec fn spec_area_texel(self, dim: Dimension, k: int) -> Position2D {
        Position2D { x: (self.x + k / (dim.h as int)) as i32, y: (self.y + k % (dim.h as int)) as i32 }
    }

    /// The cells of the area `dim` with its top left corner here, column after column
    pub open spec fn spec_area_texels(self, dim: Dimension) -> Seq<Position2D> {
        Seq::new((dim.w * dim.h) as nat, |k: int| self.spec_area_texel(dim, k))
    }

    /// The cells of the area `dim` with its top left corner here, column after column, each
    /// from the top down
    pub fn area_texels(self, dim: Dimension) -> (r: Vec<Position2D>)
        requires
            self.x + dim.w <= i32::MAX,
            self.y + dim.h <= i32::MAX,
        ensures
            r@ == self.spec_area_texels(dim),
    {
        let mut result: Vec<Position2D> = Vec::new();
        let ghost all = self.spec_area_texels(dim);
        let w = dim.w as i32;
        let h = dim.h as i32;
        let mut x: i32 = 0;
        while x < w
            invariant
                self.x + dim.w <= i32::MAX,
                self.y + dim.h <= i32::MAX,
                w == dim.w,
                h == dim.h,
                0 <= x <= w,
                all == self.spec_area_texels(dim),
                result@ == all.take(x * h),
            decreases w - x,
        {
            let mut y: i32 = 0;
            while y < h
                invariant
                    self.x + dim.w <= i32::MAX,
                    self.y + dim.h <= i32::MAX,
                    w == dim.w,
                    h == dim.h,
                    0 <= x < w,
                    0 <= y <= h,
                    all == self.spec_area_texels(dim),
                    result@ == all.take(x * h + y),
                decreases h - y,
            {
                let ghost k: int = x * h + y;
                assert(x * h + y < w * h) by (nonlinear_arith)
                    requires
                        0 <= x < w,
                        0 <= y < h,
                ;
                assert(k / (h as int) == x && k % (h as int) == y) by (nonlinear_arith)
                    requires
                        k == x * h + y,
                        0 <= y < h,
                        x >= 0,
                ;
                assert(all.take(k + 1) =~= all.take(k).push(all[k]));
                result.push(Position2D { x: self.x + x, y: self.y + y });
                y = y + 1;
            }
            assert(x * h + h == (x + 1) * h) by (nonlinear_arith);
            x = x + 1;
        }
        assert(all.len() == w * h);
        assert(all.take(w * h) =~= all);
        result
    }

    /// Binding bounds spanning the rectangle between two corner points
    pub fn area(self, other: Position2D) -> (r: Bounds)
        requires
            self.x - other.x < i32::MAX,
            other.x - self.x < i32::MAX,
            self.y - other.y < i32::MAX,
            other.y - self.y < i32::MAX,
        ensures
            r == self.spec_area(other),
    {
        let top_left = Position2D {
            x: if self.x <= other.x { self.x } else { other.x },
            y: if self.y <= other.y { self.y } else { other.y },
        };
        let bottom_right = Position2D {
            x: if self.x <= other.x { other.x } else { self.x },
            y: if self.y <= other.y { other.y } else { self.y },
        };
        let dim = Dimension::for_area(top_left, bottom_right);
        Bounds::Binding(top_left, dim)
    }

    /// Applies `translation` within `bounds`, like `Position::apply` with z = 0;
    /// the position is only updated when the move stays inside binding bounds.
    pub fn apply(&mut self, translation: Translation, bounds: Bounds) -> (r: bool)
        requires
            Position::apply_fits(Position { x: old(self).x, y: old(self).y, z: 0 }, translation, bounds),
        ensures
            ({
                let (p, ok) = Position::spec_apply(
                    Position { x: old(self).x, y: old(self).y, z: 0 },
                    translation,
                    bounds,
                );
                &&& r == ok
                &&& *final(self) == if ok { Position2D { x: p.x, y: p.y } } else { *old(self) }
            }),
    {
        let mut pos3d = Position { x: self.x, y: self.y, z: 0 };
        if pos3d.apply(translation, bounds) {
            self.x = pos3d.x;
            self.y = pos3d.y;
            true
        } else {
            false
        }
    }
}

impl Position {
    pub open spec fn spec_plus_2d(self, other: Position2D) -> Position {
        Position { x: (self.x + other.x) as i32, y: (self.y + other.y) as i32, z: self.z }
    }

    /// This position moved by a 2D offset, z kept
    pub fn plus_2d(self, other: Position2D) -> (r: Position)
        requires
            i32::MIN <= self.x + other.x <= i32::MAX,
            i32::MIN <= self.y + other.y <= i32::MAX,
        ensures
            r == self.spec_plus_2d(other),
    {
        Position { x: self.x + other.x, y: self.y + other.y, z: self.z }
    }

    /// The position after the translation, before binding bounds are enforced.
    pub open spec fn translated(self, translation: Translation, bounds: Bounds) -> Position {
        match translation {
            Translation::Stay => self,
            Translation::Relative(x, y, z) => Position {
                x: (self.x + x) as i32,
                y: (self.y + y) as i32,
                z: (self.z + z) as i32,
            },
            Translation::Absolute(x, y, z) => Position {
                x,
                y,
                z: match z {
                    Some(z) => z,
                    None => self.z,
                },
            },
            Translation::ToEdge(dir) => match dir {
                Direction::Left => Position { x: bounds.spec_position().x, ..self },
                Direction::Top => Position { y: bounds.spec_position().y, ..self },
                Direction::Bottom => Position { y: bounds.spec_bottom() as i32, ..self },
                Direction::Right => Position { x: bounds.spec_right() as i32, ..self },
            },
        }
    }

    /// No step of `apply` overflows 32 bits.
    pub open spec fn apply_fits(self, translation: Translation, bounds: Bounds) -> bool {
        &&& bounds.edges_fit()
        &&& match translation {
            Translation::Relative(x, y, z) => {
                &&& i32::MIN <= self.x + x <= i32::MAX
                &&& i32::MIN <= self.y + y <= i32::MAX
                &&& i32::MIN <= self.z + z <= i32::MAX
            },
            _ => true,
        }
    }

    /// Result of `apply`: the new position and whether the move was accepted by the bounds.
    /// A binding area clamps the first violated side (left, top, right, bottom in that order)
    /// and reports the move as rejected.
    pub open spec fn spec_apply(self, translation: Translation, bounds: Bounds) -> (Position, bool) {
        let t = self.translated(translation, bounds);
        match bounds {
            Bounds::Binding(p, _) => if t.x < p.x {
                (Position { x: p.x, ..t }, false)
            } else if t.y < p.y {
                (Position { y: p.y, ..t }, false)
            } else if t.x > bounds.spec_right() {
                (Position { x: bounds.spec_right() as i32, ..t }, false)
            } else if t.y > bounds.spec_bottom() {
                (Position { y: bounds.spec_bottom() as i32, ..t }, false)
            } else {
                (t, true)
            },
            Bounds::Free(_, _) => (t, true),
        }
    }

    /// Applies `translation` with regard to `bounds`: binding bounds keep the
    /// position inside their area. Returns whether the move was accepted.
    pub fn apply(&mut self, translation: Translation, bounds: Bounds) -> (r: bool)
        requires
            old(self).apply_fits(translation, bounds),
        ensures
            (*final(self), r) == old(self).spec_apply(translation, bounds),
    {
        match translation {
            Translation::Stay => {},
            Translation::Relative(x, y, z) => {
                self.x = self.x + x;
                self.y = self.y + y;
                self.z = self.z + z;
            },
            Translation::Absolute(x, y, z) => {
                self.x = x;
                self.y = y;
                if let Some(z) = z {
                    self.z = z;
                }
            },
            Translation::ToEdge(dir) => match dir {
                Direction::Left => self.x = bounds.position().x,
                Direction::Top => self.y = bounds.position().y,
                Direction::Bottom => self.y = bounds.bottom(),
                Direction::Right => self.x = bounds.right(),
            },
        }

        match bounds {
            Bounds::Binding(p, _) => {
                if self.x < p.x {
                    self.x = p.x;
                    false
                } else if self.y < p.y {
                    self.y = p.y;
                    false
                } else if self.x > bounds.right() {
                    self.x = bounds.right();
                    false
                } else if self.y > bounds.bottom() {
                    self.y = bounds.bottom();
                    false
                } else {
                    true
                }
            },
            _ => true,
        }
    }
}

impl Bounds {
    pub open spec fn spec_position(self) -> Position2D {
        match self {
            Bounds::Binding(p, _) => p,
            Bounds::Free(p, _) => p,
        }
    }

    pub open spec fn spec_dimension(self) -> Dimension {
        match self {
            Bounds::Binding(_, d) => d,
            Bounds::Free(_, d) => d,
        }
    }

    pub open spec fn spec_right(self) -> int {
        self.spec_position().x + self.spec_dimension().w - 1
    }

    pub open spec fn spec_bottom(self) -> int {
        self.spec_position().y + self.spec_dimension().h - 1
    }

    /// Right and bottom edges are representable in 32 bits.
    pub open spec fn edges_fit(self) -> bool {
        &&& i32::MIN <= self.spec_right() < i32::MAX
        &&& i32::MIN <= self.spec_bottom() < i32::MAX
    }

    /// `other` lies inside the area.
    pub open spec fn spec_contains(self, other: Position2D) -> bool {
        let pos = self.spec_position();
        let dim = self.spec_dimension();
        pos.x <= other.x < pos.x + dim.w && pos.y <= other.y < pos.y + dim.h
    }

    pub open spec fn spec_intersects(self, pos: Position2D, dim: Dimension) -> bool {
        let p = self.spec_position();
        let d = self.spec_dimension();
        p.x < pos.x + dim.w && p.x + d.w > pos.x && p.y < pos.y + dim.h && p.y + d.h > pos.y
    }

    /// Empty free bounds at the origin
    pub fn empty() -> (r: Self)
        ensures
            r == Bounds::Free(Position2D { x: 0, y: 0 }, Dimension { w: 0, h: 0 }),
    {
        Bounds::Free(Position2D { x: 0, y: 0 }, Dimension { w: 0, h: 0 })
    }

    /// Binding unit area at the given point
    pub fn point(pos: Position2D) -> (r: Self)
        ensures
            r == Bounds::Binding(pos, Dimension { w: 1, h: 1 }),
    {
        Bounds::Binding(pos, Dimension::unit())
    }

    pub fn position(&self) -> (r: Position2D)
        ensures
            r == self.spec_position(),
    {
        match self {
            Bounds::Binding(p, _) => *p,
            Bounds::Free(p, _) => *p,
        }
    }

    pub fn dimension(&self) -> (r: Dimension)
        ensures
            r == self.spec_dimension(),
    {
        match self {
            Bounds::Binding(_, d) => *d,
            Bounds::Free(_, d) => *d,
        }
    }

    /// Number of positions in the area
    pub fn size(&self) -> (r: usize)
        requires
            self.spec_dimension().area() <= u16::MAX,
        ensures
            r == self.spec_dimension().area(),
    {
        self.dimension().size()
    }

    /// Right-most column of the area
    pub fn right(&self) -> (r: i32)
        requires
            self.edges_fit(),
        ensures
            r == self.spec_right(),
    {
        self.position().x + self.dimension().w as i32 - 1
    }

    /// Bottom-most row of the area
    pub fn bottom(&self) -> (r: i32)
        requires
            self.edges_fit(),
        ensures
            r == self.spec_bottom(),
    {
        self.position().y + self.dimension().h as i32 - 1
    }

    /// Whether the point lies inside the area
    pub fn contains(&self, other: Position2D) -> (r: bool)
        ensures
            r == self.spec_contains(other),
    {
        let pos = self.position();
        let dim = self.dimension();
        other.x >= pos.x && (other.x as i64) < pos.x as i64 + dim.w as i64 && other.y >= pos.y
            && (other.y as i64) < pos.y as i64 + dim.h as i64
    }

    /// Whether the rectangle at `pos` with size `dim` overlaps this area
    pub fn intersects(&self, pos: Position2D, dim: Dimension) -> (r: bool)
        ensures
            r == self.spec_intersects(pos, dim),
    {
        let p = self.position();
        let d = self.dimension();
        (p.x as i64) < pos.x as i64 + dim.w as i64 && p.x as i64 + d.w as i64 > pos.x as i64
            && (p.y as i64) < pos.y as i64 + dim.h as i64 && p.y as i64 + d.h as i64 > pos.y as i64
    }

    /// The same kind of bounds moved by `-other`
    pub fn minus(self, other: Position2D) -> (r: Bounds)
        requires
            self.spec_position().fits_minus(other),
        ensures
            r == self.spec_minus(other),
    {
        match self {
            Bounds::Binding(pos, dim) => Bounds::Binding(pos.minus(other), dim),
            Bounds::Free(pos, dim) => Bounds::Free(pos.minus(other), dim),
        }
    }

    pub open spec fn spec_minus(self, other: Position2D) -> Bounds {
        match self {
            Bounds::Binding(pos, dim) => Bounds::Binding(pos.spec_minus(other), dim),
            Bounds::Free(pos, dim) => Bounds::Free(pos.spec_minus(other), dim),
        }
    }

    /// The `i`th position of the area in row-major order.
    pub open spec fn nth_position(self, i: int) -> Position2D {
        let w = self.spec_dimension().w as int;
        Position2D {
            x: (self.spec_position().x + i % w) as i32,
            y: (self.spec_position().y + i / w) as i32,
        }
    }

    /// All positions of the area, row by row.
    pub open spec fn positions(self) -> Seq<Position2D> {
        Seq::new(self.spec_dimension().area() as nat, |i: int| self.nth_position(i))
    }
}

} // verus!
verus! {

/// In free bounds a relative move followed by the opposite move leaves a position where
/// it was
pub proof fn opposite_moves_cancel(p: Position, x: i32, y: i32, z: i32, b: Bounds)
    requires
        b is Free,
        p.apply_fits(Translation::Relative(x, y, z), b),
        x > i32::MIN,
        y > i32::MIN,
        z > i32::MIN,
    ensures
        ({
            let (q, moved) = p.spec_apply(Translation::Relative(x, y, z), b);
            &&& moved
            &&& q.apply_fits(Translation::Relative((-x) as i32, (-y) as i32, (-z) as i32), b)
            &&& q.spec_apply(Translation::Relative((-x) as i32, (-y) as i32, (-z) as i32), b) == (p, true)
        }),
{
}

} // verus!
