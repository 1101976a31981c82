use crate::texel_types::{
    u16_or_zero, Bounds, ColorMode, Dimension, Position2D, SymbolStyle, SymbolStyles, TexelV1,
    DEFAULT_BG_U8, DEFAULT_FG_U8,
};
use vstd::prelude::*;

verus! {

/// Largest text accepted for a sprite (256 * 256 ascii characters)
pub const SPRITE_MAX_BYTES: usize = 0xffff;

/// Generic selector for selections, frames etc.
#[derive(Debug, Clone, Copy, PartialEq, Eq, Structural)]
pub enum Which<P> {
    All,
    Next,
    Previous,
    /// At index, position or any absolute selector
    At(P),
}

/// Abstract sprite: the frames' texels and the current frame index.
pub struct SpriteModel {
    pub frames: Seq<Seq<TexelV1>>,
    pub index: usize,
}

/// Multi frame ASCII art picture
#[derive(Debug)]
pub struct SpriteV1 {
    pub frames: Vec<Vec<TexelV1>>,
    pub index: usize,
}

/// All texels of all frames, frame after frame.
pub open spec fn flat(fv: Seq<Seq<TexelV1>>) -> Seq<TexelV1>
    decreases fv.len(),
{
    if fv.len() == 0 {
        Seq::empty()
    } else {
        flat(fv.drop_last()) + fv.last()
    }
}

/// Largest x of the texels, 0 when there are none or all are negative.
pub open spec fn max_x_seq(s: Seq<TexelV1>) -> int
    decreases s.len(),
{
    if s.len() == 0 {
        0
    } else {
        let m = max_x_seq(s.drop_last());
        if s.last().x > m {
            s.last().x as int
        } else {
            m
        }
    }
}

/// Largest y of the texels, 0 when there are none or all are negative.
pub open spec fn max_y_seq(s: Seq<TexelV1>) -> int
    decreases s.len(),
{
    if s.len() == 0 {
        0
    } else {
        let m = max_y_seq(s.drop_last());
        if s.last().y > m {
            s.last().y as int
        } else {
            m
        }
    }
}

/// Smallest x of the texels, `i32::MAX` when there are none.
pub open spec fn min_x_seq(s: Seq<TexelV1>) -> int
    decreases s.len(),
{
    if s.len() == 0 {
        i32::MAX as int
    } else {
        let m = min_x_seq(s.drop_last());
        if s.last().x < m {
            s.last().x as int
        } else {
            m
        }
    }
}

/// Smallest y of the texels, `i32::MAX` when there are none.
pub open spec fn min_y_seq(s: Seq<TexelV1>) -> int
    decreases s.len(),
{
    if s.len() == 0 {
        i32::MAX as int
    } else {
        let m = min_y_seq(s.drop_last());
        if s.last().y < m {
            s.last().y as int
        } else {
            m
        }
    }
}

/// Every texel of every frame moved by `(dx, dy)`.
pub open spec fn shift_frames(fv: Seq<Seq<TexelV1>>, dx: int, dy: int) -> Seq<Seq<TexelV1>> {
    Seq::new(fv.len(), |f: int| Seq::new(fv[f].len(), |i: int| fv[f][i].shifted(dx, dy)))
}

/// Some frame holds no texel.
pub open spec fn any_frame_empty(fv: Seq<Seq<TexelV1>>) -> bool {
    exists|f: int| 0 <= f < fv.len() && #[trigger] fv[f].len() == 0
}

/// The frames moved so that the smallest x and y over all texels become 0,
/// unchanged when some frame is empty.
pub open spec fn normalized(fv: Seq<Seq<TexelV1>>) -> Seq<Seq<TexelV1>> {
    if fv.len() == 0 || any_frame_empty(fv) {
        fv
    } else {
        shift_frames(fv, -min_x_seq(flat(fv)), -min_y_seq(flat(fv)))
    }
}

/// Bounds reported after normalizing: the old top-left corner and the dimension of the
/// normalized frames; empty bounds when some frame is empty.
pub open spec fn normalized_bounds(fv: Seq<Seq<TexelV1>>) -> Bounds {
    if fv.len() == 0 || any_frame_empty(fv) {
        Bounds::Free(Position2D { x: 0, y: 0 }, Dimension { w: 0, h: 0 })
    } else {
        let n = normalized(fv);
        Bounds::Free(
            Position2D { x: min_x_seq(flat(fv)) as i32, y: min_y_seq(flat(fv)) as i32 },
            Dimension {
                w: u16_or_zero(max_x_seq(flat(n)) + 1),
                h: u16_or_zero(max_y_seq(flat(n)) + 1),
            },
        )
    }
}

/// Coordinates of any two texels differ by less than `i32::MAX`, so moving the
/// smallest coordinate to 0 keeps every coordinate below `i32::MAX`.
pub open spec fn spread_fits(fv: Seq<Seq<TexelV1>>) -> bool {
    let s = flat(fv);
    forall|a: int, b: int|
        #![trigger s[a], s[b]]
        0 <= a < s.len() && 0 <= b < s.len() ==> s[a].x - s[b].x < i32::MAX && s[a].y - s[b].y
            < i32::MAX
}

/// The frame with the texels that `keep` rejects left out, order kept.
pub open spec fn texels_outside(s: Seq<TexelV1>, area: Bounds) -> Seq<TexelV1>
    decreases s.len(),
{
    if s.len() == 0 {
        Seq::empty()
    } else {
        let rest = texels_outside(s.drop_last(), area);
        if area.spec_contains(Position2D { x: s.last().x, y: s.last().y }) {
            rest
        } else {
            rest.push(s.last())
        }
    }
}

/// Texels of the frame inside `area`, moved so the area's corner becomes the origin.
pub open spec fn texels_inside_moved(s: Seq<TexelV1>, area: Bounds) -> Seq<TexelV1>
    decreases s.len(),
{
    if s.len() == 0 {
        Seq::empty()
    } else {
        let rest = texels_inside_moved(s.drop_last(), area);
        if area.spec_contains(Position2D { x: s.last().x, y: s.last().y }) {
            rest.push(s.last().shifted(-area.spec_position().x, -area.spec_position().y))
        } else {
            rest
        }
    }
}

/// The texel placed by `apply_symbol` at `p`.
pub open spec fn symbol_texel(symbol: char, bg: u8, fg: u8, p: Position2D) -> TexelV1 {
    TexelV1 { symbol, bg, fg, x: p.x, y: p.y, styles: SymbolStyles::spec_empty() }
}

/// Frame after `apply_symbol` before normalizing: texels in the area replaced by the symbol.
pub open spec fn frame_with_symbol(s: Seq<TexelV1>, symbol: char, bg: u8, fg: u8, area: Bounds) -> Seq<
    TexelV1,
> {
    texels_outside(s, area) + area.positions().map_values(|p: Position2D| symbol_texel(symbol, bg, fg, p))
}

/// Some texel of the frame sits at `(x, y)`.
pub open spec fn has_at(s: Seq<TexelV1>, x: i32, y: i32) -> bool {
    exists|j: int| 0 <= j < s.len() && #[trigger] s[j].x == x && s[j].y == y
}

/// `i` is the first index of a texel at `(x, y)`.
pub open spec fn is_first_at(s: Seq<TexelV1>, x: i32, y: i32, i: int) -> bool {
    &&& 0 <= i < s.len()
    &&& s[i].x == x && s[i].y == y
    &&& forall|j: int| 0 <= j < i ==> !(#[trigger] s[j].x == x && s[j].y == y)
}

/// Index of the first texel at `(x, y)`.
pub open spec fn first_at(s: Seq<TexelV1>, x: i32, y: i32) -> int {
    choose|i: int| is_first_at(s, x, y, i)
}

/// The frame with `t` placed: replaces the first texel at its position, or is appended.
pub open spec fn place_texel(s: Seq<TexelV1>, t: TexelV1) -> Seq<TexelV1> {
    if has_at(s, t.x, t.y) {
        s.update(first_at(s, t.x, t.y), t)
    } else {
        s.push(t)
    }
}

/// The frame with all of `ts`, moved by `(dx, dy)`, placed in order.
pub open spec fn place_texels(s: Seq<TexelV1>, ts: Seq<TexelV1>, dx: int, dy: int) -> Seq<TexelV1>
    decreases ts.len(),
{
    if ts.len() == 0 {
        s
    } else {
        place_texel(place_texels(s, ts.drop_last(), dx, dy), ts.last().shifted(dx, dy))
    }
}

/// The texel with the given color channel set.
pub open spec fn with_color(t: TexelV1, cm: ColorMode, color: u8) -> TexelV1 {
    match cm {
        ColorMode::Fg => TexelV1 { fg: color, ..t },
        ColorMode::Bg => TexelV1 { bg: color, ..t },
    }
}

pub open spec fn color_of(t: TexelV1, cm: ColorMode) -> u8 {
    match cm {
        ColorMode::Fg => t.fg,
        ColorMode::Bg => t.bg,
    }
}

/// Setting a color channel writes the color into that channel alone: `Fg` sets the
/// foreground and keeps the background, `Bg` sets the background and keeps the foreground;
/// position, symbol and styles stay as they were.
pub proof fn color_set_in_named_channel(t: TexelV1, cm: ColorMode, color: u8)
    ensures
        cm == ColorMode::Fg ==> with_color(t, cm, color).fg == color && with_color(t, cm, color).bg
            == t.bg,
        cm == ColorMode::Bg ==> with_color(t, cm, color).bg == color && with_color(t, cm, color).fg
            == t.fg,
        with_color(t, cm, color).x == t.x,
        with_color(t, cm, color).y == t.y,
        with_color(t, cm, color).symbol == t.symbol,
        with_color(t, cm, color).styles == t.styles,
{
}

pub open spec fn texel_pos(t: TexelV1) -> Position2D {
    Position2D { x: t.x, y: t.y }
}

pub open spec fn texel_in(area: Bounds, t: TexelV1) -> bool {
    area.spec_contains(texel_pos(t))
}

/// Whether a blank-clearing keeps the texel: it is not a blank on the default background,
/// or lies outside the area
pub open spec fn keeps_texel(t: TexelV1, area: Option<Bounds>) -> bool {
    t.symbol != ' ' || t.bg != DEFAULT_BG_U8 || match area {
        Some(a) => !a.spec_contains(texel_pos(t)),
        None => false,
    }
}

/// The texels a blank-clearing keeps, in order
pub open spec fn without_blanks(s: Seq<TexelV1>, area: Option<Bounds>) -> Seq<TexelV1>
    decreases s.len(),
{
    if s.len() == 0 {
        Seq::empty()
    } else {
        let rest = without_blanks(s.drop_last(), area);
        if keeps_texel(s.last(), area) {
            rest.push(s.last())
        } else {
            rest
        }
    }
}

/// Texels decoded from a text: spaces advance, new lines go to the start of the next row,
/// any other character becomes a texel. Returns the texels and the next (x, y).
pub open spec fn text_texels(s: Seq<char>) -> (Seq<TexelV1>, int, int)
    decreases s.len(),
{
    if s.len() == 0 {
        (Seq::empty(), 0, 0)
    } else {
        let (ts, x, y) = text_texels(s.drop_last());
        let c = s.last();
        if c == ' ' {
            (ts, x + 1, y)
        } else if c == '\n' {
            (ts, 0, y + 1)
        } else {
            (
                ts.push(
                    TexelV1 {
                        x: x as i32,
                        y: y as i32,
                        symbol: c,
                        styles: SymbolStyles::spec_empty(),
                        fg: DEFAULT_FG_U8,
                        bg: DEFAULT_BG_U8,
                    },
                ),
                x + 1,
                y,
            )
        }
    }
}

proof fn lemma_flat_step(fv: Seq<Seq<TexelV1>>, f: int)
    requires
        0 <= f < fv.len(),
    ensures
        flat(fv.take(f + 1)) == flat(fv.take(f)) + fv[f],
{
    assert(fv.take(f + 1).drop_last() =~= fv.take(f));
}

proof fn lemma_push_drop<T>(a: Seq<T>, b: Seq<T>, i: int)
    requires
        0 <= i < b.len(),
    ensures
        (a + b.take(i + 1)).drop_last() == a + b.take(i),
        (a + b.take(i + 1)).last() == b[i],
        (a + b.take(i + 1)).len() > 0,
{
    assert((a + b.take(i + 1)).drop_last() =~= a + b.take(i));
}

proof fn lemma_text_bounds(s: Seq<char>)
    requires
        s.len() <= i32::MAX,
    ensures
        0 <= text_texels(s).1 <= s.len(),
        0 <= text_texels(s).2 <= s.len(),
        forall|k: int|
            0 <= k < text_texels(s).0.len() ==> 0 <= #[trigger] text_texels(s).0[k].x < s.len() && 0
                <= text_texels(s).0[k].y <= s.len(),
    decreases s.len(),
{
    if s.len() > 0 {
        let p = s.drop_last();
        lemma_text_bounds(p);
        let prev = text_texels(p);
        let r = text_texels(s);
        let c = s.last();
        let t = TexelV1 {
            x: prev.1 as i32,
            y: prev.2 as i32,
            symbol: c,
            styles: SymbolStyles::spec_empty(),
            fg: DEFAULT_FG_U8,
            bg: DEFAULT_BG_U8,
        };
        if c == ' ' || c == '\n' {
            assert(r.0 == prev.0);
        } else {
            assert(r == (prev.0.push(t), prev.1 + 1, prev.2));
            lemma_push_in_box(prev.0, t, s.len() as int);
        }
    }
}

proof fn lemma_push_in_box(ts: Seq<TexelV1>, t: TexelV1, n: int)
    requires
        forall|k: int| 0 <= k < ts.len() ==> 0 <= #[trigger] ts[k].x < n && 0 <= ts[k].y <= n,
        0 <= t.x < n,
        0 <= t.y <= n,
    ensures
        forall|k: int|
            0 <= k < ts.push(t).len() ==> 0 <= #[trigger] ts.push(t)[k].x < n && 0 <= ts.push(t)[k].y
                <= n,
{
    assert forall|k: int| 0 <= k < ts.push(t).len() implies 0 <= #[trigger] ts.push(t)[k].x < n && 0
        <= ts.push(t)[k].y <= n by {
        if k < ts.len() {
            assert(ts.push(t)[k] == ts[k]);
        }
    }
}

/// With every coordinate below `i32::MAX`, so are the maxima.
pub proof fn lemma_max_below(s: Seq<TexelV1>)
    requires
        forall|k: int| 0 <= k < s.len() ==> #[trigger] s[k].x < i32::MAX && s[k].y < i32::MAX,
    ensures
        0 <= max_x_seq(s) < i32::MAX,
        0 <= max_y_seq(s) < i32::MAX,
        forall|k: int| 0 <= k < s.len() ==> #[trigger] s[k].x <= max_x_seq(s) && s[k].y <= max_y_seq(s),
    decreases s.len(),
{
    if s.len() > 0 {
        let p = s.drop_last();
        assert forall|k: int| 0 <= k < p.len() implies #[trigger] p[k].x < i32::MAX && p[k].y
            < i32::MAX by {
            assert(p[k] == s[k]);
        }
        lemma_max_below(p);
        assert forall|k: int| 0 <= k < s.len() implies #[trigger] s[k].x <= max_x_seq(s) && s[k].y
            <= max_y_seq(s) by {
            if k < p.len() {
                assert(p[k] == s[k]);
            }
        }
    }
}

/// Minimum over a sequence is attained by some element, and is a lower bound.
proof fn lemma_min_x(s: Seq<TexelV1>)
    ensures
        forall|k: int| 0 <= k < s.len() ==> min_x_seq(s) <= #[trigger] s[k].x,
        s.len() > 0 ==> exists|k: int| 0 <= k < s.len() && min_x_seq(s) == #[trigger] s[k].x,
        min_x_seq(s) <= i32::MAX,
    decreases s.len(),
{
    if s.len() > 0 {
        lemma_min_x(s.drop_last());
        if s.len() > 1 {
            let m = min_x_seq(s.drop_last());
            if s.last().x >= m {
                let k = choose|k: int| 0 <= k < s.drop_last().len() && m == #[trigger] s.drop_last()[k].x;
                assert(s[k].x == m);
            }
        }
        assert forall|k: int| 0 <= k < s.len() implies min_x_seq(s) <= #[trigger] s[k].x by {
            if k < s.len() - 1 {
                assert(s[k] == s.drop_last()[k]);
            }
        }
        assert(min_x_seq(s) == s[s.len() - 1].x || exists|k: int|
            0 <= k < s.len() && min_x_seq(s) == #[trigger] s[k].x);
    }
}

proof fn lemma_min_y(s: Seq<TexelV1>)
    ensures
        forall|k: int| 0 <= k < s.len() ==> min_y_seq(s) <= #[trigger] s[k].y,
        s.len() > 0 ==> exists|k: int| 0 <= k < s.len() && min_y_seq(s) == #[trigger] s[k].y,
        min_y_seq(s) <= i32::MAX,
    decreases s.len(),
{
    if s.len() > 0 {
        lemma_min_y(s.drop_last());
        if s.len() > 1 {
            let m = min_y_seq(s.drop_last());
            if s.last().y >= m {
                let k = choose|k: int| 0 <= k < s.drop_last().len() && m == #[trigger] s.drop_last()[k].y;
                assert(s[k].y == m);
            }
        }
        assert forall|k: int| 0 <= k < s.len() implies min_y_seq(s) <= #[trigger] s[k].y by {
            if k < s.len() - 1 {
                assert(s[k] == s.drop_last()[k]);
            }
        }
        assert(min_y_seq(s) == s[s.len() - 1].y || exists|k: int|
            0 <= k < s.len() && min_y_seq(s) == #[trigger] s[k].y);
    }
}

/// Every element of a frame is an element of the flattened frames.
proof fn lemma_flat_member(fv: Seq<Seq<TexelV1>>, f: int, i: int)
    requires
        0 <= f < fv.len(),
        0 <= i < fv[f].len(),
    ensures
        exists|k: int| 0 <= k < flat(fv).len() && flat(fv)[k] == fv[f][i],
    decreases fv.len(),
{
    if f == fv.len() - 1 {
        let k = flat(fv.drop_last()).len() + i;
        assert(flat(fv)[k] == fv[f][i]);
    } else {
        lemma_flat_member(fv.drop_last(), f, i);
        let k = choose|k: int|
            0 <= k < flat(fv.drop_last()).len() && flat(fv.drop_last())[k] == fv.drop_last()[f][i];
        assert(flat(fv)[k] == fv[f][i]);
    }
}

/// Every element of the flattened frames comes from some frame.
proof fn lemma_flat_source(fv: Seq<Seq<TexelV1>>, k: int)
    requires
        0 <= k < flat(fv).len(),
    ensures
        exists|f: int, i: int| 0 <= f < fv.len() && 0 <= i < fv[f].len() && flat(fv)[k] == fv[f][i],
    decreases fv.len(),
{
    let a = flat(fv.drop_last());
    if k < a.len() {
        lemma_flat_source(fv.drop_last(), k);
        let (f, i) = choose|f: int, i: int|
            0 <= f < fv.drop_last().len() && 0 <= i < fv.drop_last()[f].len() && a[k]
                == fv.drop_last()[f][i];
        assert(flat(fv)[k] == fv[f][i]);
    } else {
        let i = k - a.len();
        assert(flat(fv)[k] == fv[fv.len() - 1][i]);
    }
}


/// Dropping texels never lengthens a frame; keeping the length means nothing was dropped.
proof fn lemma_outside_len(s: Seq<TexelV1>, area: Bounds)
    ensures
        texels_outside(s, area).len() <= s.len(),
        texels_outside(s, area).len() == s.len() ==> texels_outside(s, area) == s,
    decreases s.len(),
{
    if s.len() > 0 {
        lemma_outside_len(s.drop_last(), area);
        if texels_outside(s, area).len() == s.len() {
            assert(texels_outside(s, area) =~= s.drop_last().push(s.last()));
            assert(s.drop_last().push(s.last()) =~= s);
        }
    }
}

proof fn lemma_first_unique(s: Seq<TexelV1>, x: i32, y: i32, i: int)
    requires
        is_first_at(s, x, y, i),
    ensures
        has_at(s, x, y),
        first_at(s, x, y) == i,
{
    assert(s[i].x == x && s[i].y == y);
    let k = first_at(s, x, y);
    assert(is_first_at(s, x, y, k));
    if k < i {
        assert(s[k].x == x && s[k].y == y);
    } else if k > i {
        assert(!(s[i].x == x && s[i].y == y));
    }
}

proof fn lemma_take_step<T>(s: Seq<T>, i: int)
    requires
        0 <= i < s.len(),
    ensures
        s.take(i + 1).drop_last() == s.take(i),
        s.take(i + 1).last() == s[i],
        s.take(i + 1).len() == i + 1,
{
    assert(s.take(i + 1).drop_last() =~= s.take(i));
}

/// The frames with frame `f` replaced keep the flat members of other frames.
proof fn lemma_shift_flat(fv: Seq<Seq<TexelV1>>, dx: int, dy: int, k: int)
    requires
        0 <= k < flat(shift_frames(fv, dx, dy)).len(),
    ensures
        exists|f: int, i: int|
            0 <= f < fv.len() && 0 <= i < fv[f].len() && flat(shift_frames(fv, dx, dy))[k]
                == fv[f][i].shifted(dx, dy),
{
    let sf = shift_frames(fv, dx, dy);
    lemma_flat_source(sf, k);
    let (f, i) = choose|f: int, i: int|
        0 <= f < sf.len() && 0 <= i < sf[f].len() && flat(sf)[k] == sf[f][i];
    assert(flat(sf)[k] == fv[f][i].shifted(dx, dy));
}

impl View for SpriteV1 {
    type V = SpriteModel;

    open spec fn view(&self) -> SpriteModel {
        SpriteModel { frames: self.fv(), index: self.index }
    }
}

impl SpriteV1 {
    /// Whether the sprite can be taken in: it has a frame, its index selects one, and no
    /// texel sits at `i32::MAX` in either coordinate
    pub fn is_ok(&self) -> (r: bool)
        ensures
            r == crate::texel_types::sprite_ok(self@),
    {
        if self.frames.len() == 0 || self.index >= self.frames.len() {
            return false;
        }
        let ghost fv = self.fv();
        let mut f: usize = 0;
        while f < self.frames.len()
            invariant
                fv == self.fv(),
                f <= fv.len(),
                forall|g: int, i: int|
                    0 <= g < f && 0 <= i < fv[g].len() ==> (#[trigger] fv[g][i]).x < i32::MAX && fv[g][i].y < i32::MAX,
            decreases fv.len() - f,
        {
            let frame = &self.frames[f];
            assert(frame@ == fv[f as int]);
            let mut i: usize = 0;
            while i < frame.len()
                invariant
                    fv == self.fv(),
                    f < fv.len(),
                    frame@ == fv[f as int],
                    i <= frame@.len(),
                    forall|g: int, j: int|
                        0 <= g < f && 0 <= j < fv[g].len() ==> (#[trigger] fv[g][j]).x < i32::MAX && fv[g][j].y < i32::MAX,
                    forall|j: int| 0 <= j < i ==> (#[trigger] fv[f as int][j]).x < i32::MAX && fv[f as int][j].y < i32::MAX,
                decreases frame@.len() - i,
            {
                if frame[i].x == i32::MAX || frame[i].y == i32::MAX {
                    proof {
                        lemma_flat_member(fv, f as int, i as int);
                        let k = choose|k: int| 0 <= k < flat(fv).len() && flat(fv)[k] == fv[f as int][i as int];
                        assert(!(flat(fv)[k].x < i32::MAX && flat(fv)[k].y < i32::MAX));
                    }
                    return false;
                }
                i = i + 1;
            }
            f = f + 1;
        }
        assert forall|k: int| 0 <= k < flat(fv).len() implies #[trigger] flat(fv)[k].x < i32::MAX && flat(fv)[k].y
            < i32::MAX by {
            lemma_flat_source(fv, k);
            let (g, i) = choose|g: int, i: int| 0 <= g < fv.len() && 0 <= i < fv[g].len() && flat(fv)[k] == fv[g][i];
            assert(fv[g][i].x < i32::MAX);
        }
        true
    }

    /// The frames' texels as sequences.
    pub open spec fn fv(&self) -> Seq<Seq<TexelV1>> {
        Seq::new(self.frames@.len(), |f: int| self.frames@[f]@)
    }

    /// There is a frame and the index selects one.
    pub open spec fn wf(&self) -> bool {
        &&& self.frames@.len() > 0
        &&& self.index < self.frames@.len()
    }

    /// Texels of the current frame.
    pub open spec fn current(&self) -> Seq<TexelV1> {
        self.fv()[self.index as int]
    }

    /// No texel sits at `i32::MAX` in either coordinate.
    pub open spec fn coords_below_max(&self) -> bool {
        forall|k: int|
            0 <= k < flat(self.fv()).len() ==> #[trigger] flat(self.fv())[k].x < i32::MAX
                && flat(self.fv())[k].y < i32::MAX
    }

    /// Single frame sprite holding the given texels
    pub fn from_texels(texels: Vec<TexelV1>) -> (r: SpriteV1)
        ensures
            r.wf(),
            r.fv() == seq![texels@],
            r.index == 0,
    {
        let mut frames: Vec<Vec<TexelV1>> = Vec::new();
        frames.push(texels);
        let r = SpriteV1 { frames, index: 0 };
        assert(r.fv() =~= seq![texels@]);
        r
    }

    /// An empty single frame sprite
    pub fn new_empty() -> (r: SpriteV1)
        ensures
            r.wf(),
            r.fv() == seq![Seq::<TexelV1>::empty()],
            r.index == 0,
    {
        Self::from_texels(Vec::new())
    }

    /// Current frame index
    pub fn frame_index(&self) -> (r: usize)
        ensures
            r == self.index,
    {
        self.index
    }

    /// Number of frames
    pub fn frame_count(&self) -> (r: usize)
        ensures
            r == self.frames@.len(),
    {
        self.frames.len()
    }

    /// Texels of the current frame
    pub fn frame_iter(&self) -> (r: &Vec<TexelV1>)
        requires
            self.wf(),
        ensures
            r@ == self.current(),
    {
        &self.frames[self.index]
    }

    /// Texels of all frames, frame after frame
    pub fn all_iter(&self) -> (r: Vec<TexelV1>)
        ensures
            r@ == flat(self.fv()),
    {
        let mut result: Vec<TexelV1> = Vec::new();
        let mut f: usize = 0;
        let ghost fv = self.fv();
        while f < self.frames.len()
            invariant
                fv == self.fv(),
                f <= fv.len(),
                result@ == flat(fv.take(f as int)),
            decreases fv.len() - f,
        {
            let frame = &self.frames[f];
            let mut i: usize = 0;
            while i < frame.len()
                invariant
                    fv == self.fv(),
                    f < fv.len(),
                    frame@ == fv[f as int],
                    i <= frame@.len(),
                    result@ == flat(fv.take(f as int)) + frame@.take(i as int),
                decreases frame@.len() - i,
            {
                result.push(frame[i]);
                proof {
                    assert(flat(fv.take(f as int)) + frame@.take(i + 1) =~= (flat(fv.take(f as int))
                        + frame@.take(i as int)).push(frame@[i as int]));
                }
                i = i + 1;
            }
            proof {
                assert(frame@.take(i as int) =~= frame@);
                lemma_flat_step(fv, f as int);
            }
            f = f + 1;
        }
        proof {
            assert(fv.take(fv.len() as int) =~= fv);
        }
        result
    }

    /// Largest x and largest y over all texels, starting from 0
    pub fn max_coords(&self) -> (r: (i32, i32))
        ensures
            r.0 == max_x_seq(flat(self.fv())),
            r.1 == max_y_seq(flat(self.fv())),
    {
        let all = self.all_iter();
        let mut w: i32 = 0;
        let mut h: i32 = 0;
        let mut i: usize = 0;
        while i < all.len()
            invariant
                i <= all@.len(),
                w == max_x_seq(all@.take(i as int)),
                h == max_y_seq(all@.take(i as int)),
            decreases all@.len() - i,
        {
            let t = all[i];
            proof {
                lemma_push_drop(Seq::<TexelV1>::empty(), all@, i as int);
                assert(Seq::<TexelV1>::empty() + all@.take(i as int) =~= all@.take(i as int));
                assert(Seq::<TexelV1>::empty() + all@.take(i + 1) =~= all@.take(i + 1));
            }
            if t.x > w {
                w = t.x;
            }
            if t.y > h {
                h = t.y;
            }
            i = i + 1;
        }
        proof {
            assert(all@.take(all@.len() as int) =~= all@);
        }
        (w, h)
    }

    /// Copy of a texel list
    fn copy_texels(v: &Vec<TexelV1>) -> (r: Vec<TexelV1>)
        ensures
            r@ == v@,
    {
        let mut r: Vec<TexelV1> = Vec::new();
        let mut i: usize = 0;
        while i < v.len()
            invariant
                i <= v@.len(),
                r@ == v@.take(i as int),
            decreases v@.len() - i,
        {
            r.push(v[i]);
            proof {
                assert(v@.take(i + 1) =~= v@.take(i as int).push(v@[i as int]));
            }
            i = i + 1;
        }
        proof {
            assert(v@.take(v@.len() as int) =~= v@);
        }
        r
    }

    /// Copy of the sprite
    pub fn duplicate(&self) -> (r: SpriteV1)
        ensures
            r@ == self@,
    {
        let mut frames: Vec<Vec<TexelV1>> = Vec::new();
        let mut f: usize = 0;
        while f < self.frames.len()
            invariant
                f <= self.frames@.len(),
                frames@.len() == f,
                forall|g: int| 0 <= g < f ==> #[trigger] frames@[g]@ == self.frames@[g]@,
            decreases self.frames@.len() - f,
        {
            let copy = Self::copy_texels(&self.frames[f]);
            frames.push(copy);
            f = f + 1;
        }
        let r = SpriteV1 { frames, index: self.index };
        assert(r.fv() =~= self.fv());
        r
    }

    /// Whether some frame has no texels (or there is no frame)
    pub fn is_empty(&self) -> (r: bool)
        ensures
            r == (self.fv().len() == 0 || any_frame_empty(self.fv())),
    {
        if self.frames.len() == 0 {
            return true;
        }
        let mut f: usize = 0;
        while f < self.frames.len()
            invariant
                f <= self.frames@.len(),
                forall|g: int| 0 <= g < f ==> #[trigger] self.fv()[g].len() > 0,
            decreases self.frames@.len() - f,
        {
            if self.frames[f].len() == 0 {
                assert(self.fv()[f as int].len() == 0);
                return true;
            }
            f = f + 1;
        }
        false
    }

    /// Smallest x and y over all texels, `i32::MAX` when there are none
    fn min_coords(&self) -> (r: (i32, i32))
        ensures
            r.0 == min_x_seq(flat(self.fv())),
            r.1 == min_y_seq(flat(self.fv())),
    {
        let all = self.all_iter();
        let mut mx: i32 = i32::MAX;
        let mut my: i32 = i32::MAX;
        let mut i: usize = 0;
        while i < all.len()
            invariant
                i <= all@.len(),
                mx == min_x_seq(all@.take(i as int)),
                my == min_y_seq(all@.take(i as int)),
            decreases all@.len() - i,
        {
            let t = all[i];
            proof {
                lemma_take_step(all@, i as int);
            }
            if t.x < mx {
                mx = t.x;
            }
            if t.y < my {
                my = t.y;
            }
            i = i + 1;
        }
        proof {
            assert(all@.take(all@.len() as int) =~= all@);
        }
        (mx, my)
    }

    /// Moves all texels so the smallest x and y become 0 and reports the former
    /// top-left corner with the resulting dimension. Does nothing, and reports empty
    /// bounds, when some frame is empty.
    fn calculate_bounds(&mut self) -> (r: Bounds)
        requires
            spread_fits(old(self).fv()),
        ensures
            final(self).fv() == normalized(old(self).fv()),
            final(self).index == old(self).index,
            r == normalized_bounds(old(self).fv()),
    {
        if self.is_empty() {
            return Bounds::empty();
        }
        let ghost fv = self.fv();
        let (min_x, min_y) = self.min_coords();
        proof {
            lemma_min_x(flat(fv));
            lemma_min_y(flat(fv));
            lemma_flat_member(fv, 0, 0);
        }
        let ghost kx = choose|k: int| 0 <= k < flat(fv).len() && min_x == #[trigger] flat(fv)[k].x;
        let ghost ky = choose|k: int| 0 <= k < flat(fv).len() && min_y == #[trigger] flat(fv)[k].y;
        let mut new_frames: Vec<Vec<TexelV1>> = Vec::new();
        let mut f: usize = 0;
        while f < self.frames.len()
            invariant
                fv == self.fv(),
                f <= fv.len(),
                0 <= kx < flat(fv).len(),
                0 <= ky < flat(fv).len(),
                min_x == flat(fv)[kx].x,
                min_y == flat(fv)[ky].y,
                forall|k: int| 0 <= k < flat(fv).len() ==> min_x <= #[trigger] flat(fv)[k].x,
                forall|k: int| 0 <= k < flat(fv).len() ==> min_y <= #[trigger] flat(fv)[k].y,
                spread_fits(fv),
                new_frames@.len() == f,
                forall|g: int|
                    0 <= g < f ==> #[trigger] new_frames@[g]@ == shift_frames(fv, -min_x, -min_y)[g],
            decreases fv.len() - f,
        {
            let frame = &self.frames[f];
            let mut nf: Vec<TexelV1> = Vec::new();
            let mut i: usize = 0;
            while i < frame.len()
                invariant
                    fv == self.fv(),
                    f < fv.len(),
                    frame@ == fv[f as int],
                    i <= frame@.len(),
                    0 <= kx < flat(fv).len(),
                    0 <= ky < flat(fv).len(),
                    min_x == flat(fv)[kx].x,
                    min_y == flat(fv)[ky].y,
                    forall|k: int| 0 <= k < flat(fv).len() ==> min_x <= #[trigger] flat(fv)[k].x,
                    forall|k: int| 0 <= k < flat(fv).len() ==> min_y <= #[trigger] flat(fv)[k].y,
                    spread_fits(fv),
                    nf@.len() == i,
                    forall|j: int|
                        0 <= j < i ==> #[trigger] nf@[j] == fv[f as int][j].shifted(-min_x, -min_y),
                decreases frame@.len() - i,
            {
                let t = frame[i];
                proof {
                    lemma_flat_member(fv, f as int, i as int);
                    let k = choose|k: int| 0 <= k < flat(fv).len() && flat(fv)[k] == fv[f as int][i as int];
                    assert(flat(fv)[k].x - flat(fv)[kx].x < i32::MAX);
                    assert(flat(fv)[k].y - flat(fv)[ky].y < i32::MAX);
                }
                nf.push(TexelV1 { x: t.x - min_x, y: t.y - min_y, ..t });
                i = i + 1;
            }
            new_frames.push(nf);
            proof {
                assert(new_frames@[f as int]@ =~= shift_frames(fv, -min_x, -min_y)[f as int]);
            }
            f = f + 1;
        }
        self.frames = new_frames;
        let ghost sf = shift_frames(fv, -min_x, -min_y);
        assert(self.fv() =~= sf);
        proof {
            assert forall|k: int| 0 <= k < flat(self.fv()).len() implies #[trigger] flat(self.fv())[k].x
                < i32::MAX && flat(self.fv())[k].y < i32::MAX by {
                lemma_shift_flat(fv, -min_x, -min_y, k);
                let (g, i) = choose|g: int, i: int|
                    0 <= g < fv.len() && 0 <= i < fv[g].len() && flat(sf)[k] == fv[g][i].shifted(
                        -min_x,
                        -min_y,
                    );
                lemma_flat_member(fv, g, i);
                let j = choose|j: int| 0 <= j < flat(fv).len() && flat(fv)[j] == fv[g][i];
                assert(flat(fv)[j].x - flat(fv)[kx].x < i32::MAX);
                assert(flat(fv)[j].y - flat(fv)[ky].y < i32::MAX);
            }
        }
        let dim = Dimension::for_sprite(self);
        Bounds::Free(Position2D { x: min_x, y: min_y }, dim)
    }

    /// Frame index after `apply_frame_change(which)`: moves only to a valid frame.
    pub open spec fn spec_frame_change(self, which: Which<usize>) -> (usize, usize) {
        let len = self.frames@.len();
        match which {
            Which::All => (self.index, self.index),
            Which::Next => if self.index < usize::MAX && self.index + 1 < len {
                ((self.index + 1) as usize, (self.index + 1) as usize)
            } else {
                (self.index, (if len > 1 { len - 1 } else { 0 }) as usize)
            },
            Which::Previous => {
                let target = if self.index > 1 { self.index - 1 } else { 0 };
                if target < len {
                    (target as usize, target as usize)
                } else {
                    (self.index, 0)
                }
            },
            Which::At(i) => if i < len {
                (i, i)
            } else {
                (self.index, self.index)
            },
        }
    }

    fn set_frame(&mut self, index: usize) -> (r: Result<usize, ()>)
        ensures
            final(self).frames == old(self).frames,
            index < old(self).frames@.len() ==> final(self).index == index && r == Ok::<usize, ()>(index),
            index >= old(self).frames@.len() ==> final(self).index == old(self).index && r is Err,
    {
        if index >= self.frames.len() {
            return Err(());
        }
        self.index = index;
        Ok(self.index)
    }

    /// Moves to the next / previous / given frame when it exists. Returns the frame index
    /// aimed at (for `Next` past the end: the last frame, index unchanged).
    pub fn apply_frame_change(&mut self, which: Which<usize>) -> (r: usize)
        ensures
            final(self).frames == old(self).frames,
            (final(self).index, r) == old(self).spec_frame_change(which),
    {
        match which {
            Which::All => self.index,
            Which::Next => {
                if self.index < usize::MAX && self.index + 1 < self.frames.len() {
                    match self.set_frame(self.index + 1) {
                        Ok(i) => i,
                        Err(_) => 0,
                    }
                } else {
                    let len = self.frames.len();
                    if len > 1 { len - 1 } else { 0 }
                }
            },
            Which::Previous => {
                let target = if self.index > 1 { self.index - 1 } else { 0 };
                match self.set_frame(target) {
                    Ok(i) => i,
                    Err(_) => 0,
                }
            },
            Which::At(index) => {
                let current = self.index;
                match self.set_frame(index) {
                    Ok(i) => i,
                    Err(_) => current,
                }
            },
        }
    }

    /// Inserts a copy of the current frame and moves to it
    pub fn new_frame(&mut self)
        requires
            old(self).wf(),
        ensures
            final(self).wf(),
            final(self).fv() == old(self).fv().insert(old(self).index as int, old(self).current()),
            final(self).index == old(self).index + 1,
    {
        let copy = Self::copy_texels(&self.frames[self.index]);
        let ghost old_fv = self.fv();
        let ghost old_len = self.frames@.len();
        self.frames.insert(self.index, copy);
        assert(self.fv() =~= old_fv.insert(self.index as int, old_fv[self.index as int]));
        assert(self.frames@.len() == old_len + 1);
        assert(self.index + 1 < self.frames@.len());
        assert(self.index + 1 < self.frames.len());
        self.apply_frame_change(Which::Next);
    }

    /// Deletes the current frame unless it is the only one; the previous frame becomes current
    pub fn delete_frame(&mut self) -> (r: bool)
        requires
            old(self).wf(),
        ensures
            final(self).wf(),
            r == (old(self).frames@.len() > 1),
            r ==> final(self).fv() == old(self).fv().remove(old(self).index as int)
                && final(self).index == (if old(self).index > 1 { old(self).index - 1 } else { 0 }),
            !r ==> final(self)@ == old(self)@,
    {
        if self.frames.len() > 1 {
            let ghost old_fv = self.fv();
            self.frames.remove(self.index);
            assert(self.fv() =~= old_fv.remove(self.index as int));
            self.apply_frame_change(Which::Previous);
            true
        } else {
            false
        }
    }

    /// First texel of the current frame at `pos`
    pub fn read_texel(&self, pos: Position2D) -> (r: Option<TexelV1>)
        requires
            self.wf(),
        ensures
            has_at(self.current(), pos.x, pos.y) ==> r == Some(
                self.current()[first_at(self.current(), pos.x, pos.y)],
            ),
            !has_at(self.current(), pos.x, pos.y) ==> r is None,
    {
        match Self::find_first(&self.frames[self.index], pos.x, pos.y) {
            Some(i) => {
                proof {
                    lemma_first_unique(self.current(), pos.x, pos.y, i as int);
                }
                Some(self.frames[self.index][i])
            },
            None => None,
        }
    }

    /// Removes blanks on the default background from the current frame (those inside the
    /// area, if one is given); returns whether any was removed
    pub fn clear_blank_texels(&mut self, area: Option<Bounds>) -> (r: bool)
        requires
            old(self).wf(),
        ensures
            final(self).wf(),
            final(self).index == old(self).index,
            final(self).fv() == old(self).fv().update(
                old(self).index as int,
                without_blanks(old(self).current(), area),
            ),
            r == (without_blanks(old(self).current(), area).len() != old(self).current().len()),
    {
        let frame = &self.frames[self.index];
        let ghost cur = frame@;
        let count = frame.len();
        let mut kept: Vec<TexelV1> = Vec::new();
        let mut i: usize = 0;
        while i < frame.len()
            invariant
                frame@ == cur,
                i <= cur.len(),
                kept@ == without_blanks(cur.take(i as int), area),
            decreases cur.len() - i,
        {
            let t = frame[i];
            assert(cur.take(i + 1).drop_last() =~= cur.take(i as int));
            let keep = t.symbol != ' ' || t.bg != DEFAULT_BG_U8 || match area {
                Some(a) => !a.contains(Position2D { x: t.x, y: t.y }),
                None => false,
            };
            if keep {
                kept.push(t);
            }
            i = i + 1;
        }
        assert(cur.take(cur.len() as int) =~= cur);
        let n = kept.len();
        self.set_current(kept);
        n != count
    }

    /// Texels of the current frame inside `area`, moved so the area's corner is the origin
    pub fn copy_area(&self, area: Bounds) -> (r: Vec<TexelV1>)
        requires
            self.wf(),
            forall|k: int|
                0 <= k < self.current().len() && texel_in(area, #[trigger] self.current()[k])
                    ==> texel_pos(self.current()[k]).fits_minus(area.spec_position()),
        ensures
            r@ == texels_inside_moved(self.current(), area),
    {
        let frame = &self.frames[self.index];
        let corner = area.position();
        let mut result: Vec<TexelV1> = Vec::new();
        let mut i: usize = 0;
        while i < frame.len()
            invariant
                frame@ == self.current(),
                corner == area.spec_position(),
                i <= frame@.len(),
                result@ == texels_inside_moved(frame@.take(i as int), area),
                forall|k: int|
                    0 <= k < frame@.len() && texel_in(area, #[trigger] frame@[k]) ==> texel_pos(
                        frame@[k],
                    ).fits_minus(area.spec_position()),
            decreases frame@.len() - i,
        {
            let t = frame[i];
            proof {
                lemma_take_step(frame@, i as int);
            }
            if area.contains(Position2D { x: t.x, y: t.y }) {
                assert(texel_in(area, frame@[i as int]));
                result.push(t.moved_from(corner));
            }
            i = i + 1;
        }
        proof {
            assert(frame@.take(frame@.len() as int) =~= frame@);
        }
        result
    }

    /// Replaces the current frame
    fn set_current(&mut self, texels: Vec<TexelV1>)
        requires
            old(self).wf(),
        ensures
            final(self).wf(),
            final(self).index == old(self).index,
            final(self).fv() == old(self).fv().update(old(self).index as int, texels@),
    {
        let ghost old_fv = self.fv();
        self.frames.set(self.index, texels);
        assert(self.fv() =~= old_fv.update(self.index as int, texels@));
    }

    /// Sets the given color channel of every texel of the current frame.
    /// Returns whether some texel had another color there.
    pub fn fill_color(&mut self, cm: ColorMode, color: u8) -> (r: bool)
        requires
            old(self).wf(),
        ensures
            final(self).wf(),
            final(self).index == old(self).index,
            final(self).fv() == old(self).fv().update(
                old(self).index as int,
                old(self).current().map_values(|t: TexelV1| with_color(t, cm, color)),
            ),
            r == exists|k: int|
                0 <= k < old(self).current().len() && color_of(#[trigger] old(self).current()[k], cm)
                    != color,
            final(self).current().len() == old(self).current().len(),
            forall|k: int|
                #![trigger final(self).current()[k]]
                0 <= k < old(self).current().len() ==> {
                    &&& cm == ColorMode::Fg ==> final(self).current()[k].fg == color
                        && final(self).current()[k].bg == old(self).current()[k].bg
                    &&& cm == ColorMode::Bg ==> final(self).current()[k].bg == color
                        && final(self).current()[k].fg == old(self).current()[k].fg
                },
    {
        let frame = &self.frames[self.index];
        let ghost cur = frame@;
        let mut nf: Vec<TexelV1> = Vec::new();
        let mut changed = false;
        let mut i: usize = 0;
        while i < frame.len()
            invariant
                frame@ == cur,
                i <= cur.len(),
                nf@ == cur.take(i as int).map_values(|t: TexelV1| with_color(t, cm, color)),
                changed == exists|k: int| 0 <= k < i && color_of(#[trigger] cur[k], cm) != color,
            decreases cur.len() - i,
        {
            let t = frame[i];
            let differs = match cm {
                ColorMode::Fg => t.fg != color,
                ColorMode::Bg => t.bg != color,
            };
            if differs {
                changed = true;
            }
            let nt = match cm {
                ColorMode::Fg => TexelV1 { fg: color, ..t },
                ColorMode::Bg => TexelV1 { bg: color, ..t },
            };
            nf.push(nt);
            proof {
                assert(cur.take(i + 1).map_values(|t: TexelV1| with_color(t, cm, color)) =~= cur.take(
                    i as int,
                ).map_values(|t: TexelV1| with_color(t, cm, color)).push(nt));
            }
            i = i + 1;
        }
        proof {
            assert(cur.take(cur.len() as int) =~= cur);
            assert(cur == old(self).current());
        }
        self.set_current(nf);
        proof {
            assert forall|k: int| 0 <= k < cur.len() implies #[trigger] self.current()[k] == with_color(
                cur[k],
                cm,
                color,
            ) by {}
        }
        changed
    }

    /// Flips `style` on every texel of the current frame. Returns whether there was any texel.
    pub fn fill_style(&mut self, style: SymbolStyle) -> (r: bool)
        requires
            old(self).wf(),
        ensures
            final(self).wf(),
            final(self).index == old(self).index,
            final(self).fv() == old(self).fv().update(
                old(self).index as int,
                old(self).current().map_values(
                    |t: TexelV1| TexelV1 { styles: t.styles.toggled(style), ..t },
                ),
            ),
            r == (old(self).current().len() > 0),
    {
        let frame = &self.frames[self.index];
        let ghost cur = frame@;
        let mut nf: Vec<TexelV1> = Vec::new();
        let mut changed = false;
        let mut i: usize = 0;
        while i < frame.len()
            invariant
                frame@ == cur,
                i <= cur.len(),
                nf@ == cur.take(i as int).map_values(
                    |t: TexelV1| TexelV1 { styles: t.styles.toggled(style), ..t },
                ),
                changed == (i > 0),
            decreases cur.len() - i,
        {
            let mut t = frame[i];
            t.styles.toggle(style);
            nf.push(t);
            changed = true;
            proof {
                assert(cur.take(i + 1).map_values(
                    |t: TexelV1| TexelV1 { styles: t.styles.toggled(style), ..t },
                ) =~= cur.take(i as int).map_values(
                    |t: TexelV1| TexelV1 { styles: t.styles.toggled(style), ..t },
                ).push(t));
            }
            i = i + 1;
        }
        proof {
            assert(cur.take(cur.len() as int) =~= cur);
            assert(cur == old(self).current());
        }
        self.set_current(nf);
        changed
    }

    /// Sets the color channel of the current frame's texels inside `area`.
    /// Returns whether some such texel had another color there.
    pub fn apply_color(&mut self, cm: ColorMode, color: u8, area: Bounds) -> (r: bool)
        requires
            old(self).wf(),
        ensures
            final(self).wf(),
            final(self).index == old(self).index,
            final(self).fv() == old(self).fv().update(
                old(self).index as int,
                old(self).current().map_values(
                    |t: TexelV1|
                        if texel_in(area, t) {
                            with_color(t, cm, color)
                        } else {
                            t
                        },
                ),
            ),
            r == exists|k: int|
                0 <= k < old(self).current().len() && texel_in(area, #[trigger] old(self).current()[k])
                    && color_of(old(self).current()[k], cm) != color,
            final(self).current().len() == old(self).current().len(),
            forall|k: int|
                #![trigger final(self).current()[k]]
                0 <= k < old(self).current().len() && texel_in(area, old(self).current()[k]) ==> {
                    &&& cm == ColorMode::Fg ==> final(self).current()[k].fg == color
                        && final(self).current()[k].bg == old(self).current()[k].bg
                    &&& cm == ColorMode::Bg ==> final(self).current()[k].bg == color
                        && final(self).current()[k].fg == old(self).current()[k].fg
                },
    {
        let frame = &self.frames[self.index];
        let ghost cur = frame@;
        let mut nf: Vec<TexelV1> = Vec::new();
        let mut changed = false;
        let mut i: usize = 0;
        while i < frame.len()
            invariant
                frame@ == cur,
                i <= cur.len(),
                nf@ == cur.take(i as int).map_values(
                    |t: TexelV1|
                        if texel_in(area, t) {
                            with_color(t, cm, color)
                        } else {
                            t
                        },
                ),
                changed == exists|k: int|
                    0 <= k < i && texel_in(area, #[trigger] cur[k]) && color_of(cur[k], cm) != color,
            decreases cur.len() - i,
        {
            let t = frame[i];
            let inside = area.contains(Position2D { x: t.x, y: t.y });
            let mut nt = t;
            if inside {
                let differs = match cm {
                    ColorMode::Fg => t.fg != color,
                    ColorMode::Bg => t.bg != color,
                };
                if differs {
                    changed = true;
                }
                nt = match cm {
                    ColorMode::Fg => TexelV1 { fg: color, ..t },
                    ColorMode::Bg => TexelV1 { bg: color, ..t },
                };
            }
            nf.push(nt);
            proof {
                assert(cur.take(i + 1).map_values(
                    |t: TexelV1|
                        if texel_in(area, t) {
                            with_color(t, cm, color)
                        } else {
                            t
                        },
                ) =~= cur.take(i as int).map_values(
                    |t: TexelV1|
                        if texel_in(area, t) {
                            with_color(t, cm, color)
                        } else {
                            t
                        },
                ).push(nt));
            }
            i = i + 1;
        }
        proof {
            assert(cur.take(cur.len() as int) =~= cur);
            assert(cur == old(self).current());
        }
        self.set_current(nf);
        proof {
            assert forall|k: int| 0 <= k < cur.len() && texel_in(area, cur[k]) implies #[trigger] self.current()[k]
                == with_color(cur[k], cm, color) by {}
        }
        changed
    }

    /// Flips `style` on the current frame's texels inside `area`.
    /// Returns whether there was any such texel.
    pub fn apply_style(&mut self, style: SymbolStyle, area: Bounds) -> (r: bool)
        requires
            old(self).wf(),
        ensures
            final(self).wf(),
            final(self).index == old(self).index,
            final(self).fv() == old(self).fv().update(
                old(self).index as int,
                old(self).current().map_values(
                    |t: TexelV1|
                        if texel_in(area, t) {
                            TexelV1 { styles: t.styles.toggled(style), ..t }
                        } else {
                            t
                        },
                ),
            ),
            r == exists|k: int|
                0 <= k < old(self).current().len() && texel_in(area, #[trigger] old(self).current()[k]),
    {
        let frame = &self.frames[self.index];
        let ghost cur = frame@;
        let mut nf: Vec<TexelV1> = Vec::new();
        let mut changed = false;
        let mut i: usize = 0;
        while i < frame.len()
            invariant
                frame@ == cur,
                i <= cur.len(),
                nf@ == cur.take(i as int).map_values(
                    |t: TexelV1|
                        if texel_in(area, t) {
                            TexelV1 { styles: t.styles.toggled(style), ..t }
                        } else {
                            t
                        },
                ),
                changed == exists|k: int| 0 <= k < i && texel_in(area, #[trigger] cur[k]),
            decreases cur.len() - i,
        {
            let mut t = frame[i];
            if area.contains(Position2D { x: t.x, y: t.y }) {
                t.styles.toggle(style);
                changed = true;
            }
            nf.push(t);
            proof {
                assert(cur.take(i + 1).map_values(
                    |t: TexelV1|
                        if texel_in(area, t) {
                            TexelV1 { styles: t.styles.toggled(style), ..t }
                        } else {
                            t
                        },
                ) =~= cur.take(i as int).map_values(
                    |t: TexelV1|
                        if texel_in(area, t) {
                            TexelV1 { styles: t.styles.toggled(style), ..t }
                        } else {
                            t
                        },
                ).push(t));
            }
            i = i + 1;
        }
        proof {
            assert(cur.take(cur.len() as int) =~= cur);
            assert(cur == old(self).current());
        }
        self.set_current(nf);
        changed
    }

    /// The current frame without the texels inside `area`
    fn frame_outside(&self, area: Bounds) -> (r: Vec<TexelV1>)
        requires
            self.wf(),
        ensures
            r@ == texels_outside(self.current(), area),
    {
        let frame = &self.frames[self.index];
        let mut result: Vec<TexelV1> = Vec::new();
        let mut i: usize = 0;
        while i < frame.len()
            invariant
                frame@ == self.current(),
                i <= frame@.len(),
                result@ == texels_outside(frame@.take(i as int), area),
            decreases frame@.len() - i,
        {
            let t = frame[i];
            proof {
                lemma_take_step(frame@, i as int);
            }
            if !area.contains(Position2D { x: t.x, y: t.y }) {
                result.push(t);
            }
            i = i + 1;
        }
        proof {
            assert(frame@.take(frame@.len() as int) =~= frame@);
        }
        result
    }

    /// Removes the current frame's texels inside `area`. When something was removed the
    /// sprite is normalized and the new bounds returned.
    pub fn clear_symbol(&mut self, area: Bounds) -> (r: Option<Bounds>)
        requires
            old(self).wf(),
            spread_fits(
                old(self).fv().update(old(self).index as int, texels_outside(old(self).current(), area)),
            ),
        ensures
            final(self).wf(),
            final(self).index == old(self).index,
            ({
                let kept = texels_outside(old(self).current(), area);
                let fv = old(self).fv().update(old(self).index as int, kept);
                if kept.len() != old(self).current().len() {
                    final(self).fv() == normalized(fv) && r == Some(normalized_bounds(fv))
                } else {
                    final(self).fv() == old(self).fv() && r is None
                }
            }),
    {
        let count = self.frames[self.index].len();
        let kept = self.frame_outside(area);
        let ghost old_fv = self.fv();
        proof {
            lemma_outside_len(self.current(), area);
        }
        let kept_len = kept.len();
        self.set_current(kept);
        if count != kept_len {
            let b = self.calculate_bounds();
            proof {
                assert(normalized(old_fv.update(self.index as int, kept@)).len() == old_fv.len());
            }
            return Some(b);
        }
        assert(self.fv() =~= old_fv);
        None
    }

    /// Replaces the current frame's texels inside `area` by `symbol` with the given colors
    /// (one texel per position of the area), then normalizes; returns the new bounds.
    pub fn apply_symbol(&mut self, symbol: char, bg: u8, fg: u8, area: Bounds) -> (r: Bounds)
        requires
            old(self).wf(),
            area.spec_dimension().area() <= u16::MAX,
            area.edges_fit(),
            spread_fits(
                old(self).fv().update(
                    old(self).index as int,
                    frame_with_symbol(old(self).current(), symbol, bg, fg, area),
                ),
            ),
        ensures
            final(self).wf(),
            final(self).index == old(self).index,
            ({
                let fv = old(self).fv().update(
                    old(self).index as int,
                    frame_with_symbol(old(self).current(), symbol, bg, fg, area),
                );
                final(self).fv() == normalized(fv) && r == normalized_bounds(fv)
            }),
    {
        let mut frame = self.frame_outside(area);
        let ghost kept = frame@;
        let size = area.size();
        let pos = area.position();
        let dim = area.dimension();
        let w = dim.w as usize;
        let ghost placed = area.positions().map_values(|p: Position2D| symbol_texel(symbol, bg, fg, p));
        let mut i: usize = 0;
        while i < size
            invariant
                size == dim.w * dim.h,
                dim == area.spec_dimension(),
                pos == area.spec_position(),
                w == dim.w,
                area.edges_fit(),
                placed == area.positions().map_values(|p: Position2D| symbol_texel(symbol, bg, fg, p)),
                placed.len() == size,
                i <= size,
                frame@ == kept + placed.take(i as int),
            decreases size - i,
        {
            proof {
                assert(w > 0) by (nonlinear_arith)
                    requires
                        i < size,
                        size == w * dim.h,
                        dim.h >= 0,
                ;
                assert((i as int) / (w as int) < dim.h) by (nonlinear_arith)
                    requires
                        i < size,
                        size == w * dim.h,
                        w > 0,
                ;
            }
            let col = i % w;
            let row = i / w;
            let x = pos.x + col as i32;
            let y = pos.y + row as i32;
            let t = TexelV1 { symbol, bg, fg, x, y, styles: SymbolStyles::new() };
            frame.push(t);
            proof {
                assert(area.nth_position(i as int) == Position2D { x, y });
                assert(placed[i as int] == t);
                assert(kept + placed.take(i + 1) =~= (kept + placed.take(i as int)).push(t));
            }
            i = i + 1;
        }
        proof {
            assert(placed.take(size as int) =~= placed);
        }
        self.set_current(frame);
        self.calculate_bounds()
    }

    /// Index of the first texel of `frame` at `(x, y)`
    fn find_first(frame: &Vec<TexelV1>, x: i32, y: i32) -> (r: Option<usize>)
        ensures
            r matches Some(i) ==> is_first_at(frame@, x, y, i as int),
            r is None ==> !has_at(frame@, x, y),
    {
        let mut i: usize = 0;
        while i < frame.len()
            invariant
                i <= frame@.len(),
                forall|j: int| 0 <= j < i ==> !(#[trigger] frame@[j].x == x && frame@[j].y == y),
            decreases frame@.len() - i,
        {
            if frame[i].x == x && frame[i].y == y {
                return Some(i);
            }
            i = i + 1;
        }
        None
    }

    /// Places `texels`, moved by `pos`, into the current frame: each replaces the first
    /// texel at its position or is appended. Then normalizes; returns the new bounds.
    pub fn apply_texels(&mut self, texels: Vec<TexelV1>, pos: Position2D) -> (r: Bounds)
        requires
            old(self).wf(),
            forall|k: int|
                0 <= k < texels@.len() ==> #[trigger] texel_pos(texels@[k]).fits_plus(pos),
            spread_fits(
                old(self).fv().update(
                    old(self).index as int,
                    place_texels(old(self).current(), texels@, pos.x as int, pos.y as int),
                ),
            ),
        ensures
            final(self).wf(),
            final(self).index == old(self).index,
            ({
                let fv = old(self).fv().update(
                    old(self).index as int,
                    place_texels(old(self).current(), texels@, pos.x as int, pos.y as int),
                );
                final(self).fv() == normalized(fv) && r == normalized_bounds(fv)
            }),
    {
        let ghost cur = self.current();
        let mut frame = Self::copy_texels(&self.frames[self.index]);
        let mut k: usize = 0;
        while k < texels.len()
            invariant
                k <= texels@.len(),
                forall|j: int|
                    0 <= j < texels@.len() ==> #[trigger] texel_pos(texels@[j]).fits_plus(pos),
                frame@ == place_texels(cur, texels@.take(k as int), pos.x as int, pos.y as int),
            decreases texels@.len() - k,
        {
            let t = texels[k];
            assert(texel_pos(texels@[k as int]).fits_plus(pos));
            let localized = t.move_by(pos);
            match Self::find_first(&frame, localized.x, localized.y) {
                Some(i) => {
                    proof {
                        lemma_first_unique(frame@, localized.x, localized.y, i as int);
                    }
                    frame.set(i, localized);
                },
                None => {
                    frame.push(localized);
                },
            }
            proof {
                lemma_take_step(texels@, k as int);
            }
            k = k + 1;
        }
        proof {
            assert(texels@.take(texels@.len() as int) =~= texels@);
        }
        self.set_current(frame);
        self.calculate_bounds()
    }

    /// Sprite made from a text: spaces advance, new lines start the next row, every
    /// other character becomes a texel with default colors. `None` when the text is
    /// longer than `SPRITE_MAX_BYTES`.
    pub fn from_txt(buf: &str) -> (r: Option<SpriteV1>)
        ensures
            r is None <==> (buf.len() > SPRITE_MAX_BYTES || buf@.len() > SPRITE_MAX_BYTES),
            r matches Some(sprite) ==> sprite.wf() && sprite.index == 0 && sprite.fv() == seq![
                text_texels(buf@).0,
            ],
    {
        let n = buf.unicode_len();
        if buf.len() > SPRITE_MAX_BYTES || n > SPRITE_MAX_BYTES {
            return None;
        }
        let mut texels: Vec<TexelV1> = Vec::new();
        let mut x: i32 = 0;
        let mut y: i32 = 0;
        let mut i: usize = 0;
        while i < n
            invariant
                n == buf@.len(),
                n <= SPRITE_MAX_BYTES,
                i <= n,
                (texels@, x as int, y as int) == text_texels(buf@.take(i as int)),
                0 <= x <= i,
                0 <= y <= i,
            decreases n - i,
        {
            let c = buf.get_char(i);
            proof {
                lemma_take_step(buf@, i as int);
                lemma_text_bounds(buf@.take(i as int));
            }
            if c == ' ' {
                x = x + 1;
            } else if c == '\n' {
                x = 0;
                y = y + 1;
            } else {
                texels.push(
                    TexelV1 {
                        x,
                        y,
                        symbol: c,
                        styles: SymbolStyles::new(),
                        fg: DEFAULT_FG_U8,
                        bg: DEFAULT_BG_U8,
                    },
                );
                x = x + 1;
            }
            i = i + 1;
        }
        proof {
            assert(buf@.take(n as int) =~= buf@);
        }
        Some(Self::from_texels(texels))
    }
}

} // verus!
