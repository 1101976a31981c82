//! The double buffered screen: texels are drawn into the back buffer, and only those that
//! differ from the previous frame are written out.

use crate::common::texel::{texel_text, TexelExt};
use crate::os::{move_to_seq, screen_coord, Terminal};
use crate::texel_types::{Position2D, SymbolStyles, Texel, DEFAULT_BG_U8, DEFAULT_FG_U8};
use vstd::prelude::*;

verus! {

/// Whether `pos` lies on a screen `size_x` by `size_y` whose top left corner is at
/// (`origin`, `origin`)
pub open spec fn on_screen(size_x: int, size_y: int, origin: int, pos: Position2D) -> bool {
    origin <= pos.x < origin + size_x && origin <= pos.y < origin + size_y
}

/// Buffer cell of screen position `pos` on a screen `size_x` wide with its top left
/// corner at (`origin`, `origin`)
pub open spec fn index_of(size_x: int, origin: int, pos: Position2D) -> int {
    size_x * (pos.y - origin) + (pos.x - origin)
}

/// Screen position of buffer cell `i` on a screen `size_x` wide with its top left corner
/// at (`origin`, `origin`)
pub open spec fn deindex(size_x: int, origin: int, i: int) -> Position2D {
    Position2D { x: (i % size_x + origin) as i32, y: (i / size_x + origin) as i32 }
}

/// A blank texel in the default colors at `pos`
pub open spec fn blank_texel(pos: Position2D) -> Texel {
    Texel { pos, symbol: ' ', bg: DEFAULT_BG_U8, fg: DEFAULT_FG_U8, styles: SymbolStyles::spec_empty() }
}

/// A blank screen, row after row
pub open spec fn blank_screen(size_x: int, size_y: int, origin: int) -> Seq<Texel> {
    Seq::new((size_x * size_y) as nat, |i: int| blank_texel(deindex(size_x, origin, i)))
}

/// The screen `cells` with `t` drawn at its position; a texel off the screen changes nothing
pub open spec fn put(size_x: int, size_y: int, origin: int, cells: Seq<Texel>, t: Texel) -> Seq<Texel> {
    if on_screen(size_x, size_y, origin, t.pos) {
        cells.update(index_of(size_x, origin, t.pos), t)
    } else {
        cells
    }
}

/// The screen `cells` with the texels `ts` drawn in order
pub open spec fn put_all(size_x: int, size_y: int, origin: int, cells: Seq<Texel>, ts: Seq<Texel>) -> Seq<Texel>
    decreases ts.len(),
{
    if ts.len() == 0 {
        cells
    } else {
        put(size_x, size_y, origin, put_all(size_x, size_y, origin, cells, ts.drop_last()), ts.last())
    }
}

/// The screen `cells` with the texel at `pos` given the background `bg`; a position off the
/// screen changes nothing
pub open spec fn shade(size_x: int, size_y: int, origin: int, cells: Seq<Texel>, pos: Position2D, bg: u8) -> Seq<Texel> {
    if on_screen(size_x, size_y, origin, pos) {
        cells.update(index_of(size_x, origin, pos), Texel { bg, ..cells[index_of(size_x, origin, pos)] })
    } else {
        cells
    }
}

/// The screen `cells` with the texels at the positions `ps` given the background `bg`
pub open spec fn shade_all(size_x: int, size_y: int, origin: int, cells: Seq<Texel>, ps: Seq<Position2D>, bg: u8) -> Seq<Texel>
    decreases ps.len(),
{
    if ps.len() == 0 {
        cells
    } else {
        shade(size_x, size_y, origin, shade_all(size_x, size_y, origin, cells, ps.drop_last(), bg), ps.last(), bg)
    }
}

/// Drawing `a` then `b` is drawing `a + b`
pub proof fn lemma_put_all_concat(size_x: int, size_y: int, origin: int, cells: Seq<Texel>, a: Seq<Texel>, b: Seq<Texel>)
    ensures
        put_all(size_x, size_y, origin, cells, a + b) == put_all(
            size_x,
            size_y,
            origin,
            put_all(size_x, size_y, origin, cells, a),
            b,
        ),
    decreases b.len(),
{
    if b.len() == 0 {
        assert(a + b =~= a);
    } else {
        assert((a + b).drop_last() =~= a + b.drop_last());
        assert((a + b).last() == b.last());
        lemma_put_all_concat(size_x, size_y, origin, cells, a, b.drop_last());
    }
}

/// Texel `i` of `text` written from (`start_x`, `y`) to the right
pub open spec fn line_texel(start_x: int, y: i32, text: Seq<char>, bg: u8, fg: u8, styles: SymbolStyles, i: int) -> Texel {
    Texel { pos: Position2D { x: (start_x + i) as i32, y }, symbol: text[i], bg, fg, styles }
}

/// The texels of `text` written from (`start_x`, `y`) to the right
pub open spec fn line_texels(start_x: int, y: i32, text: Seq<char>, bg: u8, fg: u8, styles: SymbolStyles) -> Seq<Texel> {
    Seq::new(text.len(), |i: int| line_texel(start_x, y, text, bg, fg, styles, i))
}

/// The texels of `newer` that differ from those at the same place in `older`, in order
pub open spec fn changed(newer: Seq<Texel>, older: Seq<Texel>) -> Seq<Texel>
    decreases newer.len(),
{
    if newer.len() == 0 {
        Seq::empty()
    } else {
        let rest = changed(newer.drop_last(), older);
        if older[newer.len() - 1] != newer.last() {
            rest.push(newer.last())
        } else {
            rest
        }
    }
}

proof fn lemma_index_roundtrip(size_x: int, size_y: int, origin: int, i: int)
    requires
        0 < size_x < u16::MAX,
        0 < size_y < u16::MAX,
        0 <= origin <= 1,
        0 <= i < size_x * size_y,
    ensures
        0 <= i % size_x < size_x,
        0 <= i / size_x < size_y,
        on_screen(size_x, size_y, origin, deindex(size_x, origin, i)),
        index_of(size_x, origin, deindex(size_x, origin, i)) == i,
{
    assert(0 <= i % size_x < size_x) by (nonlinear_arith)
        requires
            size_x > 0,
            i >= 0,
    ;
    assert(0 <= i / size_x < size_y) by (nonlinear_arith)
        requires
            size_x > 0,
            0 <= i < size_x * size_y,
    ;
    assert(size_x * (i / size_x) + i % size_x == i) by (nonlinear_arith)
        requires
            size_x > 0,
    ;
}

proof fn lemma_index_in_range(size_x: int, size_y: int, origin: int, pos: Position2D)
    requires
        size_x > 0,
        size_y > 0,
        on_screen(size_x, size_y, origin, pos),
    ensures
        0 <= index_of(size_x, origin, pos) < size_x * size_y,
        0 <= size_x * (pos.y - origin) <= size_x * (size_y - 1),
{
    let y = pos.y - origin;
    let x = pos.x - origin;
    assert(0 <= size_x * y <= size_x * (size_y - 1)) by (nonlinear_arith)
        requires
            size_x > 0,
            0 <= y < size_y,
    ;
    assert(size_x * (size_y - 1) + size_x == size_x * size_y) by (nonlinear_arith);
}

/// A screen's texels, row after row, each at its own position
pub struct TexelBuf {
    size_x: usize,
    size_y: usize,
    origin: i32,
    buf: Vec<Texel>,
}

impl TexelBuf {
    /// Width of the screen
    pub closed spec fn width(&self) -> int {
        self.size_x as int
    }

    /// Height of the screen
    pub closed spec fn height(&self) -> int {
        self.size_y as int
    }

    /// Coordinate of the top row and of the left column
    pub closed spec fn origin(&self) -> int {
        self.origin as int
    }

    /// The texels, row after row
    pub closed spec fn cells(&self) -> Seq<Texel> {
        self.buf@
    }

    /// The screen fits the terminal's coordinates, and every texel sits at its own place
    pub closed spec fn wf(&self) -> bool {
        &&& 0 < self.size_x < u16::MAX
        &&& 0 < self.size_y < u16::MAX
        &&& 0 <= self.origin <= 1
        &&& self.buf@.len() == self.size_x * self.size_y
        &&& forall|i: int|
            0 <= i < self.buf@.len() ==> on_screen(
                self.size_x as int,
                self.size_y as int,
                self.origin as int,
                (#[trigger] self.buf@[i]).pos,
            ) && index_of(self.size_x as int, self.origin as int, self.buf@[i].pos) == i
    }

    /// A blank screen `size_x` by `size_y` with its top left corner at (`origin`, `origin`)
    pub fn new(size_x: usize, size_y: usize, origin: i32) -> (r: TexelBuf)
        requires
            0 < size_x < u16::MAX,
            0 < size_y < u16::MAX,
            0 <= origin <= 1,
        ensures
            r.wf(),
            r.width() == size_x,
            r.height() == size_y,
            r.origin() == origin,
            r.cells() == blank_screen(size_x as int, size_y as int, origin as int),
    {
        let mut result = TexelBuf { size_x, size_y, origin, buf: Vec::new() };
        result.clear();
        result
    }

    /// Blanks the screen
    pub fn clear(&mut self)
        requires
            0 < old(self).width() < u16::MAX,
            0 < old(self).height() < u16::MAX,
            0 <= old(self).origin() <= 1,
        ensures
            final(self).wf(),
            final(self).width() == old(self).width(),
            final(self).height() == old(self).height(),
            final(self).origin() == old(self).origin(),
            final(self).cells() == blank_screen(old(self).width(), old(self).height(), old(self).origin()),
    {
        let sx = self.size_x;
        let sy = self.size_y;
        let o = self.origin;
        assert(sx * sy <= u16::MAX * u16::MAX) by (nonlinear_arith)
            requires
                0 < sx < u16::MAX,
                0 < sy < u16::MAX,
        ;
        let n = sx * sy;
        let mut buf: Vec<Texel> = Vec::new();
        let mut i: usize = 0;
        while i < n
            invariant
                0 < sx < u16::MAX,
                0 < sy < u16::MAX,
                0 <= o <= 1,
                n == sx * sy,
                i <= n,
                buf@.len() == i,
                forall|k: int| 0 <= k < i ==> #[trigger] buf@[k] == blank_texel(deindex(sx as int, o as int, k)),
            decreases n - i,
        {
            proof {
                lemma_index_roundtrip(sx as int, sy as int, o as int, i as int);
            }
            let x = (i % sx) as i32 + o;
            let y = (i / sx) as i32 + o;
            buf.push(
                Texel {
                    pos: Position2D { x, y },
                    symbol: ' ',
                    bg: DEFAULT_BG_U8,
                    fg: DEFAULT_FG_U8,
                    styles: SymbolStyles::new(),
                },
            );
            i = i + 1;
        }
        self.buf = buf;
        assert(self.buf@ =~= blank_screen(sx as int, sy as int, o as int));
        assert forall|k: int| 0 <= k < self.buf@.len() implies on_screen(
            sx as int,
            sy as int,
            o as int,
            (#[trigger] self.buf@[k]).pos,
        ) && index_of(sx as int, o as int, self.buf@[k].pos) == k by {
            lemma_index_roundtrip(sx as int, sy as int, o as int, k);
        }
    }

    /// Index of the cell at `pos`, when it lies on the screen
    fn index(&self, pos: Position2D) -> (r: Option<usize>)
        requires
            self.wf(),
        ensures
            r is Some <==> on_screen(self.width(), self.height(), self.origin(), pos),
            r matches Some(i) ==> i == index_of(self.width(), self.origin(), pos) && i < self.cells().len(),
    {
        let sx = self.size_x;
        let sy = self.size_y;
        let o = self.origin;
        if pos.x < o || pos.y < o || (pos.x - o) as usize >= sx || (pos.y - o) as usize >= sy {
            return None;
        }
        proof {
            lemma_index_in_range(sx as int, sy as int, o as int, pos);
        }
        assert(sx * sy <= u16::MAX * u16::MAX) by (nonlinear_arith)
            requires
                0 < sx < u16::MAX,
                0 < sy < u16::MAX,
        ;
        let row = sx * ((pos.y - o) as usize);
        Some(row + ((pos.x - o) as usize))
    }

    /// Puts `texel` at its position; a texel off the screen is dropped
    pub fn set_texel(&mut self, texel: Texel)
        requires
            old(self).wf(),
        ensures
            final(self).wf(),
            final(self).width() == old(self).width(),
            final(self).height() == old(self).height(),
            final(self).origin() == old(self).origin(),
            final(self).cells() == put(old(self).width(), old(self).height(), old(self).origin(), old(self).cells(), texel),
    {
        if let Some(i) = self.index(texel.pos) {
            let ghost old_buf = self.buf@;
            self.buf.set(i, texel);
            assert forall|k: int| 0 <= k < self.buf@.len() implies on_screen(
                self.size_x as int,
                self.size_y as int,
                self.origin as int,
                (#[trigger] self.buf@[k]).pos,
            ) && index_of(self.size_x as int, self.origin as int, self.buf@[k].pos) == k by {
                if k != i {
                    assert(self.buf@[k] == old_buf[k]);
                }
            }
        }
    }

    /// Puts the texels at their positions, in order
    pub fn set_texels(&mut self, texels: Vec<Texel>)
        requires
            old(self).wf(),
        ensures
            final(self).wf(),
            final(self).width() == old(self).width(),
            final(self).height() == old(self).height(),
            final(self).origin() == old(self).origin(),
            final(self).cells() == put_all(old(self).width(), old(self).height(), old(self).origin(), old(self).cells(), texels@),
    {
        let mut i: usize = 0;
        while i < texels.len()
            invariant
                self.wf(),
                self.width() == old(self).width(),
                self.height() == old(self).height(),
                self.origin() == old(self).origin(),
                i <= texels@.len(),
                self.cells() == put_all(self.width(), self.height(), self.origin(), old(self).cells(), texels@.take(i as int)),
            decreases texels@.len() - i,
        {
            assert(texels@.take(i + 1).drop_last() =~= texels@.take(i as int));
            self.set_texel(texels[i]);
            i = i + 1;
        }
        assert(texels@.take(texels@.len() as int) =~= texels@);
    }

    /// Gives the texel at the position of `texel` the background of `texel`
    pub fn override_texel_bg(&mut self, texel: Texel)
        requires
            old(self).wf(),
        ensures
            final(self).wf(),
            final(self).width() == old(self).width(),
            final(self).height() == old(self).height(),
            final(self).origin() == old(self).origin(),
            final(self).cells() == shade(old(self).width(), old(self).height(), old(self).origin(), old(self).cells(), texel.pos, texel.bg),
    {
        if let Some(i) = self.index(texel.pos) {
            let mut existing = self.buf[i];
            existing.bg = texel.bg;
            let ghost old_buf = self.buf@;
            self.buf.set(i, existing);
            assert forall|k: int| 0 <= k < self.buf@.len() implies on_screen(
                self.size_x as int,
                self.size_y as int,
                self.origin as int,
                (#[trigger] self.buf@[k]).pos,
            ) && index_of(self.size_x as int, self.origin as int, self.buf@[k].pos) == k by {
                if k != i {
                    assert(self.buf@[k] == old_buf[k]);
                }
            }
        }
    }

    /// The texels of `newer` that differ from those at the same place in `older`, in order
    pub fn diff(newer: &TexelBuf, older: &TexelBuf) -> (r: Vec<Texel>)
        requires
            newer.wf(),
            older.wf(),
            newer.width() == older.width(),
            newer.height() == older.height(),
            newer.origin() == older.origin(),
        ensures
            r@ == changed(newer.cells(), older.cells()),
    {
        let mut result: Vec<Texel> = Vec::new();
        let mut i: usize = 0;
        while i < newer.buf.len()
            invariant
                newer.wf(),
                older.wf(),
                newer.width() == older.width(),
                newer.height() == older.height(),
                newer.origin() == older.origin(),
                i <= newer.buf@.len(),
                result@ == changed(newer.buf@.take(i as int), older.buf@),
            decreases newer.buf@.len() - i,
        {
            let t = newer.buf[i];
            assert(on_screen(newer.size_x as int, newer.size_y as int, newer.origin as int, newer.buf@[i as int].pos));
            let k = match older.index(t.pos) {
                Some(k) => k,
                None => i,
            };
            assert(newer.buf@.take(i + 1).drop_last() =~= newer.buf@.take(i as int));
            if older.buf[k] != t {
                result.push(t);
            }
            i = i + 1;
        }
        assert(newer.buf@.take(newer.buf@.len() as int) =~= newer.buf@);
        result
    }
}

/// Terminal text of the texels, in order
pub open spec fn texels_text(ts: Seq<Texel>) -> Seq<char>
    decreases ts.len(),
{
    if ts.len() == 0 {
        Seq::empty()
    } else {
        texels_text(ts.drop_last()) + texel_text(ts.last())
    }
}

/// Two screens drawn in turn: the one being drawn, and the one shown last
pub struct SyncTerm {
    front: TexelBuf,
    back: TexelBuf,
    /// whether `back` is the one being drawn
    drawing_back: bool,
    cursor_x: i32,
    cursor_y: i32,
}

impl SyncTerm {
    /// Both screens well formed and of one size and origin
    pub closed spec fn wf(&self) -> bool {
        &&& self.front.wf()
        &&& self.back.wf()
        &&& self.front.width() == self.back.width()
        &&& self.front.height() == self.back.height()
        &&& self.front.origin() == self.back.origin()
    }

    /// The screen being drawn
    pub closed spec fn current(&self) -> Seq<Texel> {
        if self.drawing_back {
            self.back.cells()
        } else {
            self.front.cells()
        }
    }

    /// The screen shown last
    pub closed spec fn previous(&self) -> Seq<Texel> {
        if self.drawing_back {
            self.front.cells()
        } else {
            self.back.cells()
        }
    }

    /// Where the cursor is left
    pub closed spec fn cursor(&self) -> (i32, i32) {
        (self.cursor_x, self.cursor_y)
    }

    /// Width of the screens
    pub closed spec fn width(&self) -> int {
        self.front.width()
    }

    /// Height of the screens
    pub closed spec fn height(&self) -> int {
        self.front.height()
    }

    /// Coordinate of the top row and of the left column
    pub closed spec fn origin(&self) -> int {
        self.front.origin()
    }

    /// Width and height of the screens
    pub fn size(&self) -> (r: (usize, usize))
        requires
            self.wf(),
        ensures
            r.0 == self.width(),
            r.1 == self.height(),
            0 < r.0 < u16::MAX,
            0 < r.1 < u16::MAX,
    {
        (self.front.size_x, self.front.size_y)
    }

    /// Two blank screens `size_x` by `size_y` with positions from 1, the cursor at (1, 1)
    pub fn new(size_x: usize, size_y: usize) -> (r: SyncTerm)
        requires
            0 < size_x < u16::MAX,
            0 < size_y < u16::MAX,
        ensures
            r.wf(),
            r.width() == size_x,
            r.height() == size_y,
            r.origin() == 1,
            r.current() == blank_screen(size_x as int, size_y as int, 1),
            r.previous() == blank_screen(size_x as int, size_y as int, 1),
            r.cursor() == (1i32, 1i32),
    {
        SyncTerm::with_origin(size_x, size_y, 1)
    }

    /// Two blank screens `size_x` by `size_y` with positions from `origin`, the cursor at
    /// (`origin`, `origin`)
    pub fn with_origin(size_x: usize, size_y: usize, origin: i32) -> (r: SyncTerm)
        requires
            0 < size_x < u16::MAX,
            0 < size_y < u16::MAX,
            0 <= origin <= 1,
        ensures
            r.wf(),
            r.width() == size_x,
            r.height() == size_y,
            r.origin() == origin,
            r.current() == blank_screen(size_x as int, size_y as int, origin as int),
            r.previous() == blank_screen(size_x as int, size_y as int, origin as int),
            r.cursor() == (origin, origin),
    {
        SyncTerm {
            front: TexelBuf::new(size_x, size_y, origin),
            back: TexelBuf::new(size_x, size_y, origin),
            drawing_back: false,
            cursor_x: origin,
            cursor_y: origin,
        }
    }

    /// Where the cursor is left
    pub fn cursor_pos(&self) -> (r: (i32, i32))
        ensures
            r == self.cursor(),
    {
        (self.cursor_x, self.cursor_y)
    }

    /// Leaves the cursor at (`cursor_x`, `cursor_y`)
    pub fn set_cursor_pos(&mut self, cursor_x: i32, cursor_y: i32)
        ensures
            final(self).cursor() == (cursor_x, cursor_y),
            final(self).current() == old(self).current(),
            final(self).previous() == old(self).previous(),
            final(self).wf() == old(self).wf(),
            final(self).width() == old(self).width(),
            final(self).height() == old(self).height(),
            final(self).origin() == old(self).origin(),
    {
        self.cursor_x = cursor_x;
        self.cursor_y = cursor_y;
    }

    /// Draws `texel` at its position; a texel off the screen is dropped
    pub fn write_texel(&mut self, texel: Texel)
        requires
            old(self).wf(),
        ensures
            final(self).wf(),
            final(self).width() == old(self).width(),
            final(self).height() == old(self).height(),
            final(self).origin() == old(self).origin(),
            final(self).previous() == old(self).previous(),
            final(self).cursor() == old(self).cursor(),
            final(self).current() == put(old(self).width(), old(self).height(), old(self).origin(), old(self).current(), texel),
    {
        if self.drawing_back {
            self.back.set_texel(texel);
        } else {
            self.front.set_texel(texel);
        }
    }

    /// Draws the texels in order
    pub fn write_texels(&mut self, texels: Vec<Texel>)
        requires
            old(self).wf(),
        ensures
            final(self).wf(),
            final(self).width() == old(self).width(),
            final(self).height() == old(self).height(),
            final(self).origin() == old(self).origin(),
            final(self).previous() == old(self).previous(),
            final(self).cursor() == old(self).cursor(),
            final(self).current() == put_all(old(self).width(), old(self).height(), old(self).origin(), old(self).current(), texels@),
    {
        if self.drawing_back {
            self.back.set_texels(texels);
        } else {
            self.front.set_texels(texels);
        }
    }

    /// Gives the texel at the position of `texel` the background of `texel`
    pub fn override_texel_bg(&mut self, texel: Texel)
        requires
            old(self).wf(),
        ensures
            final(self).wf(),
            final(self).width() == old(self).width(),
            final(self).height() == old(self).height(),
            final(self).origin() == old(self).origin(),
            final(self).previous() == old(self).previous(),
            final(self).cursor() == old(self).cursor(),
            final(self).current() == shade(old(self).width(), old(self).height(), old(self).origin(), old(self).current(), texel.pos, texel.bg),
    {
        if self.drawing_back {
            self.back.override_texel_bg(texel);
        } else {
            self.front.override_texel_bg(texel);
        }
    }

    /// Draws `text` from (`start_x`, `y`) to the right in the given colors and styles
    pub fn write_line(&mut self, start_x: i32, y: i32, text: &str, bg: u8, fg: u8, styles: SymbolStyles)
        requires
            old(self).wf(),
            start_x + text@.len() <= i32::MAX,
        ensures
            final(self).wf(),
            final(self).width() == old(self).width(),
            final(self).height() == old(self).height(),
            final(self).origin() == old(self).origin(),
            final(self).previous() == old(self).previous(),
            final(self).cursor() == old(self).cursor(),
            final(self).current() == put_all(
                old(self).width(),
                old(self).height(),
                old(self).origin(),
                old(self).current(),
                line_texels(start_x as int, y, text@, bg, fg, styles),
            ),
    {
        let n = text.unicode_len();
        let ghost line = line_texels(start_x as int, y, text@, bg, fg, styles);
        assert(line.len() == n);
        let mut x: i32 = start_x;
        let mut i: usize = 0;
        while i < n
            invariant
                n == text@.len(),
                line == line_texels(start_x as int, y, text@, bg, fg, styles),
                line.len() == n,
                start_x + n <= i32::MAX,
                x == start_x + i,
                self.wf(),
                self.width() == old(self).width(),
                self.height() == old(self).height(),
                self.origin() == old(self).origin(),
                self.previous() == old(self).previous(),
                self.cursor() == old(self).cursor(),
                i <= n,
                self.current() == put_all(self.width(), self.height(), self.origin(), old(self).current(), line.take(i as int)),
            decreases n - i,
        {
            let symbol = text.get_char(i);
            let t = Texel { pos: Position2D { x, y }, symbol, fg, bg, styles };
            assert(line.take(i + 1).drop_last() =~= line.take(i as int));
            assert(line.take(i + 1).last() == t);
            self.write_texel(t);
            x = x + 1;
            i = i + 1;
        }
        assert(line.take(n as int) =~= line);
    }

    /// Draws `text` from (`start_x`, `y`) to the right in the default colors
    pub fn write_line_default(&mut self, start_x: i32, y: i32, text: &str)
        requires
            old(self).wf(),
            start_x + text@.len() <= i32::MAX,
        ensures
            final(self).wf(),
            final(self).width() == old(self).width(),
            final(self).height() == old(self).height(),
            final(self).origin() == old(self).origin(),
            final(self).previous() == old(self).previous(),
            final(self).cursor() == old(self).cursor(),
            final(self).current() == put_all(
                old(self).width(),
                old(self).height(),
                old(self).origin(),
                old(self).current(),
                line_texels(start_x as int, y, text@, DEFAULT_BG_U8, DEFAULT_FG_U8, SymbolStyles::spec_empty()),
            ),
    {
        self.write_line(start_x, y, text, DEFAULT_BG_U8, DEFAULT_FG_U8, SymbolStyles::new());
    }

    /// Starts the next frame: the screen drawn becomes the one shown, and the other is
    /// blanked for drawing
    pub fn flip_buffers(&mut self)
        requires
            old(self).wf(),
        ensures
            final(self).wf(),
            final(self).width() == old(self).width(),
            final(self).height() == old(self).height(),
            final(self).origin() == old(self).origin(),
            final(self).previous() == old(self).current(),
            final(self).current() == blank_screen(old(self).width(), old(self).height(), old(self).origin()),
            final(self).cursor() == old(self).cursor(),
    {
        self.drawing_back = !self.drawing_back;
        if self.drawing_back {
            self.back.clear();
        } else {
            self.front.clear();
        }
    }

    /// The text that brings the terminal from the screen shown last to the one drawn: each
    /// texel that changed, in order, then the cursor move
    pub fn flush_text(&self) -> (r: String)
        requires
            self.wf(),
            screen_coord(self.cursor().0) < u16::MAX,
            screen_coord(self.cursor().1) < u16::MAX,
        ensures
            r@ == texels_text(changed(self.current(), self.previous())) + move_to_seq(
                screen_coord(self.cursor().0),
                screen_coord(self.cursor().1),
            ),
    {
        let texels = if self.drawing_back {
            TexelBuf::diff(&self.back, &self.front)
        } else {
            TexelBuf::diff(&self.front, &self.back)
        };
        let ghost current = self.current();
        let ghost sx = self.width();
        let ghost sy = self.height();
        let ghost o = self.origin();
        proof {
            let cells = if self.drawing_back { self.back.cells() } else { self.front.cells() };
            assert(cells == current);
            lemma_changed_on_screen(current, self.previous(), sx, sy, o);
        }
        let mut out: Vec<char> = Vec::new();
        let mut i: usize = 0;
        while i < texels.len()
            invariant
                texels@ == changed(current, self.previous()),
                forall|k: int| 0 <= k < texels@.len() ==> on_screen(sx, sy, o, (#[trigger] texels@[k]).pos),
                0 < sx < u16::MAX,
                0 < sy < u16::MAX,
                0 <= o <= 1,
                i <= texels@.len(),
                out@ == texels_text(texels@.take(i as int)),
            decreases texels@.len() - i,
        {
            let t = texels[i];
            assert(on_screen(sx, sy, o, texels@[i as int].pos));
            let text = t.to_string();
            let chars = crate::common::text::chars_of(text.as_str());
            let mut k: usize = 0;
            let ghost before = out@;
            while k < chars.len()
                invariant
                    k <= chars@.len(),
                    out@ == before + chars@.take(k as int),
                decreases chars@.len() - k,
            {
                out.push(chars[k]);
                assert(chars@.take(k + 1) =~= chars@.take(k as int).push(chars@[k as int]));
                k = k + 1;
            }
            assert(chars@.take(chars@.len() as int) =~= chars@);
            assert(texels@.take(i + 1).drop_last() =~= texels@.take(i as int));
            i = i + 1;
        }
        assert(texels@.take(texels@.len() as int) =~= texels@);
        let goto = Terminal::goto(self.cursor_x, self.cursor_y);
        let goto_chars = crate::common::text::chars_of(goto.as_str());
        let mut k: usize = 0;
        let ghost before = out@;
        while k < goto_chars.len()
            invariant
                k <= goto_chars@.len(),
                out@ == before + goto_chars@.take(k as int),
            decreases goto_chars@.len() - k,
        {
            out.push(goto_chars[k]);
            assert(goto_chars@.take(k + 1) =~= goto_chars@.take(k as int).push(goto_chars@[k as int]));
            k = k + 1;
        }
        assert(goto_chars@.take(goto_chars@.len() as int) =~= goto_chars@);
        crate::common::text::string_of(&out)
    }
}

/// A screen compared with itself has no changed texels: a frame drawn again unchanged is
/// flushed as the cursor move alone
pub proof fn unchanged_screen_has_no_changes(cells: Seq<Texel>)
    ensures
        changed(cells, cells) == Seq::<Texel>::empty(),
        texels_text(changed(cells, cells)) == Seq::<char>::empty(),
{
    lemma_changed_of_prefix(cells, cells);
}

proof fn lemma_changed_of_prefix(newer: Seq<Texel>, older: Seq<Texel>)
    requires
        newer.len() <= older.len(),
        forall|i: int| 0 <= i < newer.len() ==> newer[i] == older[i],
    ensures
        changed(newer, older) == Seq::<Texel>::empty(),
    decreases newer.len(),
{
    if newer.len() > 0 {
        lemma_changed_of_prefix(newer.drop_last(), older);
    }
}

proof fn lemma_changed_on_screen(newer: Seq<Texel>, older: Seq<Texel>, sx: int, sy: int, o: int)
    requires
        forall|i: int| 0 <= i < newer.len() ==> on_screen(sx, sy, o, (#[trigger] newer[i]).pos),
    ensures
        forall|k: int| 0 <= k < changed(newer, older).len() ==> on_screen(sx, sy, o, (#[trigger] changed(newer, older)[k]).pos),
    decreases newer.len(),
{
    if newer.len() > 0 {
        let d = newer.drop_last();
        assert forall|i: int| 0 <= i < d.len() implies on_screen(sx, sy, o, (#[trigger] d[i]).pos) by {
            assert(d[i] == newer[i]);
        }
        lemma_changed_on_screen(d, older, sx, sy, o);
        let rest = changed(d, older);
        let all = changed(newer, older);
        assert(on_screen(sx, sy, o, newer.last().pos));
        assert forall|k: int| 0 <= k < all.len() implies on_screen(sx, sy, o, (#[trigger] all[k]).pos) by {
            if k < rest.len() {
                assert(all[k] == rest[k]);
            } else {
                assert(all[k] == newer.last());
            }
        }
    }
}

} // verus!
