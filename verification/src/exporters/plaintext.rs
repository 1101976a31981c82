//! Export of a scene as plain text: the current frame of every object drawn on a grid of
//! characters, deeper objects first, one line per row.

use crate::texel_types::{current_objects, Position, Scene, SceneView, SpriteData, TexelV1};
use vstd::prelude::*;

verus! {

/// Object indices stably sorted by key: `x` inserted after every index whose key is not
/// larger
pub open spec fn insert_by_z(s: Seq<int>, x: int, zs: Seq<i64>) -> Seq<int>
    decreases s.len(),
{
    if s.len() == 0 {
        seq![x]
    } else if zs[s.last()] <= zs[x] {
        s.push(x)
    } else {
        insert_by_z(s.drop_last(), x, zs).push(s.last())
    }
}

/// The first `n` object indices stably sorted by key, smallest first
pub open spec fn z_order(n: nat, zs: Seq<i64>) -> Seq<int>
    decreases n,
{
    if n == 0 {
        Seq::empty()
    } else {
        insert_by_z(z_order((n - 1) as nat, zs), n - 1, zs)
    }
}

/// The grid with character `c` at `row` and `col`, rows and columns added as needed, new
/// columns as spaces
pub open spec fn set_cell(lines: Seq<Seq<char>>, row: nat, col: nat, c: char) -> Seq<Seq<char>> {
    let l1 = if lines.len() <= row {
        lines + Seq::new((row + 1 - lines.len()) as nat, |i: int| Seq::<char>::empty())
    } else {
        lines
    };
    let line = l1[row as int];
    let line2 = if line.len() <= col {
        line + Seq::new((col + 1 - line.len()) as nat, |i: int| ' ')
    } else {
        line
    };
    l1.update(row as int, line2.update(col as int, c))
}

/// Setting one cell: the cell holds the character, the grid has at least `row + 1` rows,
/// every cell that was there before (but the one set) keeps its character, every row but
/// `row` keeps its length, and every cell added to reach the position is a space.
pub proof fn set_cell_pads_with_spaces(lines: Seq<Seq<char>>, row: nat, col: nat, c: char)
    ensures
        set_cell(lines, row, col, c).len() == if lines.len() <= row {
            row + 1
        } else {
            lines.len()
        },
        set_cell(lines, row, col, c)[row as int].len() == if row < lines.len() && col < lines[row as int].len() {
            lines[row as int].len()
        } else {
            col + 1
        },
        set_cell(lines, row, col, c)[row as int][col as int] == c,
        forall|r: int|
            0 <= r < set_cell(lines, row, col, c).len() && r != row ==> (#[trigger] set_cell(
                lines,
                row,
                col,
                c,
            )[r]).len() == if r < lines.len() {
                lines[r].len()
            } else {
                0
            },
        forall|r: int, k: int|
            0 <= r < set_cell(lines, row, col, c).len() && 0 <= k < set_cell(lines, row, col, c)[r].len()
                && !(r == row && k == col) ==> #[trigger] set_cell(lines, row, col, c)[r][k] == if r
                < lines.len() && k < lines[r].len() {
                lines[r][k]
            } else {
                ' '
            },
{
}

/// The grid after drawing texel `t` of an object at `pos`; texels left of or above the
/// origin are not drawn
pub open spec fn paint_texel(lines: Seq<Seq<char>>, t: TexelV1, pos: Position) -> Seq<Seq<char>> {
    let x = pos.x + t.x;
    let y = pos.y + t.y;
    if x < 0 || y < 0 {
        lines
    } else {
        set_cell(lines, y as nat, x as nat, t.symbol)
    }
}

/// The grid after drawing the texels `ts` of an object at `pos`, in order
pub open spec fn paint_frame(lines: Seq<Seq<char>>, ts: Seq<TexelV1>, pos: Position) -> Seq<Seq<char>>
    decreases ts.len(),
{
    if ts.len() == 0 {
        lines
    } else {
        paint_texel(paint_frame(lines, ts.drop_last(), pos), ts.last(), pos)
    }
}

/// Texels of the current frame of a sprite
pub open spec fn current_frame(s: SpriteData) -> Seq<TexelV1> {
    s.body.frames[s.body.index as int]
}

/// The grid after drawing the objects at the indices `order`, in order
pub open spec fn paint_objects(lines: Seq<Seq<char>>, objs: Seq<(SpriteData, Position)>, order: Seq<int>) -> Seq<
    Seq<char>,
>
    decreases order.len(),
{
    if order.len() == 0 {
        lines
    } else {
        let o = objs[order.last()];
        paint_frame(paint_objects(lines, objs, order.drop_last()), current_frame(o.0), o.1)
    }
}

/// Depths of the objects
pub open spec fn depths(objs: Seq<(SpriteData, Position)>) -> Seq<i64> {
    objs.map_values(|o: (SpriteData, Position)| o.1.z as i64)
}

/// The scene drawn on a grid of characters, deeper objects first
pub open spec fn scene_grid(objs: Seq<(SpriteData, Position)>) -> Seq<Seq<char>> {
    paint_objects(Seq::empty(), objs, z_order(objs.len(), depths(objs)))
}

/// The lines of a grid, each ended by a new line
pub open spec fn lines_text(lines: Seq<Seq<char>>) -> Seq<char>
    decreases lines.len(),
{
    if lines.len() == 0 {
        Seq::empty()
    } else {
        lines_text(lines.drop_last()) + lines.last().push('\n')
    }
}

/// Every object's current frame exists and its texels' scene positions stay within 32 bits
pub open spec fn export_fits(objs: Seq<(SpriteData, Position)>) -> bool {
    forall|i: int|
        0 <= i < objs.len() ==> {
            &&& (#[trigger] objs[i]).0.body.index < objs[i].0.body.frames.len()
            &&& forall|k: int|
                0 <= k < current_frame(objs[i].0).len() ==> {
                    &&& i32::MIN <= objs[i].1.x + (#[trigger] current_frame(objs[i].0)[k]).x <= i32::MAX
                    &&& i32::MIN <= objs[i].1.y + current_frame(objs[i].0)[k].y <= i32::MAX
                }
        }
}

/// Exports scenes as plain text
pub struct Plaintext;

/// The grid as sequences
pub open spec fn grid_view(lines: Seq<Vec<char>>) -> Seq<Seq<char>> {
    lines.map_values(|l: Vec<char>| l@)
}

proof fn lemma_insert_at(s: Seq<int>, x: int, zs: Seq<i64>, j: int)
    requires
        0 <= j <= s.len(),
        forall|k: int| j <= k < s.len() ==> zs[#[trigger] s[k]] > zs[x],
        j == 0 || zs[s[j - 1]] <= zs[x],
    ensures
        insert_by_z(s, x, zs) == s.insert(j, x),
    decreases s.len(),
{
    if s.len() == 0 {
        assert(s.insert(j, x) =~= seq![x]);
    } else if j == s.len() {
        assert(s.insert(j, x) =~= s.push(x));
    } else {
        let d = s.drop_last();
        assert forall|k: int| j <= k < d.len() implies zs[#[trigger] d[k]] > zs[x] by {
            assert(d[k] == s[k]);
        }
        lemma_insert_at(d, x, zs, j);
        assert(d.insert(j, x).push(s.last()) =~= s.insert(j, x));
    }
}

proof fn lemma_insert_members(s: Seq<int>, x: int, zs: Seq<i64>)
    ensures
        insert_by_z(s, x, zs).len() == s.len() + 1,
        forall|k: int|
            0 <= k < insert_by_z(s, x, zs).len() ==> #[trigger] insert_by_z(s, x, zs)[k] == x || exists|m: int|
                0 <= m < s.len() && insert_by_z(s, x, zs)[k] == s[m],
    decreases s.len(),
{
    if s.len() > 0 && zs[s.last()] > zs[x] {
        let d = s.drop_last();
        lemma_insert_members(d, x, zs);
        let r = insert_by_z(s, x, zs);
        assert forall|k: int| 0 <= k < r.len() implies #[trigger] r[k] == x || exists|m: int|
            0 <= m < s.len() && r[k] == s[m] by {
            if k < r.len() - 1 {
                if r[k] != x {
                    let m = choose|m: int| 0 <= m < d.len() && insert_by_z(d, x, zs)[k] == d[m];
                    assert(r[k] == s[m]);
                }
            } else {
                assert(r[k] == s[s.len() - 1]);
            }
        }
    }
}

pub proof fn lemma_order_range(n: nat, zs: Seq<i64>)
    ensures
        z_order(n, zs).len() == n,
        forall|k: int| 0 <= k < n ==> 0 <= #[trigger] z_order(n, zs)[k] < n,
    decreases n,
{
    if n > 0 {
        let p = z_order((n - 1) as nat, zs);
        lemma_order_range((n - 1) as nat, zs);
        lemma_insert_members(p, n - 1, zs);
        assert forall|k: int| 0 <= k < n implies 0 <= #[trigger] z_order(n, zs)[k] < n by {
            if z_order(n, zs)[k] != n - 1 {
                let m = choose|m: int| 0 <= m < p.len() && z_order(n, zs)[k] == p[m];
            }
        }
    }
}

proof fn lemma_insert_by_z_sorted(s: Seq<int>, x: int, zs: Seq<i64>)
    requires
        forall|i: int, j: int| 0 <= i < j < s.len() ==> zs[#[trigger] s[i]] <= zs[#[trigger] s[j]],
    ensures
        forall|i: int, j: int|
            0 <= i < j < insert_by_z(s, x, zs).len() ==> zs[#[trigger] insert_by_z(s, x, zs)[i]]
                <= zs[#[trigger] insert_by_z(s, x, zs)[j]],
    decreases s.len(),
{
    let r = insert_by_z(s, x, zs);
    if s.len() == 0 {
    } else if zs[s.last()] <= zs[x] {
        assert forall|i: int, j: int| 0 <= i < j < r.len() implies zs[#[trigger] r[i]] <= zs[#[trigger] r[j]] by {
            assert(r[i] == s[i]);
            if j < s.len() {
                assert(r[j] == s[j]);
            } else if i < s.len() - 1 {
                assert(zs[s[i]] <= zs[s[s.len() - 1]]);
            }
        }
    } else {
        let d = s.drop_last();
        assert forall|i: int, j: int| 0 <= i < j < d.len() implies zs[#[trigger] d[i]] <= zs[#[trigger] d[j]] by {
            assert(d[i] == s[i] && d[j] == s[j]);
        }
        lemma_insert_by_z_sorted(d, x, zs);
        lemma_insert_members(d, x, zs);
        let p = insert_by_z(d, x, zs);
        assert forall|i: int, j: int| 0 <= i < j < r.len() implies zs[#[trigger] r[i]] <= zs[#[trigger] r[j]] by {
            assert(r[i] == p[i]);
            if j < p.len() {
                assert(r[j] == p[j]);
            } else {
                assert(r[j] == s[s.len() - 1]);
                if p[i] != x {
                    let m = choose|m: int| 0 <= m < d.len() && p[i] == d[m];
                    assert(d[m] == s[m]);
                    if m < s.len() - 1 {
                        assert(zs[s[m]] <= zs[s[s.len() - 1]]);
                    }
                }
            }
        }
    }
}

/// Objects are painted by depth: the painting order holds each of the first `n` objects,
/// and an object with a smaller `z` comes before one with a larger `z`, so the object with
/// the largest `z` is drawn last and shows on top.
pub proof fn painting_order_by_depth(n: nat, zs: Seq<i64>)
    ensures
        z_order(n, zs).len() == n,
        forall|k: int| 0 <= k < n ==> 0 <= #[trigger] z_order(n, zs)[k] < n,
        forall|i: int, j: int|
            0 <= i < j < n ==> zs[#[trigger] z_order(n, zs)[i]] <= zs[#[trigger] z_order(n, zs)[j]],
    decreases n,
{
    lemma_order_range(n, zs);
    if n > 0 {
        painting_order_by_depth((n - 1) as nat, zs);
        lemma_insert_by_z_sorted(z_order((n - 1) as nat, zs), n - 1, zs);
    }
}

/// Some texel of an object's current frame lies at column `col` and row `row` of the
/// scene and shows `ch`
pub open spec fn drawn_at(objs: Seq<(SpriteData, Position)>, row: int, col: int, ch: char) -> bool {
    exists|i: int, j: int|
        0 <= i < objs.len() && 0 <= j < current_frame(objs[i].0).len() && objs[i].1.x + (
        #[trigger] current_frame(objs[i].0)[j]).x == col && objs[i].1.y + current_frame(objs[i].0)[j].y
            == row && current_frame(objs[i].0)[j].symbol == ch
}

/// Every cell of the grid is a space or shows a texel drawn at its place
pub open spec fn only_drawn_cells(g: Seq<Seq<char>>, objs: Seq<(SpriteData, Position)>) -> bool {
    forall|r: int, k: int|
        0 <= r < g.len() && 0 <= k < g[r].len() ==> #[trigger] g[r][k] == ' ' || drawn_at(objs, r, k, g[r][k])
}

proof fn lemma_set_cell_drawn(g: Seq<Seq<char>>, objs: Seq<(SpriteData, Position)>, row: nat, col: nat, c: char)
    requires
        only_drawn_cells(g, objs),
        drawn_at(objs, row as int, col as int, c),
    ensures
        only_drawn_cells(set_cell(g, row, col, c), objs),
{
    set_cell_pads_with_spaces(g, row, col, c);
    let g2 = set_cell(g, row, col, c);
    assert forall|r: int, k: int| 0 <= r < g2.len() && 0 <= k < g2[r].len() implies #[trigger] g2[r][k] == ' '
        || drawn_at(objs, r, k, g2[r][k]) by {
        if !(r == row && k == col) && r < g.len() && k < g[r].len() {
            assert(g2[r][k] == g[r][k]);
        }
    }
}

proof fn lemma_paint_frame_drawn(
    g: Seq<Seq<char>>,
    objs: Seq<(SpriteData, Position)>,
    i: int,
    ts: Seq<TexelV1>,
)
    requires
        only_drawn_cells(g, objs),
        0 <= i < objs.len(),
        forall|m: int| 0 <= m < ts.len() ==> exists|j: int|
            0 <= j < current_frame(objs[i].0).len() && #[trigger] ts[m] == current_frame(objs[i].0)[j],
    ensures
        only_drawn_cells(paint_frame(g, ts, objs[i].1), objs),
    decreases ts.len(),
{
    if ts.len() > 0 {
        let d = ts.drop_last();
        assert forall|m: int| 0 <= m < d.len() implies exists|j: int|
            0 <= j < current_frame(objs[i].0).len() && #[trigger] d[m] == current_frame(objs[i].0)[j] by {
            assert(d[m] == ts[m]);
        }
        lemma_paint_frame_drawn(g, objs, i, d);
        let g1 = paint_frame(g, d, objs[i].1);
        let t = ts.last();
        let pos = objs[i].1;
        assert(ts[ts.len() - 1] == t);
        let j = choose|j: int| 0 <= j < current_frame(objs[i].0).len() && t == current_frame(objs[i].0)[j];
        if pos.x + t.x >= 0 && pos.y + t.y >= 0 {
            assert(drawn_at(objs, pos.y + t.y, pos.x + t.x, t.symbol));
            lemma_set_cell_drawn(g1, objs, (pos.y + t.y) as nat, (pos.x + t.x) as nat, t.symbol);
        }
    }
}

proof fn lemma_paint_objects_drawn(objs: Seq<(SpriteData, Position)>, order: Seq<int>)
    requires
        forall|m: int| 0 <= m < order.len() ==> 0 <= #[trigger] order[m] < objs.len(),
    ensures
        only_drawn_cells(paint_objects(Seq::empty(), objs, order), objs),
    decreases order.len(),
{
    if order.len() > 0 {
        let d = order.drop_last();
        assert forall|m: int| 0 <= m < d.len() implies 0 <= #[trigger] d[m] < objs.len() by {
            assert(d[m] == order[m]);
        }
        lemma_paint_objects_drawn(objs, d);
        let i = order.last();
        assert(order[order.len() - 1] == i);
        let ts = current_frame(objs[i].0);
        assert forall|m: int| 0 <= m < ts.len() implies exists|j: int|
            0 <= j < current_frame(objs[i].0).len() && #[trigger] ts[m] == current_frame(objs[i].0)[j] by {}
        lemma_paint_frame_drawn(paint_objects(Seq::empty(), objs, d), objs, i, ts);
    } else {
        assert(only_drawn_cells(Seq::empty(), objs));
    }
}

/// In the exported grid every cell that no texel of an object's current frame covers is a
/// space; a cell that is not a space shows the symbol of a texel drawn at that place.
pub proof fn export_blank_where_nothing_drawn(objs: Seq<(SpriteData, Position)>)
    ensures
        forall|r: int, k: int|
            0 <= r < scene_grid(objs).len() && 0 <= k < scene_grid(objs)[r].len() ==> #[trigger] scene_grid(
                objs,
            )[r][k] == ' ' || drawn_at(objs, r, k, scene_grid(objs)[r][k]),
{
    lemma_order_range(objs.len(), depths(objs));
    let order = z_order(objs.len(), depths(objs));
    lemma_paint_objects_drawn(objs, order);
}

/// Object indices stably sorted by their keys, smallest first
pub fn sorted_by_depth(zs: &Vec<i64>) -> (r: Vec<usize>)
    ensures
        r@.len() == zs@.len(),
        forall|k: int| 0 <= k < r@.len() ==> #[trigger] r@[k] as int == z_order(zs@.len(), zs@)[k],
{
    let mut out: Vec<usize> = Vec::new();
    let mut i: usize = 0;
    while i < zs.len()
        invariant
            i <= zs@.len(),
            out@.map_values(|v: usize| v as int) == z_order(i as nat, zs@),
            forall|k: int| 0 <= k < out@.len() ==> (#[trigger] out@[k]) < i,
        decreases zs@.len() - i,
    {
        let ghost sv = out@.map_values(|v: usize| v as int);
        proof {
            lemma_order_range(i as nat, zs@);
        }
        let mut j: usize = out.len();
        while j > 0 && zs[out[j - 1]] > zs[i]
            invariant
                j <= out@.len(),
                i < zs@.len(),
                sv == out@.map_values(|v: usize| v as int),
                sv == z_order(i as nat, zs@),
                forall|k: int| 0 <= k < sv.len() ==> 0 <= #[trigger] sv[k] < i,
                forall|k: int| 0 <= k < out@.len() ==> (#[trigger] out@[k]) < i,
                forall|k: int| j <= k < sv.len() ==> zs@[#[trigger] sv[k]] > zs@[i as int],
            decreases j,
        {
            assert(sv[j - 1] == out@[j - 1] as int);
            j = j - 1;
        }
        proof {
            if j > 0 {
                assert(sv[j - 1] == out@[j - 1] as int);
            }
            lemma_insert_at(sv, i as int, zs@, j as int);
        }
        let ghost before = out@;
        out.insert(j, i);
        assert(out@.map_values(|v: usize| v as int) =~= sv.insert(j as int, i as int));
        assert forall|k: int| 0 <= k < out@.len() implies (#[trigger] out@[k]) < i + 1 by {
            if k < j {
                assert(out@[k] == before[k]);
            } else if k > j {
                assert(out@[k] == before[k - 1]);
            }
        }
        i = i + 1;
    }
    proof {
        lemma_order_range(zs@.len(), zs@);
    }
    assert forall|k: int| 0 <= k < out@.len() implies #[trigger] out@[k] as int == z_order(zs@.len(), zs@)[k] by {
        assert(out@.map_values(|v: usize| v as int)[k] == out@[k] as int);
    }
    out
}

/// Sets the character at `row` and `col`, adding rows and columns as needed
fn fill_to_pos(lines: &mut Vec<Vec<char>>, row: usize, col: usize, c: char)
    requires
        row < usize::MAX,
        col < usize::MAX,
    ensures
        grid_view(final(lines)@) == set_cell(grid_view(old(lines)@), row as nat, col as nat, c),
{
    let ghost g0 = grid_view(lines@);
    if lines.len() <= row {
        while lines.len() <= row
            invariant
                row < usize::MAX,
                g0.len() <= lines@.len() <= row + 1,
                grid_view(lines@) == g0 + Seq::new((lines@.len() - g0.len()) as nat, |i: int| Seq::<char>::empty()),
            decreases row + 1 - lines@.len(),
        {
            let ghost before = grid_view(lines@);
            lines.push(Vec::new());
            assert(grid_view(lines@) =~= before.push(Seq::<char>::empty()));
            assert(grid_view(lines@) =~= g0 + Seq::new((lines@.len() - g0.len()) as nat, |i: int| Seq::<char>::empty()));
        }
    } else {
        assert(grid_view(lines@) =~= g0);
    }
    let ghost l1 = grid_view(lines@);
    assert(l1 =~= if g0.len() <= row {
        g0 + Seq::new((row + 1 - g0.len()) as nat, |i: int| Seq::<char>::empty())
    } else {
        g0
    });
    let ghost lines1 = lines@;
    let mut line = lines.remove(row);
    let ghost line0 = line@;
    assert(line0 == l1[row as int]);
    if line.len() <= col {
        while line.len() <= col
            invariant
                col < usize::MAX,
                line0.len() <= line@.len() <= col + 1,
                line@ == line0 + Seq::new((line@.len() - line0.len()) as nat, |i: int| ' '),
            decreases col + 1 - line@.len(),
        {
            line.push(' ');
            assert(line@ =~= line0 + Seq::new((line@.len() - line0.len()) as nat, |i: int| ' '));
        }
    }
    assert(line@ =~= if line0.len() <= col {
        line0 + Seq::new((col + 1 - line0.len()) as nat, |i: int| ' ')
    } else {
        line0
    });
    line.set(col, c);
    let ghost newline = line@;
    lines.insert(row, line);
    assert(lines@ =~= lines1.update(row as int, lines@[row as int]));
    assert(grid_view(lines@) =~= set_cell(g0, row as nat, col as nat, c));
}

impl Plaintext {
    /// The scene as text: the current frame of every object drawn on a grid of
    /// characters, deeper objects first (objects at the same depth in scene order), gaps
    /// as spaces, each row ended by a new line; texels left of or above the origin are left
    /// out
    pub fn export(scene: Scene) -> (r: String)
        requires
            export_fits(current_objects(scene@)),
        ensures
            r@ == lines_text(scene_grid(current_objects(scene@))),
    {
        let ghost objs = current_objects(scene@);
        let current = scene.current();
        let ghost zs = depths(objs);
        let mut depth_list: Vec<i64> = Vec::new();
        let mut i: usize = 0;
        while i < current.objects.len()
            invariant
                current@.objects == objs,
                zs == depths(objs),
                i <= objs.len(),
                depth_list@ == zs.take(i as int),
            decreases objs.len() - i,
        {
            assert(current@.objects[i as int].1 == current.objects@[i as int].1);
            assert(zs.len() == objs.len());
            assert(zs[i as int] == objs[i as int].1.z);
            depth_list.push(current.objects[i].1.z as i64);
            assert(zs.take(i + 1) =~= zs.take(i as int).push(zs[i as int]));
            i = i + 1;
        }
        assert(zs.take(objs.len() as int) =~= zs);
        let order = sorted_by_depth(&depth_list);
        proof {
            lemma_order_range(objs.len(), zs);
        }
        let mut lines: Vec<Vec<char>> = Vec::new();
        let mut k: usize = 0;
        while k < order.len()
            invariant
                current@.objects == objs,
                export_fits(objs),
                order@.len() == objs.len(),
                z_order(objs.len(), zs).len() == objs.len(),
                forall|m: int| 0 <= m < order@.len() ==> #[trigger] order@[m] as int == z_order(objs.len(), zs)[m],
                zs == depths(objs),
                forall|m: int| 0 <= m < objs.len() ==> 0 <= #[trigger] z_order(objs.len(), zs)[m] < objs.len(),
                k <= order@.len(),
                grid_view(lines@) == paint_objects(Seq::empty(), objs, z_order(objs.len(), zs).take(k as int)),
            decreases order@.len() - k,
        {
            let idx = order[k];
            assert(0 <= z_order(objs.len(), zs)[k as int] < objs.len());
            let o = &current.objects[idx];
            let ghost ov = objs[idx as int];
            assert(o.0@ == ov.0 && o.1 == ov.1);
            let frame = o.0.body.frame_iter();
            let ghost g0 = grid_view(lines@);
            let mut t: usize = 0;
            while t < frame.len()
                invariant
                    frame@ == current_frame(ov.0),
                    0 <= idx < objs.len(),
                    ov == objs[idx as int],
                    o.1 == ov.1,
                    export_fits(objs),
                    t <= frame@.len(),
                    grid_view(lines@) == paint_frame(g0, frame@.take(t as int), ov.1),
                decreases frame@.len() - t,
            {
                let tx = frame[t];
                assert(frame@.take(t + 1).drop_last() =~= frame@.take(t as int));
                assert(i32::MIN <= ov.1.x + current_frame(objs[idx as int].0)[t as int].x <= i32::MAX);
                let x = o.1.x + tx.x;
                let y = o.1.y + tx.y;
                if x >= 0 && y >= 0 {
                    fill_to_pos(&mut lines, y as usize, x as usize, tx.symbol);
                }
                t = t + 1;
            }
            assert(frame@.take(frame@.len() as int) =~= frame@);
            assert(z_order(objs.len(), zs).take(k + 1).drop_last() =~= z_order(objs.len(), zs).take(k as int));
            assert(z_order(objs.len(), zs).take(k + 1).last() == idx as int);
            k = k + 1;
        }
        assert(z_order(objs.len(), zs).take(order@.len() as int) =~= z_order(objs.len(), zs));
        let ghost grid = grid_view(lines@);
        let mut text: Vec<char> = Vec::new();
        let mut r: usize = 0;
        while r < lines.len()
            invariant
                grid == grid_view(lines@),
                r <= lines@.len(),
                text@ == lines_text(grid.take(r as int)),
            decreases lines@.len() - r,
        {
            let line = &lines[r];
            let mut c: usize = 0;
            let ghost before = text@;
            while c < line.len()
                invariant
                    c <= line@.len(),
                    text@ == before + line@.take(c as int),
                decreases line@.len() - c,
            {
                text.push(line[c]);
                assert(line@.take(c + 1) =~= line@.take(c as int).push(line@[c as int]));
                c = c + 1;
            }
            text.push('\n');
            assert(line@.take(line@.len() as int) =~= line@);
            assert(grid.take(r + 1).drop_last() =~= grid.take(r as int));
            assert(grid[r as int] == line@);
            assert(text@ =~= lines_text(grid.take(r + 1)));
            r = r + 1;
        }
        assert(grid.take(lines@.len() as int) =~= grid);
        crate::common::text::string_of(&text)
    }
}

} // verus!
