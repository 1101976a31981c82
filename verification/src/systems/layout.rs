//! Laying out the selected objects: in columns, or at random places in the viewport.

use crate::common::Layout;
use crate::components::{lemma_count_step, selected_count, ObjectView, World, WorldView};
use crate::resources::State;
use crate::systems::action_handler::viewport_bounds;
use crate::texel_types::{Bounds, Dimension, Position};
use rand::Rng;
use vstd::prelude::*;

verus! {

/// Positions and sizes of the selected objects, in order
pub open spec fn layout_items(objs: Seq<ObjectView>) -> Seq<(Position, Dimension)>
    decreases objs.len(),
{
    if objs.len() == 0 {
        Seq::empty()
    } else {
        let rest = layout_items(objs.drop_last());
        if objs.last().selected {
            rest.push((objs.last().pos, objs.last().dim))
        } else {
            rest
        }
    }
}

pub open spec fn max_int(a: int, b: int) -> int {
    if a >= b {
        a
    } else {
        b
    }
}

pub open spec fn min_int(a: int, b: int) -> int {
    if a <= b {
        a
    } else {
        b
    }
}

/// Widest item of column `c` when laid out in `cols` columns, 0 when it has none
pub open spec fn col_size(items: Seq<(Position, Dimension)>, cols: nat, c: int) -> int
    decreases items.len(),
{
    if items.len() == 0 {
        0
    } else {
        let prev = col_size(items.drop_last(), cols, c);
        if (items.len() - 1) % (cols as int) == c {
            max_int(prev, items.last().1.w as int)
        } else {
            prev
        }
    }
}

/// Tallest item of row `r` when laid out in `cols` columns, 0 when it has none
pub open spec fn row_size(items: Seq<(Position, Dimension)>, cols: nat, r: int) -> int
    decreases items.len(),
{
    if items.len() == 0 {
        0
    } else {
        let prev = row_size(items.drop_last(), cols, r);
        if (items.len() - 1) / (cols as int) == r {
            max_int(prev, items.last().1.h as int)
        } else {
            prev
        }
    }
}

/// Leftmost x of the items, `i32::MAX` when there are none
pub open spec fn start_x(items: Seq<(Position, Dimension)>) -> int
    decreases items.len(),
{
    if items.len() == 0 {
        i32::MAX as int
    } else {
        min_int(start_x(items.drop_last()), items.last().0.x as int)
    }
}

/// Topmost y of the items, `i32::MAX` when there are none
pub open spec fn start_y(items: Seq<(Position, Dimension)>) -> int
    decreases items.len(),
{
    if items.len() == 0 {
        i32::MAX as int
    } else {
        min_int(start_y(items.drop_last()), items.last().0.y as int)
    }
}

/// Horizontal offset of item `k`: its column times the width of the column before it (0
/// for the first) plus the padding
pub open spec fn column_offset(items: Seq<(Position, Dimension)>, cols: nat, pad: u16, k: int) -> int {
    let col = k % (cols as int);
    ((if col > 0 {
        col_size(items, cols, col - 1)
    } else {
        0
    }) + pad) * col
}

/// Vertical offset of item `k`: its row times the height of the row before it (0 for the
/// first) plus the padding
pub open spec fn row_offset(items: Seq<(Position, Dimension)>, cols: nat, pad: u16, k: int) -> int {
    let row = k / (cols as int);
    ((if row > 0 {
        row_size(items, cols, row - 1)
    } else {
        0
    }) + pad) * row
}

/// Position of item `k` in the column layout, counted from the top left of the items
pub open spec fn laid_out(items: Seq<(Position, Dimension)>, cols: nat, padding: (u16, u16), k: int) -> Position {
    Position {
        x: (start_x(items) + column_offset(items, cols, padding.0, k)) as i32,
        y: (start_y(items) + row_offset(items, cols, padding.1, k)) as i32,
        z: items[k].0.z,
    }
}

/// The column layout's arithmetic stays within 32 bits
pub open spec fn columns_fit(items: Seq<(Position, Dimension)>, cols: nat, padding: (u16, u16)) -> bool {
    forall|k: int|
        0 <= k < items.len() ==> {
            &&& (k % (cols as int)) <= i32::MAX
            &&& (k / (cols as int)) <= i32::MAX
            &&& i32::MIN <= #[trigger] column_offset(items, cols, padding.0, k) <= i32::MAX
            &&& i32::MIN <= row_offset(items, cols, padding.1, k) <= i32::MAX
            &&& i32::MIN <= start_x(items) + column_offset(items, cols, padding.0, k) <= i32::MAX
            &&& i32::MIN <= start_y(items) + row_offset(items, cols, padding.1, k) <= i32::MAX
        }
}

/// Objects with the selected ones laid out in columns
pub open spec fn columns_applied(objs: Seq<ObjectView>, cols: nat, padding: (u16, u16)) -> Seq<ObjectView> {
    let items = layout_items(objs);
    Seq::new(
        objs.len(),
        |i: int|
            if objs[i].selected {
                ObjectView {
                    pos: laid_out(items, cols, padding, selected_count(objs.take(i)) as int),
                    ..objs[i]
                }
            } else {
                objs[i]
            },
    )
}

/// A selected object fits in the viewport with room to move
pub open spec fn fits_viewport(o: ObjectView, b: Bounds) -> bool {
    (o.dim.w as int) < (b.spec_dimension().w as int) && (o.dim.h as int) < (b.spec_dimension().h as int)
}

/// What a random layout leaves true: every selected object that fits in the viewport gets
/// a position that keeps it inside, others stay put
pub open spec fn randomly_placed(objs: Seq<ObjectView>, after: Seq<ObjectView>, b: Bounds) -> bool {
    &&& after.len() == objs.len()
    &&& forall|i: int|
        0 <= i < objs.len() ==> if objs[i].selected && fits_viewport(objs[i], b) {
            &&& #[trigger] after[i] == ObjectView { pos: after[i].pos, ..objs[i] }
            &&& after[i].pos.z == objs[i].pos.z
            &&& b.spec_position().x <= after[i].pos.x < b.spec_position().x + b.spec_dimension().w
                - objs[i].dim.w
            &&& b.spec_position().y <= after[i].pos.y < b.spec_position().y + b.spec_dimension().h
                - objs[i].dim.h
        } else {
            after[i] == objs[i]
        }
}

/// A random whole number in `low..high` from the thread's random number generator
/// (`rand::Rng::gen_range` on `rand::thread_rng()`); which one is left to chance.
#[verifier::external_body]
fn random_in(low: i32, high: i32) -> (r: i32)
    requires
        low < high,
    ensures
        low <= r < high,
{
    rand::thread_rng().gen_range(low..high)
}

proof fn lemma_items_step(objs: Seq<ObjectView>, i: int)
    requires
        0 <= i < objs.len(),
    ensures
        layout_items(objs.take(i + 1)) == if objs[i].selected {
            layout_items(objs.take(i)).push((objs[i].pos, objs[i].dim))
        } else {
            layout_items(objs.take(i))
        },
        selected_count(objs.take(i)) == layout_items(objs.take(i)).len(),
    decreases i,
{
    assert(objs.take(i + 1).drop_last() =~= objs.take(i));
    lemma_items_count(objs.take(i));
}

proof fn lemma_items_count(objs: Seq<ObjectView>)
    ensures
        selected_count(objs) == layout_items(objs).len(),
    decreases objs.len(),
{
    if objs.len() > 0 {
        lemma_items_count(objs.drop_last());
    }
}

/// What `apply_layout_to_selected` does: the result and the scene and state after it
pub open spec fn apply_layout_to_selected_outcome(layout: Layout, screen: (u16, u16), w: WorldView, s: State, w2: WorldView, r: bool) -> bool {
    &&& (w2.bookmarks == w.bookmarks)
    &&& (w2.subselection == w.subselection)
    &&& (match layout {
        Layout::Unset => !r && w2 == w,
        Layout::Column(cols, padding) => r == (selected_count(w.objects) > 0)
            && w2.objects == columns_applied(w.objects, cols as nat, padding),
        Layout::Random => {
            let b = Bounds::Free(s.current_offset(), Dimension { w: screen.0, h: screen.1 });
            &&& randomly_placed(w.objects, w2.objects, b)
            &&& r == exists|i: int|
                0 <= i < w.objects.len() && (#[trigger] w.objects[i]).selected
                    && fits_viewport(w.objects[i], b)
        },
    })
}

/// Lays out the selected objects: in columns from their top left corner, each column
/// spaced by the width of the one before it plus the padding, each row by the height of the
/// row before it plus the padding; or at random positions keeping each inside the viewport
/// (objects too large for it stay). Returns whether an object moved.
pub fn apply_layout_to_selected(layout: Layout, world: &mut World, state: &State, screen: (u16, u16)) -> (r: bool)
    requires
        old(world).wf(),
        state.wf(),
        layout matches Layout::Column(cols, padding) ==> (cols > 0 || selected_count(old(world)@.objects) == 0)
            && columns_fit(layout_items(old(world)@.objects), cols as nat, padding),
        layout is Random ==> ({
            let b = Bounds::Free(state.current_offset(), Dimension { w: screen.0, h: screen.1 });
            &&& b.spec_position().x + b.spec_dimension().w <= i32::MAX
            &&& b.spec_position().y + b.spec_dimension().h <= i32::MAX
        }),
    ensures
        final(world).wf(),
        apply_layout_to_selected_outcome(layout, screen, old(world)@, *state, final(world)@, r),
{
    let bounds = viewport_bounds(state, screen);
    match layout {
        Layout::Unset => false,
        Layout::Column(cols, padding) => layout_columns(cols, padding, world),
        Layout::Random => layout_random(bounds, world),
    }
}

fn layout_random(bounds: Bounds, world: &mut World) -> (r: bool)
    requires
        old(world).wf(),
        bounds.spec_position().x + bounds.spec_dimension().w <= i32::MAX,
        bounds.spec_position().y + bounds.spec_dimension().h <= i32::MAX,
    ensures
        final(world).wf(),
        final(world)@.bookmarks == old(world)@.bookmarks,
        final(world)@.subselection == old(world)@.subselection,
        randomly_placed(old(world)@.objects, final(world)@.objects, bounds),
        r == exists|i: int|
            0 <= i < old(world)@.objects.len() && (#[trigger] old(world)@.objects[i]).selected
                && fits_viewport(old(world)@.objects[i], bounds),
{
    let ghost objs = world@.objects;
    let bx = bounds.position().x;
    let by = bounds.position().y;
    let bw = bounds.dimension().w as i32;
    let bh = bounds.dimension().h as i32;
    let mut moved = false;
    let mut i: usize = 0;
    while i < world.objects.len()
        invariant
            world.wf(),
            i <= objs.len(),
            world@.objects.len() == objs.len(),
            bx == bounds.spec_position().x,
            by == bounds.spec_position().y,
            bw == bounds.spec_dimension().w,
            bh == bounds.spec_dimension().h,
            bx + bw <= i32::MAX,
            by + bh <= i32::MAX,
            randomly_placed(objs.take(i as int), world@.objects.take(i as int), bounds),
            forall|j: int| i <= j < objs.len() ==> #[trigger] world@.objects[j] == objs[j],
            moved == exists|j: int|
                0 <= j < i && (#[trigger] objs[j]).selected && fits_viewport(objs[j], bounds),
            world@.bookmarks == old(world)@.bookmarks,
            world@.subselection == old(world)@.subselection,
        decreases objs.len() - i,
    {
        assert(world@.objects[i as int] == world.objects@[i as int]@);
        let ghost prev = world@.objects;
        let selected = world.objects[i].selected;
        let dw = world.objects[i].dim.w as i32;
        let dh = world.objects[i].dim.h as i32;
        if selected && dw < bw && dh < bh {
            let mut o = world.take_object(i);
            let x = random_in(bx, bx + bw - dw);
            let y = random_in(by, by + bh - dh);
            o.pos = Position { x, y, z: o.pos.z };
            world.put_back(i, o);
            moved = true;
        }
        proof {
            let a = objs.take(i + 1);
            let b = world@.objects.take(i + 1);
            assert forall|j: int| 0 <= j < a.len() implies if a[j].selected && fits_viewport(a[j], bounds) {
                &&& #[trigger] b[j] == ObjectView { pos: b[j].pos, ..a[j] }
                &&& b[j].pos.z == a[j].pos.z
                &&& bounds.spec_position().x <= b[j].pos.x < bounds.spec_position().x + bounds.spec_dimension().w
                    - a[j].dim.w
                &&& bounds.spec_position().y <= b[j].pos.y < bounds.spec_position().y + bounds.spec_dimension().h
                    - a[j].dim.h
            } else {
                b[j] == a[j]
            } by {
                if j < i {
                    assert(a[j] == objs.take(i as int)[j]);
                    assert(b[j] == world@.objects.take(i as int)[j]) by {
                        assert(world@.objects[j] == prev[j]);
                    }
                }
            }
        }
        i = i + 1;
    }
    assert(objs.take(objs.len() as int) =~= objs);
    assert(world@.objects.take(objs.len() as int) =~= world@.objects);
    moved
}

proof fn lemma_sizes_bounded(items: Seq<(Position, Dimension)>, cols: nat, c: int)
    ensures
        0 <= col_size(items, cols, c) <= u16::MAX,
        0 <= row_size(items, cols, c) <= u16::MAX,
    decreases items.len(),
{
    if items.len() > 0 {
        lemma_sizes_bounded(items.drop_last(), cols, c);
    }
}

proof fn lemma_row_size_zero(items: Seq<(Position, Dimension)>, cols: nat, r: int)
    requires
        forall|j: int| 0 <= j < items.len() ==> #[trigger] (j / (cols as int)) != r,
    ensures
        row_size(items, cols, r) == 0,
    decreases items.len(),
{
    if items.len() > 0 {
        let d = items.drop_last();
        assert forall|j: int| 0 <= j < d.len() implies #[trigger] (j / (cols as int)) != r by {
            assert(j / (cols as int) != r);
        }
        lemma_row_size_zero(d, cols, r);
        assert((items.len() - 1) / (cols as int) != r);
    }
}

proof fn lemma_rows_grow(k: int, cols: int)
    requires
        k > 0,
        cols > 0,
    ensures
        k / cols == (k - 1) / cols || k / cols == (k - 1) / cols + 1,
        forall|j: int| 0 <= j < k ==> #[trigger] (j / cols) <= (k - 1) / cols,
{
    assert(k / cols == (k - 1) / cols || k / cols == (k - 1) / cols + 1) by (nonlinear_arith)
        requires
            k > 0,
            cols > 0,
    ;
    assert forall|j: int| 0 <= j < k implies #[trigger] (j / cols) <= (k - 1) / cols by {
        assert(j / cols <= (k - 1) / cols) by (nonlinear_arith)
            requires
                0 <= j < k,
                cols > 0,
        ;
    }
}

proof fn lemma_rank_below_total(objs: Seq<ObjectView>, j: int)
    requires
        0 <= j < objs.len(),
        objs[j].selected,
    ensures
        selected_count(objs.take(j)) < selected_count(objs),
    decreases objs.len(),
{
    if j == objs.len() - 1 {
        assert(objs.drop_last() =~= objs.take(j));
    } else {
        lemma_rank_below_total(objs.drop_last(), j);
        assert(objs.drop_last().take(j) =~= objs.take(j));
    }
}

proof fn lemma_item_at(objs: Seq<ObjectView>, j: int)
    requires
        0 <= j < objs.len(),
        objs[j].selected,
    ensures
        selected_count(objs.take(j)) < layout_items(objs).len(),
        layout_items(objs)[selected_count(objs.take(j)) as int] == (objs[j].pos, objs[j].dim),
    decreases objs.len(),
{
    lemma_items_count(objs.drop_last());
    if j == objs.len() - 1 {
        assert(objs.drop_last() =~= objs.take(j));
    } else {
        lemma_item_at(objs.drop_last(), j);
        assert(objs.drop_last().take(j) =~= objs.take(j));
    }
}

proof fn lemma_rank_increases(objs: Seq<ObjectView>, j: int, i: int)
    requires
        0 <= j < i <= objs.len(),
        objs[j].selected,
    ensures
        selected_count(objs.take(j)) < selected_count(objs.take(i)),
{
    lemma_rank_below_total(objs.take(i), j);
    assert(objs.take(i).take(j) =~= objs.take(j));
}

fn layout_columns(cols: usize, padding: (u16, u16), world: &mut World) -> (r: bool)
    requires
        old(world).wf(),
        cols > 0 || selected_count(old(world)@.objects) == 0,
        columns_fit(layout_items(old(world)@.objects), cols as nat, padding),
    ensures
        final(world).wf(),
        final(world)@.bookmarks == old(world)@.bookmarks,
        final(world)@.subselection == old(world)@.subselection,
        r == (selected_count(old(world)@.objects) > 0),
        final(world)@.objects == columns_applied(old(world)@.objects, cols as nat, padding),
{
    let ghost objs = world@.objects;
    let ghost items = layout_items(objs);
    let ghost cn = cols as nat;
    proof {
        lemma_items_count(objs);
    }
    if world.selected_count() == 0 {
        assert forall|j: int| 0 <= j < objs.len() implies !(#[trigger] objs[j]).selected by {
            if objs[j].selected {
                lemma_rank_below_total(objs, j);
            }
        }
        assert(world@.objects =~= columns_applied(objs, cols as nat, padding));
        return false;
    }
    let mut col_sizes: Vec<i32> = Vec::new();
    let mut c: usize = 0;
    while c < cols
        invariant
            c <= cols,
            col_sizes@.len() == c,
            forall|q: int| 0 <= q < c ==> #[trigger] col_sizes@[q] == 0,
        decreases cols - c,
    {
        col_sizes.push(0);
        c = c + 1;
    }
    let mut row_sizes: Vec<i32> = Vec::new();
    let mut sx: i32 = i32::MAX;
    let mut sy: i32 = i32::MAX;
    let mut indices: Vec<usize> = Vec::new();
    let mut k: usize = 0;
    let mut i: usize = 0;
    while i < world.objects.len()
        invariant
            objs == world@.objects,
            items == layout_items(objs),
            cols > 0,
            cn == cols as nat,
            i <= objs.len(),
            k == layout_items(objs.take(i as int)).len(),
            k == selected_count(objs.take(i as int)),
            k <= i,
            col_sizes@.len() == cols,
            forall|q: int| 0 <= q < cols ==> #[trigger] col_sizes@[q] == col_size(layout_items(objs.take(i as int)), cn, q),
            row_sizes@.len() == if k == 0 {
                0
            } else {
                (k - 1) / (cols as int) + 1
            },
            forall|q: int| 0 <= q < row_sizes@.len() ==> #[trigger] row_sizes@[q] == row_size(layout_items(objs.take(i as int)), cn, q),
            sx == start_x(layout_items(objs.take(i as int))),
            sy == start_y(layout_items(objs.take(i as int))),
            indices@.len() == k,
            forall|m: int|
                0 <= m < k ==> #[trigger] indices@[m] < i && objs[indices@[m] as int].selected && selected_count(
                    objs.take(indices@[m] as int),
                ) == m,
        decreases objs.len() - i,
    {
        proof {
            lemma_items_step(objs, i as int);
            lemma_count_step(objs, i as int);
        }
        assert(objs[i as int] == world.objects@[i as int]@);
        if world.objects[i].selected {
            let ghost prev_items = layout_items(objs.take(i as int));
            let ghost now = layout_items(objs.take(i + 1));
            assert(now.drop_last() == prev_items);
            let col = k % cols;
            let row = k / cols;
            proof {
                if k > 0 {
                    lemma_rows_grow(k as int, cols as int);
                    if row as int == row_sizes@.len() {
                        assert forall|j: int| 0 <= j < prev_items.len() implies #[trigger] (j / (cols as int)) != row by {
                            assert(j / (cols as int) <= (k - 1) / (cols as int));
                        }
                        lemma_row_size_zero(prev_items, cn, row as int);
                    }
                } else {
                    lemma_row_size_zero(prev_items, cn, 0);
                }
            }
            if row_sizes.len() <= row {
                row_sizes.push(0);
            }
            let w = world.objects[i].dim.w as i32;
            let h = world.objects[i].dim.h as i32;
            if w > col_sizes[col] {
                col_sizes.set(col, w);
            }
            if h > row_sizes[row] {
                row_sizes.set(row, h);
            }
            let p = world.objects[i].pos;
            if p.x < sx {
                sx = p.x;
            }
            if p.y < sy {
                sy = p.y;
            }
            indices.push(i);
            proof {
                assert forall|q: int| 0 <= q < cols implies #[trigger] col_sizes@[q] == col_size(now, cn, q) by {
                    assert((now.len() - 1) % (cols as int) == (k as int) % (cols as int));
                }
                assert forall|q: int| 0 <= q < row_sizes@.len() implies #[trigger] row_sizes@[q] == row_size(now, cn, q) by {
                    assert((now.len() - 1) / (cols as int) == (k as int) / (cols as int));
                }
                assert(((k + 1) - 1) / (cols as int) + 1 == row_sizes@.len());
            }
            k = k + 1;
        }
        i = i + 1;
    }
    assert(objs.take(objs.len() as int) =~= objs);
    let n = k;
    let ghost target = columns_applied(objs, cn, padding);
    let mut m: usize = 0;
    while m < n
        invariant
            world.wf(),
            objs.len() == world@.objects.len(),
            items == layout_items(objs),
            cols > 0,
            cn == cols as nat,
            n == items.len(),
            n == selected_count(objs),
            m <= n,
            col_sizes@.len() == cols,
            forall|q: int| 0 <= q < cols ==> #[trigger] col_sizes@[q] == col_size(items, cn, q),
            row_sizes@.len() == (n - 1) / (cols as int) + 1,
            forall|q: int| 0 <= q < row_sizes@.len() ==> #[trigger] row_sizes@[q] == row_size(items, cn, q),
            sx == start_x(items),
            sy == start_y(items),
            columns_fit(items, cn, padding),
            target == columns_applied(objs, cn, padding),
            indices@.len() == n,
            forall|q: int|
                0 <= q < n ==> #[trigger] indices@[q] < objs.len() && objs[indices@[q] as int].selected && selected_count(
                    objs.take(indices@[q] as int),
                ) == q,
            forall|j: int|
                0 <= j < objs.len() ==> #[trigger] world@.objects[j] == if objs[j].selected && selected_count(
                    objs.take(j),
                ) < m {
                    target[j]
                } else {
                    objs[j]
                },
            world@.bookmarks == old(world)@.bookmarks,
            world@.subselection == old(world)@.subselection,
        decreases n - m,
    {
        let i = indices[m];
        let col = m % cols;
        let row = m / cols;
        proof {
            lemma_sizes_bounded(items, cn, col as int - 1);
            lemma_sizes_bounded(items, cn, row as int - 1);
            assert(columns_fit(items, cn, padding));
            assert(i32::MIN <= column_offset(items, cn, padding.0, m as int) <= i32::MAX);
            assert(row < row_sizes@.len()) by (nonlinear_arith)
                requires
                    row == m / cols,
                    m < n,
                    cols > 0,
                    row_sizes@.len() == (n - 1) / (cols as int) + 1,
            ;
            assert(col < cols) by (nonlinear_arith)
                requires
                    col == m % cols,
                    cols > 0,
            ;
        }
        let cw: i32 = if col > 0 {
            col_sizes[col - 1]
        } else {
            0
        };
        let rh: i32 = if row > 0 {
            row_sizes[row - 1]
        } else {
            0
        };
        let ox = (cw + padding.0 as i32) * (col as i32);
        let oy = (rh + padding.1 as i32) * (row as i32);
        let ghost prev = world@.objects;
        assert(world@.objects[i as int] == objs[i as int]);
        let mut o = world.take_object(i);
        o.pos = Position { x: sx + ox, y: sy + oy, z: o.pos.z };
        proof {
            lemma_item_at(objs, i as int);
            assert(o@ == target[i as int]);
        }
        world.put_back(i, o);
        assert(world@.objects =~= prev.update(i as int, target[i as int]));
        proof {
            assert forall|j: int| 0 <= j < objs.len() implies #[trigger] world@.objects[j] == if objs[j].selected
                && selected_count(objs.take(j)) < m + 1 {
                target[j]
            } else {
                objs[j]
            } by {
                if j != i && objs[j].selected {
                    if j < i {
                        lemma_rank_increases(objs, j, i as int);
                    } else {
                        lemma_rank_increases(objs, i as int, j);
                    }
                }
            }
        }
        m = m + 1;
    }
    proof {
        assert forall|j: int| 0 <= j < objs.len() implies #[trigger] world@.objects[j] == target[j] by {
            if objs[j].selected {
                lemma_rank_below_total(objs, j);
            }
        }
    }
    assert(world@.objects =~= target);
    true
}

} // verus!
