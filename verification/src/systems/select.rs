//! Object selection: next / previous in screen order, all visible, or under a point.

use crate::components::{deselected, ObjectView, World, WorldView};
use crate::resources::{frame_offset, State, StateFrame};
use crate::common::{Error, ErrorView, Mode, SelectMode};
use crate::components::Subselection;
use crate::resources::frame_mode;
use crate::systems::action_handler::{
    area_fits, clear_subselection, deselect_obj, pos2d, reverse_mode, reverse_mode_fits, spec_reverse_mode,
    viewport_bounds,
};
use crate::texel_types::{Bounds, Dimension, Position, Position2D, Which};
use vstd::prelude::*;

verus! {

/// Screen order of a position: rows first, then columns, then depth
pub open spec fn score(p: Position) -> int {
    p.y * 100000 + p.x * 100 + p.z
}

/// The screen order of a position stays within 32 bits, as computed step by step
pub open spec fn score_fits(p: Position) -> bool {
    &&& i32::MIN <= p.y * 100000 <= i32::MAX
    &&& i32::MIN <= p.x * 100 <= i32::MAX
    &&& i32::MIN <= p.y * 100000 + p.x * 100 <= i32::MAX
    &&& i32::MIN <= score(p) <= i32::MAX
}

/// A selectable object: its index in the world, its screen order and whether it is
/// selected
pub type Candidate = (usize, int, bool);

/// Sort key: the screen order forward, reversed backward
pub open spec fn key(c: Candidate, forward: bool) -> int {
    if forward {
        c.1
    } else {
        -c.1
    }
}

/// Objects inside the viewport, in world order
pub open spec fn visible(objs: Seq<ObjectView>, viewport: Bounds) -> Seq<Candidate>
    decreases objs.len(),
{
    if objs.len() == 0 {
        Seq::empty()
    } else {
        let rest = visible(objs.drop_last(), viewport);
        let o = objs.last();
        if viewport.spec_intersects(pos2d(o.pos), o.dim) {
            rest.push(((objs.len() - 1) as usize, score(o.pos), o.selected))
        } else {
            rest
        }
    }
}

/// `x` inserted after every entry whose key is not larger
pub open spec fn insert_by_key(s: Seq<Candidate>, x: Candidate, forward: bool) -> Seq<Candidate>
    decreases s.len(),
{
    if s.len() == 0 {
        seq![x]
    } else if key(s.last(), forward) <= key(x, forward) {
        s.push(x)
    } else {
        insert_by_key(s.drop_last(), x, forward).push(s.last())
    }
}

/// The candidates stably sorted by key: equal keys keep their order
pub open spec fn sort_by_key(s: Seq<Candidate>, forward: bool) -> Seq<Candidate>
    decreases s.len(),
{
    if s.len() == 0 {
        Seq::empty()
    } else {
        insert_by_key(sort_by_key(s.drop_last(), forward), s.last(), forward)
    }
}

/// Position of the last selected candidate, 0 when none is
pub open spec fn last_selected(s: Seq<Candidate>) -> int
    decreases s.len(),
{
    if s.len() == 0 {
        0
    } else if s.last().2 && s.len() - 1 > last_selected(s.drop_last()) {
        s.len() - 1
    } else {
        last_selected(s.drop_last())
    }
}

/// First unselected candidate going round from `start`, checking `k` onwards
pub open spec fn next_unselected(s: Seq<Candidate>, start: int, k: int) -> Option<int>
    decreases s.len() - k,
{
    if k < 0 || k >= s.len() {
        None
    } else if !s[(start + k) % (s.len() as int)].2 {
        Some((start + k) % (s.len() as int))
    } else {
        next_unselected(s, start, k + 1)
    }
}

/// The object to select next: the first unselected one after the last selected one in
/// screen order (going round), else the first in screen order
pub open spec fn relative_choice(objs: Seq<ObjectView>, viewport: Bounds, forward: bool) -> Option<
    usize,
> {
    let all = sort_by_key(visible(objs, viewport), forward);
    match next_unselected(all, last_selected(all), 0) {
        Some(j) => Some(all[j].0),
        None => if all.len() > 0 {
            Some(all[0].0)
        } else {
            None
        },
    }
}

/// Objects with object `i` selected, if any
pub open spec fn select_index(objs: Seq<ObjectView>, i: Option<usize>) -> Seq<ObjectView> {
    match i {
        Some(k) => objs.update(k as int, ObjectView { selected: true, ..objs[k as int] }),
        None => objs,
    }
}

/// Selecting the next (or previous) object in screen order, keeping the selection when
/// sticky
pub open spec fn spec_select_relative(
    objs: Seq<ObjectView>,
    viewport: Bounds,
    forward: bool,
    sticky: bool,
) -> Seq<ObjectView> {
    let base = if sticky {
        objs
    } else {
        deselected(objs)
    };
    select_index(base, relative_choice(objs, viewport, forward))
}

/// Every visible object's screen order stays within 32 bits
pub open spec fn scores_fit(objs: Seq<ObjectView>, viewport: Bounds) -> bool {
    forall|i: int|
        0 <= i < objs.len() && viewport.spec_intersects(pos2d(#[trigger] objs[i].pos), objs[i].dim)
            ==> score_fits(objs[i].pos)
}

proof fn lemma_visible_step(objs: Seq<ObjectView>, viewport: Bounds, i: int)
    requires
        0 <= i < objs.len(),
    ensures
        visible(objs.take(i + 1), viewport) == if viewport.spec_intersects(
            pos2d(objs[i].pos),
            objs[i].dim,
        ) {
            visible(objs.take(i), viewport).push((i as usize, score(objs[i].pos), objs[i].selected))
        } else {
            visible(objs.take(i), viewport)
        },
{
    assert(objs.take(i + 1).drop_last() =~= objs.take(i));
}

proof fn lemma_visible_index(objs: Seq<ObjectView>, viewport: Bounds)
    requires
        objs.len() <= usize::MAX,
    ensures
        forall|k: int|
            0 <= k < visible(objs, viewport).len() ==> (#[trigger] visible(objs, viewport)[k]).0
                < objs.len(),
    decreases objs.len(),
{
    if objs.len() > 0 {
        lemma_visible_index(objs.drop_last(), viewport);
        assert(((objs.len() - 1) as usize) as int == objs.len() - 1);
        let rest = visible(objs.drop_last(), viewport);
        let v = visible(objs, viewport);
        assert forall|k: int| 0 <= k < v.len() implies (#[trigger] v[k]).0 < objs.len() by {
            if k < rest.len() {
                assert(v[k] == rest[k]);
            }
        }
    }
}

/// Inserting at the first position from the end whose predecessor's key is not larger is
/// `insert_by_key`.
proof fn lemma_insert_at(s: Seq<Candidate>, x: Candidate, forward: bool, j: int)
    requires
        0 <= j <= s.len(),
        forall|k: int| j <= k < s.len() ==> key(#[trigger] s[k], forward) > key(x, forward),
        j == 0 || key(s[j - 1], forward) <= key(x, forward),
    ensures
        insert_by_key(s, x, forward) == s.insert(j, x),
    decreases s.len(),
{
    if s.len() == 0 {
        assert(s.insert(j, x) =~= seq![x]);
    } else if j == s.len() {
        assert(s.insert(j, x) =~= s.push(x));
    } else {
        let d = s.drop_last();
        assert forall|k: int| j <= k < d.len() implies key(#[trigger] d[k], forward) > key(x, forward) by {
            assert(d[k] == s[k]);
        }
        lemma_insert_at(d, x, forward, j);
        assert(d.insert(j, x).push(s.last()) =~= s.insert(j, x));
    }
}

proof fn lemma_sort_len(s: Seq<Candidate>, forward: bool)
    ensures
        sort_by_key(s, forward).len() == s.len(),
        forall|k: int|
            0 <= k < sort_by_key(s, forward).len() ==> exists|m: int|
                0 <= m < s.len() && #[trigger] sort_by_key(s, forward)[k] == s[m],
    decreases s.len(),
{
    if s.len() > 0 {
        lemma_sort_len(s.drop_last(), forward);
        lemma_insert_members(sort_by_key(s.drop_last(), forward), s.last(), forward);
        let r = sort_by_key(s, forward);
        let p = sort_by_key(s.drop_last(), forward);
        assert forall|k: int| 0 <= k < r.len() implies exists|m: int|
            0 <= m < s.len() && #[trigger] r[k] == s[m] by {
            if r[k] == s.last() {
                assert(r[k] == s[s.len() - 1]);
            } else {
                let q = choose|q: int| 0 <= q < p.len() && r[k] == p[q];
                let m = choose|m: int| 0 <= m < s.drop_last().len() && p[q] == s.drop_last()[m];
                assert(r[k] == s[m]);
            }
        }
    }
}

proof fn lemma_insert_members(s: Seq<Candidate>, x: Candidate, forward: bool)
    ensures
        insert_by_key(s, x, forward).len() == s.len() + 1,
        forall|k: int|
            0 <= k < insert_by_key(s, x, forward).len() ==> #[trigger] insert_by_key(s, x, forward)[k]
                == x || exists|q: int| 0 <= q < s.len() && insert_by_key(s, x, forward)[k] == s[q],
    decreases s.len(),
{
    if s.len() > 0 && key(s.last(), forward) > key(x, forward) {
        lemma_insert_members(s.drop_last(), x, forward);
        let r = insert_by_key(s, x, forward);
        let p = insert_by_key(s.drop_last(), x, forward);
        assert forall|k: int| 0 <= k < r.len() implies #[trigger] r[k] == x || exists|q: int|
            0 <= q < s.len() && r[k] == s[q] by {
            if k == r.len() - 1 {
                assert(r[k] == s[s.len() - 1]);
            } else {
                assert(r[k] == p[k]);
                if p[k] != x {
                    let q = choose|q: int| 0 <= q < s.drop_last().len() && p[k] == s.drop_last()[q];
                    assert(r[k] == s[q]);
                }
            }
        }
    } else if s.len() > 0 {
        let r = insert_by_key(s, x, forward);
        assert forall|k: int| 0 <= k < r.len() implies #[trigger] r[k] == x || exists|q: int|
            0 <= q < s.len() && r[k] == s[q] by {
            if k < s.len() {
                assert(r[k] == s[k]);
            }
        }
    }
}

/// No candidate's key is larger than a later one's
pub open spec fn key_sorted(s: Seq<Candidate>, forward: bool) -> bool {
    forall|i: int, j: int| 0 <= i < j < s.len() ==> key(#[trigger] s[i], forward) <= key(#[trigger] s[j], forward)
}

proof fn lemma_insert_sorted(s: Seq<Candidate>, x: Candidate, forward: bool)
    requires
        key_sorted(s, forward),
    ensures
        key_sorted(insert_by_key(s, x, forward), forward),
    decreases s.len(),
{
    let r = insert_by_key(s, x, forward);
    if s.len() == 0 {
    } else if key(s.last(), forward) <= key(x, forward) {
        assert forall|i: int, j: int| 0 <= i < j < r.len() implies key(#[trigger] r[i], forward) <= key(
            #[trigger] r[j],
            forward,
        ) by {
            assert(r[i] == s[i]);
            if j < s.len() {
                assert(r[j] == s[j]);
            } else if i < s.len() - 1 {
                assert(key(s[i], forward) <= key(s[s.len() - 1], forward));
            }
        }
    } else {
        let d = s.drop_last();
        assert forall|i: int, j: int| 0 <= i < j < d.len() implies key(#[trigger] d[i], forward) <= key(
            #[trigger] d[j],
            forward,
        ) by {
            assert(d[i] == s[i] && d[j] == s[j]);
        }
        lemma_insert_sorted(d, x, forward);
        lemma_insert_members(d, x, forward);
        let p = insert_by_key(d, x, forward);
        assert forall|i: int, j: int| 0 <= i < j < r.len() implies key(#[trigger] r[i], forward) <= key(
            #[trigger] r[j],
            forward,
        ) by {
            assert(r[i] == p[i]);
            if j < p.len() {
                assert(r[j] == p[j]);
            } else {
                assert(r[j] == s[s.len() - 1]);
                if p[i] != x {
                    let q = choose|q: int| 0 <= q < d.len() && p[i] == d[q];
                    assert(d[q] == s[q]);
                    if q < s.len() - 1 {
                        assert(key(s[q], forward) <= key(s[s.len() - 1], forward));
                    }
                }
            }
        }
    }
}

proof fn lemma_sort_sorted(s: Seq<Candidate>, forward: bool)
    ensures
        key_sorted(sort_by_key(s, forward), forward),
    decreases s.len(),
{
    if s.len() > 0 {
        lemma_sort_sorted(s.drop_last(), forward);
        lemma_insert_sorted(sort_by_key(s.drop_last(), forward), s.last(), forward);
    }
}

/// The order in which objects are cycled through: going forward the candidates come in
/// ascending screen order (the score `y * 100000 + x * 100 + z`: rows, then columns, then
/// depth), going backward in descending screen order; they are the same candidates, only
/// reordered.
pub proof fn cycling_follows_screen_order(s: Seq<Candidate>, forward: bool)
    ensures
        sort_by_key(s, forward).len() == s.len(),
        forall|i: int, j: int|
            #![trigger sort_by_key(s, forward)[i], sort_by_key(s, forward)[j]]
            0 <= i < j < s.len() ==> (forward ==> sort_by_key(s, forward)[i].1 <= sort_by_key(s, forward)[j].1)
                && (!forward ==> sort_by_key(s, forward)[i].1 >= sort_by_key(s, forward)[j].1),
        forall|k: int|
            0 <= k < s.len() ==> exists|m: int| 0 <= m < s.len() && #[trigger] sort_by_key(s, forward)[k] == s[m],
{
    lemma_sort_len(s, forward);
    lemma_sort_sorted(s, forward);
    let r = sort_by_key(s, forward);
    assert forall|i: int, j: int| 0 <= i < j < s.len() implies (forward ==> #[trigger] r[i].1 <= #[trigger] r[j].1)
        && (!forward ==> r[i].1 >= r[j].1) by {
        assert(key(r[i], forward) <= key(r[j], forward));
    }
}

/// Selectable objects of the world in the viewport, in world order
fn visible_candidates(world: &World, viewport: Bounds) -> (r: Vec<(usize, i32, bool)>)
    requires
        scores_fit(world@.objects, viewport),
    ensures
        r@.len() == visible(world@.objects, viewport).len(),
        forall|k: int|
            0 <= k < r@.len() ==> ((#[trigger] r@[k]).0, r@[k].1 as int, r@[k].2) == visible(
                world@.objects,
                viewport,
            )[k],
{
    let ghost objs = world@.objects;
    let mut r: Vec<(usize, i32, bool)> = Vec::new();
    let mut i: usize = 0;
    while i < world.objects.len()
        invariant
            objs == world@.objects,
            scores_fit(objs, viewport),
            i <= objs.len(),
            r@.len() == visible(objs.take(i as int), viewport).len(),
            forall|k: int|
                0 <= k < r@.len() ==> ((#[trigger] r@[k]).0, r@[k].1 as int, r@[k].2) == visible(
                    objs.take(i as int),
                    viewport,
                )[k],
        decreases objs.len() - i,
    {
        proof {
            lemma_visible_step(objs, viewport, i as int);
        }
        assert(objs[i as int] == world.objects@[i as int]@);
        let o = &world.objects[i];
        if viewport.intersects(Position2D::from_position(o.pos), o.dim) {
            assert(score_fits(objs[i as int].pos));
            let s = o.pos.y * 100000 + o.pos.x * 100 + o.pos.z;
            r.push((i, s, o.selected));
        }
        i = i + 1;
    }
    assert(objs.take(objs.len() as int) =~= objs);
    r
}

fn exec_key(c: (usize, i32, bool), forward: bool) -> (r: i64)
    ensures
        r == key((c.0, c.1 as int, c.2), forward),
{
    if forward {
        c.1 as i64
    } else {
        -(c.1 as i64)
    }
}

/// Candidates stably sorted by screen order, forward or backward
fn sorted_candidates(c: Vec<(usize, i32, bool)>, forward: bool) -> (r: Vec<(usize, i32, bool)>)
    ensures
        r@.len() == c@.len(),
        forall|k: int|
            0 <= k < r@.len() ==> ((#[trigger] r@[k]).0, r@[k].1 as int, r@[k].2) == sort_by_key(
                c@.map_values(|e: (usize, i32, bool)| (e.0, e.1 as int, e.2)),
                forward,
            )[k],
{
    let ghost cv = c@.map_values(|e: (usize, i32, bool)| (e.0, e.1 as int, e.2));
    let mut out: Vec<(usize, i32, bool)> = Vec::new();
    let mut i: usize = 0;
    while i < c.len()
        invariant
            i <= c@.len(),
            cv == c@.map_values(|e: (usize, i32, bool)| (e.0, e.1 as int, e.2)),
            out@.map_values(|e: (usize, i32, bool)| (e.0, e.1 as int, e.2)) == sort_by_key(
                cv.take(i as int),
                forward,
            ),
        decreases c@.len() - i,
    {
        let ghost sv = out@.map_values(|e: (usize, i32, bool)| (e.0, e.1 as int, e.2));
        let x = c[i];
        let ghost xv = (x.0, x.1 as int, x.2);
        assert(cv.take(i + 1).drop_last() =~= cv.take(i as int));
        assert(cv.take(i + 1).last() == xv);
        let kx = exec_key(x, forward);
        let mut j: usize = out.len();
        while j > 0 && exec_key(out[j - 1], forward) > kx
            invariant
                j <= out@.len(),
                sv == out@.map_values(|e: (usize, i32, bool)| (e.0, e.1 as int, e.2)),
                kx == key(xv, forward),
                forall|k: int| j <= k < sv.len() ==> key(#[trigger] sv[k], forward) > key(xv, forward),
            decreases j,
        {
            j = j - 1;
        }
        proof {
            lemma_insert_at(sv, xv, forward, j as int);
        }
        out.insert(j, x);
        assert(out@.map_values(|e: (usize, i32, bool)| (e.0, e.1 as int, e.2)) =~= sv.insert(
            j as int,
            xv,
        ));
        i = i + 1;
    }
    assert(cv.take(c@.len() as int) =~= cv);
    proof {
        lemma_sort_len(cv, forward);
    }
    out
}

/// Selects the next (forward) or previous object in screen order among those in the
/// viewport, starting after the last selected one and going round; without `sticky` the
/// old selection is dropped. Returns false (nothing to record).
pub fn select_obj_relative(forward: bool, sticky: bool, world: &mut World, state: &State, screen: (
    u16,
    u16,
)) -> (r: bool)
    requires
        old(world).wf(),
        state.wf(),
        scores_fit(
            old(world)@.objects,
            Bounds::Free(state.current_offset(), Dimension { w: screen.0, h: screen.1 }),
        ),
    ensures
        !r,
        final(world).wf(),
        final(world)@ == (WorldView {
            objects: spec_select_relative(
                old(world)@.objects,
                Bounds::Free(state.current_offset(), Dimension { w: screen.0, h: screen.1 }),
                forward,
                sticky,
            ),
            ..old(world)@
        }),
{
    let viewport = viewport_bounds(state, screen);
    let ghost objs = world@.objects;
    let total = world.objects.len();
    assert(objs.len() == total);
    let c = visible_candidates(world, viewport);
    let ghost vis = visible(objs, viewport);
    assert(c@.map_values(|e: (usize, i32, bool)| (e.0, e.1 as int, e.2)) =~= vis);
    let all = sorted_candidates(c, forward);
    let ghost sv = sort_by_key(vis, forward);
    proof {
        lemma_sort_len(vis, forward);
        lemma_visible_index(objs, viewport);
    }
    let mut start: usize = 0;
    let mut i: usize = 0;
    while i < all.len()
        invariant
            i <= all@.len(),
            all@.len() == sv.len(),
            forall|k: int| 0 <= k < all@.len() ==> ((#[trigger] all@[k]).0, all@[k].1 as int, all@[k].2) == sv[k],
            start == last_selected(sv.take(i as int)),
            start <= i,
            start == 0 || start < i,
        decreases all@.len() - i,
    {
        assert(sv.take(i + 1).drop_last() =~= sv.take(i as int));
        if all[i].2 && start < i {
            start = i;
        }
        i = i + 1;
    }
    assert(sv.take(sv.len() as int) =~= sv);
    if !sticky {
        deselect_obj(world);
    }
    let n = all.len();
    let found = find_next_unselected(&all, start, Ghost(sv));
    let chosen: Option<usize> = match found {
        Some(j) => Some(all[j].0),
        None => if n > 0 {
            Some(all[0].0)
        } else {
            None
        },
    };
    proof {
        if n > 0 {
            assert(sv[0].0 < objs.len());
        }
    }
    assert(chosen == relative_choice(objs, viewport, forward));
    if let Some(idx) = chosen {
        world.set_selected(idx);
    }
    assert(world@.objects =~= spec_select_relative(objs, viewport, forward, sticky));
    false
}

/// Position of the first unselected candidate going round from `start`
fn find_next_unselected(all: &Vec<(usize, i32, bool)>, start: usize, Ghost(sv): Ghost<Seq<Candidate>>) -> (r: Option<usize>)
    requires
        all@.len() == sv.len(),
        forall|m: int| 0 <= m < all@.len() ==> ((#[trigger] all@[m]).0, all@[m].1 as int, all@[m].2) == sv[m],
        sv.len() > 0 ==> start < sv.len(),
    ensures
        match next_unselected(sv, start as int, 0) {
            Some(j) => r matches Some(k) && k == j && j < sv.len(),
            None => r is None,
        },
{
    let n = all.len();
    let mut k: usize = 0;
    while k < n
        invariant
            n == all@.len(),
            n == sv.len(),
            n > 0 ==> start < n,
            forall|m: int| 0 <= m < all@.len() ==> ((#[trigger] all@[m]).0, all@[m].1 as int, all@[m].2) == sv[m],
            k <= n,
            next_unselected(sv, start as int, k as int) == next_unselected(sv, start as int, 0),
        decreases n - k,
    {
        let j = if k < n - start {
            start + k
        } else {
            k - (n - start)
        };
        assert((start + k) % (n as int) == j) by (nonlinear_arith)
            requires
                start < n,
                k < n,
                j == (if start + k < n {
                    start + k
                } else {
                    start + k - n
                }),
        ;
        if !all[j].2 {
            return Some(j);
        }
        k = k + 1;
    }
    None
}

/// Objects with every visible unselected one selected too
pub open spec fn spec_select_all(objs: Seq<ObjectView>, viewport: Bounds) -> Seq<ObjectView> {
    objs.map_values(
        |o: ObjectView|
            if viewport.spec_intersects(pos2d(o.pos), o.dim) {
                ObjectView { selected: true, ..o }
            } else {
                o
            },
    )
}

/// Selects every object in the viewport; returns false (nothing to record)
pub fn select_obj_all(world: &mut World, state: &State, screen: (u16, u16)) -> (r: bool)
    requires
        old(world).wf(),
        state.wf(),
    ensures
        !r,
        final(world).wf(),
        final(world)@ == (WorldView {
            objects: spec_select_all(
                old(world)@.objects,
                Bounds::Free(state.current_offset(), Dimension { w: screen.0, h: screen.1 }),
            ),
            ..old(world)@
        }),
{
    let viewport = viewport_bounds(state, screen);
    let ghost objs = world@.objects;
    let mut i: usize = 0;
    while i < world.objects.len()
        invariant
            world.wf(),
            i <= objs.len(),
            world@.objects.len() == objs.len(),
            forall|j: int|
                0 <= j < objs.len() ==> #[trigger] world@.objects[j] == if j < i {
                    spec_select_all(objs, viewport)[j]
                } else {
                    objs[j]
                },
            world@.bookmarks == old(world)@.bookmarks,
            world@.subselection == old(world)@.subselection,
        decreases objs.len() - i,
    {
        assert(world@.objects[i as int] == world.objects@[i as int]@);
        if !world.objects[i].selected && viewport.intersects(
            Position2D::from_position(world.objects[i].pos),
            world.objects[i].dim,
        ) {
            world.set_selected(i);
        }
        i = i + 1;
    }
    assert(world@.objects =~= spec_select_all(objs, viewport));
    false
}

/// Index of the first object that the bounds meet, from `i` on
pub open spec fn first_hit(objs: Seq<ObjectView>, b: Bounds, i: int) -> Option<int>
    decreases objs.len() - i,
{
    if i < 0 || i >= objs.len() {
        None
    } else if b.spec_intersects(pos2d(objs[i].pos), objs[i].dim) {
        Some(i)
    } else {
        first_hit(objs, b, i + 1)
    }
}

/// Selecting what lies under the cell `b`: without `sticky` only the first object there,
/// the old selection dropped; with `sticky` every object there is added
pub open spec fn spec_select_at(objs: Seq<ObjectView>, b: Bounds, sticky: bool) -> Seq<ObjectView> {
    if sticky {
        spec_select_all(objs, b)
    } else {
        let d = deselected(objs);
        match first_hit(d, b, 0) {
            Some(i) => d.update(i, ObjectView { selected: true, ..d[i] }),
            None => d,
        }
    }
}

proof fn lemma_first_hit_found(objs: Seq<ObjectView>, b: Bounds, j: int)
    requires
        0 <= j,
    ensures
        first_hit(objs, b, j) matches Some(i) ==> j <= i < objs.len(),
    decreases objs.len() - j,
{
    if j < objs.len() && !b.spec_intersects(pos2d(objs[j].pos), objs[j].dim) {
        lemma_first_hit_found(objs, b, j + 1);
    }
}

/// Selects the object under the screen cell `at` (with `sticky`, every object there, adding
/// to the selection); returns false (nothing to record)
pub fn select_obj_at(at: Position2D, sticky: bool, world: &mut World, state: &State) -> (r: bool)
    requires
        old(world).wf(),
        state.wf(),
        at.fits_plus(state.current_offset()),
    ensures
        !r,
        final(world).wf(),
        final(world)@ == (WorldView {
            objects: spec_select_at(
                old(world)@.objects,
                Bounds::Binding(at.spec_plus(state.current_offset()), Dimension { w: 1, h: 1 }),
                sticky,
            ),
            ..old(world)@
        }),
{
    let at_bounds = Bounds::point(at.plus(state.offset()));
    if sticky {
        let ghost objs = world@.objects;
        let mut i: usize = 0;
        while i < world.objects.len()
            invariant
                world.wf(),
                i <= objs.len(),
                world@.objects.len() == objs.len(),
                forall|j: int|
                    0 <= j < objs.len() ==> #[trigger] world@.objects[j] == if j < i {
                        spec_select_all(objs, at_bounds)[j]
                    } else {
                        objs[j]
                    },
                world@.bookmarks == old(world)@.bookmarks,
                world@.subselection == old(world)@.subselection,
            decreases objs.len() - i,
        {
            assert(world@.objects[i as int] == world.objects@[i as int]@);
            if !world.objects[i].selected && at_bounds.intersects(
                Position2D::from_position(world.objects[i].pos),
                world.objects[i].dim,
            ) {
                world.set_selected(i);
            }
            i = i + 1;
        }
        assert(world@.objects =~= spec_select_all(objs, at_bounds));
    } else {
        deselect_obj(world);
        let ghost d = world@.objects;
        let ghost w1 = world@;
        let mut i: usize = 0;
        while i < world.objects.len()
            invariant
                world@ == w1,
                w1 == (WorldView { objects: deselected(old(world)@.objects), ..old(world)@ }),
                sticky == false,
                at_bounds == Bounds::Binding(at.spec_plus(state.current_offset()), Dimension { w: 1, h: 1 }),
                world.wf(),
                d == world@.objects,
                i <= d.len(),
                first_hit(d, at_bounds, i as int) == first_hit(d, at_bounds, 0),
            decreases d.len() - i,
        {
            assert(d[i as int] == world.objects@[i as int]@);
            if at_bounds.intersects(Position2D::from_position(world.objects[i].pos), world.objects[i].dim) {
                proof {
                    lemma_first_hit_found(d, at_bounds, 0);
                    assert(first_hit(d, at_bounds, i as int) == Some(i as int));
                }
                world.set_selected(i);
                assert(world@.objects =~= spec_select_at(old(world)@.objects, at_bounds, sticky));
                return false;
            }
            i = i + 1;
        }
    }
    false
}

/// What `select_obj` does: the result and the scene and state after it
pub open spec fn select_obj_outcome(which: Which<Position2D>, sticky: bool, screen: (u16, u16), w: WorldView, s: State, w2: WorldView, r: bool) -> bool {
    &&& (!r)
    &&& (w2 == (WorldView {
        objects: match which {
            Which::Next => spec_select_relative(
                w.objects,
                Bounds::Free(s.current_offset(), Dimension { w: screen.0, h: screen.1 }),
                true,
                sticky,
            ),
            Which::Previous => spec_select_relative(
                w.objects,
                Bounds::Free(s.current_offset(), Dimension { w: screen.0, h: screen.1 }),
                false,
                sticky,
            ),
            Which::All => spec_select_all(
                w.objects,
                Bounds::Free(s.current_offset(), Dimension { w: screen.0, h: screen.1 }),
            ),
            Which::At(at) => spec_select_at(
                w.objects,
                Bounds::Binding(at.spec_plus(s.current_offset()), Dimension { w: 1, h: 1 }),
                sticky,
            ),
        },
        ..w
    }))
}

/// Selects the next, previous or every visible object, or the one under a cell; returns
/// false (nothing to record)
pub fn select_obj(
    which: Which<Position2D>,
    sticky: bool,
    world: &mut World,
    state: &State,
    screen: (u16, u16),
) -> (r: bool)
    requires
        old(world).wf(),
        state.wf(),
        which is Next || which is Previous ==> scores_fit(
            old(world)@.objects,
            Bounds::Free(state.current_offset(), Dimension { w: screen.0, h: screen.1 }),
        ),
        which matches Which::At(at) ==> at.fits_plus(state.current_offset()),
    ensures
        final(world).wf(),
        select_obj_outcome(which, sticky, screen, old(world)@, *state, final(world)@, r),
{
    match which {
        Which::Next => select_obj_relative(true, sticky, world, state, screen),
        Which::Previous => select_obj_relative(false, sticky, world, state, screen),
        Which::All => select_obj_all(world, state, screen),
        Which::At(pos) => select_obj_at(pos, sticky, world, state),
    }
}

/// Marking a region: finishes sizing the region being selected and gives its area, or
/// (when it was finished) starts over at the cursor, or starts one at the cursor
pub open spec fn spec_mark_subselection(w: WorldView, cursor: Position2D) -> (WorldView, Option<Bounds>) {
    match w.subselection {
        Some((p, d, sel)) => if sel.active {
            (
                WorldView { subselection: Some((p, d, Subselection { active: false, ..sel })), ..w },
                Some(sel.initial_pos.spec_area(cursor)),
            )
        } else {
            (
                WorldView {
                    subselection: Some(
                        (cursor, Dimension { w: 1, h: 1 }, Subselection { active: true, initial_pos: cursor }),
                    ),
                    ..w
                },
                None,
            )
        },
        None => (
            WorldView {
                subselection: Some(
                    (cursor, Dimension { w: 1, h: 1 }, Subselection { active: true, initial_pos: cursor }),
                ),
                ..w
            },
            None,
        ),
    }
}

/// Marks a region corner at the cursor; returns the area once the region is finished
pub fn mark_subselection(world: &mut World, state: &State) -> (r: Option<Bounds>)
    requires
        old(world).wf(),
        match old(world)@.subselection {
            Some((_, _, sel)) => sel.active ==> area_fits(sel.initial_pos, state.spec_cursor()),
            None => true,
        },
    ensures
        final(world).wf(),
        (final(world)@, r) == spec_mark_subselection(old(world)@, state.spec_cursor()),
{
    match world.subselection {
        Some((p, d, sel)) => {
            if sel.active {
                let area = sel.initial_pos.area(state.cursor());
                world.subselection = Some((p, d, Subselection { active: false, initial_pos: sel.initial_pos }));
                Some(area)
            } else {
                let pos = state.cursor();
                world.subselection = Some((pos, Dimension::unit(), Subselection::at(pos)));
                None
            }
        },
        None => {
            let pos = state.cursor();
            world.subselection = Some((pos, Dimension::unit(), Subselection::at(pos)));
            None
        },
    }
}

/// Objects with only those meeting `area` (in viewport coordinates) selected
pub open spec fn select_in_area(objs: Seq<ObjectView>, area: Bounds, offset: Position2D) -> Seq<ObjectView> {
    objs.map_values(
        |o: ObjectView|
            ObjectView {
                selected: area.spec_intersects(pos2d(o.pos).spec_minus(offset), o.dim),
                ..o
            },
    )
}

/// The world after selecting what the area meets and dropping the region
pub open spec fn region_applied(w: WorldView, area: Bounds, offset: Position2D) -> WorldView {
    WorldView { objects: select_in_area(w.objects, area, offset), subselection: None, ..w }
}

/// Every object's position can be moved into the viewport within 32 bits
pub open spec fn objects_fit_offset(objs: Seq<ObjectView>, offset: Position2D) -> bool {
    forall|i: int| 0 <= i < objs.len() ==> pos2d(#[trigger] objs[i].pos).fits_minus(offset)
}

/// What `apply_region` does: the result and the scene and state after it
pub open spec fn apply_region_outcome(region: Option<Bounds>, w: WorldView, s: State, w2: WorldView, s2: State, r: bool) -> bool {
    &&& (!r)
    &&& (match region {
        None => w2 == w && s2.frame() == s.frame(),
        Some(area) => {
            let (w, f, _) = spec_reverse_mode(
                region_applied(w, area, s.current_offset()),
                s.frame(),
            );
            w2 == w && s2.frame() == f
        },
    })
}

/// Selects the objects the region meets, drops the region and leaves region mode; returns
/// false (nothing to record)
pub fn apply_region(region: Option<Bounds>, world: &mut World, state: &mut State) -> (r: bool)
    requires
        old(world).wf(),
        old(state).wf(),
        region matches Some(area) ==> objects_fit_offset(old(world)@.objects, old(state).current_offset())
            && reverse_mode_fits(
            region_applied(old(world)@, area, old(state).current_offset()),
            old(state).frame(),
        ),
    ensures
        final(world).wf(),
        final(state).wf(),
        apply_region_outcome(region, old(world)@, *old(state), final(world)@, *final(state), r),
{
    let area = match region {
        Some(b) => b,
        None => {
            return false;
        },
    };
    let offset = state.offset();
    let ghost objs = world@.objects;
    let mut i: usize = 0;
    while i < world.objects.len()
        invariant
            world.wf(),
            i <= objs.len(),
            world@.objects.len() == objs.len(),
            objects_fit_offset(objs, offset),
            forall|j: int|
                0 <= j < objs.len() ==> #[trigger] world@.objects[j] == if j < i {
                    select_in_area(objs, area, offset)[j]
                } else {
                    objs[j]
                },
            world@.bookmarks == old(world)@.bookmarks,
            world@.subselection == old(world)@.subselection,
        decreases objs.len() - i,
    {
        assert(world@.objects[i as int] == world.objects@[i as int]@);
        let ghost prev = world@.objects;
        let mut o = world.take_object(i);
        assert(pos2d(objs[i as int].pos).fits_minus(offset));
        let p = Position2D::from_position(o.pos).minus(offset);
        o.selected = area.intersects(p, o.dim);
        world.put_back(i, o);
        assert(world@.objects =~= prev.update(i as int, select_in_area(objs, area, offset)[i as int]));
        i = i + 1;
    }
    assert(world@.objects =~= select_in_area(objs, area, offset));
    clear_subselection(world);
    assert(world@ =~= region_applied(old(world)@, area, offset));
    reverse_mode(world, state);
    false
}

/// What `select_region` does: the result and the scene and state after it
pub open spec fn select_region_outcome(w: WorldView, s: State, w2: WorldView, s2: State, r: bool) -> bool {
    &&& (!r)
    &&& (({
        let (w1, region) = spec_mark_subselection(w, s.spec_cursor());
        match frame_mode(s.frame()) {
            Mode::Edit => w2 == w1 && s2.frame() == s.frame(),
            Mode::Object(SelectMode::Region) => match region {
                None => w2 == w1 && s2.frame() == s.frame(),
                Some(area) => {
                    let (w, f, _) = spec_reverse_mode(
                        region_applied(w1, area, s.current_offset()),
                        s.frame(),
                    );
                    w2 == w && s2.frame() == f
                },
            },
            _ => w2 == w && s2.frame() == (StateFrame {
                error: Some(ErrorView::ExecutionError("Region select in unexpected mode"@)),
                ..s.frame()
            }),
        }
    }))
}

/// Region selection: in edit mode marks the region's corners, in region mode marks them
/// and selects what the finished region meets; an error in other modes
pub fn select_region(world: &mut World, state: &mut State) -> (r: bool)
    requires
        old(world).wf(),
        old(state).wf(),
        match old(world)@.subselection {
            Some((_, _, sel)) => sel.active ==> area_fits(sel.initial_pos, old(state).spec_cursor()),
            None => true,
        },
        frame_mode(old(state).frame()) == Mode::Object(SelectMode::Region) ==> {
            let (w1, region) = spec_mark_subselection(old(world)@, old(state).spec_cursor());
            region matches Some(area) ==> objects_fit_offset(w1.objects, old(state).current_offset())
                && reverse_mode_fits(
                region_applied(w1, area, old(state).current_offset()),
                old(state).frame(),
            )
        },
    ensures
        final(world).wf(),
        final(state).wf(),
        select_region_outcome(old(world)@, *old(state), final(world)@, *final(state), r),
{
    match state.mode() {
        Mode::Edit => {
            mark_subselection(world, state);
            false
        },
        Mode::Object(SelectMode::Region) => {
            let region = mark_subselection(world, state);
            apply_region(region, world, state)
        },
        _ => state.set_error(Error::execution("Region select in unexpected mode")),
    }
}

} // verus!
