use crate::components::{Bookmark, Subselection};
use crate::texel_types::{Bounds, Dimension, Position, Position2D, Sprite, SpriteData, Translation};
use vstd::prelude::*;

verus! {

/// A sprite placed in the scene, with its size, whether it is selected, and the cursor
/// position saved for it when leaving edit or write mode
pub struct Object {
    pub sprite: Sprite,
    pub pos: Position,
    pub dim: Dimension,
    pub selected: bool,
    pub cursor: Option<Position2D>,
}

/// Abstract placed sprite
pub struct ObjectView {
    pub sprite: SpriteData,
    pub pos: Position,
    pub dim: Dimension,
    pub selected: bool,
    pub cursor: Option<Position2D>,
}

impl View for Object {
    type V = ObjectView;

    open spec fn view(&self) -> ObjectView {
        ObjectView {
            sprite: self.sprite@,
            pos: self.pos,
            dim: self.dim,
            selected: self.selected,
            cursor: self.cursor,
        }
    }
}

/// The scene being edited: placed sprites in insertion order, bookmarks, and the region
/// being selected with its position and size
pub struct World {
    pub objects: Vec<Object>,
    pub bookmarks: Vec<(Bookmark, Position2D)>,
    pub subselection: Option<(Position2D, Dimension, Subselection)>,
}

/// Abstract scene being edited
pub struct WorldView {
    pub objects: Seq<ObjectView>,
    pub bookmarks: Seq<(usize, Position2D)>,
    pub subselection: Option<(Position2D, Dimension, Subselection)>,
}

impl View for World {
    type V = WorldView;

    open spec fn view(&self) -> WorldView {
        WorldView {
            objects: Seq::new(self.objects@.len(), |i: int| self.objects@[i]@),
            bookmarks: Seq::new(
                self.bookmarks@.len(),
                |i: int| (self.bookmarks@[i].0.0, self.bookmarks@[i].1),
            ),
            subselection: self.subselection,
        }
    }
}

/// Objects with the selected ones moved within the screen, each kept so it fits
pub open spec fn translated_selected(objs: Seq<ObjectView>, t: Translation, screen: Dimension) -> Seq<
    ObjectView,
> {
    objs.map_values(
        |o: ObjectView|
            if o.selected {
                ObjectView {
                    pos: o.pos.spec_apply(
                        t,
                        Bounds::Free(Position2D { x: 0, y: 0 }, screen.spec_minus_dim(o.dim)),
                    ).0,
                    ..o
                }
            } else {
                o
            },
    )
}

/// Number of selected objects
pub open spec fn selected_count(objs: Seq<ObjectView>) -> nat
    decreases objs.len(),
{
    if objs.len() == 0 {
        0
    } else {
        selected_count(objs.drop_last()) + if objs.last().selected {
            1nat
        } else {
            0nat
        }
    }
}

/// Index of the first selected object at or after `i`
pub open spec fn first_selected_from(objs: Seq<ObjectView>, i: int) -> Option<int>
    decreases objs.len() - i,
{
    if i < 0 || i >= objs.len() {
        None
    } else if objs[i].selected {
        Some(i)
    } else {
        first_selected_from(objs, i + 1)
    }
}

/// The objects, none selected
pub open spec fn deselected(objs: Seq<ObjectView>) -> Seq<ObjectView> {
    objs.map_values(|o: ObjectView| ObjectView { selected: false, ..o })
}

/// The objects that are not selected, in order
pub open spec fn without_selected(objs: Seq<ObjectView>) -> Seq<ObjectView>
    decreases objs.len(),
{
    if objs.len() == 0 {
        Seq::empty()
    } else {
        let rest = without_selected(objs.drop_last());
        if objs.last().selected {
            rest
        } else {
            rest.push(objs.last())
        }
    }
}

/// Bookmarks after setting `index` to `location`: the first bookmark with that index
/// moves, else a new one is added
pub open spec fn labels_with(
    marks: Seq<(usize, Position2D)>,
    index: usize,
    location: Position2D,
) -> Seq<(usize, Position2D)>
    decreases marks.len(),
{
    if marks.len() == 0 {
        seq![(index, location)]
    } else if marks[0].0 == index {
        marks.update(0, (index, location))
    } else {
        seq![marks[0]] + labels_with(marks.drop_first(), index, location)
    }
}

/// Position of the first bookmark with the given index
pub open spec fn bookmark_at(marks: Seq<(usize, Position2D)>, index: usize) -> Option<Position2D>
    decreases marks.len(),
{
    if marks.len() == 0 {
        None
    } else if marks[0].0 == index {
        Some(marks[0].1)
    } else {
        bookmark_at(marks.drop_first(), index)
    }
}

/// A first selected object found from `j` lies at or after `j`, inside, and is selected.
pub proof fn lemma_first_selected_found(objs: Seq<ObjectView>, j: int)
    requires
        0 <= j,
    ensures
        first_selected_from(objs, j) matches Some(i) ==> j <= i < objs.len() && objs[i].selected,
    decreases objs.len() - j,
{
    if j < objs.len() && !objs[j].selected {
        lemma_first_selected_found(objs, j + 1);
    }
}

pub proof fn lemma_count_step(objs: Seq<ObjectView>, i: int)
    requires
        0 <= i < objs.len(),
    ensures
        selected_count(objs.take(i + 1)) == selected_count(objs.take(i)) + if objs[i].selected {
            1nat
        } else {
            0nat
        },
{
    assert(objs.take(i + 1).drop_last() =~= objs.take(i));
}

proof fn lemma_first_selected_none(objs: Seq<ObjectView>, i: int)
    requires
        0 <= i <= objs.len(),
        forall|j: int| i <= j < objs.len() ==> !(#[trigger] objs[j]).selected,
    ensures
        first_selected_from(objs, i) is None,
    decreases objs.len() - i,
{
    if i < objs.len() {
        lemma_first_selected_none(objs, i + 1);
    }
}

impl World {
    /// Every sprite has a frame that its index selects
    pub open spec fn wf(&self) -> bool {
        forall|i: int| 0 <= i < self.objects@.len() ==> (#[trigger] self.objects@[i]).sprite.body.wf()
    }

    /// An empty scene
    pub fn new_world() -> (r: World)
        ensures
            r.wf(),
            r@.objects.len() == 0,
            r@.bookmarks.len() == 0,
            r@.subselection is None,
    {
        let r = World { objects: Vec::new(), bookmarks: Vec::new(), subselection: None };
        assert(r@.objects =~= Seq::<ObjectView>::empty());
        r
    }

    /// Number of selected objects
    pub fn selected_count(&self) -> (r: usize)
        ensures
            r == selected_count(self@.objects),
    {
        let ghost objs = self@.objects;
        let mut n: usize = 0;
        let mut i: usize = 0;
        while i < self.objects.len()
            invariant
                objs == self@.objects,
                i <= objs.len(),
                n == selected_count(objs.take(i as int)),
                n <= i,
            decreases objs.len() - i,
        {
            proof {
                lemma_count_step(objs, i as int);
            }
            if self.objects[i].selected {
                n = n + 1;
            }
            i = i + 1;
        }
        assert(objs.take(objs.len() as int) =~= objs);
        n
    }

    /// Index of the first selected object
    pub fn first_selected(&self) -> (r: Option<usize>)
        ensures
            match first_selected_from(self@.objects, 0) {
                Some(i) => r matches Some(j) && j == i,
                None => r is None,
            },
            r matches Some(i) ==> i < self@.objects.len() && self@.objects[i as int].selected,
    {
        proof {
            lemma_first_selected_found(self@.objects, 0);
        }
        let ghost objs = self@.objects;
        let mut i: usize = 0;
        while i < self.objects.len()
            invariant
                objs == self@.objects,
                i <= objs.len(),
                first_selected_from(objs, i as int) == first_selected_from(objs, 0),
            decreases objs.len() - i,
        {
            if self.objects[i].selected {
                return Some(i);
            }
            i = i + 1;
        }
        None
    }

    /// Deselects every object
    pub fn deselect_all(&mut self)
        requires
            old(self).wf(),
        ensures
            final(self).wf(),
            final(self)@ == (WorldView { objects: deselected(old(self)@.objects), ..old(self)@ }),
    {
        let ghost objs = self@.objects;
        let mut i: usize = 0;
        while i < self.objects.len()
            invariant
                i <= objs.len(),
                self.objects@.len() == objs.len(),
                self.wf(),
                forall|j: int|
                    0 <= j < objs.len() ==> #[trigger] self.objects@[j]@ == if j < i {
                        ObjectView { selected: false, ..objs[j] }
                    } else {
                        objs[j]
                    },
                self.bookmarks == old(self).bookmarks,
                self.subselection == old(self).subselection,
            decreases objs.len() - i,
        {
            let mut o = self.objects.remove(i);
            o.selected = false;
            self.objects.insert(i, o);
            i = i + 1;
        }
        assert(self@.objects =~= deselected(objs));
    }

    /// Drops the region being selected
    pub fn clear_subselection(&mut self)
        ensures
            final(self)@ == (WorldView { subselection: None, ..old(self)@ }),
            final(self).wf() == old(self).wf(),
    {
        self.subselection = None;
    }

    /// Adds an object after the others
    pub fn push_object(&mut self, o: Object)
        requires
            old(self).wf(),
            o.sprite.body.wf(),
        ensures
            final(self).wf(),
            final(self)@ == (WorldView { objects: old(self)@.objects.push(o@), ..old(self)@ }),
    {
        self.objects.push(o);
        assert(self@.objects =~= old(self)@.objects.push(o@));
    }

    /// Saves a cursor position on object `i`
    pub fn set_cursor_of(&mut self, i: usize, cursor: Position2D)
        requires
            old(self).wf(),
            i < old(self)@.objects.len(),
        ensures
            final(self).wf(),
            final(self)@ == (WorldView {
                objects: old(self)@.objects.update(
                    i as int,
                    ObjectView { cursor: Some(cursor), ..old(self)@.objects[i as int] },
                ),
                ..old(self)@
            }),
    {
        let mut o = self.objects.remove(i);
        o.cursor = Some(cursor);
        self.objects.insert(i, o);
        assert(self@.objects =~= old(self)@.objects.update(
            i as int,
            ObjectView { cursor: Some(cursor), ..old(self)@.objects[i as int] },
        ));
    }

    /// Selects object `i`
    pub fn set_selected(&mut self, i: usize)
        requires
            old(self).wf(),
            i < old(self)@.objects.len(),
        ensures
            final(self).wf(),
            final(self)@ == (WorldView {
                objects: old(self)@.objects.update(
                    i as int,
                    ObjectView { selected: true, ..old(self)@.objects[i as int] },
                ),
                ..old(self)@
            }),
    {
        let mut o = self.objects.remove(i);
        o.selected = true;
        self.objects.insert(i, o);
        assert(self@.objects =~= old(self)@.objects.update(
            i as int,
            ObjectView { selected: true, ..old(self)@.objects[i as int] },
        ));
    }

    /// Moves every selected object by the translation, each within the screen less its
    /// size; returns whether any object is selected
    pub fn translate_selected(&mut self, t: Translation, screen: Dimension) -> (r: bool)
        requires
            old(self).wf(),
            forall|i: int|
                0 <= i < old(self)@.objects.len() && (#[trigger] old(self)@.objects[i]).selected
                    ==> old(self)@.objects[i].pos.apply_fits(
                    t,
                    Bounds::Free(Position2D { x: 0, y: 0 }, screen.spec_minus_dim(old(self)@.objects[i].dim)),
                ),
        ensures
            final(self).wf(),
            r == (selected_count(old(self)@.objects) > 0),
            final(self)@ == (WorldView {
                objects: translated_selected(old(self)@.objects, t, screen),
                ..old(self)@
            }),
    {
        let ghost objs = self@.objects;
        let ghost target = translated_selected(objs, t, screen);
        let mut changed = false;
        let mut i: usize = 0;
        while i < self.objects.len()
            invariant
                self.wf(),
                i <= objs.len(),
                self@.objects.len() == objs.len(),
                target == translated_selected(objs, t, screen),
                forall|j: int|
                    0 <= j < objs.len() && (#[trigger] objs[j]).selected ==> objs[j].pos.apply_fits(
                        t,
                        Bounds::Free(Position2D { x: 0, y: 0 }, screen.spec_minus_dim(objs[j].dim)),
                    ),
                forall|j: int|
                    0 <= j < objs.len() ==> #[trigger] self@.objects[j] == if j < i {
                        target[j]
                    } else {
                        objs[j]
                    },
                changed == (selected_count(objs.take(i as int)) > 0),
                self@.bookmarks == old(self)@.bookmarks,
                self@.subselection == old(self)@.subselection,
            decreases objs.len() - i,
        {
            proof {
                lemma_count_step(objs, i as int);
            }
            assert(self@.objects[i as int] == self.objects@[i as int]@);
            if self.objects[i].selected {
                let ghost prev = self@.objects;
                let mut o = self.objects.remove(i);
                assert(o@ == objs[i as int]);
                let ghost o0 = o@;
                let b = Bounds::Free(Position2D { x: 0, y: 0 }, screen.saturating_minus(o.dim));
                o.pos.apply(t, b);
                assert(o.pos == o0.pos.spec_apply(t, b).0);
                assert(o@ == ObjectView { pos: o.pos, ..o0 });
                assert(target[i as int] == ObjectView {
                    pos: o0.pos.spec_apply(
                        t,
                        Bounds::Free(Position2D { x: 0, y: 0 }, screen.spec_minus_dim(o0.dim)),
                    ).0,
                    ..o0
                });
                assert(o@ == target[i as int]);
                self.objects.insert(i, o);
                assert(self@.objects =~= prev.update(i as int, target[i as int]));
                changed = true;
            }
            i = i + 1;
        }
        assert(objs.take(objs.len() as int) =~= objs);
        assert(self@.objects =~= target);
        changed
    }

    /// Takes object `i` out, to be put back with `put_back`
    pub fn take_object(&mut self, i: usize) -> (r: Object)
        requires
            old(self).wf(),
            i < old(self)@.objects.len(),
        ensures
            final(self).wf(),
            r@ == old(self)@.objects[i as int],
            r.sprite.body.wf(),
            final(self)@ == (WorldView { objects: old(self)@.objects.remove(i as int), ..old(self)@ }),
    {
        let r = self.objects.remove(i);
        assert(self@.objects =~= old(self)@.objects.remove(i as int));
        r
    }

    /// Puts an object back at `i`
    pub fn put_back(&mut self, i: usize, o: Object)
        requires
            old(self).wf(),
            i <= old(self)@.objects.len(),
            o.sprite.body.wf(),
        ensures
            final(self).wf(),
            final(self)@ == (WorldView { objects: old(self)@.objects.insert(i as int, o@), ..old(self)@ }),
    {
        self.objects.insert(i, o);
        assert(self@.objects =~= old(self)@.objects.insert(i as int, o@));
    }

    /// Removes the selected objects; returns how many there were
    pub fn remove_selected(&mut self) -> (r: usize)
        requires
            old(self).wf(),
        ensures
            final(self).wf(),
            r == selected_count(old(self)@.objects),
            final(self)@ == (WorldView { objects: without_selected(old(self)@.objects), ..old(self)@ }),
    {
        let ghost objs = self@.objects;
        let mut kept: Vec<Object> = Vec::new();
        let mut removed: usize = 0;
        let mut old_objects: Vec<Object> = Vec::new();
        std::mem::swap(&mut old_objects, &mut self.objects);
        let mut i: usize = 0;
        let n = old_objects.len();
        while old_objects.len() > 0
            invariant
                n == objs.len(),
                old_objects@.len() + i == n,
                Seq::new(old_objects@.len(), |k: int| old_objects@[k]@) == objs.subrange(i as int, n as int),
                Seq::new(kept@.len(), |k: int| kept@[k]@) == without_selected(objs.take(i as int)),
                removed == selected_count(objs.take(i as int)),
                removed <= i,
                forall|k: int| 0 <= k < kept@.len() ==> (#[trigger] kept@[k]).sprite.body.wf(),
                forall|k: int| 0 <= k < old_objects@.len() ==> (#[trigger] old_objects@[k]).sprite.body.wf(),
                self.bookmarks == old(self).bookmarks,
                self.subselection == old(self).subselection,
            decreases old_objects@.len(),
        {
            let ghost prev = Seq::new(old_objects@.len(), |k: int| old_objects@[k]@);
            assert(prev[0] == objs[i as int]);
            let o = old_objects.remove(0);
            assert(o@ == objs[i as int]);
            assert(Seq::new(old_objects@.len(), |k: int| old_objects@[k]@) =~= prev.drop_first());
            let ghost before = Seq::new(kept@.len(), |k: int| kept@[k]@);
            proof {
                lemma_count_step(objs, i as int);
                assert(objs.take(i + 1).drop_last() =~= objs.take(i as int));
                assert(Seq::new(old_objects@.len(), |k: int| old_objects@[k]@) =~= objs.subrange(
                    i + 1,
                    n as int,
                ));
            }
            if o.selected {
                removed = removed + 1;
            } else {
                kept.push(o);
                assert(Seq::new(kept@.len(), |k: int| kept@[k]@) =~= before.push(objs[i as int]));
            }
            i = i + 1;
        }
        assert(objs.take(n as int) =~= objs);
        self.objects = kept;
        assert(self@.objects =~= without_selected(objs));
        removed
    }

    /// Removes every object; bookmarks and the region being selected stay
    pub fn clear_objects(&mut self)
        ensures
            final(self).wf(),
            final(self)@ == (WorldView { objects: Seq::empty(), ..old(self)@ }),
    {
        self.objects = Vec::new();
        assert(self@.objects =~= Seq::<ObjectView>::empty());
    }

    /// Sets bookmark `index` to `location`
    pub fn set_bookmark(&mut self, index: usize, location: Position2D)
        ensures
            final(self).wf() == old(self).wf(),
            final(self)@ == (WorldView {
                bookmarks: labels_with(old(self)@.bookmarks, index, location),
                ..old(self)@
            }),
    {
        let ghost marks = self@.bookmarks;
        let mut i: usize = 0;
        while i < self.bookmarks.len()
            invariant
                marks == self@.bookmarks,
                *self == *old(self),
                i <= marks.len(),
                forall|j: int| 0 <= j < i ==> (#[trigger] marks[j]).0 != index,
            decreases marks.len() - i,
        {
            if self.bookmarks[i].0.0 == index {
                proof {
                    lemma_labels_with_at(marks, index, location, i as int);
                }
                self.bookmarks.set(i, (Bookmark(index), location));
                assert(self@.bookmarks =~= marks.update(i as int, (index, location)));
                return;
            }
            i = i + 1;
        }
        proof {
            lemma_labels_with_absent(marks, index, location);
        }
        self.bookmarks.push((Bookmark(index), location));
        assert(self@.bookmarks =~= marks.push((index, location)));
    }

    /// Position of bookmark `index`, if set
    pub fn bookmark(&self, index: usize) -> (r: Option<Position2D>)
        ensures
            r == bookmark_at(self@.bookmarks, index),
    {
        let ghost marks = self@.bookmarks;
        let mut i: usize = 0;
        while i < self.bookmarks.len()
            invariant
                marks == self@.bookmarks,
                i <= marks.len(),
                forall|j: int| 0 <= j < i ==> (#[trigger] marks[j]).0 != index,
            decreases marks.len() - i,
        {
            if self.bookmarks[i].0.0 == index {
                proof {
                    lemma_bookmark_at(marks, index, i as int);
                }
                return Some(self.bookmarks[i].1);
            }
            i = i + 1;
        }
        proof {
            lemma_bookmark_absent(marks, index);
        }
        None
    }
}

proof fn lemma_labels_with_at(marks: Seq<(usize, Position2D)>, index: usize, location: Position2D, i: int)
    requires
        0 <= i < marks.len(),
        marks[i].0 == index,
        forall|j: int| 0 <= j < i ==> (#[trigger] marks[j]).0 != index,
    ensures
        labels_with(marks, index, location) == marks.update(i, (index, location)),
    decreases i,
{
    if i > 0 {
        let rest = marks.drop_first();
        assert forall|j: int| 0 <= j < i - 1 implies (#[trigger] rest[j]).0 != index by {
            assert(rest[j] == marks[j + 1]);
        }
        lemma_labels_with_at(rest, index, location, i - 1);
        assert(seq![marks[0]] + rest.update(i - 1, (index, location)) =~= marks.update(
            i,
            (index, location),
        ));
    }
}

proof fn lemma_labels_with_absent(marks: Seq<(usize, Position2D)>, index: usize, location: Position2D)
    requires
        forall|j: int| 0 <= j < marks.len() ==> (#[trigger] marks[j]).0 != index,
    ensures
        labels_with(marks, index, location) == marks.push((index, location)),
    decreases marks.len(),
{
    if marks.len() > 0 {
        let rest = marks.drop_first();
        assert forall|j: int| 0 <= j < rest.len() implies (#[trigger] rest[j]).0 != index by {
            assert(rest[j] == marks[j + 1]);
        }
        lemma_labels_with_absent(rest, index, location);
        assert(seq![marks[0]] + rest.push((index, location)) =~= marks.push((index, location)));
    }
}

proof fn lemma_bookmark_at(marks: Seq<(usize, Position2D)>, index: usize, i: int)
    requires
        0 <= i < marks.len(),
        marks[i].0 == index,
        forall|j: int| 0 <= j < i ==> (#[trigger] marks[j]).0 != index,
    ensures
        bookmark_at(marks, index) == Some(marks[i].1),
    decreases i,
{
    if i > 0 {
        let rest = marks.drop_first();
        assert forall|j: int| 0 <= j < i - 1 implies (#[trigger] rest[j]).0 != index by {
            assert(rest[j] == marks[j + 1]);
        }
        lemma_bookmark_at(rest, index, i - 1);
    }
}

proof fn lemma_bookmark_absent(marks: Seq<(usize, Position2D)>, index: usize)
    requires
        forall|j: int| 0 <= j < marks.len() ==> (#[trigger] marks[j]).0 != index,
    ensures
        bookmark_at(marks, index) is None,
    decreases marks.len(),
{
    if marks.len() > 0 {
        let rest = marks.drop_first();
        assert forall|j: int| 0 <= j < rest.len() implies (#[trigger] rest[j]).0 != index by {
            assert(rest[j] == marks[j + 1]);
        }
        lemma_bookmark_absent(rest, index);
    }
}

} // verus!
