use crate::texel_types::{
    flat, max_x_seq, max_y_seq, u16_or_zero, Dimension, Position, Position2D, SpriteModel, SpriteV1,
    TexelV1,
};
use vstd::prelude::*;

verus! {

/// Abstract sprite with metadata: frames and current frame, id and labels.
pub struct SpriteData {
    pub body: SpriteModel,
    pub id: Option<u32>,
    pub labels: Seq<(Seq<char>, Seq<char>)>,
}

/// Multi frame ASCII art picture with an optional id and key/value labels
pub struct Sprite {
    pub body: SpriteV1,
    pub id: Option<u32>,
    pub labels: Vec<(String, String)>,
}

/// Abstract key/value labels
pub open spec fn labels_view(labels: Seq<(String, String)>) -> Seq<(Seq<char>, Seq<char>)> {
    Seq::new(labels.len(), |i: int| (labels[i].0@, labels[i].1@))
}

impl View for Sprite {
    type V = SpriteData;

    open spec fn view(&self) -> SpriteData {
        SpriteData { body: self.body@, id: self.id, labels: labels_view(self.labels@) }
    }
}

/// Whether some label has the key `k`
pub open spec fn has_label(labels: Seq<(Seq<char>, Seq<char>)>, k: Seq<char>) -> bool {
    exists|i: int| 0 <= i < labels.len() && labels[i].0 == k
}

/// Whether label `i` is the first with the key `k`
pub open spec fn first_label_at(labels: Seq<(Seq<char>, Seq<char>)>, k: Seq<char>, i: int) -> bool {
    &&& 0 <= i < labels.len()
    &&& labels[i].0 == k
    &&& forall|j: int| 0 <= j < i ==> labels[j].0 != k
}

/// The labels with the key `k` set to `v`: the first label with that key takes the value,
/// else the label is added last
pub open spec fn label_put(labels: Seq<(Seq<char>, Seq<char>)>, k: Seq<char>, v: Seq<char>) -> Seq<(Seq<char>, Seq<char>)> {
    if has_label(labels, k) {
        labels.update(choose|i: int| first_label_at(labels, k, i), (k, v))
    } else {
        labels.push((k, v))
    }
}

/// The labels with each of `new` set in turn, a later one replacing an earlier value of its key
pub open spec fn labels_put_all(labels: Seq<(Seq<char>, Seq<char>)>, new: Seq<(Seq<char>, Seq<char>)>) -> Seq<
    (Seq<char>, Seq<char>),
>
    decreases new.len(),
{
    if new.len() == 0 {
        labels
    } else {
        label_put(labels_put_all(labels, new.drop_last()), new.last().0, new.last().1)
    }
}

/// Sets the label `key` to `value`: the first label with that key takes the value, else the
/// label is added last
pub fn put_label(labels: &mut Vec<(String, String)>, key: String, value: String)
    ensures
        labels_view(final(labels)@) == label_put(labels_view(old(labels)@), key@, value@),
{
    let ghost l0 = labels_view(labels@);
    let mut i: usize = 0;
    while i < labels.len()
        invariant
            i <= labels@.len(),
            labels_view(labels@) == l0,
            l0 == labels_view(old(labels)@),
            l0.len() == labels@.len(),
            forall|j: int| 0 <= j < i ==> l0[j].0 != key@,
        decreases labels@.len() - i,
    {
        if crate::common::str_equal(labels[i].0.as_str(), key.as_str()) {
            proof {
                assert(l0[i as int].0 == key@);
                assert(first_label_at(l0, key@, i as int));
                assert(has_label(l0, key@));
                let c = choose|c: int| first_label_at(l0, key@, c);
                if c < i {
                    assert(l0[c].0 != key@);
                } else if c > i {
                    assert(l0[i as int].0 != key@);
                }
                assert(c == i);
            }
            let ghost k = key@;
            let ghost v = value@;
            labels.set(i, (key, value));
            assert(labels_view(labels@) =~= l0.update(i as int, (k, v)));
            assert(has_label(l0, k));
            assert(labels_view(labels@) == label_put(l0, k, v));
            return;
        }
        i = i + 1;
    }
    assert(!has_label(l0, key@));
    let ghost k = key@;
    let ghost v = value@;
    labels.push((key, value));
    assert(labels_view(labels@) =~= l0.push((k, v)));
}

/// Copy of key/value labels
pub fn copy_labels(labels: &Vec<(String, String)>) -> (r: Vec<(String, String)>)
    ensures
        labels_view(r@) == labels_view(labels@),
{
    let mut out: Vec<(String, String)> = Vec::new();
    let mut i: usize = 0;
    while i < labels.len()
        invariant
            i <= labels@.len(),
            out@.len() == i,
            forall|j: int|
                0 <= j < i ==> #[trigger] out@[j].0@ == labels@[j].0@ && out@[j].1@ == labels@[j].1@,
        decreases labels@.len() - i,
    {
        let k = labels[i].0.clone();
        let v = labels[i].1.clone();
        out.push((k, v));
        i = i + 1;
    }
    assert(labels_view(out@) =~= labels_view(labels@));
    out
}

impl Sprite {
    /// Empty single frame sprite without metadata
    pub fn new_empty() -> (r: Sprite)
        ensures
            r.body.wf(),
            r@.body.frames == seq![Seq::<TexelV1>::empty()],
            r@.body.index == 0,
            r@.id is None,
            r@.labels.len() == 0,
    {
        let r = Sprite { body: SpriteV1::new_empty(), id: None, labels: Vec::new() };
        r
    }

    /// Copy of the sprite
    pub fn duplicate(&self) -> (r: Sprite)
        ensures
            r@ == self@,
            r.body.wf() == self.body.wf(),
    {
        let body = self.body.duplicate();
        assert(body.fv().len() == self.body.fv().len());
        Sprite { body, id: self.id, labels: copy_labels(&self.labels) }
    }
}

/// A sprite that can be placed: a frame that the index selects, and no texel at the largest
/// coordinate (so its size can be computed)
pub open spec fn sprite_ok(m: SpriteModel) -> bool {
    &&& m.frames.len() > 0
    &&& m.index < m.frames.len()
    &&& forall|k: int|
        0 <= k < flat(m.frames).len() ==> #[trigger] flat(m.frames)[k].x < i32::MAX && flat(
            m.frames,
        )[k].y < i32::MAX
}

/// Size of a sprite: one past its largest coordinates
pub open spec fn dim_of(m: SpriteModel) -> Dimension {
    Dimension {
        w: u16_or_zero(max_x_seq(flat(m.frames)) + 1),
        h: u16_or_zero(max_y_seq(flat(m.frames)) + 1),
    }
}

/// `sprite_ok` is what placing a sprite needs of it.
pub proof fn lemma_sprite_ok(s: &SpriteV1)
    ensures
        sprite_ok(s@) <==> (s.wf() && s.coords_below_max()),
{
}

/// Objects and bookmarks of a scene in the current version; older scenes have no
/// bookmarks and their sprites no metadata
pub open spec fn current_objects(s: SceneView) -> Seq<(SpriteData, Position)> {
    match s {
        SceneView::V1(objs) => objs.map_values(
            |o: (SpriteModel, Position, bool)|
                (SpriteData { body: o.0, id: None, labels: Seq::empty() }, o.1),
        ),
        SceneView::V2(d) => d.objects,
    }
}

/// Bookmarks of a scene in the current version
pub open spec fn current_bookmarks(s: SceneView) -> Seq<(usize, Position2D)> {
    match s {
        SceneView::V1(_) => Seq::empty(),
        SceneView::V2(d) => d.bookmarks,
    }
}

/// Every sprite of the scene can be placed
pub open spec fn scene_ok(s: SceneView) -> bool {
    forall|i: int| 0 <= i < current_objects(s).len() ==> sprite_ok(#[trigger] current_objects(s)[i].0.body)
}

/// Abstract scene V2
pub struct SceneData {
    pub objects: Seq<(SpriteData, Position)>,
    pub bookmarks: Seq<(usize, Position2D)>,
}

/// Scene format V1: sprites with their positions and a selection flag
pub struct SceneV1 {
    pub objects: Vec<(SpriteV1, Position, bool)>,
}

/// Scene format V2: sprites with positions, and bookmarked viewport offsets by index
pub struct SceneV2 {
    pub objects: Vec<(Sprite, Position)>,
    pub bookmarks: Vec<(usize, Position2D)>,
}

/// A scene in any of its versions
pub enum Scene {
    V1(SceneV1),
    V2(SceneV2),
}

/// Abstract scene in any version
pub enum SceneView {
    V1(Seq<(SpriteModel, Position, bool)>),
    V2(SceneData),
}

impl View for SceneV2 {
    type V = SceneData;

    open spec fn view(&self) -> SceneData {
        SceneData {
            objects: Seq::new(
                self.objects@.len(),
                |i: int| (self.objects@[i].0@, self.objects@[i].1),
            ),
            bookmarks: self.bookmarks@,
        }
    }
}

impl View for Scene {
    type V = SceneView;

    open spec fn view(&self) -> SceneView {
        match self {
            Scene::V1(s) => SceneView::V1(
                Seq::new(
                    s.objects@.len(),
                    |i: int| (s.objects@[i].0@, s.objects@[i].1, s.objects@[i].2),
                ),
            ),
            Scene::V2(s) => SceneView::V2(s@),
        }
    }
}

impl SceneV2 {
    /// Scene without objects or bookmarks
    pub fn empty() -> (r: SceneV2)
        ensures
            r@.objects.len() == 0,
            r@.bookmarks.len() == 0,
    {
        SceneV2 { objects: Vec::new(), bookmarks: Vec::new() }
    }

    /// Copy of the scene
    pub fn duplicate(&self) -> (r: SceneV2)
        ensures
            r@ == self@,
    {
        let mut objects: Vec<(Sprite, Position)> = Vec::new();
        let mut i: usize = 0;
        while i < self.objects.len()
            invariant
                i <= self.objects@.len(),
                objects@.len() == i,
                forall|j: int|
                    0 <= j < i ==> #[trigger] objects@[j].0@ == self.objects@[j].0@ && objects@[j].1
                        == self.objects@[j].1,
            decreases self.objects@.len() - i,
        {
            let s = self.objects[i].0.duplicate();
            objects.push((s, self.objects[i].1));
            i = i + 1;
        }
        let mut bookmarks: Vec<(usize, Position2D)> = Vec::new();
        let mut k: usize = 0;
        while k < self.bookmarks.len()
            invariant
                k <= self.bookmarks@.len(),
                bookmarks@ == self.bookmarks@.take(k as int),
            decreases self.bookmarks@.len() - k,
        {
            bookmarks.push(self.bookmarks[k]);
            proof {
                assert(self.bookmarks@.take(k + 1) =~= self.bookmarks@.take(k as int).push(
                    self.bookmarks@[k as int],
                ));
            }
            k = k + 1;
        }
        proof {
            assert(self.bookmarks@.take(self.bookmarks@.len() as int) =~= self.bookmarks@);
        }
        let r = SceneV2 { objects, bookmarks };
        assert(r@.objects =~= self@.objects);
        r
    }
}

impl SceneV1 {
    /// Copy of the scene
    pub fn duplicate(&self) -> (r: SceneV1)
        ensures
            r.objects@.len() == self.objects@.len(),
            forall|j: int|
                0 <= j < self.objects@.len() ==> #[trigger] r.objects@[j].0@ == self.objects@[j].0@
                    && r.objects@[j].1 == self.objects@[j].1 && r.objects@[j].2 == self.objects@[j].2,
    {
        let mut objects: Vec<(SpriteV1, Position, bool)> = Vec::new();
        let mut i: usize = 0;
        while i < self.objects.len()
            invariant
                i <= self.objects@.len(),
                objects@.len() == i,
                forall|j: int|
                    0 <= j < i ==> #[trigger] objects@[j].0@ == self.objects@[j].0@ && objects@[j].1
                        == self.objects@[j].1 && objects@[j].2 == self.objects@[j].2,
            decreases self.objects@.len() - i,
        {
            let s = self.objects[i].0.duplicate();
            objects.push((s, self.objects[i].1, self.objects[i].2));
            i = i + 1;
        }
        SceneV1 { objects }
    }
}

impl Scene {
    /// Whether every sprite of the scene can be taken in, see `SpriteV1::is_ok`
    pub fn is_ok(&self) -> (r: bool)
        ensures
            r == scene_ok(self@),
    {
        let ghost objs = current_objects(self@);
        match self {
            Scene::V1(s) => {
                let mut i: usize = 0;
                while i < s.objects.len()
                    invariant
                        objs == current_objects(self@),
                        *self == Scene::V1(*s),
                        objs.len() == s.objects@.len(),
                        i <= objs.len(),
                        forall|j: int| 0 <= j < i ==> sprite_ok(#[trigger] objs[j].0.body),
                    decreases objs.len() - i,
                {
                    assert(objs[i as int].0.body == s.objects@[i as int].0@);
                    if !s.objects[i].0.is_ok() {
                        return false;
                    }
                    i = i + 1;
                }
                true
            },
            Scene::V2(s) => {
                let mut i: usize = 0;
                while i < s.objects.len()
                    invariant
                        objs == current_objects(self@),
                        *self == Scene::V2(*s),
                        objs == s@.objects,
                        objs.len() == s.objects@.len(),
                        i <= objs.len(),
                        forall|j: int| 0 <= j < i ==> sprite_ok(#[trigger] objs[j].0.body),
                    decreases objs.len() - i,
                {
                    assert(objs[i as int].0.body == s.objects@[i as int].0.body@);
                    if !s.objects[i].0.body.is_ok() {
                        return false;
                    }
                    i = i + 1;
                }
                true
            },
        }
    }

    /// The default scene: an empty V2 scene
    pub fn default_scene() -> (r: Scene)
        ensures
            r@ matches SceneView::V2(d) && d.objects.len() == 0 && d.bookmarks.len() == 0,
    {
        Scene::V2(SceneV2::empty())
    }

    /// The scene in the current version: older scenes gain empty bookmarks and sprite
    /// metadata
    pub fn current(self) -> (r: SceneV2)
        ensures
            r@.objects == current_objects(self@),
            r@.bookmarks == current_bookmarks(self@),
            forall|i: int| 0 <= i < r.objects@.len() ==> (#[trigger] r.objects@[i]).0.body@ == current_objects(self@)[i].0.body,
    {
        match self {
            Scene::V2(s) => s,
            Scene::V1(s) => {
                let ghost objs = s.objects@;
                let mut objects: Vec<(Sprite, Position)> = Vec::new();
                let mut old_objects = s.objects;
                let mut i: usize = 0;
                let n = old_objects.len();
                while old_objects.len() > 0
                    invariant
                        n == objs.len(),
                        i + old_objects@.len() == n,
                        old_objects@ == objs.subrange(i as int, n as int),
                        objects@.len() == i,
                        forall|j: int|
                            0 <= j < i ==> (#[trigger] objects@[j]).0@ == (SpriteData {
                                body: objs[j].0@,
                                id: None,
                                labels: Seq::empty(),
                            }) && objects@[j].1 == objs[j].1,
                    decreases old_objects@.len(),
                {
                    let (body, pos, _) = old_objects.remove(0);
                    assert(old_objects@ =~= objs.subrange(i + 1, n as int));
                    let sprite = Sprite { body, id: None, labels: Vec::new() };
                    assert(sprite@.labels =~= Seq::<(Seq<char>, Seq<char>)>::empty());
                    objects.push((sprite, pos));
                    i = i + 1;
                }
                let r = SceneV2 { objects, bookmarks: Vec::new() };
                assert(r@.objects =~= current_objects(Scene::V1(s)@));
                assert(r@.bookmarks =~= Seq::<(usize, Position2D)>::empty());
                r
            },
        }
    }

    /// Copy of the scene
    pub fn duplicate(&self) -> (r: Scene)
        ensures
            r@ == self@,
    {
        match self {
            Scene::V1(s) => {
                let c = s.duplicate();
                let r = Scene::V1(c);
                assert(match (r@, self@) {
                    (SceneView::V1(a), SceneView::V1(b)) => a =~= b,
                    _ => false,
                });
                r
            },
            Scene::V2(s) => Scene::V2(s.duplicate()),
        }
    }
}

} // verus!
