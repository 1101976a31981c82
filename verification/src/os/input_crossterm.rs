//! Terminal key presses mapped to input events, per editor mode. Reading the presses from
//! the terminal is done by the program around the library.

use crate::common::{CharMap, Event, InputEvent, Mode, ModesCharMap, MoveMeta, MODE_COUNT};
use crate::texel_types::{ColorMode, Which};
use vstd::prelude::*;

verus! {

/// A key as the terminal reports it
#[derive(Debug, Clone, Copy, PartialEq, Eq, Structural)]
pub enum Key {
    Char(char),
    Enter,
    Tab,
    BackTab,
    Esc,
    Left,
    Right,
    Up,
    Down,
    Delete,
    Backspace,
    /// Any other key
    Other,
}

/// Modifier keys held with a key
#[derive(Debug, Clone, Copy, PartialEq, Eq, Structural)]
pub struct KeyModifiers {
    pub shift: bool,
    pub control: bool,
    pub alt: bool,
}

/// A key pressed with its modifiers
#[derive(Debug, Clone, Copy, PartialEq, Eq, Structural)]
pub struct KeyPress {
    pub key: Key,
    pub modifiers: KeyModifiers,
}

/// What the terminal reports
#[derive(Debug, Clone, Copy, PartialEq, Eq, Structural)]
pub enum RawEvent {
    Key(KeyPress),
    Resize(u16, u16),
    /// Mouse and other reports
    Other,
}

/// Whether `c` has the Unicode Uppercase property (`char::is_uppercase`)
pub uninterp spec fn uppercase(c: char) -> bool;

/// `char::is_uppercase`: whether `c` has the Unicode Uppercase property, named `uppercase`.
#[verifier::external_body]
fn is_uppercase(c: char) -> (r: bool)
    ensures
        r == uppercase(c),
{
    c.is_uppercase()
}

/// No modifier held
pub open spec fn no_modifiers() -> KeyModifiers {
    KeyModifiers { shift: false, control: false, alt: false }
}

/// A key with no modifier
pub open spec fn plain(key: Key) -> KeyPress {
    KeyPress { key, modifiers: no_modifiers() }
}

/// A character key with one modifier: `1` control, `2` alt
pub open spec fn with_modifier(c: char, modifier: int) -> KeyPress {
    KeyPress {
        key: Key::Char(c),
        modifiers: KeyModifiers { shift: false, control: modifier == 1, alt: modifier == 2 },
    }
}

/// The key press that types `c`: new line and tab are their own keys, upper case letters
/// come with shift
pub open spec fn char_key(c: char) -> KeyPress {
    if c == '\n' {
        plain(Key::Enter)
    } else if c == '\t' {
        plain(Key::Tab)
    } else {
        KeyPress { key: Key::Char(c), modifiers: KeyModifiers { shift: uppercase(c), control: false, alt: false } }
    }
}

/// Bindings of characters as bindings of the key presses that type them
pub open spec fn raw_of(s: Seq<(char, Event)>) -> Seq<(KeyPress, Event)> {
    s.map_values(|b: (char, Event)| (char_key(b.0), b.1))
}

/// Bindings of keys that are not characters, and of control and alt combinations
pub open spec fn meta_keys() -> Seq<(KeyPress, Event)> {
    seq![
        (plain(Key::Esc), Event::Cancel),
        (plain(Key::Left), Event::ArrowLeft),
        (plain(Key::Right), Event::ArrowRight),
        (plain(Key::Up), Event::ArrowUp),
        (plain(Key::Down), Event::ArrowDown),
        (plain(Key::Delete), Event::Delete),
        (plain(Key::Backspace), Event::Backspace),
        (with_modifier('h', 1), Event::Left(MoveMeta::Alternative)),
        (with_modifier('j', 1), Event::Right(MoveMeta::Alternative)),
        (with_modifier('k', 1), Event::Up(MoveMeta::Alternative)),
        (with_modifier('l', 1), Event::Down(MoveMeta::Alternative)),
        (with_modifier('z', 2), Event::PickColor(ColorMode::Fg)),
        (with_modifier('x', 2), Event::PickColor(ColorMode::Bg)),
        (plain(Key::BackTab), Event::SelectObject(Which::Next, true)),
        (with_modifier('a', 1), Event::SelectObject(Which::All, false)),
    ]
}

/// The map of a list of key press bindings: a later binding replaces an earlier one
pub open spec fn press_map(s: Seq<(KeyPress, Event)>) -> Map<KeyPress, Event>
    decreases s.len(),
{
    if s.len() == 0 {
        Map::empty()
    } else {
        press_map(s.drop_last()).insert(s.last().0, s.last().1)
    }
}

/// Key press bindings in the order they were made
pub struct RawMap(pub Vec<(KeyPress, Event)>);

impl View for RawMap {
    type V = Map<KeyPress, Event>;

    open spec fn view(&self) -> Map<KeyPress, Event> {
        press_map(self.0@)
    }
}

proof fn lemma_press_map(s: Seq<(KeyPress, Event)>, i: int, k: KeyPress)
    requires
        0 <= i < s.len(),
        s[i].0 == k,
        forall|j: int| i < j < s.len() ==> (#[trigger] s[j]).0 != k,
    ensures
        press_map(s).contains_key(k),
        press_map(s)[k] == s[i].1,
    decreases s.len(),
{
    if i < s.len() - 1 {
        let d = s.drop_last();
        assert forall|j: int| i < j < d.len() implies (#[trigger] d[j]).0 != k by {
            assert(d[j] == s[j]);
        }
        lemma_press_map(d, i, k);
    }
}

proof fn lemma_press_unbound(s: Seq<(KeyPress, Event)>, k: KeyPress)
    requires
        forall|j: int| 0 <= j < s.len() ==> (#[trigger] s[j]).0 != k,
    ensures
        !press_map(s).contains_key(k),
    decreases s.len(),
{
    if s.len() > 0 {
        let d = s.drop_last();
        assert forall|j: int| 0 <= j < d.len() implies (#[trigger] d[j]).0 != k by {
            assert(d[j] == s[j]);
        }
        lemma_press_unbound(d, k);
    }
}

impl RawMap {
    /// The event bound to `k`
    pub fn get(&self, k: KeyPress) -> (r: Option<Event>)
        ensures
            r == (if self@.contains_key(k) {
                Some(self@[k])
            } else {
                None
            }),
    {
        let mut i: usize = self.0.len();
        while i > 0
            invariant
                i <= self.0@.len(),
                forall|j: int| i <= j < self.0@.len() ==> (#[trigger] self.0@[j]).0 != k,
            decreases i,
        {
            i = i - 1;
            if self.0[i].0 == k {
                proof {
                    lemma_press_map(self.0@, i as int, k);
                }
                return Some(self.0[i].1);
            }
        }
        proof {
            lemma_press_unbound(self.0@, k);
        }
        None
    }

    /// Binds `k` to `e`, replacing its earlier binding
    pub fn insert(&mut self, k: KeyPress, e: Event)
        ensures
            final(self).0@ == old(self).0@.push((k, e)),
            final(self)@ == old(self)@.insert(k, e),
    {
        self.0.push((k, e));
        assert(self.0@.drop_last() =~= old(self).0@);
    }

    /// A copy of the bindings
    pub fn duplicate(&self) -> (r: RawMap)
        ensures
            r.0@ == self.0@,
    {
        let mut v: Vec<(KeyPress, Event)> = Vec::new();
        let mut i: usize = 0;
        while i < self.0.len()
            invariant
                i <= self.0@.len(),
                v@ == self.0@.take(i as int),
            decreases self.0@.len() - i,
        {
            v.push(self.0[i]);
            assert(self.0@.take(i + 1) =~= self.0@.take(i as int).push(self.0@[i as int]));
            i = i + 1;
        }
        assert(self.0@.take(self.0@.len() as int) =~= self.0@);
        RawMap(v)
    }
}

/// The key press that types `c`
pub fn char_to_key(c: char) -> (r: KeyPress)
    ensures
        r == char_key(c),
{
    let none = KeyModifiers { shift: false, control: false, alt: false };
    if c == '\n' {
        KeyPress { key: Key::Enter, modifiers: none }
    } else if c == '\t' {
        KeyPress { key: Key::Tab, modifiers: none }
    } else {
        KeyPress { key: Key::Char(c), modifiers: KeyModifiers { shift: is_uppercase(c), control: false, alt: false } }
    }
}

/// Adds the bindings of `cm`, in order, as bindings of the key presses typing the characters
pub fn char_map_to_raw_map(cm: &CharMap, raw_map: &mut RawMap)
    ensures
        final(raw_map).0@ == old(raw_map).0@ + raw_of(cm.0@),
{
    let ghost start = raw_map.0@;
    let mut i: usize = 0;
    while i < cm.0.len()
        invariant
            i <= cm.0@.len(),
            raw_map.0@ == start + raw_of(cm.0@.take(i as int)),
        decreases cm.0@.len() - i,
    {
        let (c, v) = cm.0[i];
        let key = char_to_key(c);
        raw_map.insert(key, v);
        assert(raw_of(cm.0@.take(i + 1)) =~= raw_of(cm.0@.take(i as int)).push((char_key(c), v)));
        assert(raw_map.0@ =~= start + raw_of(cm.0@.take(i + 1)));
        i = i + 1;
    }
    assert(cm.0@.take(cm.0@.len() as int) =~= cm.0@);
}

proof fn lemma_meta_binding(s: Seq<(char, Event)>, m: int, k: KeyPress)
    requires
        0 <= m < meta_keys().len(),
        meta_keys()[m].0 == k,
        forall|q: int| m < q < meta_keys().len() ==> (#[trigger] meta_keys()[q]).0 != k,
    ensures
        press_map(raw_of(s) + meta_keys()).contains_key(k),
        press_map(raw_of(s) + meta_keys())[k] == meta_keys()[m].1,
{
    let all = raw_of(s) + meta_keys();
    let n = raw_of(s).len();
    assert forall|j: int| n + m < j < all.len() implies (#[trigger] all[j]).0 != k by {
        assert(all[j] == meta_keys()[j - n]);
    }
    assert(all[n + m] == meta_keys()[m]);
    lemma_press_map(all, n + m, k);
}

/// Under the default bindings, whatever the character bindings are, each plain arrow key
/// gives the arrow event of its own direction (left gives `ArrowLeft`, right `ArrowRight`,
/// up `ArrowUp`, down `ArrowDown`), escape gives `Cancel`, delete and backspace give
/// `Delete` and `Backspace`; none of them types a character.
pub proof fn default_map_special_keys(s: Seq<(char, Event)>)
    ensures
        mapped_input(RawEvent::Key(plain(Key::Left)), press_map(raw_of(s) + meta_keys())) == (
        Event::ArrowLeft, None::<char>),
        mapped_input(RawEvent::Key(plain(Key::Right)), press_map(raw_of(s) + meta_keys())) == (
        Event::ArrowRight, None::<char>),
        mapped_input(RawEvent::Key(plain(Key::Up)), press_map(raw_of(s) + meta_keys())) == (
        Event::ArrowUp, None::<char>),
        mapped_input(RawEvent::Key(plain(Key::Down)), press_map(raw_of(s) + meta_keys())) == (
        Event::ArrowDown, None::<char>),
        mapped_input(RawEvent::Key(plain(Key::Esc)), press_map(raw_of(s) + meta_keys())) == (
        Event::Cancel, None::<char>),
        mapped_input(RawEvent::Key(plain(Key::Delete)), press_map(raw_of(s) + meta_keys())) == (
        Event::Delete, None::<char>),
        mapped_input(RawEvent::Key(plain(Key::Backspace)), press_map(raw_of(s) + meta_keys())) == (
        Event::Backspace, None::<char>),
{
    lemma_meta_binding(s, 0, plain(Key::Esc));
    lemma_meta_binding(s, 1, plain(Key::Left));
    lemma_meta_binding(s, 2, plain(Key::Right));
    lemma_meta_binding(s, 3, plain(Key::Up));
    lemma_meta_binding(s, 4, plain(Key::Down));
    lemma_meta_binding(s, 5, plain(Key::Delete));
    lemma_meta_binding(s, 6, plain(Key::Backspace));
}

fn modified(c: char, control: bool, alt: bool) -> (r: KeyPress)
    ensures
        r == (KeyPress { key: Key::Char(c), modifiers: KeyModifiers { shift: false, control, alt } }),
{
    KeyPress { key: Key::Char(c), modifiers: KeyModifiers { shift: false, control, alt } }
}

fn plain_key(key: Key) -> (r: KeyPress)
    ensures
        r == plain(key),
{
    KeyPress { key, modifiers: KeyModifiers { shift: false, control: false, alt: false } }
}

/// The bindings common to all modes: those of `cm`, then the keys that are not characters
/// (escape cancels, arrows, delete and backspace) and the control and alt combinations
pub fn default_map(cm: &CharMap) -> (r: RawMap)
    ensures
        r.0@ == raw_of(cm.0@) + meta_keys(),
        mapped_input(RawEvent::Key(plain(Key::Left)), r@) == (Event::ArrowLeft, None::<char>),
        mapped_input(RawEvent::Key(plain(Key::Right)), r@) == (Event::ArrowRight, None::<char>),
        mapped_input(RawEvent::Key(plain(Key::Up)), r@) == (Event::ArrowUp, None::<char>),
        mapped_input(RawEvent::Key(plain(Key::Down)), r@) == (Event::ArrowDown, None::<char>),
{
    let mut result = RawMap(Vec::new());
    char_map_to_raw_map(cm, &mut result);
    let ghost base = result.0@;
    result.insert(plain_key(Key::Esc), Event::Cancel);
    result.insert(plain_key(Key::Left), Event::ArrowLeft);
    result.insert(plain_key(Key::Right), Event::ArrowRight);
    result.insert(plain_key(Key::Up), Event::ArrowUp);
    result.insert(plain_key(Key::Down), Event::ArrowDown);
    result.insert(plain_key(Key::Delete), Event::Delete);
    result.insert(plain_key(Key::Backspace), Event::Backspace);
    result.insert(modified('h', true, false), Event::Left(MoveMeta::Alternative));
    result.insert(modified('j', true, false), Event::Right(MoveMeta::Alternative));
    result.insert(modified('k', true, false), Event::Up(MoveMeta::Alternative));
    result.insert(modified('l', true, false), Event::Down(MoveMeta::Alternative));
    result.insert(modified('z', false, true), Event::PickColor(ColorMode::Fg));
    result.insert(modified('x', false, true), Event::PickColor(ColorMode::Bg));
    result.insert(plain_key(Key::BackTab), Event::SelectObject(Which::Next, true));
    result.insert(modified('a', true, false), Event::SelectObject(Which::All, false));
    assert(result.0@ =~= base + meta_keys());
    proof {
        default_map_special_keys(cm.0@);
    }
    result
}

/// The event of a terminal report under `map`, with the character typed if it was one:
/// unbound keys give no event, a resize gives `Resize`
pub open spec fn mapped_input(raw_event: RawEvent, map: Map<KeyPress, Event>) -> InputEvent {
    match raw_event {
        RawEvent::Key(k) => (
            if map.contains_key(k) {
                map[k]
            } else {
                Event::Noop
            },
            match k.key {
                Key::Char(c) => Some(c),
                _ => None,
            },
        ),
        RawEvent::Resize(_, _) => (Event::Resize, None),
        RawEvent::Other => (Event::Noop, None),
    }
}

/// The event of a terminal report under `map`
pub fn map_input(raw_event: RawEvent, map: &RawMap) -> (r: InputEvent)
    ensures
        r == mapped_input(raw_event, map@),
{
    match raw_event {
        RawEvent::Key(k) => {
            let mapped = match map.get(k) {
                Some(e) => e,
                None => Event::Noop,
            };
            match k.key {
                Key::Char(c) => (mapped, Some(c)),
                _ => (mapped, None),
            }
        },
        RawEvent::Resize(_, _) => (Event::Resize, None),
        RawEvent::Other => (Event::Noop, None),
    }
}

/// Key bindings of each mode kind, indexed by `Mode::index`
pub struct InputSource {
    mode_maps: Vec<RawMap>,
}

impl InputSource {
    /// The bindings of each mode kind, in order
    pub closed spec fn maps(&self) -> Seq<Seq<(KeyPress, Event)>> {
        self.mode_maps@.map_values(|m: RawMap| m.0@)
    }

    /// The bindings of each mode kind: the common ones, then the mode's own
    pub fn from_char_maps(cm: ModesCharMap) -> (r: Self)
        requires
            cm.spec_overrides().len() == MODE_COUNT,
        ensures
            r.maps().len() == MODE_COUNT,
            forall|i: int|
                0 <= i < MODE_COUNT ==> #[trigger] r.maps()[i] == raw_of(cm.spec_all_modes()) + meta_keys() + raw_of(
                    cm.spec_overrides()[i],
                ),
    {
        let defaults = default_map(cm.all_modes());
        let overrides = cm.overrides();
        let mut maps: Vec<RawMap> = Vec::new();
        let mut i: usize = 0;
        while i < overrides.len()
            invariant
                i <= overrides@.len(),
                overrides@.len() == MODE_COUNT,
                forall|j: int| 0 <= j < overrides@.len() ==> (#[trigger] overrides@[j]).0@ == cm.spec_overrides()[j],
                defaults.0@ == raw_of(cm.spec_all_modes()) + meta_keys(),
                maps@.len() == i,
                forall|j: int| 0 <= j < i ==> (#[trigger] maps@[j]).0@ == defaults.0@ + raw_of(cm.spec_overrides()[j]),
            decreases overrides@.len() - i,
        {
            let mut mode_map = defaults.duplicate();
            char_map_to_raw_map(&overrides[i], &mut mode_map);
            maps.push(mode_map);
            i = i + 1;
        }
        let r = InputSource { mode_maps: maps };
        assert forall|i: int| 0 <= i < MODE_COUNT implies #[trigger] r.maps()[i] == raw_of(cm.spec_all_modes())
            + meta_keys() + raw_of(cm.spec_overrides()[i]) by {
            assert(r.maps()[i] == maps@[i].0@);
        }
        r
    }

    /// The event of a terminal report in mode `mode`
    pub fn map_event(&self, mode: Mode, raw_event: RawEvent) -> (r: InputEvent)
        requires
            self.maps().len() == MODE_COUNT,
        ensures
            r == mapped_input(raw_event, press_map(self.maps()[mode.spec_index() as int])),
    {
        let i = mode.index();
        assert(self.maps()[i as int] == self.mode_maps@[i as int].0@);
        map_input(raw_event, &self.mode_maps[i])
    }
}

} // verus!
verus! {

proof fn lemma_char_key_injective(a: char, b: char)
    requires
        a != b,
    ensures
        char_key(a) != char_key(b),
{
}

proof fn lemma_raw_step(s: Seq<(char, Event)>)
    requires
        s.len() > 0,
    ensures
        raw_of(s).drop_last() == raw_of(s.drop_last()),
        raw_of(s).last() == (char_key(s.last().0), s.last().1),
{
    assert(raw_of(s).drop_last() =~= raw_of(s.drop_last()));
}

proof fn lemma_char_bound(s: Seq<(char, Event)>, c: char)
    requires
        crate::common::entries_map(s).contains_key(c),
    ensures
        press_map(raw_of(s)).contains_key(char_key(c)),
        press_map(raw_of(s))[char_key(c)] == crate::common::entries_map(s)[c],
    decreases s.len(),
{
    let d = s.drop_last();
    lemma_raw_step(s);
    if s.last().0 != c {
        lemma_char_key_injective(s.last().0, c);
        lemma_char_bound(d, c);
    }
}

proof fn lemma_press_map_append(a: Seq<(KeyPress, Event)>, b: Seq<(KeyPress, Event)>, k: KeyPress)
    requires
        !press_map(b).contains_key(k),
    ensures
        press_map(a + b).contains_key(k) == press_map(a).contains_key(k),
        press_map(a + b)[k] == press_map(a)[k],
    decreases b.len(),
{
    if b.len() == 0 {
        assert(a + b =~= a);
    } else {
        assert((a + b).drop_last() =~= a + b.drop_last());
        lemma_press_map_append(a, b.drop_last(), k);
    }
}

/// A character bound in the character map gives its event when its key is pressed: the
/// keys that are not characters, and the control and alt combinations, never hide it
pub proof fn char_bindings_reach_keys(s: Seq<(char, Event)>, c: char)
    requires
        crate::common::entries_map(s).contains_key(c),
    ensures
        press_map(raw_of(s) + meta_keys()).contains_key(char_key(c)),
        press_map(raw_of(s) + meta_keys())[char_key(c)] == crate::common::entries_map(s)[c],
{
    assert(!press_map(meta_keys()).contains_key(char_key(c))) by {
        reveal_with_fuel(press_map, 16);
    }
    lemma_press_map_append(raw_of(s), meta_keys(), char_key(c));
    lemma_char_bound(s, c);
}

} // verus!
