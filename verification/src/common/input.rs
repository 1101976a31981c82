use crate::common::{ClipboardOp, Mode, SelectMode, MODE_COUNT};
use crate::texel_types::{ColorMode, Position2D, SymbolStyle, Which};
use vstd::prelude::*;

verus! {

/// How a movement key moves
#[derive(Debug, Clone, Copy, PartialEq, Eq, Structural)]
pub enum MoveMeta {
    Relative,
    ToEdge,
    Alternative,
}

impl MoveMeta {
    pub fn default_meta() -> (r: Self)
        ensures
            r == MoveMeta::Relative,
    {
        MoveMeta::Relative
    }
}

/// Input event after key mapping
#[derive(Debug, Clone, Copy, PartialEq, Eq, Structural)]
pub enum Event {
    Noop,
    Cancel,
    Confirm,
    Left(MoveMeta),
    Up(MoveMeta),
    Right(MoveMeta),
    Down(MoveMeta),
    Above,
    Below,
    Undo,
    Redo,
    Mode(Mode),
    ApplyStyle(SymbolStyle),
    /// index of symbol/color/bookmark, 0x0 to 0xF
    SelectPalette(usize),
    /// index of symbol/color/bookmark, 0x0 to 0xF
    EditPalette(usize),
    ApplyColor(ColorMode),
    /// pick color from existing texel
    PickColor(ColorMode),
    /// swap background and foreground color
    SwapColor,
    /// object selection, sticky flag keeps the current selection
    SelectObject(Which<Position2D>, bool),
    SelectRegion,
    SelectFrame(Which<usize>),
    Clipboard(ClipboardOp),
    ToggleMetadata,
    NewFrame,
    DeleteFrame,
    NewObject,
    /// duplicate count
    Duplicate(usize),
    Deselect,
    Delete,
    Backspace,
    ArrowUp,
    ArrowDown,
    ArrowLeft,
    ArrowRight,
    Resize,
}

impl Event {
    pub fn default_event() -> (r: Self)
        ensures
            r == Event::Noop,
    {
        Event::Noop
    }
}

/// Key bindings in the order they were made: a later binding of a key replaces an earlier
/// one
pub struct CharMap(pub Vec<(char, Event)>);

/// The map of a list of key bindings: a later binding of a key replaces an earlier one
pub open spec fn entries_map(s: Seq<(char, Event)>) -> Map<char, Event>
    decreases s.len(),
{
    if s.len() == 0 {
        Map::empty()
    } else {
        entries_map(s.drop_last()).insert(s.last().0, s.last().1)
    }
}

/// Whether some key is mapped to `e`
pub open spec fn has_value(m: Map<char, Event>, e: Event) -> bool {
    exists|k: char| m.contains_key(k) && m[k] == e
}

/// Bindings that enter the command and write modes
pub open spec fn mode_keys() -> Seq<(char, Event)> {
    seq![
        (':', Event::Mode(Mode::Command)),
        ('i', Event::Mode(Mode::Write)),
    ]
}

/// Bindings that edit palette entries 0 to 15
pub open spec fn edit_palette_keys() -> Seq<(char, Event)> {
    seq![
        ('!', Event::EditPalette(0)),
        ('@', Event::EditPalette(1)),
        ('#', Event::EditPalette(2)),
        ('$', Event::EditPalette(3)),
        ('%', Event::EditPalette(4)),
        ('^', Event::EditPalette(5)),
        ('&', Event::EditPalette(6)),
        ('*', Event::EditPalette(7)),
        ('(', Event::EditPalette(8)),
        (')', Event::EditPalette(9)),
        ('A', Event::EditPalette(10)),
        ('B', Event::EditPalette(11)),
        ('C', Event::EditPalette(12)),
        ('D', Event::EditPalette(13)),
        ('E', Event::EditPalette(14)),
        ('F', Event::EditPalette(15)),
    ]
}

/// Bindings that select palette entries 0 to 15
pub open spec fn select_palette_keys() -> Seq<(char, Event)> {
    seq![
        ('1', Event::SelectPalette(0)),
        ('2', Event::SelectPalette(1)),
        ('3', Event::SelectPalette(2)),
        ('4', Event::SelectPalette(3)),
        ('5', Event::SelectPalette(4)),
        ('6', Event::SelectPalette(5)),
        ('7', Event::SelectPalette(6)),
        ('8', Event::SelectPalette(7)),
        ('9', Event::SelectPalette(8)),
        ('0', Event::SelectPalette(9)),
        ('a', Event::SelectPalette(10)),
        ('b', Event::SelectPalette(11)),
        ('c', Event::SelectPalette(12)),
        ('d', Event::SelectPalette(13)),
        ('e', Event::SelectPalette(14)),
        ('f', Event::SelectPalette(15)),
    ]
}

/// Bindings for colors and styles
pub open spec fn color_style_keys() -> Seq<(char, Event)> {
    seq![
        ('Z', Event::Mode(Mode::Color(ColorMode::Fg))),
        ('X', Event::Mode(Mode::Color(ColorMode::Bg))),
        ('z', Event::ApplyColor(ColorMode::Fg)),
        ('x', Event::ApplyColor(ColorMode::Bg)),
        ('s', Event::SwapColor),
        ('q', Event::ApplyStyle(SymbolStyle::Bold)),
        ('Q', Event::ApplyStyle(SymbolStyle::Italic)),
        ('w', Event::ApplyStyle(SymbolStyle::Underline)),
    ]
}

/// Bindings that move the cursor or the selection
pub open spec fn move_keys() -> Seq<(char, Event)> {
    seq![
        ('h', Event::Left(MoveMeta::Relative)),
        ('j', Event::Down(MoveMeta::Relative)),
        ('k', Event::Up(MoveMeta::Relative)),
        ('l', Event::Right(MoveMeta::Relative)),
        ('H', Event::Left(MoveMeta::ToEdge)),
        ('J', Event::Down(MoveMeta::ToEdge)),
        ('K', Event::Up(MoveMeta::ToEdge)),
        ('L', Event::Right(MoveMeta::ToEdge)),
        ('-', Event::Above),
        ('=', Event::Below),
    ]
}

/// Bindings for frames, history, clipboard and objects
pub open spec fn object_keys() -> Seq<(char, Event)> {
    seq![
        (']', Event::SelectFrame(Which::Next)),
        ('[', Event::SelectFrame(Which::Previous)),
        ('}', Event::NewFrame),
        ('{', Event::DeleteFrame),
        ('u', Event::Undo),
        ('U', Event::Redo),
        ('y', Event::Clipboard(ClipboardOp::Copy)),
        ('Y', Event::Clipboard(ClipboardOp::Cut)),
        ('p', Event::Clipboard(ClipboardOp::Paste)),
        ('m', Event::ToggleMetadata),
        ('n', Event::NewObject),
        ('t', Event::Duplicate(1)),
        ('\n', Event::Confirm),
        ('\t', Event::SelectObject(Which::Next, false)),
        ('v', Event::SelectRegion),
    ]
}

/// The default key bindings, in the order they are made
pub open spec fn default_entries() -> Seq<(char, Event)> {
    mode_keys() + edit_palette_keys() + select_palette_keys() + color_style_keys() + move_keys() + object_keys()
}

impl View for CharMap {
    type V = Map<char, Event>;

    open spec fn view(&self) -> Map<char, Event> {
        entries_map(self.0@)
    }
}

/// The map binds exactly the listed keys, each to the event of one of its bindings, the
/// last one
proof fn lemma_entries_map(s: Seq<(char, Event)>)
    ensures
        forall|j: int| 0 <= j < s.len() ==> entries_map(s).contains_key(#[trigger] s[j].0),
        forall|c: char|
            #[trigger] entries_map(s).contains_key(c) ==> exists|j: int|
                0 <= j < s.len() && (#[trigger] s[j]).0 == c && s[j].1 == entries_map(s)[c],
        entries_map(s).dom().finite(),
    decreases s.len(),
{
    if s.len() > 0 {
        let d = s.drop_last();
        lemma_entries_map(d);
        assert forall|j: int| 0 <= j < s.len() implies entries_map(s).contains_key(#[trigger] s[j].0) by {
            if j < s.len() - 1 {
                assert(s[j] == d[j]);
            }
        }
        assert forall|c: char| #[trigger] entries_map(s).contains_key(c) implies exists|j: int|
            0 <= j < s.len() && (#[trigger] s[j]).0 == c && s[j].1 == entries_map(s)[c] by {
            if c == s.last().0 {
                assert(s[s.len() - 1].0 == c);
            } else {
                let j = choose|j: int| 0 <= j < d.len() && (#[trigger] d[j]).0 == c && d[j].1 == entries_map(d)[c];
                assert(s[j] == d[j]);
            }
        }
    }
}

/// Lookup from the last binding back: the first binding of `c` met is the one in force
proof fn lemma_last_binding(s: Seq<(char, Event)>, i: int, c: char)
    requires
        0 <= i < s.len(),
        s[i].0 == c,
        forall|j: int| i < j < s.len() ==> (#[trigger] s[j]).0 != c,
    ensures
        entries_map(s).contains_key(c),
        entries_map(s)[c] == s[i].1,
    decreases s.len(),
{
    if i < s.len() - 1 {
        let d = s.drop_last();
        assert forall|j: int| i < j < d.len() implies (#[trigger] d[j]).0 != c by {
            assert(d[j] == s[j]);
        }
        lemma_last_binding(d, i, c);
    }
}

/// No binding of `c` means no entry for it
proof fn lemma_unbound(s: Seq<(char, Event)>, c: char)
    requires
        forall|j: int| 0 <= j < s.len() ==> (#[trigger] s[j]).0 != c,
    ensures
        !entries_map(s).contains_key(c),
{
    lemma_entries_map(s);
}

/// Appends the bindings that enter the command and write modes
fn push_mode_keys(v: &mut Vec<(char, Event)>)
    ensures
        final(v)@ == old(v)@ + mode_keys(),
{
    v.push((':', Event::Mode(Mode::Command)));
    v.push(('i', Event::Mode(Mode::Write)));
    assert(v@ =~= old(v)@ + mode_keys());
}

/// Appends the bindings that edit palette entries 0 to 15
fn push_edit_palette_keys(v: &mut Vec<(char, Event)>)
    ensures
        final(v)@ == old(v)@ + edit_palette_keys(),
{
    v.push(('!', Event::EditPalette(0)));
    v.push(('@', Event::EditPalette(1)));
    v.push(('#', Event::EditPalette(2)));
    v.push(('$', Event::EditPalette(3)));
    v.push(('%', Event::EditPalette(4)));
    v.push(('^', Event::EditPalette(5)));
    v.push(('&', Event::EditPalette(6)));
    v.push(('*', Event::EditPalette(7)));
    v.push(('(', Event::EditPalette(8)));
    v.push((')', Event::EditPalette(9)));
    v.push(('A', Event::EditPalette(10)));
    v.push(('B', Event::EditPalette(11)));
    v.push(('C', Event::EditPalette(12)));
    v.push(('D', Event::EditPalette(13)));
    v.push(('E', Event::EditPalette(14)));
    v.push(('F', Event::EditPalette(15)));
    assert(v@ =~= old(v)@ + edit_palette_keys());
}

/// Appends the bindings that select palette entries 0 to 15
fn push_select_palette_keys(v: &mut Vec<(char, Event)>)
    ensures
        final(v)@ == old(v)@ + select_palette_keys(),
{
    v.push(('1', Event::SelectPalette(0)));
    v.push(('2', Event::SelectPalette(1)));
    v.push(('3', Event::SelectPalette(2)));
    v.push(('4', Event::SelectPalette(3)));
    v.push(('5', Event::SelectPalette(4)));
    v.push(('6', Event::SelectPalette(5)));
    v.push(('7', Event::SelectPalette(6)));
    v.push(('8', Event::SelectPalette(7)));
    v.push(('9', Event::SelectPalette(8)));
    v.push(('0', Event::SelectPalette(9)));
    v.push(('a', Event::SelectPalette(10)));
    v.push(('b', Event::SelectPalette(11)));
    v.push(('c', Event::SelectPalette(12)));
    v.push(('d', Event::SelectPalette(13)));
    v.push(('e', Event::SelectPalette(14)));
    v.push(('f', Event::SelectPalette(15)));
    assert(v@ =~= old(v)@ + select_palette_keys());
}

/// Appends the bindings for colors and styles
fn push_color_style_keys(v: &mut Vec<(char, Event)>)
    ensures
        final(v)@ == old(v)@ + color_style_keys(),
{
    v.push(('Z', Event::Mode(Mode::Color(ColorMode::Fg))));
    v.push(('X', Event::Mode(Mode::Color(ColorMode::Bg))));
    v.push(('z', Event::ApplyColor(ColorMode::Fg)));
    v.push(('x', Event::ApplyColor(ColorMode::Bg)));
    v.push(('s', Event::SwapColor));
    v.push(('q', Event::ApplyStyle(SymbolStyle::Bold)));
    v.push(('Q', Event::ApplyStyle(SymbolStyle::Italic)));
    v.push(('w', Event::ApplyStyle(SymbolStyle::Underline)));
    assert(v@ =~= old(v)@ + color_style_keys());
}

/// Appends the bindings that move the cursor or the selection
fn push_move_keys(v: &mut Vec<(char, Event)>)
    ensures
        final(v)@ == old(v)@ + move_keys(),
{
    v.push(('h', Event::Left(MoveMeta::Relative)));
    v.push(('j', Event::Down(MoveMeta::Relative)));
    v.push(('k', Event::Up(MoveMeta::Relative)));
    v.push(('l', Event::Right(MoveMeta::Relative)));
    v.push(('H', Event::Left(MoveMeta::ToEdge)));
    v.push(('J', Event::Down(MoveMeta::ToEdge)));
    v.push(('K', Event::Up(MoveMeta::ToEdge)));
    v.push(('L', Event::Right(MoveMeta::ToEdge)));
    v.push(('-', Event::Above));
    v.push(('=', Event::Below));
    assert(v@ =~= old(v)@ + move_keys());
}

/// Appends the bindings for frames, history, clipboard and objects
fn push_object_keys(v: &mut Vec<(char, Event)>)
    ensures
        final(v)@ == old(v)@ + object_keys(),
{
    v.push((']', Event::SelectFrame(Which::Next)));
    v.push(('[', Event::SelectFrame(Which::Previous)));
    v.push(('}', Event::NewFrame));
    v.push(('{', Event::DeleteFrame));
    v.push(('u', Event::Undo));
    v.push(('U', Event::Redo));
    v.push(('y', Event::Clipboard(ClipboardOp::Copy)));
    v.push(('Y', Event::Clipboard(ClipboardOp::Cut)));
    v.push(('p', Event::Clipboard(ClipboardOp::Paste)));
    v.push(('m', Event::ToggleMetadata));
    v.push(('n', Event::NewObject));
    v.push(('t', Event::Duplicate(1)));
    v.push(('\n', Event::Confirm));
    v.push(('\t', Event::SelectObject(Which::Next, false)));
    v.push(('v', Event::SelectRegion));
    assert(v@ =~= old(v)@ + object_keys());
}

impl CharMap {
    /// An empty map
    pub fn new() -> (r: Self)
        ensures
            r@ == Map::<char, Event>::empty(),
            r.0@.len() == 0,
    {
        CharMap(Vec::new())
    }

    /// The event bound to `c`
    pub fn get(&self, c: char) -> (r: Option<Event>)
        ensures
            r == (if self@.contains_key(c) {
                Some(self@[c])
            } else {
                None
            }),
    {
        let mut i: usize = self.0.len();
        while i > 0
            invariant
                i <= self.0@.len(),
                forall|j: int| i <= j < self.0@.len() ==> (#[trigger] self.0@[j]).0 != c,
            decreases i,
        {
            i = i - 1;
            if self.0[i].0 == c {
                proof {
                    lemma_last_binding(self.0@, i as int, c);
                }
                return Some(self.0[i].1);
            }
        }
        proof {
            lemma_unbound(self.0@, c);
        }
        None
    }

    /// Whether some key is bound to `e`
    pub fn has_event(&self, e: Event) -> (r: bool)
        ensures
            r == has_value(self@, e),
    {
        let mut i: usize = 0;
        while i < self.0.len()
            invariant
                i <= self.0@.len(),
                forall|j: int|
                    0 <= j < i ==> (#[trigger] self.0@[j]).1 != e || !self@.contains_key(self.0@[j].0)
                        || self@[self.0@[j].0] != e,
            decreases self.0@.len() - i,
        {
            let (c, v) = self.0[i];
            if v == e && self.get(c) == Some(e) {
                return true;
            }
            i = i + 1;
        }
        proof {
            lemma_entries_map(self.0@);
            if has_value(self@, e) {
                let k = choose|k: char| self@.contains_key(k) && self@[k] == e;
                let j = choose|j: int| 0 <= j < self.0@.len() && (#[trigger] self.0@[j]).0 == k && self.0@[j].1 == self@[k];
                assert(self.0@[j].1 == e);
            }
        }
        false
    }

    /// A copy of the bindings
    pub fn duplicate(&self) -> (r: Self)
        ensures
            r.0@ == self.0@,
    {
        let mut v: Vec<(char, Event)> = Vec::new();
        let mut i: usize = 0;
        while i < self.0.len()
            invariant
                i <= self.0@.len(),
                v@ == self.0@.take(i as int),
            decreases self.0@.len() - i,
        {
            v.push(self.0[i]);
            assert(self.0@.take(i + 1) =~= self.0@.take(i as int).push(self.0@[i as int]));
            i = i + 1;
        }
        assert(self.0@.take(self.0@.len() as int) =~= self.0@);
        CharMap(v)
    }

    /// Binds `c` to `e`, replacing its earlier binding
    pub fn insert(&mut self, c: char, e: Event)
        ensures
            final(self)@ == old(self)@.insert(c, e),
            final(self).0@ == old(self).0@.push((c, e)),
    {
        self.0.push((c, e));
        assert(self.0@.drop_last() =~= old(self).0@);
    }

    /// The default key bindings: commands on their usual keys, palette entries on the
    /// digits and hex letters (edited with the shifted row and upper case letters)
    pub fn default_map() -> (r: Self)
        ensures
            r.0@ == default_entries(),
    {
        let mut v: Vec<(char, Event)> = Vec::new();
        push_mode_keys(&mut v);
        push_edit_palette_keys(&mut v);
        push_select_palette_keys(&mut v);
        push_color_style_keys(&mut v);
        push_move_keys(&mut v);
        push_object_keys(&mut v);
        assert(v@ =~= default_entries());
        CharMap(v)
    }
}

/// The default bindings of the mode kind with index `i`: in object mode `e` enters edit
/// mode, other kinds have none of their own
pub open spec fn default_override(i: int) -> Seq<(char, Event)> {
    if i == Mode::Object(SelectMode::Object).spec_index() {
        seq![('e', Event::Mode(Mode::Edit))]
    } else {
        Seq::empty()
    }
}

/// Bindings of each mode kind that take precedence over the common ones, indexed by
/// `Mode::index`
pub struct Overrides(pub Vec<CharMap>);

impl Overrides {
    /// One empty map per mode kind, except that in object mode `e` enters edit mode
    pub fn default_overrides() -> (r: Self)
        ensures
            r.0@.len() == MODE_COUNT,
            forall|i: int|
                0 <= i < MODE_COUNT ==> (#[trigger] r.0@[i]).0@ == default_override(i),
    {
        let mut maps: Vec<CharMap> = Vec::new();
        let count = Mode::count();
        let mode_index = Mode::Object(SelectMode::default_mode()).index();
        let mut i: usize = 0;
        while i < count
            invariant
                count == MODE_COUNT,
                mode_index == Mode::Object(SelectMode::Object).spec_index(),
                i <= count,
                maps@.len() == i,
                forall|j: int| 0 <= j < i ==> (#[trigger] maps@[j]).0@ == default_override(j),
            decreases count - i,
        {
            let mut m = CharMap::new();
            if i == mode_index {
                m.insert('e', Event::Mode(Mode::Edit));
            }
            assert(m.0@ =~= default_override(i as int));
            maps.push(m);
            i = i + 1;
        }
        Overrides(maps)
    }
}

/// The bindings after adding the default ones whose events have no key yet, in order
pub open spec fn filled(s: Seq<(char, Event)>, defaults: Seq<(char, Event)>) -> Seq<(char, Event)>
    decreases defaults.len(),
{
    if defaults.len() == 0 {
        s
    } else {
        let acc = filled(s, defaults.drop_last());
        if has_value(entries_map(acc), defaults.last().1) {
            acc
        } else {
            acc.push(defaults.last())
        }
    }
}

/// Key bindings common to all modes, and those of each mode kind
pub struct ModesCharMap {
    all_modes: CharMap,
    overrides: Overrides,
}

impl ModesCharMap {
    /// The bindings common to all modes
    pub closed spec fn spec_all_modes(&self) -> Seq<(char, Event)> {
        self.all_modes.0@
    }

    /// The bindings of each mode kind
    pub closed spec fn spec_overrides(&self) -> Seq<Seq<(char, Event)>> {
        self.overrides.0@.map_values(|m: CharMap| m.0@)
    }

    /// Common bindings from `char_map`, with the default ones of each mode kind
    pub fn from_char_map(char_map: CharMap) -> (r: Self)
        ensures
            r.spec_all_modes() == char_map.0@,
            r.spec_overrides().len() == MODE_COUNT,
            forall|i: int|
                0 <= i < MODE_COUNT ==> (#[trigger] r.spec_overrides()[i]) == default_override(i),
    {
        ModesCharMap { all_modes: char_map, overrides: Overrides::default_overrides() }
    }

    /// Common bindings and those of each mode kind
    pub fn from_parts(all_modes: CharMap, overrides: Overrides) -> (r: Self)
        ensures
            r.spec_all_modes() == all_modes.0@,
            r.spec_overrides() == overrides.0@.map_values(|m: CharMap| m.0@),
    {
        ModesCharMap { all_modes, overrides }
    }

    /// A copy of the bindings
    pub fn duplicate(&self) -> (r: Self)
        ensures
            r.spec_all_modes() == self.spec_all_modes(),
            r.spec_overrides() == self.spec_overrides(),
    {
        let mut maps: Vec<CharMap> = Vec::new();
        let mut i: usize = 0;
        while i < self.overrides.0.len()
            invariant
                i <= self.overrides.0@.len(),
                maps@.len() == i,
                forall|j: int| 0 <= j < i ==> (#[trigger] maps@[j]).0@ == self.overrides.0@[j].0@,
            decreases self.overrides.0@.len() - i,
        {
            maps.push(self.overrides.0[i].duplicate());
            i = i + 1;
        }
        let r = ModesCharMap { all_modes: self.all_modes.duplicate(), overrides: Overrides(maps) };
        assert(r.spec_overrides() =~= self.spec_overrides());
        r
    }

    /// The default bindings, common and of each mode kind
    pub fn default_modes() -> (r: Self)
        ensures
            r.spec_all_modes() == default_entries(),
            r.spec_overrides().len() == MODE_COUNT,
            forall|i: int|
                0 <= i < MODE_COUNT ==> (#[trigger] r.spec_overrides()[i]) == default_override(i),
    {
        ModesCharMap::from_char_map(CharMap::default_map())
    }

    /// The bindings common to all modes
    pub fn all_modes(&self) -> (r: &CharMap)
        ensures
            r.0@ == self.spec_all_modes(),
    {
        &self.all_modes
    }

    /// The bindings of each mode kind, indexed by `Mode::index`
    pub fn overrides(&self) -> (r: &Vec<CharMap>)
        ensures
            r@.len() == self.spec_overrides().len(),
            forall|i: int| 0 <= i < r@.len() ==> (#[trigger] r@[i]).0@ == self.spec_overrides()[i],
    {
        &self.overrides.0
    }

    /// Adds each default binding whose event has no key yet among the common bindings
    #[verifier::spinoff_prover]
    pub fn fill_defaults(&mut self)
        ensures
            final(self).spec_all_modes() == filled(old(self).spec_all_modes(), default_entries()),
            final(self).spec_overrides() == old(self).spec_overrides(),
    {
        let def_map = CharMap::default_map();
        let ghost start = self.all_modes.0@;
        let mut i: usize = 0;
        while i < def_map.0.len()
            invariant
                def_map.0@ == default_entries(),
                i <= def_map.0@.len(),
                self.all_modes.0@ == filled(start, default_entries().take(i as int)),
                self.overrides == old(self).overrides,
            decreases def_map.0@.len() - i,
        {
            let (k, e) = def_map.0[i];
            assert(default_entries().take(i + 1).drop_last() =~= default_entries().take(i as int));
            if !self.all_modes.has_event(e) {
                self.all_modes.insert(k, e);
            }
            i = i + 1;
        }
        assert(default_entries().take(def_map.0@.len() as int) =~= default_entries());
    }
}

/// Mapped event with the typed character, if any
pub type InputEvent = (Event, Option<char>);

/// Position of `c` among the keys of the default bindings; -1 for other characters
pub open spec fn default_key_rank(c: char) -> int {
    if c == ':' {
        0
    } else if c == 'i' {
        1
    } else if c == '!' {
        2
    } else if c == '@' {
        3
    } else if c == '#' {
        4
    } else if c == '$' {
        5
    } else if c == '%' {
        6
    } else if c == '^' {
        7
    } else if c == '&' {
        8
    } else if c == '*' {
        9
    } else if c == '(' {
        10
    } else if c == ')' {
        11
    } else if c == 'A' {
        12
    } else if c == 'B' {
        13
    } else if c == 'C' {
        14
    } else if c == 'D' {
        15
    } else if c == 'E' {
        16
    } else if c == 'F' {
        17
    } else if c == '1' {
        18
    } else if c == '2' {
        19
    } else if c == '3' {
        20
    } else if c == '4' {
        21
    } else if c == '5' {
        22
    } else if c == '6' {
        23
    } else if c == '7' {
        24
    } else if c == '8' {
        25
    } else if c == '9' {
        26
    } else if c == '0' {
        27
    } else if c == 'a' {
        28
    } else if c == 'b' {
        29
    } else if c == 'c' {
        30
    } else if c == 'd' {
        31
    } else if c == 'e' {
        32
    } else if c == 'f' {
        33
    } else if c == 'Z' {
        34
    } else if c == 'X' {
        35
    } else if c == 'z' {
        36
    } else if c == 'x' {
        37
    } else if c == 's' {
        38
    } else if c == 'q' {
        39
    } else if c == 'Q' {
        40
    } else if c == 'w' {
        41
    } else if c == 'h' {
        42
    } else if c == 'j' {
        43
    } else if c == 'k' {
        44
    } else if c == 'l' {
        45
    } else if c == 'H' {
        46
    } else if c == 'J' {
        47
    } else if c == 'K' {
        48
    } else if c == 'L' {
        49
    } else if c == '-' {
        50
    } else if c == '=' {
        51
    } else if c == ']' {
        52
    } else if c == '[' {
        53
    } else if c == '}' {
        54
    } else if c == '{' {
        55
    } else if c == 'u' {
        56
    } else if c == 'U' {
        57
    } else if c == 'y' {
        58
    } else if c == 'Y' {
        59
    } else if c == 'p' {
        60
    } else if c == 'm' {
        61
    } else if c == 'n' {
        62
    } else if c == 't' {
        63
    } else if c == '\n' {
        64
    } else if c == '\t' {
        65
    } else if c == 'v' {
        66
    } else {
        -1
    }
}

proof fn lemma_mode_keys_ranks()
    ensures
        mode_keys().len() == 2,
        forall|j: int| 0 <= j < 2 ==> default_key_rank((#[trigger] mode_keys()[j]).0) == 0 + j,
{
    let g = mode_keys();
    assert forall|j: int| 0 <= j < 2 implies default_key_rank((#[trigger] g[j]).0) == 0 + j by {
        if j == 0 {
            assert(g[0].0 == ':');
        } else if j == 1 {
            assert(g[1].0 == 'i');
        }
    }
}

proof fn lemma_edit_palette_keys_ranks()
    ensures
        edit_palette_keys().len() == 16,
        forall|j: int| 0 <= j < 16 ==> default_key_rank((#[trigger] edit_palette_keys()[j]).0) == 2 + j,
{
    let g = edit_palette_keys();
    assert forall|j: int| 0 <= j < 16 implies default_key_rank((#[trigger] g[j]).0) == 2 + j by {
        if j == 0 {
            assert(g[0].0 == '!');
        } else if j == 1 {
            assert(g[1].0 == '@');
        } else if j == 2 {
            assert(g[2].0 == '#');
        } else if j == 3 {
            assert(g[3].0 == '$');
        } else if j == 4 {
            assert(g[4].0 == '%');
        } else if j == 5 {
            assert(g[5].0 == '^');
        } else if j == 6 {
            assert(g[6].0 == '&');
        } else if j == 7 {
            assert(g[7].0 == '*');
        } else if j == 8 {
            assert(g[8].0 == '(');
        } else if j == 9 {
            assert(g[9].0 == ')');
        } else if j == 10 {
            assert(g[10].0 == 'A');
        } else if j == 11 {
            assert(g[11].0 == 'B');
        } else if j == 12 {
            assert(g[12].0 == 'C');
        } else if j == 13 {
            assert(g[13].0 == 'D');
        } else if j == 14 {
            assert(g[14].0 == 'E');
        } else if j == 15 {
            assert(g[15].0 == 'F');
        }
    }
}

proof fn lemma_select_palette_keys_ranks()
    ensures
        select_palette_keys().len() == 16,
        forall|j: int| 0 <= j < 16 ==> default_key_rank((#[trigger] select_palette_keys()[j]).0) == 18 + j,
{
    let g = select_palette_keys();
    assert forall|j: int| 0 <= j < 16 implies default_key_rank((#[trigger] g[j]).0) == 18 + j by {
        if j == 0 {
            assert(g[0].0 == '1');
        } else if j == 1 {
            assert(g[1].0 == '2');
        } else if j == 2 {
            assert(g[2].0 == '3');
        } else if j == 3 {
            assert(g[3].0 == '4');
        } else if j == 4 {
            assert(g[4].0 == '5');
        } else if j == 5 {
            assert(g[5].0 == '6');
        } else if j == 6 {
            assert(g[6].0 == '7');
        } else if j == 7 {
            assert(g[7].0 == '8');
        } else if j == 8 {
            assert(g[8].0 == '9');
        } else if j == 9 {
            assert(g[9].0 == '0');
        } else if j == 10 {
            assert(g[10].0 == 'a');
        } else if j == 11 {
            assert(g[11].0 == 'b');
        } else if j == 12 {
            assert(g[12].0 == 'c');
        } else if j == 13 {
            assert(g[13].0 == 'd');
        } else if j == 14 {
            assert(g[14].0 == 'e');
        } else if j == 15 {
            assert(g[15].0 == 'f');
        }
    }
}

proof fn lemma_color_style_keys_ranks()
    ensures
        color_style_keys().len() == 8,
        forall|j: int| 0 <= j < 8 ==> default_key_rank((#[trigger] color_style_keys()[j]).0) == 34 + j,
{
    let g = color_style_keys();
    assert forall|j: int| 0 <= j < 8 implies default_key_rank((#[trigger] g[j]).0) == 34 + j by {
        if j == 0 {
            assert(g[0].0 == 'Z');
        } else if j == 1 {
            assert(g[1].0 == 'X');
        } else if j == 2 {
            assert(g[2].0 == 'z');
        } else if j == 3 {
            assert(g[3].0 == 'x');
        } else if j == 4 {
            assert(g[4].0 == 's');
        } else if j == 5 {
            assert(g[5].0 == 'q');
        } else if j == 6 {
            assert(g[6].0 == 'Q');
        } else if j == 7 {
            assert(g[7].0 == 'w');
        }
    }
}

proof fn lemma_move_keys_ranks()
    ensures
        move_keys().len() == 10,
        forall|j: int| 0 <= j < 10 ==> default_key_rank((#[trigger] move_keys()[j]).0) == 42 + j,
{
    let g = move_keys();
    assert forall|j: int| 0 <= j < 10 implies default_key_rank((#[trigger] g[j]).0) == 42 + j by {
        if j == 0 {
            assert(g[0].0 == 'h');
        } else if j == 1 {
            assert(g[1].0 == 'j');
        } else if j == 2 {
            assert(g[2].0 == 'k');
        } else if j == 3 {
            assert(g[3].0 == 'l');
        } else if j == 4 {
            assert(g[4].0 == 'H');
        } else if j == 5 {
            assert(g[5].0 == 'J');
        } else if j == 6 {
            assert(g[6].0 == 'K');
        } else if j == 7 {
            assert(g[7].0 == 'L');
        } else if j == 8 {
            assert(g[8].0 == '-');
        } else if j == 9 {
            assert(g[9].0 == '=');
        }
    }
}

proof fn lemma_object_keys_ranks()
    ensures
        object_keys().len() == 15,
        forall|j: int| 0 <= j < 15 ==> default_key_rank((#[trigger] object_keys()[j]).0) == 52 + j,
{
    let g = object_keys();
    assert forall|j: int| 0 <= j < 15 implies default_key_rank((#[trigger] g[j]).0) == 52 + j by {
        if j == 0 {
            assert(g[0].0 == ']');
        } else if j == 1 {
            assert(g[1].0 == '[');
        } else if j == 2 {
            assert(g[2].0 == '}');
        } else if j == 3 {
            assert(g[3].0 == '{');
        } else if j == 4 {
            assert(g[4].0 == 'u');
        } else if j == 5 {
            assert(g[5].0 == 'U');
        } else if j == 6 {
            assert(g[6].0 == 'y');
        } else if j == 7 {
            assert(g[7].0 == 'Y');
        } else if j == 8 {
            assert(g[8].0 == 'p');
        } else if j == 9 {
            assert(g[9].0 == 'm');
        } else if j == 10 {
            assert(g[10].0 == 'n');
        } else if j == 11 {
            assert(g[11].0 == 't');
        } else if j == 12 {
            assert(g[12].0 == '\n');
        } else if j == 13 {
            assert(g[13].0 == '\t');
        } else if j == 14 {
            assert(g[14].0 == 'v');
        }
    }
}


/// No two default bindings share a key
proof fn lemma_default_keys_distinct()
    ensures
        default_entries().len() == 67,
        forall|i: int, j: int|
            0 <= i < j < default_entries().len() ==> (#[trigger] default_entries()[i]).0 != (#[trigger] default_entries()[j]).0,
        forall|j: int| 0 <= j < default_entries().len() ==> default_key_rank((#[trigger] default_entries()[j]).0) == j,
{
    lemma_mode_keys_ranks();
    lemma_edit_palette_keys_ranks();
    lemma_select_palette_keys_ranks();
    lemma_color_style_keys_ranks();
    lemma_move_keys_ranks();
    lemma_object_keys_ranks();
    let a = mode_keys();
    let b = a + edit_palette_keys();
    let c = b + select_palette_keys();
    let d = c + color_style_keys();
    let e = d + move_keys();
    let f = e + object_keys();
    assert(f == default_entries());
    assert forall|j: int| 0 <= j < f.len() implies default_key_rank((#[trigger] f[j]).0) == j by {
        if j < e.len() {
            assert(f[j] == e[j]);
            if j < d.len() {
                assert(e[j] == d[j]);
                if j < c.len() {
                    assert(d[j] == c[j]);
                    if j < b.len() {
                        assert(c[j] == b[j]);
                        if j < a.len() {
                            assert(b[j] == a[j]);
                        } else {
                            assert(b[j] == edit_palette_keys()[j - 2]);
                        }
                    } else {
                        assert(c[j] == select_palette_keys()[j - 18]);
                    }
                } else {
                    assert(d[j] == color_style_keys()[j - 34]);
                }
            } else {
                assert(e[j] == move_keys()[j - 42]);
            }
        } else {
            assert(f[j] == object_keys()[j - 52]);
        }
    }
    assert forall|i: int, j: int| 0 <= i < j < f.len() implies (#[trigger] f[i]).0 != (#[trigger] f[j]).0 by {
        assert(default_key_rank(f[i].0) == i);
        assert(default_key_rank(f[j].0) == j);
    }
}

/// What filling in the first `n` default bindings keeps and adds, when no key of the
/// user's bindings is a default key
proof fn lemma_fill_prefix(user: Seq<(char, Event)>, n: int)
    requires
        0 <= n <= default_entries().len(),
        forall|i: int, j: int|
            0 <= i < user.len() && 0 <= j < default_entries().len() ==> (#[trigger] user[i]).0 != (#[trigger] default_entries()[j]).0,
    ensures
        forall|j: int|
            0 <= j < n ==> has_value(entries_map(filled(user, default_entries().take(n))), (#[trigger] default_entries()[j]).1),
        forall|c: char|
            #[trigger] entries_map(user).contains_key(c) ==> entries_map(filled(user, default_entries().take(n))).contains_key(c)
                && entries_map(filled(user, default_entries().take(n)))[c] == entries_map(user)[c],
        forall|c: char|
            #[trigger] entries_map(filled(user, default_entries().take(n))).contains_key(c) ==> entries_map(user).contains_key(c)
                || exists|j: int| 0 <= j < n && (#[trigger] default_entries()[j]).0 == c,
    decreases n,
{
    let d = default_entries();
    lemma_default_keys_distinct();
    if n == 0 {
        assert(d.take(0) =~= Seq::<(char, Event)>::empty());
    } else {
        lemma_fill_prefix(user, n - 1);
        assert(d.take(n).drop_last() =~= d.take(n - 1));
        assert(d.take(n).last() == d[n - 1]);
        let prev = filled(user, d.take(n - 1));
        let acc = filled(user, d.take(n));
        let m = entries_map(prev);
        if has_value(m, d[n - 1].1) {
            assert(acc == prev);
        } else {
            let k = d[n - 1].0;
            assert(acc == prev.push(d[n - 1]));
            assert(acc.drop_last() =~= prev);
            assert(entries_map(acc) == m.insert(k, d[n - 1].1));
            assert(!m.contains_key(k)) by {
                if m.contains_key(k) {
                    if entries_map(user).contains_key(k) {
                        lemma_entries_map(user);
                        let i = choose|i: int| 0 <= i < user.len() && (#[trigger] user[i]).0 == k && user[i].1 == entries_map(user)[k];
                        assert(user[i].0 != d[n - 1].0);
                    } else {
                        let j = choose|j: int| 0 <= j < n - 1 && (#[trigger] d[j]).0 == k;
                        assert(d[j].0 != d[n - 1].0);
                    }
                }
            }
            assert forall|j: int| 0 <= j < n implies has_value(entries_map(acc), (#[trigger] d[j]).1) by {
                if j < n - 1 {
                    assert(has_value(m, d[j].1));
                    let w = choose|w: char| m.contains_key(w) && m[w] == d[j].1;
                    assert(entries_map(acc).contains_key(w) && entries_map(acc)[w] == d[j].1);
                } else {
                    assert(entries_map(acc).contains_key(k) && entries_map(acc)[k] == d[n - 1].1);
                }
            }
            assert forall|c: char| #[trigger] entries_map(acc).contains_key(c) implies entries_map(user).contains_key(c)
                || exists|j: int| 0 <= j < n && (#[trigger] d[j]).0 == c by {
                if c == k {
                    assert(d[n - 1].0 == c);
                } else {
                    assert(m.contains_key(c));
                    if !entries_map(user).contains_key(c) {
                        let j = choose|j: int| 0 <= j < n - 1 && (#[trigger] d[j]).0 == c;
                        assert(0 <= j < n && d[j].0 == c);
                    }
                }
            }
        }
    }
}

/// Filling in the default bindings leaves every default event bound to some key and keeps
/// every binding of the user's, when no key of the user's bindings is one of the default
/// keys (a user's key that is also a default key may be taken by that default's event)
pub proof fn filled_defaults_bind_every_default_event(user: Seq<(char, Event)>)
    requires
        forall|i: int, j: int|
            0 <= i < user.len() && 0 <= j < default_entries().len() ==> (#[trigger] user[i]).0 != (#[trigger] default_entries()[j]).0,
    ensures
        forall|j: int|
            0 <= j < default_entries().len() ==> has_value(entries_map(filled(user, default_entries())), (#[trigger] default_entries()[j]).1),
        forall|c: char|
            #[trigger] entries_map(user).contains_key(c) ==> entries_map(filled(user, default_entries())).contains_key(c)
                && entries_map(filled(user, default_entries()))[c] == entries_map(user)[c],
{
    lemma_fill_prefix(user, default_entries().len() as int);
    assert(default_entries().take(default_entries().len() as int) =~= default_entries());
}

} // verus!
