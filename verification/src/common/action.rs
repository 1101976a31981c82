use crate::common::fio::ExportFormat;
use crate::common::text::{
    first_with_prefix, starts_with,
    chars_of, split_chars, split_on, string_of, trim, trimmed, u32_error_text, u32_value, parse_u32,
};
use crate::common::{str_equal, ClipboardOp, Error, ErrorView, Mode, OnQuit};
use crate::texel_types::{ColorMode, Position2D, SymbolStyle, Translation, Which};
use vstd::prelude::*;

verus! {

/// Layout of selected objects
#[derive(Debug, Clone, Copy, PartialEq, Eq)]
pub enum Layout {
    Unset,
    /// number of columns, padding size x, y
    Column(usize, (u16, u16)),
    Random,
}

impl Layout {
    pub open spec fn spec_from_word(source: Seq<char>) -> Layout {
        if source == "column"@ {
            Layout::Column(0, (0, 0))
        } else if source == "random"@ {
            Layout::Random
        } else {
            Layout::Unset
        }
    }

    /// Layout named by a command word
    pub fn from_word(source: &str) -> (r: Layout)
        ensures
            r == Self::spec_from_word(source@),
    {
        if str_equal(source, "column") {
            Layout::Column(0, (0, 0))
        } else if str_equal(source, "random") {
            Layout::Random
        } else {
            Layout::Unset
        }
    }
}

/// Words naming layouts, for completion
pub const LAYOUT_WORDS: [&'static str; 2] = ["column", "random"];

/// Metadata to set on sprites
pub enum MetadataType {
    Id(Option<u32>),
    /// key/value labels in the order given; setting them, a later one replaces the value of
    /// an earlier one with the same key
    Labels(Vec<(String, String)>),
}

/// Abstract metadata
pub enum MetadataView {
    Id(Option<u32>),
    Labels(Seq<(Seq<char>, Seq<char>)>),
}

impl View for MetadataType {
    type V = MetadataView;

    open spec fn view(&self) -> MetadataView {
        match self {
            MetadataType::Id(id) => MetadataView::Id(*id),
            MetadataType::Labels(l) => MetadataView::Labels(crate::texel_types::labels_view(l@)),
        }
    }
}

/// Key and value of one `key=value` label, each trimmed; `None` without a `=`
pub open spec fn label_pair(label: Seq<char>) -> Option<(Seq<char>, Seq<char>)> {
    let parts = split_on(trimmed(label), '=');
    if parts.len() >= 2 {
        Some((trimmed(parts[0]), trimmed(parts[1])))
    } else {
        None
    }
}

/// Labels of a comma separated `key=value` list; `None` when some label has no value
pub open spec fn spec_labels(source: Seq<char>) -> Option<Seq<(Seq<char>, Seq<char>)>> {
    let pieces = split_on(source, ',');
    if forall|i: int| 0 <= i < pieces.len() ==> #[trigger] label_pair(pieces[i]) is Some {
        Some(Seq::new(pieces.len(), |i: int| label_pair(pieces[i])->0))
    } else {
        None
    }
}

/// Metadata an `id` argument sets: `none` clears the id, else it is a `u32`
pub open spec fn spec_parse_id(source: Seq<char>) -> Result<MetadataView, ErrorView> {
    if source == "none"@ {
        Ok(MetadataView::Id(None))
    } else {
        match u32_value(source) {
            Some(v) => Ok(MetadataView::Id(Some(v))),
            None => Err(ErrorView::ExecutionError(u32_error_text(source))),
        }
    }
}

/// Metadata a `labels` argument sets
pub open spec fn spec_parse_labels(source: Seq<char>) -> Result<MetadataView, ErrorView> {
    match spec_labels(source) {
        Some(l) => Ok(MetadataView::Labels(l)),
        None => Err(ErrorView::ExecutionError("Invalid label value"@)),
    }
}

/// Abstract result of a parse
pub open spec fn metadata_result(r: Result<MetadataType, Error>) -> Result<MetadataView, ErrorView> {
    match r {
        Ok(m) => Ok(m@),
        Err(e) => Err(e@),
    }
}

impl MetadataType {
    pub fn is_id(&self) -> (r: bool)
        ensures
            r == (self is Id),
    {
        match self {
            MetadataType::Id(_) => true,
            _ => false,
        }
    }

    /// Id metadata from its argument
    pub fn parse_id(source: &str) -> (r: Result<Self, Error>)
        ensures
            metadata_result(r) == spec_parse_id(source@),
    {
        if str_equal(source, "none") {
            Ok(MetadataType::Id(None))
        } else {
            match parse_u32(source) {
                Ok(v) => Ok(MetadataType::Id(Some(v))),
                Err(m) => Err(Error::ExecutionError(m)),
            }
        }
    }

    /// Label metadata from a comma separated `key=value` list
    pub fn parse_labels(source: &str) -> (r: Result<Self, Error>)
        ensures
            metadata_result(r) == spec_parse_labels(source@),
    {
        let chars = chars_of(source);
        let pieces = split_chars(&chars, ',');
        let mut labels: Vec<(String, String)> = Vec::new();
        let mut i: usize = 0;
        while i < pieces.len()
            invariant
                chars@ == source@,
                pieces@.len() == split_on(source@, ',').len(),
                forall|j: int| 0 <= j < pieces@.len() ==> #[trigger] pieces@[j]@ == split_on(source@, ',')[j],
                i <= pieces@.len(),
                labels@.len() == i,
                forall|j: int|
                    0 <= j < i ==> #[trigger] label_pair(split_on(source@, ',')[j]) == Some(
                        (labels@[j].0@, labels@[j].1@),
                    ),
            decreases pieces@.len() - i,
        {
            let label = trim(&pieces[i]);
            let parts = split_chars(&label, '=');
            if parts.len() < 2 {
                assert(label_pair(split_on(source@, ',')[i as int]) is None);
                return Err(Error::execution("Invalid label value"));
            }
            let key = trim(&parts[0]);
            let value = trim(&parts[1]);
            labels.push((string_of(&key), string_of(&value)));
            i = i + 1;
        }
        let r = MetadataType::Labels(labels);
        assert(crate::texel_types::labels_view(labels@) =~= spec_labels(source@)->0);
        Ok(r)
    }
}

/// Words naming metadata types, for completion
pub const METADATA_TYPES: [&'static str; 2] = ["id", "labels"];

/// Editor action
pub enum Action {
    Noop,
    New(bool),
    NewObject,
    Duplicate(usize),
    Clipboard(ClipboardOp),
    ToggleMetadata,
    SetMetadata(MetadataType),
    Cancel,
    ClearError,
    SetMode(Mode),
    ReverseMode,
    Deselect,
    PickColor(ColorMode),
    SwapColor,
    ApplyColor(ColorMode),
    ApplySymbol(char),
    ApplyStyle(SymbolStyle),
    /// takes the selected region and turns it into a selection of objects
    ApplyRegion,
    /// next/previous frame or frame at index
    SelectFrame(Which<usize>),
    DeleteFrame,
    NewFrame,
    /// select next, keeping the old selection if the flag is set
    SelectObject(Which<Position2D>, bool),
    SelectRegion,
    Read(String),
    Write(Option<String>),
    WriteAndQuit(Option<String>),
    Export(ExportFormat, String),
    Translate(Translation),
    Layout(Layout),
    Delete,
    Undo,
    Redo,
    ShowHelp(usize),
    /// bookmark index and whether to set it
    Bookmark(usize, bool),
    Tutorial,
    /// clears blank texels from the selected sprites
    ClearBlank,
}

/// Abstract action: texts as character sequences
pub enum ActionView {
    Noop,
    New(bool),
    NewObject,
    Duplicate(usize),
    Clipboard(ClipboardOp),
    ToggleMetadata,
    SetMetadata(MetadataView),
    Cancel,
    ClearError,
    SetMode(Mode),
    ReverseMode,
    Deselect,
    PickColor(ColorMode),
    SwapColor,
    ApplyColor(ColorMode),
    ApplySymbol(char),
    ApplyStyle(SymbolStyle),
    ApplyRegion,
    SelectFrame(Which<usize>),
    DeleteFrame,
    NewFrame,
    SelectObject(Which<Position2D>, bool),
    SelectRegion,
    Read(Seq<char>),
    Write(Option<Seq<char>>),
    WriteAndQuit(Option<Seq<char>>),
    Export(ExportFormat, Seq<char>),
    Translate(Translation),
    Layout(Layout),
    Delete,
    Undo,
    Redo,
    ShowHelp(usize),
    Bookmark(usize, bool),
    Tutorial,
    ClearBlank,
}

pub open spec fn opt_text(o: Option<String>) -> Option<Seq<char>> {
    match o {
        Some(s) => Some(s@),
        None => None,
    }
}

impl View for Action {
    type V = ActionView;

    open spec fn view(&self) -> ActionView {
        match self {
            Action::Noop => ActionView::Noop,
            Action::New(f) => ActionView::New(*f),
            Action::NewObject => ActionView::NewObject,
            Action::Duplicate(n) => ActionView::Duplicate(*n),
            Action::Clipboard(op) => ActionView::Clipboard(*op),
            Action::ToggleMetadata => ActionView::ToggleMetadata,
            Action::SetMetadata(m) => ActionView::SetMetadata(m@),
            Action::Cancel => ActionView::Cancel,
            Action::ClearError => ActionView::ClearError,
            Action::SetMode(m) => ActionView::SetMode(*m),
            Action::ReverseMode => ActionView::ReverseMode,
            Action::Deselect => ActionView::Deselect,
            Action::PickColor(c) => ActionView::PickColor(*c),
            Action::SwapColor => ActionView::SwapColor,
            Action::ApplyColor(c) => ActionView::ApplyColor(*c),
            Action::ApplySymbol(c) => ActionView::ApplySymbol(*c),
            Action::ApplyStyle(st) => ActionView::ApplyStyle(*st),
            Action::ApplyRegion => ActionView::ApplyRegion,
            Action::SelectFrame(w) => ActionView::SelectFrame(*w),
            Action::DeleteFrame => ActionView::DeleteFrame,
            Action::NewFrame => ActionView::NewFrame,
            Action::SelectObject(w, sticky) => ActionView::SelectObject(*w, *sticky),
            Action::SelectRegion => ActionView::SelectRegion,
            Action::Read(p) => ActionView::Read(p@),
            Action::Write(p) => ActionView::Write(opt_text(*p)),
            Action::WriteAndQuit(p) => ActionView::WriteAndQuit(opt_text(*p)),
            Action::Export(f, p) => ActionView::Export(*f, p@),
            Action::Translate(t) => ActionView::Translate(*t),
            Action::Layout(l) => ActionView::Layout(*l),
            Action::Delete => ActionView::Delete,
            Action::Undo => ActionView::Undo,
            Action::Redo => ActionView::Redo,
            Action::ShowHelp(i) => ActionView::ShowHelp(*i),
            Action::Bookmark(i, set) => ActionView::Bookmark(*i, *set),
            Action::Tutorial => ActionView::Tutorial,
            Action::ClearBlank => ActionView::ClearBlank,
        }
    }
}

/// Abstract result of producing an action
pub open spec fn action_result(r: Result<Action, Error>) -> Result<ActionView, ErrorView> {
    match r {
        Ok(a) => Ok(a@),
        Err(e) => Err(e@),
    }
}

/// Command words recognised by `complete_word`, in completion order
pub open spec fn action_words() -> Seq<Seq<char>> {
    seq![
        "new"@,
        "read"@,
        "write"@,
        "translate"@,
        "delete"@,
        "deselect"@,
        "quit"@,
        "quit!"@,
        "help"@,
        "export"@,
        "tutorial"@,
        "clear_blank"@,
        "duplicate"@,
        "layout"@,
        "set"@,
        "metadata"@,
    ]
}

/// Kind of action a command word names; arguments still to be parsed are left at their defaults.
pub enum ActionKind {
    Noop,
    New(bool),
    Read,
    Write,
    Translate,
    Delete,
    Deselect,
    Quit(OnQuit),
    WriteAndQuit,
    ShowHelp,
    Export,
    Tutorial,
    ClearBlank,
    Duplicate,
    Layout,
    SetMetadata,
    ToggleMetadata,
}

pub open spec fn word_kind(w: Seq<char>) -> ActionKind {
    if w == "new"@ || w == "n"@ {
        ActionKind::New(false)
    } else if w == "new!"@ || w == "n!"@ {
        ActionKind::New(true)
    } else if w == "read"@ || w == "r"@ {
        ActionKind::Read
    } else if w == "write"@ || w == "w"@ {
        ActionKind::Write
    } else if w == "translate"@ {
        ActionKind::Translate
    } else if w == "delete"@ {
        ActionKind::Delete
    } else if w == "deselect"@ {
        ActionKind::Deselect
    } else if w == "quit"@ || w == "q"@ {
        ActionKind::Quit(OnQuit::Check)
    } else if w == "quit!"@ || w == "q!"@ {
        ActionKind::Quit(OnQuit::Force)
    } else if w == "x"@ {
        ActionKind::WriteAndQuit
    } else if w == "help"@ || w == "h"@ {
        ActionKind::ShowHelp
    } else if w == "export"@ {
        ActionKind::Export
    } else if w == "tutorial"@ {
        ActionKind::Tutorial
    } else if w == "clear_blank"@ {
        ActionKind::ClearBlank
    } else if w == "duplicate"@ {
        ActionKind::Duplicate
    } else if w == "layout"@ {
        ActionKind::Layout
    } else if w == "set"@ {
        ActionKind::SetMetadata
    } else if w == "metadata"@ {
        ActionKind::ToggleMetadata
    } else {
        ActionKind::Noop
    }
}

/// Each command word names one kind of action and each kind has its own words: a word
/// names `Delete` exactly when it is `delete` and `Deselect` exactly when it is `deselect`,
/// and likewise for every other kind (with the short forms `n`, `n!`, `r`, `w`, `q`, `q!`,
/// `x` and `h`); any other word names no action.
pub proof fn command_words_name_their_kinds(w: Seq<char>)
    ensures
        (word_kind(w) == ActionKind::Delete) <==> w == "delete"@,
        (word_kind(w) == ActionKind::Deselect) <==> w == "deselect"@,
        (word_kind(w) == ActionKind::New(false)) <==> (w == "new"@ || w == "n"@),
        (word_kind(w) == ActionKind::New(true)) <==> (w == "new!"@ || w == "n!"@),
        (word_kind(w) == ActionKind::Read) <==> (w == "read"@ || w == "r"@),
        (word_kind(w) == ActionKind::Write) <==> (w == "write"@ || w == "w"@),
        (word_kind(w) == ActionKind::Translate) <==> w == "translate"@,
        (word_kind(w) == ActionKind::Quit(OnQuit::Check)) <==> (w == "quit"@ || w == "q"@),
        (word_kind(w) == ActionKind::Quit(OnQuit::Force)) <==> (w == "quit!"@ || w == "q!"@),
        (word_kind(w) == ActionKind::WriteAndQuit) <==> w == "x"@,
        (word_kind(w) == ActionKind::ShowHelp) <==> (w == "help"@ || w == "h"@),
        (word_kind(w) == ActionKind::Export) <==> w == "export"@,
        (word_kind(w) == ActionKind::Tutorial) <==> w == "tutorial"@,
        (word_kind(w) == ActionKind::ClearBlank) <==> w == "clear_blank"@,
        (word_kind(w) == ActionKind::Duplicate) <==> w == "duplicate"@,
        (word_kind(w) == ActionKind::Layout) <==> w == "layout"@,
        (word_kind(w) == ActionKind::SetMetadata) <==> w == "set"@,
        (word_kind(w) == ActionKind::ToggleMetadata) <==> w == "metadata"@,
{
    reveal_strlit("new");
    reveal_strlit("n");
    reveal_strlit("new!");
    reveal_strlit("n!");
    reveal_strlit("read");
    reveal_strlit("r");
    reveal_strlit("write");
    reveal_strlit("w");
    reveal_strlit("translate");
    reveal_strlit("delete");
    reveal_strlit("deselect");
    reveal_strlit("quit");
    reveal_strlit("q");
    reveal_strlit("quit!");
    reveal_strlit("q!");
    reveal_strlit("x");
    reveal_strlit("help");
    reveal_strlit("h");
    reveal_strlit("export");
    reveal_strlit("tutorial");
    reveal_strlit("clear_blank");
    reveal_strlit("duplicate");
    reveal_strlit("layout");
    reveal_strlit("set");
    reveal_strlit("metadata");
    // two command words differ in length or in their first character
    assert("new"@.len() == 3 && "new"@[0] == 'n');
    assert("n"@.len() == 1 && "n"@[0] == 'n');
    assert("new!"@.len() == 4 && "new!"@[0] == 'n');
    assert("n!"@.len() == 2 && "n!"@[0] == 'n');
    assert("read"@.len() == 4 && "read"@[0] == 'r');
    assert("r"@.len() == 1 && "r"@[0] == 'r');
    assert("write"@.len() == 5 && "write"@[0] == 'w');
    assert("w"@.len() == 1 && "w"@[0] == 'w');
    assert("translate"@.len() == 9 && "translate"@[0] == 't');
    assert("delete"@.len() == 6 && "delete"@[0] == 'd');
    assert("deselect"@.len() == 8 && "deselect"@[0] == 'd');
    assert("quit"@.len() == 4 && "quit"@[0] == 'q');
    assert("q"@.len() == 1 && "q"@[0] == 'q');
    assert("quit!"@.len() == 5 && "quit!"@[0] == 'q');
    assert("q!"@.len() == 2 && "q!"@[0] == 'q');
    assert("x"@.len() == 1 && "x"@[0] == 'x');
    assert("help"@.len() == 4 && "help"@[0] == 'h');
    assert("h"@.len() == 1 && "h"@[0] == 'h');
    assert("export"@.len() == 6 && "export"@[0] == 'e');
    assert("tutorial"@.len() == 8 && "tutorial"@[0] == 't');
    assert("clear_blank"@.len() == 11 && "clear_blank"@[0] == 'c');
    assert("duplicate"@.len() == 9 && "duplicate"@[0] == 'd');
    assert("layout"@.len() == 6 && "layout"@[0] == 'l');
    assert("set"@.len() == 3 && "set"@[0] == 's');
    assert("metadata"@.len() == 8 && "metadata"@[0] == 'm');
    assert(word_kind("new"@) == ActionKind::New(false));
    assert(word_kind("n"@) == ActionKind::New(false));
    assert(word_kind("new!"@) == ActionKind::New(true));
    assert(word_kind("n!"@) == ActionKind::New(true));
    assert(word_kind("read"@) == ActionKind::Read);
    assert(word_kind("r"@) == ActionKind::Read);
    assert(word_kind("write"@) == ActionKind::Write);
    assert(word_kind("w"@) == ActionKind::Write);
    assert(word_kind("translate"@) == ActionKind::Translate);
    assert(word_kind("delete"@) == ActionKind::Delete);
    assert(word_kind("deselect"@) == ActionKind::Deselect);
    assert(word_kind("quit"@) == ActionKind::Quit(OnQuit::Check));
    assert(word_kind("q"@) == ActionKind::Quit(OnQuit::Check));
    assert(word_kind("quit!"@) == ActionKind::Quit(OnQuit::Force));
    assert(word_kind("q!"@) == ActionKind::Quit(OnQuit::Force));
    assert(word_kind("x"@) == ActionKind::WriteAndQuit);
    assert(word_kind("help"@) == ActionKind::ShowHelp);
    assert(word_kind("h"@) == ActionKind::ShowHelp);
    assert(word_kind("export"@) == ActionKind::Export);
    assert(word_kind("tutorial"@) == ActionKind::Tutorial);
    assert(word_kind("clear_blank"@) == ActionKind::ClearBlank);
    assert(word_kind("duplicate"@) == ActionKind::Duplicate);
    assert(word_kind("layout"@) == ActionKind::Layout);
    assert(word_kind("set"@) == ActionKind::SetMetadata);
    assert(word_kind("metadata"@) == ActionKind::ToggleMetadata);
}

impl Action {
    /// `self` is the action of kind `k` with its default arguments.
    pub open spec fn is_default_of(&self, k: ActionKind) -> bool {
        match k {
            ActionKind::Noop => self is Noop,
            ActionKind::New(force) => *self == Action::New(force),
            ActionKind::Read => self matches Action::Read(p) && p@.len() == 0,
            ActionKind::Write => *self == Action::Write(None),
            ActionKind::Translate => *self == Action::Translate(Translation::Stay),
            ActionKind::Delete => self is Delete,
            ActionKind::Deselect => self is Deselect,
            ActionKind::Quit(q) => *self == Action::SetMode(Mode::Quitting(q)),
            ActionKind::WriteAndQuit => *self == Action::WriteAndQuit(None),
            ActionKind::ShowHelp => *self == Action::ShowHelp(0),
            ActionKind::Export => self matches Action::Export(f, p) && f == ExportFormat::Txt
                && p@.len() == 0,
            ActionKind::Tutorial => self is Tutorial,
            ActionKind::ClearBlank => self is ClearBlank,
            ActionKind::Duplicate => *self == Action::Duplicate(1),
            ActionKind::Layout => *self == Action::Layout(Layout::Unset),
            ActionKind::SetMetadata => self matches Action::SetMetadata(MetadataType::Id(None)),
            ActionKind::ToggleMetadata => self is ToggleMetadata,
        }
    }

    pub open spec fn is_noop(&self) -> bool {
        self is Noop
    }

    /// Whether the action does something (is not `Noop`)
    pub fn is_some(&self) -> (r: bool)
        ensures
            r == !(self is Noop),
    {
        match self {
            Action::Noop => false,
            _ => true,
        }
    }

    /// Whether the action is `ReverseMode`
    pub fn is_reverse_mode(&self) -> (r: bool)
        ensures
            r == (self is ReverseMode),
    {
        match self {
            Action::ReverseMode => true,
            _ => false,
        }
    }

    /// Kind of action the command word names
    pub fn word_kind_of(source: &str) -> (r: ActionKind)
        ensures
            r == word_kind(source@),
    {
        if str_equal(source, "new") || str_equal(source, "n") {
            ActionKind::New(false)
        } else if str_equal(source, "new!") || str_equal(source, "n!") {
            ActionKind::New(true)
        } else if str_equal(source, "read") || str_equal(source, "r") {
            ActionKind::Read
        } else if str_equal(source, "write") || str_equal(source, "w") {
            ActionKind::Write
        } else if str_equal(source, "translate") {
            ActionKind::Translate
        } else if str_equal(source, "delete") {
            ActionKind::Delete
        } else if str_equal(source, "deselect") {
            ActionKind::Deselect
        } else if str_equal(source, "quit") || str_equal(source, "q") {
            ActionKind::Quit(OnQuit::Check)
        } else if str_equal(source, "quit!") || str_equal(source, "q!") {
            ActionKind::Quit(OnQuit::Force)
        } else if str_equal(source, "x") {
            ActionKind::WriteAndQuit
        } else if str_equal(source, "help") || str_equal(source, "h") {
            ActionKind::ShowHelp
        } else if str_equal(source, "export") {
            ActionKind::Export
        } else if str_equal(source, "tutorial") {
            ActionKind::Tutorial
        } else if str_equal(source, "clear_blank") {
            ActionKind::ClearBlank
        } else if str_equal(source, "duplicate") {
            ActionKind::Duplicate
        } else if str_equal(source, "layout") {
            ActionKind::Layout
        } else if str_equal(source, "set") {
            ActionKind::SetMetadata
        } else if str_equal(source, "metadata") {
            ActionKind::ToggleMetadata
        } else {
            ActionKind::Noop
        }
    }

    /// First command word that `part` begins
    pub fn complete_word(part: &str) -> (r: Option<&'static str>)
        ensures
            match first_with_prefix(action_words(), part@, 0) {
                Some(i) => r matches Some(w) && w@ == action_words()[i],
                None => r is None,
            },
    {
        let words: [&'static str; 16] = [
            "new",
            "read",
            "write",
            "translate",
            "delete",
            "deselect",
            "quit",
            "quit!",
            "help",
            "export",
            "tutorial",
            "clear_blank",
            "duplicate",
            "layout",
            "set",
            "metadata",
        ];
        assert(forall|j: int| 0 <= j < 16 ==> #[trigger] words@[j]@ == action_words()[j]);
        let mut i: usize = 0;
        while i < 16
            invariant
                i <= 16,
                words@.len() == 16,
                forall|j: int| 0 <= j < 16 ==> #[trigger] words@[j]@ == action_words()[j],
                first_with_prefix(action_words(), part@, i as int) == first_with_prefix(
                    action_words(),
                    part@,
                    0,
                ),
            decreases 16 - i,
        {
            if starts_with(words[i], part) {
                return Some(words[i]);
            }
            i = i + 1;
        }
        None
    }

    /// The action a command word names, with default arguments
    pub fn from_word(source: &str) -> (r: Action)
        ensures
            r.is_default_of(word_kind(source@)),
    {
        match Self::word_kind_of(source) {
            ActionKind::Noop => Action::Noop,
            ActionKind::New(force) => Action::New(force),
            ActionKind::Read => Action::Read(String::new()),
            ActionKind::Write => Action::Write(None),
            ActionKind::Translate => Action::Translate(Translation::Stay),
            ActionKind::Delete => Action::Delete,
            ActionKind::Deselect => Action::Deselect,
            ActionKind::Quit(q) => Action::SetMode(Mode::Quitting(q)),
            ActionKind::WriteAndQuit => Action::WriteAndQuit(None),
            ActionKind::ShowHelp => Action::ShowHelp(0),
            ActionKind::Export => Action::Export(ExportFormat::default_format(), String::new()),
            ActionKind::Tutorial => Action::Tutorial,
            ActionKind::ClearBlank => Action::ClearBlank,
            ActionKind::Duplicate => Action::Duplicate(1),
            ActionKind::Layout => Action::Layout(Layout::Unset),
            ActionKind::SetMetadata => Action::SetMetadata(MetadataType::Id(None)),
            ActionKind::ToggleMetadata => Action::ToggleMetadata,
        }
    }
}

} // verus!
