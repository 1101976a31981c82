use crate::texel_types::ColorMode;
use vstd::prelude::*;

verus! {

/// How to quit: normal (check for unsaved changes), forced, or save and quit
#[derive(Debug, Clone, Copy, PartialEq, Eq, Structural)]
pub enum OnQuit {
    Check,
    Force,
    Save,
}

/// Object mode selection kind
#[derive(Debug, Clone, Copy, PartialEq, Eq, Structural)]
pub enum SelectMode {
    Object,
    Region,
}

impl SelectMode {
    /// Default selection kind: objects
    pub fn default_mode() -> (r: Self)
        ensures
            r == SelectMode::Object,
    {
        SelectMode::Object
    }
}

/// Editor mode
#[derive(Debug, Clone, Copy, PartialEq, Eq, Structural)]
pub enum Mode {
    Object(SelectMode),
    Color(ColorMode),
    /// index of the palette color being set (0x0 to 0xF)
    SelectColor(usize, ColorMode),
    /// index of the palette symbol being set (0x0 to 0xF)
    SelectSymbol(usize),
    Edit,
    Write,
    Command,
    Quitting(OnQuit),
    /// help topic index
    Help(usize),
}

/// Number of modes that have their own input map
pub const MODE_COUNT: usize = 9;

impl Mode {
    /// Whether the mode moves the cursor inside the selected object (edit and write), so
    /// the cursor is saved on the object when leaving it
    pub fn modifies_cursor(&self) -> (r: bool)
        ensures
            r == (*self == Mode::Edit || *self == Mode::Write),
    {
        match self {
            Mode::Edit | Mode::Write => true,
            _ => false,
        }
    }

    /// Whether the mode can be in with `selected` objects selected: edit and write work on
    /// exactly one object
    pub fn valid_selection(&self, selected: usize) -> (r: bool)
        ensures
            r == ((*self == Mode::Edit || *self == Mode::Write) ==> selected == 1),
    {
        match self {
            Mode::Edit | Mode::Write => selected == 1,
            _ => true,
        }
    }

    /// The default mode: object mode selecting objects
    pub fn default_mode() -> (r: Self)
        ensures
            r == Mode::Object(SelectMode::Object),
    {
        Mode::Object(SelectMode::default_mode())
    }

    /// Number of distinct mode kinds
    pub fn count() -> (r: usize)
        ensures
            r == MODE_COUNT,
    {
        MODE_COUNT
    }

    pub open spec fn spec_index(self) -> usize {
        match self {
            Mode::Object(_) => 0,
            Mode::Color(_) => 1,
            Mode::SelectColor(_, _) => 2,
            Mode::SelectSymbol(_) => 3,
            Mode::Edit => 4,
            Mode::Write => 5,
            Mode::Command => 6,
            Mode::Help(_) => 7,
            Mode::Quitting(_) => 8,
        }
    }

    /// Index of the mode kind, below `count()`
    pub fn index(&self) -> (r: usize)
        ensures
            r == self.spec_index(),
            r < MODE_COUNT,
    {
        match self {
            Mode::Object(_) => 0,
            Mode::Color(_) => 1,
            Mode::SelectColor(_, _) => 2,
            Mode::SelectSymbol(_) => 3,
            Mode::Edit => 4,
            Mode::Write => 5,
            Mode::Command => 6,
            Mode::Help(_) => 7,
            Mode::Quitting(_) => 8,
        }
    }

    pub open spec fn spec_name(self) -> Seq<char> {
        match self {
            Mode::Object(SelectMode::Object) => "OBJECT[OBJECT]"@,
            Mode::Object(SelectMode::Region) => "OBJECT[REGION]"@,
            Mode::Color(ColorMode::Fg) => "COLOR[FG]"@,
            Mode::Color(ColorMode::Bg) => "COLOR[BG]"@,
            Mode::SelectColor(_, ColorMode::Fg) => "COLOR[SET-FG]"@,
            Mode::SelectColor(_, ColorMode::Bg) => "COLOR[SET-BG]"@,
            Mode::SelectSymbol(_) => "SYMBOL[SET]"@,
            Mode::Edit => "EDIT"@,
            Mode::Write => "WRITE"@,
            Mode::Command => "COMMAND"@,
            Mode::Quitting(_) => "QUITTING"@,
            Mode::Help(_) => "HELP"@,
        }
    }

    /// Every mode's name is at most 14 characters long
    pub proof fn lemma_name_len(self)
        ensures
            self.spec_name().len() <= 14,
    {
        reveal_strlit("OBJECT[OBJECT]");
        reveal_strlit("OBJECT[REGION]");
        reveal_strlit("COLOR[FG]");
        reveal_strlit("COLOR[BG]");
        reveal_strlit("COLOR[SET-FG]");
        reveal_strlit("COLOR[SET-BG]");
        reveal_strlit("SYMBOL[SET]");
        reveal_strlit("EDIT");
        reveal_strlit("WRITE");
        reveal_strlit("COMMAND");
        reveal_strlit("QUITTING");
        reveal_strlit("HELP");
    }

    /// Status line name of the mode
    pub fn to_str(&self) -> (r: &'static str)
        ensures
            r@ == self.spec_name(),
    {
        match self {
            Mode::Object(SelectMode::Object) => "OBJECT[OBJECT]",
            Mode::Object(SelectMode::Region) => "OBJECT[REGION]",
            Mode::Color(ColorMode::Fg) => "COLOR[FG]",
            Mode::Color(ColorMode::Bg) => "COLOR[BG]",
            Mode::SelectColor(_, ColorMode::Fg) => "COLOR[SET-FG]",
            Mode::SelectColor(_, ColorMode::Bg) => "COLOR[SET-BG]",
            Mode::SelectSymbol(_) => "SYMBOL[SET]",
            Mode::Edit => "EDIT",
            Mode::Write => "WRITE",
            Mode::Command => "COMMAND",
            Mode::Quitting(_) => "QUITTING",
            Mode::Help(_) => "HELP",
        }
    }
}

} // verus!
