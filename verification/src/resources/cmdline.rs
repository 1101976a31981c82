pub mod auto_complete;

pub use auto_complete::{
    cycled, entries_view, file_completions, offer, prefixed, spec_complete_filename,
    spec_complete_from_list, spec_cycle, AutoComplete, AutoCompleteView, Completion,
    CompletionView, FileListing, completion_base, completion_name,
};

use crate::common::fio::{parent_of, path_base, ExportFormat};
use crate::common::text::{
    ascii_words, i32_value, parse_i32, parse_u16, parse_usize, split_words, string_of, u16_value,
    usize_value,
};
use crate::common::{
    action_words, add_max, offset_by, spec_parse_id, spec_parse_labels, spec_topic_index, str_equal,
    topic_index, word_kind, Action, ActionKind, ActionView, Error, ErrorView, Event, InputEvent,
    Layout, MetadataType, Mode, LAYOUT_WORDS, METADATA_TYPES,
};
use crate::common::text::first_with_prefix;
use crate::texel_types::{Translation, Which};
use crate::common::fio::opt_chars;
use vstd::prelude::*;

verus! {

/// Word at `i`, or `default` past the end
pub open spec fn arg_or(args: Seq<Seq<char>>, i: int, default: Seq<char>) -> Seq<char> {
    if 0 <= i < args.len() {
        args[i]
    } else {
        default
    }
}

pub open spec fn invalid_param(msg: &str) -> ErrorView {
    ErrorView::InvalidParam(msg@)
}

pub open spec fn execution_error(msg: &str) -> ErrorView {
    ErrorView::ExecutionError(msg@)
}

/// `set` arguments: a metadata type and its value
pub open spec fn spec_parse_set_metadata(args: Seq<Seq<char>>) -> Result<ActionView, ErrorView> {
    if args.len() == 0 {
        Err(execution_error("No metadata type specified"))
    } else if args[0] == "id"@ {
        match spec_parse_id(arg_or(args, 1, "none"@)) {
            Ok(m) => Ok(ActionView::SetMetadata(m)),
            Err(e) => Err(e),
        }
    } else if args[0] == "labels"@ {
        match spec_parse_labels(arg_or(args, 1, Seq::empty())) {
            Ok(m) => Ok(ActionView::SetMetadata(m)),
            Err(e) => Err(e),
        }
    } else {
        Err(execution_error("Invalid metadata type"))
    }
}

/// `layout` arguments: `random`, or `column` with the column count, the horizontal padding
/// and optionally the vertical padding (else the horizontal one)
pub open spec fn spec_parse_layout(args: Seq<Seq<char>>) -> Result<ActionView, ErrorView> {
    match Layout::spec_from_word(arg_or(args, 0, "none"@)) {
        Layout::Random => Ok(ActionView::Layout(Layout::Random)),
        Layout::Column(_, _) => if args.len() < 2 {
            Err(invalid_param("No columns specified"))
        } else {
            match usize_value(args[1]) {
                None => Err(invalid_param("Invalid columns value")),
                Some(cols) => if args.len() < 3 {
                    Err(invalid_param("No padding specified"))
                } else {
                    match u16_value(args[2]) {
                        None => Err(invalid_param("Invalid padding X value")),
                        Some(px) => {
                            let py = if args.len() < 4 {
                                Some(px)
                            } else {
                                u16_value(args[3])
                            };
                            match py {
                                None => Err(invalid_param("Invalid padding Y value")),
                                Some(py) => if cols == 0 {
                                    Err(invalid_param("Columns must be positive"))
                                } else if px == 0 {
                                    Err(invalid_param("Padding must be positive"))
                                } else {
                                    Ok(ActionView::Layout(Layout::Column(cols, (px, py))))
                                },
                            }
                        },
                    }
                },
            }
        },
        Layout::Unset => Err(invalid_param("Invalid layout type")),
    }
}

/// `duplicate` argument: the count, 1 by default
pub open spec fn spec_parse_duplicate(args: Seq<Seq<char>>) -> Result<ActionView, ErrorView> {
    match usize_value(arg_or(args, 0, "1"@)) {
        Some(n) => Ok(ActionView::Duplicate(n)),
        None => Err(invalid_param("Invalid count value")),
    }
}

/// `translate` arguments: absolute X and Y
pub open spec fn spec_parse_translate(args: Seq<Seq<char>>) -> Result<ActionView, ErrorView> {
    if args.len() < 1 {
        Err(invalid_param("No X specified"))
    } else {
        match i32_value(args[0]) {
            None => Err(invalid_param("Invalid X value")),
            Some(x) => if args.len() < 2 {
                Err(invalid_param("No Y specified"))
            } else {
                match i32_value(args[1]) {
                    None => Err(invalid_param("Invalid Y value")),
                    Some(y) => Ok(ActionView::Translate(Translation::Absolute(x, y, None))),
                }
            },
        }
    }
}

/// `help` argument: a topic, the first one by default
pub open spec fn spec_parse_help(args: Seq<Seq<char>>) -> Result<ActionView, ErrorView> {
    if args.len() > 0 {
        match spec_topic_index(args[0]) {
            Some(i) => Ok(ActionView::ShowHelp(i)),
            None => Err(execution_error("Invalid topic")),
        }
    } else {
        Ok(ActionView::ShowHelp(0))
    }
}

/// The action a command line names: its first word picks the command, the others are
/// its arguments
pub open spec fn spec_parse(words: Seq<Seq<char>>) -> Result<ActionView, ErrorView> {
    let kind = if words.len() == 0 {
        ActionKind::Noop
    } else {
        word_kind(words[0])
    };
    let args = if words.len() == 0 {
        Seq::empty()
    } else {
        words.drop_first()
    };
    match kind {
        ActionKind::New(force) => Ok(ActionView::New(force)),
        ActionKind::ClearBlank => Ok(ActionView::ClearBlank),
        ActionKind::Deselect => Ok(ActionView::Deselect),
        ActionKind::Tutorial => Ok(ActionView::Tutorial),
        ActionKind::Delete => Ok(ActionView::Delete),
        ActionKind::ToggleMetadata => Ok(ActionView::ToggleMetadata),
        ActionKind::Quit(q) => Ok(ActionView::SetMode(Mode::Quitting(q))),
        ActionKind::SetMetadata => spec_parse_set_metadata(args),
        ActionKind::Layout => spec_parse_layout(args),
        ActionKind::Duplicate => spec_parse_duplicate(args),
        ActionKind::Translate => spec_parse_translate(args),
        ActionKind::Write => Ok(
            ActionView::Write(
                if args.len() > 0 {
                    Some(args[0])
                } else {
                    None
                },
            ),
        ),
        ActionKind::Read => if args.len() > 0 {
            Ok(ActionView::Read(args[0]))
        } else {
            Err(invalid_param("No path specified"))
        },
        ActionKind::ShowHelp => spec_parse_help(args),
        ActionKind::Export => if args.len() > 0 {
            Ok(ActionView::Export(ExportFormat::Txt, args[0]))
        } else {
            Err(invalid_param("No path specified"))
        },
        ActionKind::Noop | ActionKind::WriteAndQuit => Err(ErrorView::InvalidCommand),
    }
}

/// Commands whose argument is a file path
pub open spec fn is_file_command(w: Seq<char>) -> bool {
    w == "export"@ || w == "read"@ || w == "write"@ || w == "w"@ || w == "r"@
}

/// The line after taking a completion for the argument of command `first`
pub open spec fn completed_line(first: Seq<char>, c: CompletionView) -> Seq<char> {
    match c {
        CompletionView::Filename(w) => first + seq![' '] + w,
        CompletionView::Parameter(w) => first + seq![' '] + w,
        CompletionView::Directory(d) => first + seq![' '] + d + seq!['/'],
    }
}

/// Line with `text`, the cursor at its end
pub open spec fn with_text(v: CmdView, text: Seq<char>) -> CmdView {
    CmdView { cmd: text, cursor: text.len() as usize, ..v }
}

/// Words of a list constant
pub open spec fn words_of(list: Seq<&str>) -> Seq<Seq<char>> {
    list.map_values(|s: &str| s@)
}

/// Completing the argument of `first` from a list
pub open spec fn complete_arg_from_list(
    v: CmdView,
    ac: AutoCompleteView,
    first: Seq<char>,
    last: Seq<char>,
    list: Seq<Seq<char>>,
) -> (CmdView, AutoCompleteView, Result<ActionView, ErrorView>) {
    let (a, c) = spec_complete_from_list(ac, last, list);
    match c {
        Some(comp) => (with_text(v, completed_line(first, comp)), a, Ok(ActionView::Noop)),
        None => (v, a, Ok(ActionView::Noop)),
    }
}

/// Tab completion of the line: a lone word completes to a command (kept behind the
/// line's directory part); the last argument of `read`, `write`, `export`, `set`, `help`
/// and `layout` completes to a path, metadata type, topic or layout.
pub open spec fn spec_auto_complete(
    v: CmdView,
    ac: AutoCompleteView,
    is_dir: bool,
    entries: Result<Seq<(Seq<char>, bool)>, ErrorView>,
) -> (CmdView, AutoCompleteView, Result<ActionView, ErrorView>) {
    let words = ascii_words(v.cmd);
    if words.len() == 1 {
        match first_with_prefix(action_words(), words[0], 0) {
            Some(i) => {
                let base = match parent_of(v.cmd) {
                    Some(p) => p,
                    None => Seq::empty(),
                };
                (with_text(v, base + action_words()[i]), ac, Ok(ActionView::Noop))
            },
            None => (v, ac, Ok(ActionView::Noop)),
        }
    } else if words.len() >= 2 {
        let first = words[0];
        let last = words.last();
        if is_file_command(first) {
            let (a, c) = spec_complete_filename(ac, last, is_dir, entries);
            match c {
                Err(e) => (v, a, Err(e)),
                Ok(None) => (v, a, Ok(ActionView::Noop)),
                Ok(Some(comp)) => (with_text(v, completed_line(first, comp)), a, Ok(ActionView::Noop)),
            }
        } else if first == "set"@ {
            complete_arg_from_list(v, ac, first, last, words_of(METADATA_TYPES@))
        } else if first == "help"@ {
            complete_arg_from_list(v, ac, first, last, crate::common::help_topics())
        } else if first == "layout"@ {
            complete_arg_from_list(v, ac, first, last, words_of(LAYOUT_WORDS@))
        } else {
            (v, ac, Ok(ActionView::Noop))
        }
    } else {
        (v, ac, Ok(ActionView::Noop))
    }
}

/// Effect of one input event on the line and its completions, and the action it gives.
/// Every event but a completion request drops the offered completions, and a result other
/// than `Noop` moves the line into the history.
pub open spec fn spec_input(
    v: CmdView,
    ac: AutoCompleteView,
    event: InputEvent,
    is_dir: bool,
    entries: Result<Seq<(Seq<char>, bool)>, ErrorView>,
) -> (CmdView, AutoCompleteView, Result<ActionView, ErrorView>) {
    let (v1, ac1, r) = match event.0 {
        Event::Cancel => (v, ac, Ok(ActionView::ReverseMode)),
        Event::Backspace => (spec_remove(v), ac, Ok(ActionView::Noop)),
        Event::ArrowUp => (spec_previous(v), ac, Ok(ActionView::Noop)),
        Event::ArrowDown => (spec_next(v), ac, Ok(ActionView::Noop)),
        Event::ArrowLeft => (spec_move_cursor(v, -1i32), ac, Ok(ActionView::Noop)),
        Event::ArrowRight => (spec_move_cursor(v, 1i32), ac, Ok(ActionView::Noop)),
        Event::Confirm => (CmdView { cursor: 0, ..v }, ac, spec_parse(ascii_words(v.cmd))),
        Event::SelectObject(_, false) => spec_auto_complete(v, ac, is_dir, entries),
        _ => match event.1 {
            Some(c) => (spec_append(v, c), ac, Ok(ActionView::Noop)),
            None => (v, ac, Ok(ActionView::Noop)),
        },
    };
    let ac2 = match event.0 {
        Event::SelectObject(_, false) => ac1,
        _ => AutoCompleteView { completions: Seq::empty(), index: None },
    };
    let v2 = if r == Ok::<ActionView, ErrorView>(ActionView::Noop) {
        v1
    } else {
        spec_flush(v1)
    };
    (v2, ac2, r)
}

/// Path that a completion request would complete against the disk, if any: the last
/// argument of a file command, unless completions are already being cycled
pub open spec fn spec_completion_path(v: CmdView, ac: AutoCompleteView) -> Option<Seq<char>> {
    let words = ascii_words(v.cmd);
    if words.len() >= 2 && is_file_command(words[0]) && ac.index is None {
        Some(words.last())
    } else {
        None
    }
}

/// Abstract command line: the text, the cursor, the history of entered lines and the
/// history entry recalled next
pub struct CmdView {
    pub cmd: Seq<char>,
    pub cursor: usize,
    pub history: Seq<Seq<char>>,
    pub history_index: Option<usize>,
}

impl CmdView {
    /// The cursor lies within the text and the recalled entry exists
    pub open spec fn wf(self) -> bool {
        &&& self.cursor <= self.cmd.len()
        &&& match self.history_index {
            Some(i) => i < self.history.len(),
            None => true,
        }
    }
}

/// The line goes into the history and the line is emptied
pub open spec fn spec_flush(v: CmdView) -> CmdView {
    CmdView {
        cmd: Seq::empty(),
        cursor: 0,
        history: v.history.push(v.cmd),
        history_index: Some(v.history.len() as usize),
    }
}

/// Cursor moved by `diff` when it stays within the text
pub open spec fn spec_move_cursor(v: CmdView, diff: i32) -> CmdView {
    let n = offset_by(v.cursor, diff);
    if 0 <= n <= v.cmd.len() {
        CmdView { cursor: n as usize, ..v }
    } else {
        v
    }
}

/// Recalls the history entry due and steps back towards the oldest one
pub open spec fn spec_previous(v: CmdView) -> CmdView {
    if v.history.len() == 0 {
        v
    } else {
        let i = match v.history_index {
            Some(i) => i,
            None => (v.history.len() - 1) as usize,
        };
        CmdView {
            cmd: v.history[i as int],
            cursor: v.history[i as int].len() as usize,
            history: v.history,
            history_index: Some(
                if i > 0 {
                    (i - 1) as usize
                } else {
                    i
                },
            ),
        }
    }
}

/// The line entered last is the first one recalled, with the cursor at its end
pub proof fn previous_recalls_flushed(v: CmdView)
    requires
        v.history.len() < usize::MAX,
        v.cmd.len() <= usize::MAX,
    ensures
        spec_previous(spec_flush(v)).cmd == v.cmd,
        spec_previous(spec_flush(v)).cursor == v.cmd.len(),
        spec_previous(spec_flush(v)).history == v.history.push(v.cmd),
{
}

/// Recalls the newer history entry, or empties the line past the newest one
pub open spec fn spec_next(v: CmdView) -> CmdView {
    match v.history_index {
        None => v,
        Some(i) => if i + 1 < v.history.len() {
            CmdView {
                cmd: v.history[i + 1],
                cursor: v.history[i + 1].len() as usize,
                history: v.history,
                history_index: Some((i + 1) as usize),
            }
        } else {
            CmdView { cmd: Seq::empty(), cursor: 0, history: v.history, history_index: None }
        },
    }
}

/// `c` inserted at the cursor, which moves past it
pub open spec fn spec_append(v: CmdView, c: char) -> CmdView {
    CmdView { cmd: v.cmd.insert(v.cursor as int, c), cursor: (v.cursor + 1) as usize, ..v }
}

/// The character before the cursor removed (the last one with the cursor at the end)
pub open spec fn spec_remove(v: CmdView) -> CmdView {
    let cmd = if v.cursor == v.cmd.len() {
        if v.cmd.len() > 0 {
            v.cmd.drop_last()
        } else {
            v.cmd
        }
    } else if v.cursor > 0 {
        v.cmd.remove(v.cursor - 1)
    } else {
        v.cmd
    };
    CmdView {
        cmd,
        cursor: if v.cursor > 0 {
            (v.cursor - 1) as usize
        } else {
            0
        },
        ..v
    }
}

/// Command line with history, cursor and completion
pub struct CmdLine {
    cmd: Vec<char>,
    cursor_pos: usize,
    history: Vec<String>,
    history_index: Option<usize>,
    auto_complete: AutoComplete,
}

impl View for CmdLine {
    type V = CmdView;

    closed spec fn view(&self) -> CmdView {
        CmdView {
            cmd: self.cmd@,
            cursor: self.cursor_pos,
            history: Seq::new(self.history@.len(), |i: int| self.history@[i]@),
            history_index: self.history_index,
        }
    }
}

impl CmdLine {
    /// Completion state
    pub closed spec fn completion(&self) -> AutoCompleteView {
        self.auto_complete@
    }

    pub open spec fn wf(&self) -> bool {
        self@.wf() && self.completion().wf()
    }

    /// Empty line, no history
    pub fn default_cmdline() -> (r: CmdLine)
        ensures
            r.wf(),
            r@.cmd.len() == 0,
            r@.cursor == 0,
            r@.history.len() == 0,
            r@.history_index is None,
            r.completion().completions.len() == 0,
            r.completion().index is None,
    {
        let r = CmdLine {
            cmd: Vec::new(),
            cursor_pos: 0,
            history: Vec::new(),
            history_index: None,
            auto_complete: AutoComplete::new(),
        };
        assert(r@.history =~= Seq::<Seq<char>>::empty());
        r
    }

    /// The text typed
    pub fn cmd(&self) -> (r: String)
        ensures
            r@ == self@.cmd,
    {
        string_of(&self.cmd)
    }

    /// Cursor position within the text
    pub fn cursor_pos(&self) -> (r: usize)
        ensures
            r == self@.cursor,
    {
        self.cursor_pos
    }

    /// Metadata arguments from word `from` on
    fn parse_set_metadata(words: &Vec<String>) -> (r: Result<Action, Error>)
        requires
            words@.len() > 0,
        ensures
            crate::common::action_result(r) == spec_parse_set_metadata(
                Seq::new(words@.len(), |i: int| words@[i]@).drop_first(),
            ),
    {
        let ghost args = Seq::new(words@.len(), |i: int| words@[i]@).drop_first();
        if words.len() < 2 {
            return Err(Error::execution("No metadata type specified"));
        }
        assert(args[0] == words@[1]@);
        if str_equal(words[1].as_str(), "id") {
            let mt = if words.len() > 2 {
                assert(args[1] == words@[2]@);
                MetadataType::parse_id(words[2].as_str())
            } else {
                MetadataType::parse_id("none")
            };
            match mt {
                Ok(m) => Ok(Action::SetMetadata(m)),
                Err(e) => Err(e),
            }
        } else if str_equal(words[1].as_str(), "labels") {
            let mt = if words.len() > 2 {
                assert(args[1] == words@[2]@);
                MetadataType::parse_labels(words[2].as_str())
            } else {
                proof {
                    reveal_strlit("");
                }
                MetadataType::parse_labels("")
            };
            match mt {
                Ok(m) => Ok(Action::SetMetadata(m)),
                Err(e) => Err(e),
            }
        } else {
            Err(Error::execution("Invalid metadata type"))
        }
    }

    fn parse_layout(words: &Vec<String>) -> (r: Result<Action, Error>)
        requires
            words@.len() > 0,
        ensures
            crate::common::action_result(r) == spec_parse_layout(
                Seq::new(words@.len(), |i: int| words@[i]@).drop_first(),
            ),
    {
        let ghost args = Seq::new(words@.len(), |i: int| words@[i]@).drop_first();
        let layout = if words.len() > 1 {
            assert(args[0] == words@[1]@);
            Layout::from_word(words[1].as_str())
        } else {
            Layout::from_word("none")
        };
        match layout {
            Layout::Random => Ok(Action::Layout(Layout::Random)),
            Layout::Column(_, _) => {
                if words.len() < 3 {
                    return Err(Error::InvalidParam("No columns specified"));
                }
                assert(args[1] == words@[2]@);
                let cols = match parse_usize(words[2].as_str()) {
                    Some(c) => c,
                    None => {
                        return Err(Error::InvalidParam("Invalid columns value"));
                    },
                };
                if words.len() < 4 {
                    return Err(Error::InvalidParam("No padding specified"));
                }
                assert(args[2] == words@[3]@);
                let padding_x = match parse_u16(words[3].as_str()) {
                    Some(p) => p,
                    None => {
                        return Err(Error::InvalidParam("Invalid padding X value"));
                    },
                };
                let padding_y = if words.len() < 5 {
                    padding_x
                } else {
                    assert(args[3] == words@[4]@);
                    match parse_u16(words[4].as_str()) {
                        Some(p) => p,
                        None => {
                            return Err(Error::InvalidParam("Invalid padding Y value"));
                        },
                    }
                };
                if cols == 0 {
                    return Err(Error::InvalidParam("Columns must be positive"));
                }
                if padding_x == 0 {
                    return Err(Error::InvalidParam("Padding must be positive"));
                }
                Ok(Action::Layout(Layout::Column(cols, (padding_x, padding_y))))
            },
            Layout::Unset => Err(Error::InvalidParam("Invalid layout type")),
        }
    }

    fn parse_duplicate(words: &Vec<String>) -> (r: Result<Action, Error>)
        requires
            words@.len() > 0,
        ensures
            crate::common::action_result(r) == spec_parse_duplicate(
                Seq::new(words@.len(), |i: int| words@[i]@).drop_first(),
            ),
    {
        let ghost args = Seq::new(words@.len(), |i: int| words@[i]@).drop_first();
        let count = if words.len() > 1 {
            assert(args[0] == words@[1]@);
            parse_usize(words[1].as_str())
        } else {
            parse_usize("1")
        };
        match count {
            Some(n) => Ok(Action::Duplicate(n)),
            None => Err(Error::InvalidParam("Invalid count value")),
        }
    }

    fn parse_translate(words: &Vec<String>) -> (r: Result<Action, Error>)
        requires
            words@.len() > 0,
        ensures
            crate::common::action_result(r) == spec_parse_translate(
                Seq::new(words@.len(), |i: int| words@[i]@).drop_first(),
            ),
    {
        let ghost args = Seq::new(words@.len(), |i: int| words@[i]@).drop_first();
        if words.len() < 2 {
            return Err(Error::InvalidParam("No X specified"));
        }
        assert(args[0] == words@[1]@);
        let x = match parse_i32(words[1].as_str()) {
            Some(v) => v,
            None => {
                return Err(Error::InvalidParam("Invalid X value"));
            },
        };
        if words.len() < 3 {
            return Err(Error::InvalidParam("No Y specified"));
        }
        assert(args[1] == words@[2]@);
        let y = match parse_i32(words[2].as_str()) {
            Some(v) => v,
            None => {
                return Err(Error::InvalidParam("Invalid Y value"));
            },
        };
        Ok(Action::Translate(Translation::Absolute(x, y, None)))
    }

    fn parse_help(words: &Vec<String>) -> (r: Result<Action, Error>)
        requires
            words@.len() > 0,
        ensures
            crate::common::action_result(r) == spec_parse_help(
                Seq::new(words@.len(), |i: int| words@[i]@).drop_first(),
            ),
    {
        let ghost args = Seq::new(words@.len(), |i: int| words@[i]@).drop_first();
        if words.len() > 1 {
            assert(args[0] == words@[1]@);
            match topic_index(words[1].as_str()) {
                Some(i) => Ok(Action::ShowHelp(i)),
                None => Err(Error::execution("Invalid topic")),
            }
        } else {
            Ok(Action::ShowHelp(0))
        }
    }

    /// The action the words name
    pub fn parse_words(words: &Vec<String>) -> (r: Result<Action, Error>)
        ensures
            crate::common::action_result(r) == spec_parse(
                Seq::new(words@.len(), |i: int| words@[i]@),
            ),
    {
        let ghost ws = Seq::new(words@.len(), |i: int| words@[i]@);
        if words.len() == 0 {
            return Err(Error::InvalidCommand);
        }
        assert(ws[0] == words@[0]@);
        let ghost args = ws.drop_first();
        match Action::word_kind_of(words[0].as_str()) {
            ActionKind::New(force) => Ok(Action::New(force)),
            ActionKind::ClearBlank => Ok(Action::ClearBlank),
            ActionKind::Deselect => Ok(Action::Deselect),
            ActionKind::Tutorial => Ok(Action::Tutorial),
            ActionKind::Delete => Ok(Action::Delete),
            ActionKind::ToggleMetadata => Ok(Action::ToggleMetadata),
            ActionKind::Quit(q) => Ok(Action::SetMode(Mode::Quitting(q))),
            ActionKind::SetMetadata => Self::parse_set_metadata(words),
            ActionKind::Layout => Self::parse_layout(words),
            ActionKind::Duplicate => Self::parse_duplicate(words),
            ActionKind::Translate => Self::parse_translate(words),
            ActionKind::Write => {
                if words.len() > 1 {
                    assert(args[0] == words@[1]@);
                    Ok(Action::Write(Some(words[1].clone())))
                } else {
                    Ok(Action::Write(None))
                }
            },
            ActionKind::Read => {
                if words.len() > 1 {
                    assert(args[0] == words@[1]@);
                    Ok(Action::Read(words[1].clone()))
                } else {
                    Err(Error::InvalidParam("No path specified"))
                }
            },
            ActionKind::ShowHelp => Self::parse_help(words),
            ActionKind::Export => {
                if words.len() > 1 {
                    assert(args[0] == words@[1]@);
                    Ok(Action::Export(ExportFormat::default_format(), words[1].clone()))
                } else {
                    Err(Error::InvalidParam("No path specified"))
                }
            },
            ActionKind::Noop | ActionKind::WriteAndQuit => Err(Error::InvalidCommand),
        }
    }

    /// Parses the line into an action; the cursor goes to the start
    fn parse(&mut self) -> (r: Result<Action, Error>)
        requires
            old(self).wf(),
        ensures
            final(self).wf(),
            final(self)@ == (CmdView { cursor: 0, ..old(self)@ }),
            final(self).completion() == old(self).completion(),
            crate::common::action_result(r) == spec_parse(ascii_words(old(self)@.cmd)),
    {
        self.cursor_pos = 0;
        let words = split_words(&self.cmd);
        assert(Seq::new(words@.len(), |i: int| words@[i]@) =~= ascii_words(self.cmd@));
        Self::parse_words(&words)
    }

    fn is_file_command_word(w: &str) -> (r: bool)
        ensures
            r == is_file_command(w@),
    {
        str_equal(w, "export") || str_equal(w, "read") || str_equal(w, "write") || str_equal(w, "w")
            || str_equal(w, "r")
    }

    fn take_completion(&mut self, first: &String, c: &Completion)
        requires
            old(self).wf(),
        ensures
            final(self).wf(),
            final(self)@ == with_text(old(self)@, completed_line(first@, c@)),
            final(self).completion() == old(self).completion(),
    {
        proof {
            reveal_strlit(" ");
            reveal_strlit("/");
        }
        let mut text = first.clone();
        text.append(" ");
        match c {
            Completion::Filename(w) => {
                text.append(w.as_str());
                assert(text@ =~= first@ + seq![' '] + w@);
            },
            Completion::Parameter(w) => {
                text.append(w.as_str());
                assert(text@ =~= first@ + seq![' '] + w@);
            },
            Completion::Directory(d) => {
                text.append(d.as_str());
                text.append("/");
                assert(text@ =~= first@ + seq![' '] + d@ + seq!['/']);
            },
        }
        self.set_cmd(&text);
    }

    /// Path the next completion request completes against the disk, if any
    pub fn completion_path(&self) -> (r: Option<String>)
        ensures
            crate::common::fio::opt_chars(r) == spec_completion_path(self@, self.completion()),
    {
        let words = split_words(&self.cmd);
        assert(Seq::new(words@.len(), |i: int| words@[i]@) =~= ascii_words(self.cmd@));
        if words.len() >= 2 && Self::is_file_command_word(words[0].as_str())
            && self.auto_complete.index_is_none() {
            Some(words[words.len() - 1].clone())
        } else {
            None
        }
    }

    fn auto_complete(&mut self, listing: &FileListing) -> (r: Result<Action, Error>)
        requires
            old(self).wf(),
        ensures
            final(self).wf(),
            ({
                let entries = match listing.entries {
                    Ok(es) => Ok(entries_view(es@)),
                    Err(e) => Err(e@),
                };
                let (v, a, res) = spec_auto_complete(
                    old(self)@,
                    old(self).completion(),
                    listing.is_dir,
                    entries,
                );
                &&& final(self)@ == v
                &&& final(self).completion() == a
                &&& crate::common::action_result(r) == res
            }),
    {
        let words = split_words(&self.cmd);
        let ghost ws = Seq::new(words@.len(), |i: int| words@[i]@);
        assert(ws =~= ascii_words(self.cmd@));
        if words.len() == 1 {
            assert(ws[0] == words@[0]@);
            if let Some(cmd) = Action::complete_word(words[0].as_str()) {
                let line = string_of(&self.cmd);
                let mut text = path_base(line.as_str());
                text.append(cmd);
                self.set_cmd(&text);
            }
            return Ok(Action::Noop);
        }
        if words.len() < 2 {
            return Ok(Action::Noop);
        }
        let first = &words[0];
        let last = &words[words.len() - 1];
        assert(ws[0] == first@);
        assert(ws.last() == last@);
        if Self::is_file_command_word(first.as_str()) {
            let c = match self.auto_complete.complete_filename(last.as_str(), listing) {
                Ok(Some(c)) => c.duplicate(),
                Ok(None) => {
                    return Ok(Action::Noop);
                },
                Err(e) => {
                    return Err(e);
                },
            };
            self.take_completion(first, &c);
            Ok(Action::Noop)
        } else {
            let found = if str_equal(first.as_str(), "set") {
                let list: [&'static str; 2] = ["id", "labels"];
                assert(list@ =~= METADATA_TYPES@);
                match self.auto_complete.complete_from_list(last.as_str(), &list) {
                    Some(c) => Some(c.duplicate()),
                    None => None,
                }
            } else if str_equal(first.as_str(), "help") {
                match self.auto_complete.complete_help_topic(last.as_str()) {
                    Some(c) => Some(c.duplicate()),
                    None => None,
                }
            } else if str_equal(first.as_str(), "layout") {
                let list: [&'static str; 2] = ["column", "random"];
                assert(list@ =~= LAYOUT_WORDS@);
                match self.auto_complete.complete_from_list(last.as_str(), &list) {
                    Some(c) => Some(c.duplicate()),
                    None => None,
                }
            } else {
                None
            };
            if let Some(c) = found {
                self.take_completion(first, &c);
            }
            Ok(Action::Noop)
        }
    }

    /// Handles an input event; `listing` is what was found on disk for
    /// `completion_path` (any value when that is `None`)
    pub fn input(&mut self, event: InputEvent, listing: &FileListing) -> (r: Result<Action, Error>)
        requires
            old(self).wf(),
            old(self)@.history.len() < usize::MAX,
            old(self)@.cmd.len() < usize::MAX,
        ensures
            final(self).wf(),
            ({
                let entries = match listing.entries {
                    Ok(es) => Ok(entries_view(es@)),
                    Err(e) => Err(e@),
                };
                let (v, a, res) = spec_input(
                    old(self)@,
                    old(self).completion(),
                    event,
                    listing.is_dir,
                    entries,
                );
                &&& final(self)@ == v
                &&& final(self).completion() == a
                &&& crate::common::action_result(r) == res
            }),
    {
        let mut clear_ac = true;
        let result = match event.0 {
            Event::Cancel => Ok(Action::ReverseMode),
            Event::Backspace => self.remove(),
            Event::ArrowUp => self.previous(),
            Event::ArrowDown => self.next(),
            Event::ArrowLeft => self.move_cursor(-1),
            Event::ArrowRight => self.move_cursor(1),
            Event::Confirm => self.parse(),
            Event::SelectObject(_, false) => {
                clear_ac = false;
                self.auto_complete(listing)
            },
            _ => {
                if let Some(c) = event.1 {
                    self.append(c)
                } else {
                    Ok(Action::Noop)
                }
            },
        };
        if clear_ac {
            self.auto_complete.clear();
            assert(self.completion().completions =~= Seq::<CompletionView>::empty());
        }
        let is_noop = match &result {
            Ok(Action::Noop) => true,
            _ => false,
        };
        assert(is_noop == (crate::common::action_result(result) == Ok::<ActionView, ErrorView>(
            ActionView::Noop,
        )));
        assert(self@.history == old(self)@.history);
        if !is_noop {
            self.flush();
        }
        result
    }

    fn flush(&mut self)
        requires
            old(self).wf(),
            old(self)@.history.len() < usize::MAX,
        ensures
            final(self).wf(),
            final(self)@ == spec_flush(old(self)@),
            final(self).completion() == old(self).completion(),
    {
        let line = string_of(&self.cmd);
        let ghost h = self@.history;
        self.history.push(line);
        assert(self@.history =~= h.push(old(self)@.cmd));
        self.history_index = Some(self.history.len() - 1);
        self.cmd = Vec::new();
        self.cursor_pos = 0;
    }

    fn move_cursor(&mut self, diff: i32) -> (r: Result<Action, Error>)
        requires
            old(self).wf(),
        ensures
            final(self).wf(),
            final(self)@ == spec_move_cursor(old(self)@, diff),
            final(self).completion() == old(self).completion(),
            r matches Ok(Action::Noop),
    {
        if let Some(new_pos) = add_max(self.cursor_pos, diff, self.cmd.len()) {
            self.cursor_pos = new_pos;
        }
        Ok(Action::Noop)
    }

    fn set_cmd(&mut self, text: &String)
        requires
            old(self).wf(),
        ensures
            final(self).wf(),
            final(self)@ == (CmdView { cmd: text@, cursor: text@.len() as usize, ..old(self)@ }),
            final(self).completion() == old(self).completion(),
    {
        self.cmd = crate::common::text::chars_of(text.as_str());
        self.cursor_pos = self.cmd.len();
    }

    fn previous(&mut self) -> (r: Result<Action, Error>)
        requires
            old(self).wf(),
        ensures
            final(self).wf(),
            final(self)@ == spec_previous(old(self)@),
            final(self).completion() == old(self).completion(),
            r matches Ok(Action::Noop),
    {
        if self.history.len() > 0 {
            if self.history_index.is_none() {
                self.history_index = Some(self.history.len() - 1);
            }
            if let Some(index) = self.history_index {
                let entry = self.history[index].clone();
                self.set_cmd(&entry);
                if index > 0 {
                    self.history_index = Some(index - 1);
                }
            }
        }
        Ok(Action::Noop)
    }

    fn next(&mut self) -> (r: Result<Action, Error>)
        requires
            old(self).wf(),
        ensures
            final(self).wf(),
            final(self)@ == spec_next(old(self)@),
            final(self).completion() == old(self).completion(),
            r matches Ok(Action::Noop),
    {
        if let Some(index) = self.history_index {
            if index < self.history.len() - 1 {
                let entry = self.history[index + 1].clone();
                self.set_cmd(&entry);
                self.history_index = Some(index + 1);
            } else {
                self.cmd = Vec::new();
                self.cursor_pos = 0;
                self.history_index = None;
            }
        }
        Ok(Action::Noop)
    }

    fn append(&mut self, c: char) -> (r: Result<Action, Error>)
        requires
            old(self).wf(),
            old(self)@.cmd.len() < usize::MAX,
        ensures
            final(self).wf(),
            final(self)@ == spec_append(old(self)@, c),
            final(self).completion() == old(self).completion(),
            r matches Ok(Action::Noop),
    {
        if self.cursor_pos != self.cmd.len() {
            self.cmd.insert(self.cursor_pos, c);
        } else {
            self.cmd.push(c);
            assert(self.cmd@ =~= old(self).cmd@.insert(old(self).cursor_pos as int, c));
        }
        self.cursor_pos = self.cursor_pos + 1;
        Ok(Action::Noop)
    }

    fn remove(&mut self) -> (r: Result<Action, Error>)
        requires
            old(self).wf(),
        ensures
            final(self).wf(),
            final(self)@ == spec_remove(old(self)@),
            final(self).completion() == old(self).completion(),
            r matches Ok(Action::Noop),
    {
        if self.cursor_pos == self.cmd.len() {
            if self.cmd.len() > 0 {
                self.cmd.pop();
            }
        } else if self.cursor_pos > 0 {
            self.cmd.remove(self.cursor_pos - 1);
        }
        if self.cursor_pos > 0 {
            self.cursor_pos = self.cursor_pos - 1;
        }
        Ok(Action::Noop)
    }
}

} // verus!
