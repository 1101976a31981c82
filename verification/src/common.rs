mod action;
mod clipboard;
mod help;
mod input;
mod mode;
pub mod text;

pub mod fio;
pub mod loader;
pub mod program;
pub mod selected_info;
pub mod texel;

pub use action::{
    action_result, action_words, label_pair, metadata_result, opt_text, spec_labels, spec_parse_id,
    spec_parse_labels, word_kind, Action, ActionKind, ActionView, Layout, MetadataType, MetadataView,
    LAYOUT_WORDS, METADATA_TYPES,
};
pub use clipboard::{Clipboard, ClipboardOp, ClipboardView};
pub use help::{help_topics, spec_topic_index, topic_index, HELP_TOPICS};
pub use input::{
    default_entries, default_key_rank, entries_map, filled, filled_defaults_bind_every_default_event, has_value, CharMap,
    Event, InputEvent, ModesCharMap, MoveMeta, Overrides,
};
pub use mode::{Mode, OnQuit, SelectMode, MODE_COUNT};

use vstd::prelude::*;

verus! {

/// Editor error, shown on the status line.
#[derive(Debug, Clone, PartialEq, Eq)]
pub enum Error {
    InvalidCommand,
    InvalidParam(&'static str),
    ExecutionError(String),
}

/// Abstract error: the messages as character sequences
pub enum ErrorView {
    InvalidCommand,
    InvalidParam(Seq<char>),
    ExecutionError(Seq<char>),
}

impl View for Error {
    type V = ErrorView;

    open spec fn view(&self) -> ErrorView {
        match self {
            Error::InvalidCommand => ErrorView::InvalidCommand,
            Error::InvalidParam(p) => ErrorView::InvalidParam(p@),
            Error::ExecutionError(m) => ErrorView::ExecutionError(m@),
        }
    }
}

/// Text of an error as shown to the user
pub open spec fn error_text(e: ErrorView) -> Seq<char> {
    match e {
        ErrorView::InvalidCommand => "Error: Invalid command"@,
        ErrorView::InvalidParam(p) => "Error: "@ + p,
        ErrorView::ExecutionError(m) => "Error: "@ + m,
    }
}

impl Error {
    /// Text of the error as shown to the user
    pub fn to_string(&self) -> (r: String)
        ensures
            r@ == error_text(self@),
    {
        match self {
            Error::InvalidCommand => String::from_str("Error: Invalid command"),
            Error::InvalidParam(p) => {
                let mut s = String::from_str("Error: ");
                crate::common::text::append(&mut s, p);
                s
            },
            Error::ExecutionError(m) => {
                let mut s = String::from_str("Error: ");
                crate::common::text::append(&mut s, m.as_str());
                s
            },
        }
    }

    /// Copy of the error
    pub fn duplicate(&self) -> (r: Error)
        ensures
            r@ == self@,
    {
        match self {
            Error::InvalidCommand => Error::InvalidCommand,
            Error::InvalidParam(p) => Error::InvalidParam(p),
            Error::ExecutionError(m) => Error::ExecutionError(m.clone()),
        }
    }

    /// Builds an execution error carrying the given message.
    pub fn execution(src: &'static str) -> (e: Self)
        ensures
            e matches Error::ExecutionError(msg) && msg@ == src@,
    {
        Error::ExecutionError(String::from_str(src))
    }
}

/// Whether two strings hold the same characters
pub fn str_equal(a: &str, b: &str) -> (r: bool)
    ensures
        r == (a@ == b@),
{
    let n = a.unicode_len();
    let m = b.unicode_len();
    if n != m {
        return false;
    }
    let mut i: usize = 0;
    while i < n
        invariant
            n == a@.len(),
            m == b@.len(),
            n == m,
            i <= n,
            forall|j: int| 0 <= j < i ==> a@[j] == b@[j],
        decreases n - i,
    {
        if a.get_char(i) != b.get_char(i) {
            return false;
        }
        i = i + 1;
    }
    assert(a@ =~= b@);
    true
}

/// The value `u + i` as a mathematical integer.
pub open spec fn offset_by(u: usize, i: i32) -> int {
    u as int + i as int
}

/// Adds the signed `i` to `u`; the result must stay within `0..=m`.
pub fn add_max(u: usize, i: i32, m: usize) -> (r: Option<usize>)
    ensures
        r == (if 0 <= offset_by(u, i) <= m { Some(offset_by(u, i) as usize) } else { None::<usize> }),
{
    let result: Option<usize> = if i < 0 {
        let magnitude: usize = (-(i as i64)) as usize;
        u.checked_sub(magnitude)
    } else {
        u.checked_add(i as usize)
    };

    if let Some(val) = result {
        if val > m {
            return None;
        }
    }

    result
}

/// Palette index to the digit shown for it: 0..=8 show as 1..=9, 9 shows as 0.
pub open spec fn spec_index_from_one(index: usize) -> i32 {
    if index <= 8 {
        (index + 1) as i32
    } else if index == 9 {
        0
    } else {
        index as i32
    }
}

pub fn index_from_one(index: usize) -> (r: i32)
    ensures
        r == spec_index_from_one(index),
{
    if index <= 8 {
        (index + 1) as i32
    } else if index == 9 {
        0
    } else {
        index as i32
    }
}

} // verus!
