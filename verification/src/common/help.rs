use crate::common::str_equal;
use vstd::prelude::*;

verus! {

/// Help topics, in the order of their pages
pub const HELP_TOPICS: [&'static str; 4] = ["overview", "commands", "modes", "keys"];

/// The help topics as text
pub open spec fn help_topics() -> Seq<Seq<char>> {
    seq!["overview"@, "commands"@, "modes"@, "keys"@]
}

/// Page of a help topic
pub open spec fn spec_topic_index(word: Seq<char>) -> Option<usize> {
    if word == "overview"@ {
        Some(0)
    } else if word == "commands"@ {
        Some(1)
    } else if word == "modes"@ {
        Some(2)
    } else if word == "keys"@ {
        Some(3)
    } else {
        None
    }
}

/// Page of the help topic named `word`
pub fn topic_index(word: &str) -> (r: Option<usize>)
    ensures
        r == spec_topic_index(word@),
{
    if str_equal(word, "overview") {
        Some(0)
    } else if str_equal(word, "commands") {
        Some(1)
    } else if str_equal(word, "modes") {
        Some(2)
    } else if str_equal(word, "keys") {
        Some(3)
    } else {
        None
    }
}

} // verus!
