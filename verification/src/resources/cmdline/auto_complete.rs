use crate::common::fio::{file_name_of, joined, parent_of, path_file_name, path_join, path_parent};
use crate::common::text::{starts_with, string_of};
use crate::common::{Error, ErrorView};
use vstd::prelude::*;

verus! {

/// A completion offered for the word being typed
pub enum Completion {
    Filename(String),
    Directory(String),
    Parameter(String),
}

/// Abstract completion
pub enum CompletionView {
    Filename(Seq<char>),
    Directory(Seq<char>),
    Parameter(Seq<char>),
}

impl View for Completion {
    type V = CompletionView;

    open spec fn view(&self) -> CompletionView {
        match self {
            Completion::Filename(s) => CompletionView::Filename(s@),
            Completion::Directory(s) => CompletionView::Directory(s@),
            Completion::Parameter(s) => CompletionView::Parameter(s@),
        }
    }
}

impl Completion {
    /// Copy of the completion
    pub fn duplicate(&self) -> (r: Completion)
        ensures
            r@ == self@,
    {
        match self {
            Completion::Filename(s) => Completion::Filename(s.clone()),
            Completion::Directory(s) => Completion::Directory(s.clone()),
            Completion::Parameter(s) => Completion::Parameter(s.clone()),
        }
    }
}

/// What the program around the library found on disk for a filename completion: whether
/// the typed path is a directory, and the entries (name, is a directory) of the directory
/// to look in: the path itself if it is one, else its parent.
pub struct FileListing {
    pub is_dir: bool,
    pub entries: Result<Vec<(String, bool)>, Error>,
}

/// Abstract completion state: the completions offered and the one shown
pub struct AutoCompleteView {
    pub completions: Seq<CompletionView>,
    pub index: Option<usize>,
}

/// Next completion to show when cycling: the one after `i`, wrapping to the first
pub open spec fn cycled(len: nat, i: usize) -> usize {
    if i + 1 < len {
        (i + 1) as usize
    } else {
        0
    }
}

/// The words of `list` that `word` begins, in order
pub open spec fn prefixed(list: Seq<Seq<char>>, word: Seq<char>) -> Seq<Seq<char>>
    decreases list.len(),
{
    if list.len() == 0 {
        Seq::empty()
    } else {
        let rest = prefixed(list.drop_last(), word);
        if word.is_prefix_of(list.last()) {
            rest.push(list.last())
        } else {
            rest
        }
    }
}

/// Completions for the entries of a directory whose names `name` begins, each joined
/// onto `base`
pub open spec fn file_completions(
    entries: Seq<(Seq<char>, bool)>,
    base: Seq<char>,
    name: Seq<char>,
) -> Seq<CompletionView>
    decreases entries.len(),
{
    if entries.len() == 0 {
        Seq::empty()
    } else {
        let rest = file_completions(entries.drop_last(), base, name);
        let (n, is_dir) = entries.last();
        if name.is_prefix_of(n) {
            rest.push(
                if is_dir {
                    CompletionView::Directory(joined(base, n))
                } else {
                    CompletionView::Filename(joined(base, n))
                },
            )
        } else {
            rest
        }
    }
}

/// Abstract directory entries
pub open spec fn entries_view(entries: Seq<(String, bool)>) -> Seq<(Seq<char>, bool)> {
    Seq::new(entries.len(), |i: int| (entries[i].0@, entries[i].1))
}

/// Base the completed names are joined onto: the typed directory, else the typed path's
/// parent
pub open spec fn completion_base(raw: Seq<char>, is_dir: bool) -> Seq<char> {
    if is_dir {
        raw
    } else {
        match parent_of(raw) {
            Some(p) => p,
            None => Seq::empty(),
        }
    }
}

/// Start of the names to complete: nothing in a typed directory, else the typed file name
pub open spec fn completion_name(raw: Seq<char>, is_dir: bool) -> Seq<char> {
    if is_dir {
        Seq::empty()
    } else {
        match file_name_of(raw) {
            Some(n) => n,
            None => Seq::empty(),
        }
    }
}

/// Offered completions after finding `found`, and what is shown
pub open spec fn offer(found: Seq<CompletionView>) -> (AutoCompleteView, Option<CompletionView>) {
    if found.len() > 0 {
        (AutoCompleteView { completions: found, index: Some(0) }, Some(found[0]))
    } else {
        (AutoCompleteView { completions: found, index: None }, None)
    }
}

/// Completion state and shown completion after moving to the next offered one
pub open spec fn spec_cycle(ac: AutoCompleteView) -> (AutoCompleteView, Option<CompletionView>) {
    match ac.index {
        Some(i) => {
            let n = cycled(ac.completions.len(), i);
            (AutoCompleteView { completions: ac.completions, index: Some(n) }, Some(ac.completions[n as int]))
        },
        None => (ac, None),
    }
}

/// Completing `word` from a list of words
pub open spec fn spec_complete_from_list(
    ac: AutoCompleteView,
    word: Seq<char>,
    list: Seq<Seq<char>>,
) -> (AutoCompleteView, Option<CompletionView>) {
    if ac.index is Some {
        spec_cycle(ac)
    } else {
        offer(prefixed(list, word).map_values(|w: Seq<char>| CompletionView::Parameter(w)))
    }
}

/// Completing the typed path `raw` against what was found on disk
pub open spec fn spec_complete_filename(
    ac: AutoCompleteView,
    raw: Seq<char>,
    is_dir: bool,
    entries: Result<Seq<(Seq<char>, bool)>, ErrorView>,
) -> (AutoCompleteView, Result<Option<CompletionView>, ErrorView>) {
    if ac.index is Some {
        let (a, c) = spec_cycle(ac);
        (a, Ok(c))
    } else {
        match entries {
            Err(e) => (ac, Err(e)),
            Ok(es) => {
                let (a, c) = offer(
                    file_completions(es, completion_base(raw, is_dir), completion_name(raw, is_dir)),
                );
                (a, Ok(c))
            },
        }
    }
}

/// Completions offered for the word being typed, cycled through on repeated requests
pub struct AutoComplete {
    completions: Vec<Completion>,
    index: Option<usize>,
}

impl View for AutoComplete {
    type V = AutoCompleteView;

    closed spec fn view(&self) -> AutoCompleteView {
        AutoCompleteView {
            completions: Seq::new(self.completions@.len(), |i: int| self.completions@[i]@),
            index: self.index,
        }
    }
}

impl AutoCompleteView {
    /// Nothing is offered unless a completion is shown, and the shown one exists.
    pub open spec fn wf(self) -> bool {
        match self.index {
            None => self.completions.len() == 0,
            Some(i) => i < self.completions.len(),
        }
    }
}

impl AutoComplete {
    /// Whether no completion is being shown
    pub fn index_is_none(&self) -> (r: bool)
        ensures
            r == (self@.index is None),
    {
        self.index.is_none()
    }

    /// Nothing offered
    pub fn new() -> (r: Self)
        ensures
            r@.completions.len() == 0,
            r@.index is None,
    {
        let r = AutoComplete { completions: Vec::new(), index: None };
        assert(r@.completions =~= Seq::<CompletionView>::empty());
        r
    }

    /// Drops the offered completions
    pub fn clear(&mut self)
        ensures
            final(self)@.completions.len() == 0,
            final(self)@.index is None,
    {
        self.completions.clear();
        self.index = None;
    }

    fn cycle(&mut self) -> (r: Option<&Completion>)
        requires
            old(self)@.wf(),
            old(self)@.index is Some,
        ensures
            final(self)@.wf(),
            final(self)@ == spec_cycle(old(self)@).0,
            match spec_cycle(old(self)@).1 {
                Some(c) => r matches Some(x) && x@ == c,
                None => r is None,
            },
    {
        let i = match self.index {
            Some(i) => i,
            None => 0,
        };
        let next = if i < self.completions.len() - 1 {
            i + 1
        } else {
            0
        };
        self.index = Some(next);
        Some(&self.completions[next])
    }

    fn take_found(&mut self, found: Vec<Completion>) -> (r: Option<&Completion>)
        ensures
            final(self)@ == offer(Seq::new(found@.len(), |i: int| found@[i]@)).0,
            final(self)@.wf(),
            match offer(Seq::new(found@.len(), |i: int| found@[i]@)).1 {
                Some(c) => r matches Some(x) && x@ == c,
                None => r is None,
            },
    {
        self.completions = found;
        if self.completions.len() > 0 {
            self.index = Some(0);
            Some(&self.completions[0])
        } else {
            self.index = None;
            None
        }
    }

    /// Completes `word` from `list`; repeated requests cycle through the words found
    pub fn complete_from_list(&mut self, word: &str, list: &[&'static str]) -> (r: Option<&Completion>)
        requires
            old(self)@.wf(),
        ensures
            final(self)@.wf(),
            final(self)@ == spec_complete_from_list(old(self)@, word@, list@.map_values(|s: &str| s@)).0,
            match spec_complete_from_list(old(self)@, word@, list@.map_values(|s: &str| s@)).1 {
                Some(c) => r matches Some(x) && x@ == c,
                None => r is None,
            },
    {
        if self.index.is_some() {
            return self.cycle();
        }
        let ghost words = list@.map_values(|s: &str| s@);
        let mut found: Vec<Completion> = Vec::new();
        let mut i: usize = 0;
        while i < list.len()
            invariant
                i <= list@.len(),
                words == list@.map_values(|s: &str| s@),
                Seq::new(found@.len(), |k: int| found@[k]@) == prefixed(
                    words.take(i as int),
                    word@,
                ).map_values(|w: Seq<char>| CompletionView::Parameter(w)),
            decreases list@.len() - i,
        {
            let ghost before = Seq::new(found@.len(), |k: int| found@[k]@);
            assert(words.take(i + 1).drop_last() =~= words.take(i as int));
            if starts_with(list[i], word) {
                found.push(Completion::Parameter(String::from_str(list[i])));
                assert(Seq::new(found@.len(), |k: int| found@[k]@) =~= before.push(
                    CompletionView::Parameter(words[i as int]),
                ));
            }
            i = i + 1;
        }
        assert(words.take(list@.len() as int) =~= words);
        self.take_found(found)
    }

    /// Completes a help topic
    pub fn complete_help_topic(&mut self, word: &str) -> (r: Option<&Completion>)
        requires
            old(self)@.wf(),
        ensures
            final(self)@.wf(),
            final(self)@ == spec_complete_from_list(old(self)@, word@, crate::common::help_topics()).0,
            match spec_complete_from_list(old(self)@, word@, crate::common::help_topics()).1 {
                Some(c) => r matches Some(x) && x@ == c,
                None => r is None,
            },
    {
        let topics: [&'static str; 4] = ["overview", "commands", "modes", "keys"];
        assert(topics@.map_values(|s: &str| s@) =~= crate::common::help_topics());
        self.complete_from_list(word, &topics)
    }

    /// Completes the typed path `raw_path` against the directory entries found for it;
    /// repeated requests cycle through the paths found
    pub fn complete_filename(&mut self, raw_path: &str, listing: &FileListing) -> (r: Result<
        Option<&Completion>,
        Error,
    >)
        requires
            old(self)@.wf(),
        ensures
            final(self)@.wf(),
            ({
                let entries = match listing.entries {
                    Ok(es) => Ok(entries_view(es@)),
                    Err(e) => Err(e@),
                };
                let (a, c) = spec_complete_filename(old(self)@, raw_path@, listing.is_dir, entries);
                &&& final(self)@ == a
                &&& match c {
                    Ok(Some(x)) => r matches Ok(Some(y)) && y@ == x,
                    Ok(None) => r matches Ok(None),
                    Err(e) => r matches Err(f) && f@ == e,
                }
            }),
    {
        if self.index.is_some() {
            return Ok(self.cycle());
        }
        let base: String = if listing.is_dir {
            String::from_str(raw_path)
        } else {
            match path_parent(raw_path) {
                Some(p) => p,
                None => String::new(),
            }
        };
        let name: String = if listing.is_dir {
            String::new()
        } else {
            match path_file_name(raw_path) {
                Some(n) => n,
                None => String::new(),
            }
        };
        let entries = match &listing.entries {
            Ok(es) => es,
            Err(e) => {
                return Err(e.duplicate());
            },
        };
        let ghost ev = entries_view(entries@);
        let mut found: Vec<Completion> = Vec::new();
        let mut i: usize = 0;
        while i < entries.len()
            invariant
                i <= entries@.len(),
                ev == entries_view(entries@),
                base@ == completion_base(raw_path@, listing.is_dir),
                name@ == completion_name(raw_path@, listing.is_dir),
                Seq::new(found@.len(), |k: int| found@[k]@) == file_completions(
                    ev.take(i as int),
                    base@,
                    name@,
                ),
            decreases entries@.len() - i,
        {
            let ghost before = Seq::new(found@.len(), |k: int| found@[k]@);
            assert(ev.take(i + 1).drop_last() =~= ev.take(i as int));
            let (n, is_dir) = (&entries[i].0, entries[i].1);
            if starts_with(n.as_str(), name.as_str()) {
                let path = path_join(base.as_str(), n.as_str());
                let c = if is_dir {
                    Completion::Directory(path)
                } else {
                    Completion::Filename(path)
                };
                found.push(c);
                assert(Seq::new(found@.len(), |k: int| found@[k]@) =~= before.push(c@));
            }
            i = i + 1;
        }
        assert(ev.take(entries@.len() as int) =~= ev);
        Ok(self.take_found(found))
    }
}

} // verus!
