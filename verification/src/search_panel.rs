//! The state of a search tab: its options, its results and which result is
//! selected.
use vstd::prelude::*;

use crate::search::{ContentMatch, NameMatch, SearchOptions, SearchOutcome, SearchScope};
use crate::settings::CaseSensitivity;

verus! {

/// The results of a search, of the kind its scope asks for.
pub enum SearchResults {
    Contents(Vec<ContentMatch>),
    Names(Vec<NameMatch>),
}

impl SearchResults {
    pub open spec fn spec_len(&self) -> nat {
        match self {
            SearchResults::Contents(items) => items@.len(),
            SearchResults::Names(items) => items@.len(),
        }
    }

    /// How many results there are.
    pub fn len(&self) -> (n: usize)
        ensures
            n == self.spec_len(),
    {
        match self {
            SearchResults::Contents(items) => items.len(),
            SearchResults::Names(items) => items.len(),
        }
    }

    /// Whether there are no results.
    pub fn is_empty(&self) -> (b: bool)
        ensures
            b == (self.spec_len() == 0),
    {
        self.len() == 0
    }

    /// No results of the kind a scope asks for.
    pub fn empty_for(scope: SearchScope) -> (r: SearchResults)
        ensures
            r.spec_len() == 0,
            scope == SearchScope::Contents ==> r is Contents,
            scope == SearchScope::Names ==> r is Names,
    {
        match scope {
            SearchScope::Contents => SearchResults::Contents(Vec::new()),
            SearchScope::Names => SearchResults::Names(Vec::new()),
        }
    }
}

/// Where a search stands.
#[derive(Clone, Copy, Debug, PartialEq, Eq, Structural)]
pub enum SearchStatus {
    Idle,
    Searching,
    Done,
    Error,
}

/// The case mode that follows `case` when cycling: sensitive, insensitive,
/// smart, and round again.
pub open spec fn spec_next_case(case: CaseSensitivity) -> CaseSensitivity {
    match case {
        CaseSensitivity::Sensitive => CaseSensitivity::Insensitive,
        CaseSensitivity::Insensitive => CaseSensitivity::Smart,
        CaseSensitivity::Smart => CaseSensitivity::Sensitive,
    }
}

/// The result selected after moving down: the next one, wrapping to the
/// first; the first when none was selected.
pub open spec fn spec_next_index(selected: Option<usize>, len: nat) -> Option<usize> {
    if len == 0 {
        selected
    } else {
        match selected {
            Some(ix) => Some(((ix + 1) % (len as int)) as usize),
            None => Some(0),
        }
    }
}

/// The result selected after moving up: the previous one, wrapping to the
/// last; the last when none was selected.
pub open spec fn spec_prev_index(selected: Option<usize>, len: nat) -> Option<usize> {
    if len == 0 {
        selected
    } else {
        match selected {
            Some(ix) => if ix == 0 {
                Some((len - 1) as usize)
            } else {
                Some((ix - 1) as usize)
            },
            None => Some((len - 1) as usize),
        }
    }
}

/// A search tab.
pub struct SearchPanel {
    pub scope: SearchScope,
    pub case: CaseSensitivity,
    pub regex: bool,
    pub whole_word: bool,
    pub include_hidden: bool,
    pub respect_gitignore: bool,
    pub results: SearchResults,
    pub truncated: bool,
    pub selected_index: Option<usize>,
    pub status: SearchStatus,
    pub error: Option<String>,
}

impl SearchPanel {
    /// The selection, if any, points at a result.
    pub open spec fn wf(&self) -> bool {
        self.selected_index matches Some(ix) ==> ix < self.results.spec_len()
    }

    /// A new search tab: names, no results, the configured defaults.
    pub fn new(default_case: CaseSensitivity, include_hidden: bool, respect_gitignore: bool) -> (p:
        SearchPanel)
        ensures
            p.wf(),
            p.scope == SearchScope::Names,
            p.case == default_case,
            !p.regex,
            !p.whole_word,
            p.include_hidden == include_hidden,
            p.respect_gitignore == respect_gitignore,
            p.results is Names,
            p.results.spec_len() == 0,
            !p.truncated,
            p.selected_index is None,
            p.status == SearchStatus::Idle,
            p.error is None,
    {
        SearchPanel {
            scope: SearchScope::Names,
            case: default_case,
            regex: false,
            whole_word: false,
            include_hidden,
            respect_gitignore,
            results: SearchResults::Names(Vec::new()),
            truncated: false,
            selected_index: None,
            status: SearchStatus::Idle,
            error: None,
        }
    }

    /// Switches the scope; says whether it changed (and a new query is due).
    pub fn set_scope(&mut self, scope: SearchScope) -> (changed: bool)
        ensures
            changed == (old(self).scope != scope),
            final(self).scope == scope,
            final(self).case == old(self).case,
            final(self).selected_index == old(self).selected_index,
            final(self).results.spec_len() == old(self).results.spec_len(),
            old(self).wf() ==> final(self).wf(),
    {
        if self.scope == scope {
            return false;
        }
        self.scope = scope;
        true
    }

    /// Moves to the next case mode.
    pub fn cycle_case(&mut self)
        ensures
            final(self).case == spec_next_case(old(self).case),
            final(self).scope == old(self).scope,
            final(self).selected_index == old(self).selected_index,
            final(self).results.spec_len() == old(self).results.spec_len(),
            old(self).wf() ==> final(self).wf(),
    {
        self.case = match self.case {
            CaseSensitivity::Sensitive => CaseSensitivity::Insensitive,
            CaseSensitivity::Insensitive => CaseSensitivity::Smart,
            CaseSensitivity::Smart => CaseSensitivity::Sensitive,
        };
    }

    /// Selects the next result (see `spec_next_index`); nothing happens
    /// without results.
    pub fn select_next_result(&mut self)
        requires
            old(self).wf(),
        ensures
            final(self).wf(),
            final(self).selected_index == spec_next_index(
                old(self).selected_index,
                old(self).results.spec_len(),
            ),
            final(self).results.spec_len() == old(self).results.spec_len(),
    {
        let len = self.results.len();
        if len == 0 {
            return;
        }
        self.selected_index = Some(
            match self.selected_index {
                Some(ix) => (ix + 1) % len,
                None => 0,
            },
        );
    }

    /// Selects the previous result (see `spec_prev_index`); nothing happens
    /// without results.
    pub fn select_prev_result(&mut self)
        requires
            old(self).wf(),
        ensures
            final(self).wf(),
            final(self).selected_index == spec_prev_index(
                old(self).selected_index,
                old(self).results.spec_len(),
            ),
            final(self).results.spec_len() == old(self).results.spec_len(),
    {
        let len = self.results.len();
        if len == 0 {
            return;
        }
        self.selected_index = Some(
            match self.selected_index {
                Some(0) => len - 1,
                Some(ix) => ix - 1,
                None => len - 1,
            },
        );
    }

    /// Selects result `index` if there is one.
    pub fn select_result(&mut self, index: usize) -> (selected: bool)
        requires
            old(self).wf(),
        ensures
            final(self).wf(),
            selected == (index < old(self).results.spec_len()),
            selected ==> final(self).selected_index == Some(index),
            !selected ==> final(self).selected_index == old(self).selected_index,
    {
        if index < self.results.len() {
            self.selected_index = Some(index);
            true
        } else {
            false
        }
    }

    /// The path of the selected result.
    pub fn selected_path(&self) -> (p: Option<String>)
        ensures
            match self.selected_index {
                None => p is None,
                Some(ix) => match self.results {
                    SearchResults::Contents(items) => if ix < items@.len() {
                        p matches Some(s) && s@ == items@[ix as int].path@
                    } else {
                        p is None
                    },
                    SearchResults::Names(items) => if ix < items@.len() {
                        p matches Some(s) && s@ == items@[ix as int].path@
                    } else {
                        p is None
                    },
                },
            },
    {
        let ix = match self.selected_index {
            Some(ix) => ix,
            None => return None,
        };
        match &self.results {
            SearchResults::Contents(items) => if ix < items.len() {
                Some(items[ix].path.clone())
            } else {
                None
            },
            SearchResults::Names(items) => if ix < items.len() {
                Some(items[ix].path.clone())
            } else {
                None
            },
        }
    }

    /// A new query starts: searching, with no error.
    pub fn begin_query(&mut self)
        ensures
            final(self).status == SearchStatus::Searching,
            final(self).error is None,
            final(self).selected_index == old(self).selected_index,
            final(self).results.spec_len() == old(self).results.spec_len(),
            final(self).scope == old(self).scope,
            final(self).case == old(self).case,
            old(self).wf() ==> final(self).wf(),
    {
        self.status = SearchStatus::Searching;
        self.error = None;
    }

    /// The options a query runs with.
    pub fn options(&self, query: String) -> (o: SearchOptions)
        ensures
            o.query == query,
            o.case == self.case,
            o.regex == self.regex,
            o.whole_word == self.whole_word,
            o.include_hidden == self.include_hidden,
            o.respect_gitignore == self.respect_gitignore,
    {
        SearchOptions {
            query,
            case: self.case,
            regex: self.regex,
            whole_word: self.whole_word,
            include_hidden: self.include_hidden,
            respect_gitignore: self.respect_gitignore,
        }
    }

    /// Takes the outcome of a query: its results with the first selected,
    /// or the error with no results.
    pub fn apply_outcome(&mut self, outcome: Result<(SearchResults, bool), String>)
        ensures
            final(self).wf(),
            final(self).scope == old(self).scope,
            match outcome {
                Ok((results, truncated)) => {
                    &&& final(self).results == results
                    &&& final(self).truncated == truncated
                    &&& final(self).status == SearchStatus::Done
                    &&& final(self).error is None
                    &&& final(self).selected_index == if results.spec_len() == 0 {
                        None::<usize>
                    } else {
                        Some(0usize)
                    }
                },
                Err(e) => {
                    &&& final(self).results.spec_len() == 0
                    &&& (old(self).scope == SearchScope::Contents ==> final(self).results is Contents)
                    &&& (old(self).scope == SearchScope::Names ==> final(self).results is Names)
                    &&& !final(self).truncated
                    &&& final(self).selected_index is None
                    &&& final(self).status == SearchStatus::Error
                    &&& final(self).error == Some(e)
                },
            },
    {
        match outcome {
            Ok((results, truncated)) => {
                self.selected_index = if results.is_empty() {
                    None
                } else {
                    Some(0)
                };
                self.results = results;
                self.truncated = truncated;
                self.status = SearchStatus::Done;
                self.error = None;
            },
            Err(err) => {
                self.results = SearchResults::empty_for(self.scope);
                self.truncated = false;
                self.selected_index = None;
                self.status = SearchStatus::Error;
                self.error = Some(err);
            },
        }
    }
}

/// The results of a content search, as a tab holds them.
pub fn content_results(outcome: Result<SearchOutcome<ContentMatch>, String>) -> (r: Result<
    (SearchResults, bool),
    String,
>)
    ensures
        match outcome {
            Ok(o) => r matches Ok((SearchResults::Contents(items), t)) && items == o.items && t
                == o.truncated,
            Err(e) => r == Err::<(SearchResults, bool), String>(e),
        },
{
    match outcome {
        Ok(o) => Ok((SearchResults::Contents(o.items), o.truncated)),
        Err(e) => Err(e),
    }
}

/// The results of a name search, as a tab holds them.
pub fn name_results(outcome: Result<SearchOutcome<NameMatch>, String>) -> (r: Result<
    (SearchResults, bool),
    String,
>)
    ensures
        match outcome {
            Ok(o) => r matches Ok((SearchResults::Names(items), t)) && items == o.items && t
                == o.truncated,
            Err(e) => r == Err::<(SearchResults, bool), String>(e),
        },
{
    match outcome {
        Ok(o) => Ok((SearchResults::Names(o.items), o.truncated)),
        Err(e) => Err(e),
    }
}

proof fn lemma_successor_mod(i: int, n: int)
    requires
        0 <= i < n,
    ensures
        i + 1 < n ==> (i + 1) % n == i + 1,
        i + 1 == n ==> (i + 1) % n == 0,
{
    if i + 1 < n {
        vstd::arithmetic::div_mod::lemma_small_mod((i + 1) as nat, n as nat);
    } else {
        vstd::arithmetic::div_mod::lemma_mod_self_0(n);
    }
}

/// Moving down then up from a selected result comes back to it.
pub proof fn lemma_next_then_prev(selected: usize, len: nat)
    requires
        selected < len,
        len <= usize::MAX,
    ensures
        spec_prev_index(spec_next_index(Some(selected), len), len) == Some(selected),
{
    lemma_successor_mod(selected as int, len as int);
}

/// Moving up then down from a selected result comes back to it.
pub proof fn lemma_prev_then_next(selected: usize, len: nat)
    requires
        selected < len,
        len <= usize::MAX,
    ensures
        spec_next_index(spec_prev_index(Some(selected), len), len) == Some(selected),
{
    if selected == 0 {
        lemma_successor_mod(len - 1, len as int);
    } else {
        lemma_successor_mod(selected - 1, len as int);
    }
}

/// Cycling the case mode three times comes back to where it started.
pub proof fn lemma_case_cycle(case: CaseSensitivity)
    ensures
        spec_next_case(spec_next_case(spec_next_case(case))) == case,
{
}

} // verus!
