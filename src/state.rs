//! The interactive session's state: the index, the query, the result list
//! and the selection cursor over it.
use crate::index::{flatten_index, index_of, DirIndex, RootListing};
use crate::input::{edited_query, KeyCode};
use crate::search::{search, search_results, SEARCH_STRATEGY};
use crate::text::{pop_char, push_char};
use vstd::prelude::*;

verus! {

/// How typed keys are read. Only insert mode exists: every printable key
/// edits the query.
#[derive(PartialEq, Eq, Structural, Debug, Clone, Copy)]
pub enum InputMode {
    Insert,
}

/// App holds the state of the application.
#[derive(Debug)]
pub struct App {
    /// Current value of the input box
    pub input: String,
    /// Current input mode
    pub input_mode: InputMode,
    /// Current selection on the list
    pub selection_index: usize,
    /// The index: each root that could be read, with its subdirectories
    pub base_paths: DirIndex,
    /// The result list for the current input
    pub paths: Vec<String>,
    /// toggle to close the app
    pub should_close: bool,
}

impl App {
    /// The cursor lies within the result list, and is 0 when the list is
    /// empty.
    pub open spec fn wf(&self) -> bool {
        self.selection_index == 0 || self.selection_index < self.paths.len()
    }

    /// The index, root by root.
    pub open spec fn index(&self) -> Seq<(Seq<char>, Seq<Seq<char>>)> {
        self.base_paths@
    }

    /// Every indexed directory, root after root.
    pub open spec fn indexed_paths(&self) -> Seq<Seq<char>> {
        flatten_index(self.index())
    }

    /// The result list for `query` over the index.
    pub open spec fn results_for(&self, query: Seq<char>) -> Seq<Seq<char>> {
        search_results(SEARCH_STRATEGY, query, self.indexed_paths())
    }

    /// The cursor one step down, if there is an entry below it.
    pub open spec fn next_index(&self) -> usize {
        if self.selection_index + 1 < self.paths.len() {
            (self.selection_index + 1) as usize
        } else {
            self.selection_index
        }
    }

    /// The cursor one step up, if it is not at the top.
    pub open spec fn prev_index(&self) -> usize {
        if self.selection_index > 0 {
            (self.selection_index - 1) as usize
        } else {
            self.selection_index
        }
    }

    /// This state with the cursor at `i`.
    pub open spec fn with_cursor(self, i: usize) -> App {
        App { selection_index: i, ..self }
    }

    /// This state with termination requested.
    pub open spec fn closing(self) -> App {
        App { should_close: true, ..self }
    }

    /// The selected entry, or `None` when the result list is empty.
    pub open spec fn current_entry(&self) -> Option<Seq<char>> {
        if self.selection_index < self.paths.len() {
            Some(self.paths@[self.selection_index as int]@)
        } else {
            None
        }
    }

    /// This state follows `before` by setting the query to `query`: the
    /// results are recomputed and the cursor is back at 0; the rest is
    /// kept.
    pub open spec fn requeried(&self, before: App, query: Seq<char>) -> bool {
        &&& self.input@ == query
        &&& self.paths.deep_view() == before.results_for(query)
        &&& self.selection_index == 0
        &&& self.index() == before.index()
        &&& self.input_mode == before.input_mode
        &&& self.should_close == before.should_close
    }

    /// The state at startup, from what reading each configured root gave:
    /// the roots that could not be read are left out, the query is empty
    /// and every indexed directory is listed.
    pub fn from_listings(listings: Vec<RootListing>) -> (r: App)
        ensures
            r.index() == index_of(listings@.map_values(|l: RootListing| l@)),
            r.paths.deep_view() == r.indexed_paths(),
            r.paths.deep_view() == r.results_for(r.input@),
            r.input@.len() == 0,
            r.input_mode == InputMode::Insert,
            r.selection_index == 0,
            !r.should_close,
            r.wf(),
    {
        let base_paths = DirIndex::build(&listings);
        let paths = base_paths.all_paths();
        App {
            selection_index: 0,
            input: String::new(),
            input_mode: InputMode::Insert,
            paths,
            base_paths,
            should_close: false,
        }
    }

    /// Adds a character to the input buffer or removes the previous
    /// character if the backspace key is pressed; then recomputes the
    /// results and puts the cursor back at the top.
    pub fn add_input_char(&mut self, c: KeyCode)
        ensures
            final(self).requeried(*old(self), edited_query(old(self).input@, c)),
            final(self).wf(),
    {
        match c {
            KeyCode::Backspace => {
                pop_char(&mut self.input);
            },
            KeyCode::Char(c) => {
                push_char(&mut self.input, c);
            },
            _ => {},
        }
        self.paths = self.search_dirs();
        self.selection_index = 0;
    }

    /// Increments the selection index to move to the next item in the list
    /// of paths, if there is one.
    pub fn select_next_item(&mut self)
        ensures
            *final(self) == old(self).with_cursor(old(self).next_index()),
            old(self).wf() ==> final(self).wf(),
    {
        if self.paths.len() > 0 && self.selection_index < self.paths.len() - 1 {
            self.selection_index = self.selection_index + 1;
        }
    }

    /// Decrements the current selection index by one to select the previous
    /// item in the list.
    pub fn select_prev_item(&mut self)
        ensures
            *final(self) == old(self).with_cursor(old(self).prev_index()),
            old(self).wf() ==> final(self).wf(),
    {
        if self.selection_index > 0 {
            self.selection_index = self.selection_index - 1;
        }
    }

    /// Puts the cursor back at the top of the list.
    pub fn reset_selection(&mut self)
        ensures
            *final(self) == old(self).with_cursor(0),
            final(self).wf(),
    {
        self.selection_index = 0;
    }

    /// The selected entry, or `None` when the result list is empty.
    pub fn current(&self) -> (r: Option<String>)
        ensures
            match r {
                Some(dir) => self.current_entry() == Some(dir@),
                None => self.current_entry() is None,
            },
    {
        if self.selection_index < self.paths.len() {
            Some(self.paths[self.selection_index].clone())
        } else {
            None
        }
    }

    /// Asks for the program to terminate.
    pub fn request_close(&mut self)
        ensures
            *final(self) == old(self).closing(),
            old(self).wf() ==> final(self).wf(),
    {
        self.should_close = true;
    }

    /// Every indexed directory, root after root, each root's directories in
    /// the order they were read.
    pub fn all_paths(&self) -> (r: Vec<String>)
        ensures
            r.deep_view() == self.indexed_paths(),
    {
        self.base_paths.all_paths()
    }

    /// This function searches through the directories and returns a vector
    /// of the directories that match the search input. If the search input
    /// is empty, it returns all the base paths.
    pub fn search_dirs(&mut self) -> (r: Vec<String>)
        ensures
            *final(self) == *old(self),
            r.deep_view() == old(self).results_for(old(self).input@),
    {
        let all_paths = self.all_paths();
        search(SEARCH_STRATEGY, &self.input, &all_paths)
    }
}

impl Default for App {
    /// The state with nothing indexed and an empty query.
    fn default() -> (r: App)
        ensures
            r.index().len() == 0,
            r.paths@.len() == 0,
            r.input@.len() == 0,
            r.input_mode == InputMode::Insert,
            r.selection_index == 0,
            !r.should_close,
            r.wf(),
    {
        App {
            selection_index: 0,
            input: String::new(),
            input_mode: InputMode::Insert,
            paths: Vec::new(),
            base_paths: DirIndex::empty(),
            should_close: false,
        }
    }
}

} // verus!
