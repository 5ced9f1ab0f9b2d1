use vstd::prelude::*;
use crate::search_result::SearchResult;

verus! {

/// What the engine tells its client.
pub enum Event {
    ChangeSelection,
    SearchFinished(SearchResult),
    ReplaceFinished,
    Progress(usize),
    Error(String),
}

/// The progress of a commit over a number of files.
pub struct CommitTracker {
    total: usize,
    done: usize,
}

/// The events for one file whose commit ended: its error or its progress, and the
/// end of the whole commit after the last file.
pub open spec fn file_events(error: Option<String>, last: bool) -> Seq<Event> {
    let first = match error {
        Some(e) => Event::Error(e),
        None => Event::Progress(1),
    };
    if last {
        seq![first, Event::ReplaceFinished]
    } else {
        seq![first]
    }
}

impl CommitTracker {
    pub closed spec fn total(&self) -> usize {
        self.total
    }

    pub closed spec fn done(&self) -> usize {
        self.done
    }

    /// A commit over `total` files, none of them done.
    pub fn new(total: usize) -> (r: CommitTracker)
        ensures
            r.total() == total,
            r.done() == 0,
    {
        CommitTracker { total, done: 0 }
    }

    /// Whether every file is done.
    pub fn is_finished(&self) -> (r: bool)
        ensures
            r == (self.done() >= self.total()),
    {
        self.done >= self.total
    }

    /// The commit of one more file ended, with `error` where it failed: the events
    /// to send, `ReplaceFinished` last once the last file is done.
    pub fn file_done(&mut self, error: Option<String>) -> (r: Vec<Event>)
        requires
            old(self).done() < old(self).total(),
        ensures
            final(self).total() == old(self).total(),
            final(self).done() == old(self).done() + 1,
            r@ == file_events(error, final(self).done() == final(self).total()),
    {
        self.done = self.done + 1;
        let mut r: Vec<Event> = Vec::new();
        match error {
            Some(e) => r.push(Event::Error(e)),
            None => r.push(Event::Progress(1)),
        }
        if self.done == self.total {
            r.push(Event::ReplaceFinished);
        }
        r
    }
}

} // verus!
