//! The watch/snapshot/publish step logic: when a poll must re-read the
//! config, what an observed file content does to the shared dataset cell,
//! and what one publish tick sends.
use vstd::prelude::*;

use crate::data::Data;
use crate::json::parsed_json_of;
use crate::parse::{doc_resolves_to, parse, spec_doc_err, ParseError};
use crate::serialize::spec_serialize;

verus! {

/// The shared dataset cell: a single snapshot, always replaced whole.
///
/// A reader observes exactly the complete dataset that one replacement
/// installed — the cell never holds a mixture of two datasets, because
/// `replace` swaps the entire snapshot in one step and `read` hands the
/// entire current snapshot back.
pub struct DatasetCell {
    pub current: Vec<Data>,
}

impl DatasetCell {
    /// A cell holding the empty dataset.
    pub fn empty() -> (c: DatasetCell)
        ensures
            c.current@ == Seq::<Data>::empty(),
    {
        DatasetCell { current: Vec::new() }
    }

    /// Replaces the whole snapshot at once: afterwards the cell holds
    /// exactly the new dataset, entry for entry.
    pub fn replace(&mut self, ds: Vec<Data>)
        ensures
            final(self).current == ds,
    {
        self.current = ds;
    }

    /// The current snapshot, whole: exactly what the last replacement
    /// installed, never a partial view.
    pub fn read(&self) -> (r: &Vec<Data>)
        ensures
            r == &self.current,
    {
        &self.current
    }
}

/// The watcher's persistent state: the modification stamp of the config
/// content that was last applied successfully.
pub struct WatcherState {
    pub last_applied: u64,
}

/// Whether a poll observing modification stamp `mtime` must re-read the
/// file: only when the stamp is newer than the last applied one.
pub open spec fn spec_needs_reload(st: WatcherState, mtime: u64) -> bool {
    mtime > st.last_applied
}

/// Whether config text is accepted: it parses and resolves without error.
pub open spec fn spec_accepted(text: Seq<char>) -> bool {
    &&& parsed_json_of(text) matches Some(root)
    &&& spec_doc_err(root) is None
}

impl WatcherState {
    /// The initial state: nothing applied yet, so any stamp is news.
    pub fn new() -> (st: WatcherState)
        ensures
            st.last_applied == 0,
    {
        WatcherState { last_applied: 0 }
    }

    /// Whether the file must be re-read this tick.
    pub fn needs_reload(&self, mtime: u64) -> (r: bool)
        ensures
            r == spec_needs_reload(*self, mtime),
    {
        mtime > self.last_applied
    }

    /// Applies freshly read config text observed under stamp `mtime`,
    /// handing back the new dataset.
    ///
    /// On accepted content the stamp is recorded, so the same stamp
    /// triggers no further reload, and the dataset the text describes is
    /// returned whole. On rejected content the error says why and the
    /// recorded stamp stays exactly as it was, so a touched but still
    /// malformed file is examined again on every tick.
    pub fn apply_text(&mut self, mtime: u64, text: &str) -> (r: Result<Vec<Data>, ParseError>)
        ensures
            match r {
                Ok(ds) => {
                    &&& spec_accepted(text@)
                    &&& final(self).last_applied == mtime
                    &&& !spec_needs_reload(*final(self), mtime)
                    &&& parsed_json_of(text@) matches Some(root) && doc_resolves_to(root, ds@)
                },
                Err(e) => {
                    &&& !spec_accepted(text@)
                    &&& *final(self) == *old(self)
                    &&& match parsed_json_of(text@) {
                        Option::None => e == ParseError::Syntax,
                        Option::Some(root) => spec_doc_err(root) == Some(e),
                    }
                },
            },
    {
        match parse(text) {
            Ok(ds) => {
                self.last_applied = mtime;
                Ok(ds)
            },
            Err(e) => Err(e),
        }
    }

    /// Applies freshly read config text observed under stamp `mtime` to
    /// the shared cell.
    ///
    /// On accepted content the new dataset replaces the cell's snapshot
    /// whole. On rejected content both the cell's dataset and the
    /// recorded stamp stay exactly as they were: the previously loaded
    /// dataset remains observable.
    pub fn apply_content(&mut self, cell: &mut DatasetCell, mtime: u64, text: &str) -> (r: Result<
        (),
        ParseError,
    >)
        ensures
            match r {
                Ok(()) => {
                    &&& spec_accepted(text@)
                    &&& final(self).last_applied == mtime
                    &&& !spec_needs_reload(*final(self), mtime)
                    &&& parsed_json_of(text@) matches Some(root) && doc_resolves_to(
                        root,
                        final(cell).current@,
                    )
                },
                Err(e) => {
                    &&& !spec_accepted(text@)
                    &&& *final(self) == *old(self)
                    &&& *final(cell) == *old(cell)
                    &&& match parsed_json_of(text@) {
                        Option::None => e == ParseError::Syntax,
                        Option::Some(root) => spec_doc_err(root) == Some(e),
                    }
                },
            },
    {
        match self.apply_text(mtime, text) {
            Ok(ds) => {
                cell.replace(ds);
                Ok(())
            },
            Err(e) => Err(e),
        }
    }
}

/// Law: re-polling an unchanged file never re-triggers a replacement. A
/// stamp at or below the last applied one asks for no reload, and once a
/// stamp has been applied, that same stamp asks for none either.
pub proof fn lemma_watcher_idempotent(st: WatcherState, applied: WatcherState, mtime: u64)
    ensures
        mtime <= st.last_applied ==> !spec_needs_reload(st, mtime),
        applied.last_applied == mtime ==> !spec_needs_reload(applied, mtime),
{
}

/// One outbound message: payload bytes published under a topic.
#[derive(Debug, PartialEq)]
pub struct Message {
    pub topic: String,
    pub payload: Vec<u8>,
}

/// Builds one publish tick's outbound messages from a dataset snapshot:
/// exactly one message per entry, in dataset order, each carrying the
/// entry's topic and the serialization of the entry's value.
pub fn publish_tick(ds: &Vec<Data>) -> (msgs: Vec<Message>)
    ensures
        msgs@.len() == ds@.len(),
        forall|i: int|
            0 <= i < ds@.len() ==> (#[trigger] msgs@[i]).topic@ == ds@[i].topic@
                && msgs@[i].payload@ == spec_serialize(ds@[i].data),
{
    let mut msgs: Vec<Message> = Vec::new();
    let mut i: usize = 0;
    while i < ds.len()
        invariant
            i <= ds@.len(),
            msgs@.len() == i,
            forall|j: int|
                0 <= j < i ==> (#[trigger] msgs@[j]).topic@ == ds@[j].topic@
                    && msgs@[j].payload@ == spec_serialize(ds@[j].data),
        decreases ds@.len() - i,
    {
        let mut payload: Vec<u8> = Vec::new();
        ds[i].data().serialize(&mut payload);
        assert(payload@ =~= spec_serialize(ds@[i as int].data));
        let topic = ds[i].topic.clone();
        msgs.push(Message { topic, payload });
        i = i + 1;
    }
    msgs
}

} // verus!
