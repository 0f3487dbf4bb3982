//! The collector: the single shared holder of the latest snapshot. A refresh
//! replaces the published snapshot as one whole value — never field by field
//! — and a failed refresh leaves the previous snapshot published untouched,
//! so readers prefer stale-but-valid data over no data. The ghost history
//! records every snapshot ever published, in order, so the contracts can say
//! that a reader always sees exactly the most recently completed refresh.
//!
//! The surrounding unverified shell shares one collector between its
//! background refresher and its request handlers under a readers-writer
//! lock; everything it may do to the collector is one of the three
//! operations below, each of which touches the state only as its contract
//! says.
use vstd::prelude::*;
use crate::snapshot::{snapshot_wf, SystemInfo};
use crate::SystemInfoError;

verus! {

pub struct Collector {
    /// The most recently published snapshot; `None` before the first
    /// successful refresh.
    current: Option<SystemInfo>,
    /// The refresh cadence the service was configured with, in milliseconds.
    update_interval_ms: u64,
    /// Every snapshot ever published, oldest first.
    history: Ghost<Seq<SystemInfo>>,
}

impl Collector {
    /// The published snapshot, if any.
    pub closed spec fn spec_current(self) -> Option<SystemInfo> {
        self.current
    }

    /// All snapshots ever published, oldest first.
    pub closed spec fn history(self) -> Seq<SystemInfo> {
        self.history@
    }

    pub closed spec fn spec_interval_ms(self) -> u64 {
        self.update_interval_ms
    }

    /// The collector's invariant: what is published is exactly the last
    /// entry of the history, as one whole value, and everything ever
    /// published was a well-formed snapshot.
    pub open spec fn wf(self) -> bool {
        &&& (match self.spec_current() {
            None => self.history().len() == 0,
            Some(s) => self.history().len() > 0 && s == self.history().last(),
        })
        &&& forall|i: int|
            0 <= i < self.history().len() ==> snapshot_wf(#[trigger] self.history()[i])
    }

    /// A fresh collector: nothing published yet.
    pub fn new(update_interval_ms: u64) -> (c: Collector)
        ensures
            c.wf(),
            c.spec_current() is None,
            c.history().len() == 0,
            c.spec_interval_ms() == update_interval_ms,
    {
        Collector { current: None, update_interval_ms, history: Ghost(Seq::empty()) }
    }

    pub fn update_interval_ms(&self) -> (r: u64)
        ensures
            r == self.spec_interval_ms(),
    {
        self.update_interval_ms
    }

    /// Publishes a freshly sampled snapshot: the one mutation of the shared
    /// state, replacing the published snapshot wholly.
    pub fn publish(&mut self, snap: SystemInfo)
        requires
            old(self).wf(),
            snapshot_wf(snap),
        ensures
            final(self).wf(),
            final(self).spec_current() == Some(snap),
            final(self).history() == old(self).history().push(snap),
            final(self).spec_interval_ms() == old(self).spec_interval_ms(),
    {
        proof {
            let h = self.history@.push(snap);
            assert(h.last() == snap);
        }
        self.history = Ghost(self.history@.push(snap));
        self.current = Some(snap);
    }

    /// Applies one refresh outcome. A successful refresh publishes its
    /// snapshot; a failed one changes nothing, so the previously published
    /// snapshot stays available, and the error is handed back to the caller
    /// for logging.
    pub fn apply_refresh(&mut self, outcome: Result<SystemInfo, SystemInfoError>) -> (r: Result<
        (),
        SystemInfoError,
    >)
        requires
            old(self).wf(),
            outcome matches Ok(s) ==> snapshot_wf(s),
        ensures
            final(self).wf(),
            final(self).spec_interval_ms() == old(self).spec_interval_ms(),
            (match outcome {
                Ok(s) => {
                    &&& r is Ok
                    &&& final(self).spec_current() == Some(s)
                    &&& final(self).history() == old(self).history().push(s)
                },
                Err(e) => {
                    &&& r matches Err(e2) && e2 == e
                    &&& final(self).spec_current() == old(self).spec_current()
                    &&& final(self).history() == old(self).history()
                },
            }),
    {
        match outcome {
            Ok(snap) => {
                self.publish(snap);
                Ok(())
            },
            Err(e) => Err(e),
        }
    }

    /// The read path: hands out the most recently published snapshot without
    /// waiting for any refresh in progress, or reports that none exists yet.
    pub fn current_snapshot(&self) -> (r: Result<&SystemInfo, SystemInfoError>)
        requires
            self.wf(),
        ensures
            (match self.spec_current() {
                Some(s) => r matches Ok(p) && *p == s && *p == self.history().last(),
                None => r matches Err(e) && e is NotYetPopulated,
            }),
    {
        match &self.current {
            Some(s) => Ok(s),
            None => Err(SystemInfoError::NotYetPopulated),
        }
    }
}

/// A reader never observes a torn snapshot: whatever the read path returns
/// is, as one whole value, an entry of the publication history — and in
/// fact the latest one, so reads are never reordered behind an older
/// refresh.
pub proof fn lemma_reader_sees_whole_refresh(c: Collector)
    requires
        c.wf(),
    ensures
        c.spec_current() matches Some(s) ==> {
            &&& s == c.history().last()
            &&& exists|i: int| 0 <= i < c.history().len() && s == c.history()[i]
        },
        c.spec_current() matches Some(s) ==> snapshot_wf(s),
{
    if c.spec_current() is Some {
        let s = c.history().last();
        assert(s == c.history()[c.history().len() - 1]);
    }
}

/// Staleness over failure: however many refreshes fail after a successful
/// one, the snapshot that the successful refresh published stays exactly
/// what a reader gets.
pub proof fn lemma_stale_snapshot_survives_failure(before: Collector, after: Collector)
    requires
        before.wf(),
        // what `apply_refresh` ensures of a failed refresh:
        after.spec_current() == before.spec_current(),
        after.history() == before.history(),
        before.spec_current() matches Some(s),
    ensures
        after.spec_current() == before.spec_current(),
        after.spec_current() matches Some(s2) && s2 == before.history().last(),
{
}

} // verus!
