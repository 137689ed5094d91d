//! The status reporter: the last known state of each peer and the count
//! of peers currently connected.
//!
//! Duplicate events are suppressed: only a transition (connected where
//! the peer was disconnected or unknown, or the reverse) moves the
//! counter and deserves a log line.

use vstd::prelude::*;
use std::collections::HashMap;
use crate::controller::WorkerStatusMessage;

verus! {

broadcast use vstd::std_specs::hash::group_hash_axioms;

/// The peers a status map currently records as connected.
pub open spec fn spec_connected_peers(m: Map<u32, bool>) -> Set<u32> {
    Set::new(|k: u32| m.contains_key(k) && m[k])
}

pub struct StatusTracker {
    pub workers_status: HashMap<u32, bool>,
    pub connected_workers: usize,
}

/// The counter equals the number of peers the map records as connected;
/// being a `usize` count of a finite set, it can never fall below zero.
pub open spec fn spec_tracker_wf(t: StatusTracker) -> bool {
    &&& spec_connected_peers(t.workers_status@).finite()
    &&& t.connected_workers == spec_connected_peers(t.workers_status@).len()
}

impl StatusTracker {
    /// Every peer starts unknown, hence disconnected; nothing is counted.
    pub fn new() -> (r: StatusTracker)
        ensures
            spec_tracker_wf(r),
            r.workers_status@ == Map::<u32, bool>::empty(),
            r.connected_workers == 0,
    {
        let r = StatusTracker { workers_status: HashMap::new(), connected_workers: 0 };
        proof {
            assert(spec_connected_peers(r.workers_status@) =~= Set::<u32>::empty());
        }
        r
    }

    /// How many peers are connected right now.
    pub fn connected_count(&self) -> (r: usize)
        ensures
            r == self.connected_workers,
    {
        self.connected_workers
    }

    /// Applies one status event. Returns true exactly on a transition:
    /// a connect of a peer not recorded as connected, or a disconnect of
    /// one that was. Only then do the map and the counter move, the
    /// counter by one, up on connect and down on disconnect.
    pub fn apply_status(&mut self, status: &WorkerStatusMessage) -> (transition: bool)
        requires
            spec_tracker_wf(*old(self)),
        ensures
            spec_tracker_wf(*final(self)),
            ({
                let m = old(self).workers_status@;
                let was_connected = m.contains_key(status.id) && m[status.id];
                if status.connected && !was_connected {
                    &&& transition == true
                    &&& final(self).workers_status@ == m.insert(status.id, true)
                    &&& final(self).connected_workers == old(self).connected_workers + 1
                } else if !status.connected && was_connected {
                    &&& transition == true
                    &&& final(self).workers_status@ == m.insert(status.id, false)
                    &&& final(self).connected_workers == old(self).connected_workers - 1
                } else {
                    &&& transition == false
                    &&& *final(self) == *old(self)
                }
            }),
    {
        let was_connected = match self.workers_status.get(&status.id) {
            Some(b) => *b,
            None => false,
        };
        if status.connected && !was_connected {
            let ghost before = spec_connected_peers(self.workers_status@);
            self.workers_status.insert(status.id, true);
            let entries = self.workers_status.len();
            proof {
                let now = spec_connected_peers(self.workers_status@);
                assert(now =~= before.insert(status.id));
                assert(now.subset_of(self.workers_status@.dom()));
                vstd::set_lib::lemma_len_subset(now, self.workers_status@.dom());
                assert(now.len() <= entries);
            }
            self.connected_workers = self.connected_workers + 1;
            true
        } else if !status.connected && was_connected {
            let ghost before = spec_connected_peers(self.workers_status@);
            self.workers_status.insert(status.id, false);
            proof {
                let now = spec_connected_peers(self.workers_status@);
                assert(before.contains(status.id));
                assert(now =~= before.remove(status.id));
                assert(now.len() == before.len() - 1);
            }
            self.connected_workers = self.connected_workers - 1;
            true
        } else {
            false
        }
    }
}

} // verus!
