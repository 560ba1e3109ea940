//! A worker's search state and decisions.
//!
//! A worker holds only a locally cached copy of the global best metric — its
//! threshold, never authoritative — generates candidate keypairs in batches,
//! and reports exactly those candidates that beat its threshold, raising the
//! threshold optimistically with each report.  After a batch it drains the
//! controller's broadcast updates and keeps the maximum it has seen.

use vstd::prelude::*;

use crate::keypair::{generate_keypair, public_key_to_u64, spec_metric, Keypair};
use crate::threshold::{lemma_running_max_bounds, running_max};

verus! {

/// One worker's local view of the search: the latest threshold it observed.
pub struct Worker {
    pub threshold: u64,
}

impl Worker {
    /// A worker starts only once the initial threshold broadcast has
    /// arrived; generating with no threshold would be meaningless.
    pub fn new(initial_threshold: u64) -> (r: Worker)
        ensures
            r.threshold == initial_threshold,
    {
        Worker { threshold: initial_threshold }
    }

    /// Judges one candidate against the local threshold: a candidate that
    /// beats it is returned for reporting and becomes the new threshold;
    /// any other is discarded and the state is unchanged.
    pub fn consider(&mut self, candidate: Keypair) -> (r: Option<Keypair>)
        requires
            candidate.wf(),
        ensures
            final(self).threshold >= old(self).threshold,
            spec_metric(candidate.public@) > old(self).threshold ==> r == Some(candidate)
                && final(self).threshold == spec_metric(candidate.public@),
            spec_metric(candidate.public@) <= old(self).threshold ==> r is None
                && final(self).threshold == old(self).threshold,
    {
        let m = public_key_to_u64(&candidate.public);
        if m > self.threshold {
            self.threshold = m;
            Some(candidate)
        } else {
            None
        }
    }

    /// Generates one batch of candidate keypairs and collects the reports:
    /// every report is well formed and beats the threshold held at the start
    /// of the batch, the reports carry strictly increasing metrics, and the
    /// threshold ends at the last report's metric — or unchanged when
    /// nothing in the batch improved on it.
    pub fn run_batch(&mut self, batch_size: usize) -> (reports: Vec<Keypair>)
        ensures
            final(self).threshold >= old(self).threshold,
            forall|k: int| 0 <= k < reports@.len() ==> (#[trigger] reports@[k]).wf()
                && spec_metric(reports@[k].public@) > old(self).threshold,
            forall|k1: int, k2: int| 0 <= k1 < k2 < reports@.len() ==> spec_metric(
                reports@[k1].public@,
            ) < spec_metric(reports@[k2].public@),
            reports@.len() > 0 ==> final(self).threshold == spec_metric(
                reports@.last().public@,
            ),
            reports@.len() == 0 ==> final(self).threshold == old(self).threshold,
    {
        let ghost t0 = self.threshold;
        let mut reports: Vec<Keypair> = Vec::new();
        let mut i: usize = 0;
        while i < batch_size
            invariant
                self.threshold >= t0,
                forall|k: int| 0 <= k < reports@.len() ==> (#[trigger] reports@[k]).wf()
                    && spec_metric(reports@[k].public@) > t0,
                forall|k1: int, k2: int| 0 <= k1 < k2 < reports@.len() ==> spec_metric(
                    reports@[k1].public@,
                ) < spec_metric(reports@[k2].public@),
                reports@.len() > 0 ==> self.threshold == spec_metric(reports@.last().public@),
                reports@.len() == 0 ==> self.threshold == t0,
            decreases batch_size - i,
        {
            let candidate = generate_keypair();
            match self.consider(candidate) {
                Some(report) => {
                    reports.push(report);
                },
                None => {},
            }
            i += 1;
        }
        reports
    }

    /// Takes in one drained batch of broadcast threshold updates: the
    /// threshold becomes the maximum of the local value and every received
    /// value, so after an update carrying some value arrives, all later
    /// comparisons use a threshold at least that value.
    pub fn absorb_updates(&mut self, updates: &Vec<u64>)
        ensures
            final(self).threshold == running_max(old(self).threshold, updates@),
            final(self).threshold >= old(self).threshold,
            forall|k: int| 0 <= k < updates@.len() ==> final(self).threshold >= updates@[k],
    {
        let ghost t0 = self.threshold;
        let mut i: usize = 0;
        while i < updates.len()
            invariant
                i <= updates@.len(),
                self.threshold == running_max(t0, updates@.take(i as int)),
            decreases updates@.len() - i,
        {
            proof {
                assert(updates@.take(i as int + 1).drop_last() =~= updates@.take(i as int));
            }
            if updates[i] > self.threshold {
                self.threshold = updates[i];
            }
            i += 1;
        }
        proof {
            assert(updates@.take(updates@.len() as int) =~= updates@);
            lemma_running_max_bounds(t0, updates@);
        }
    }
}

} // verus!
