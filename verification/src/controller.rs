//! The controller: the single authority for the global best keypair.
//!
//! It starts from the keypair recovered out of the checkpoint log — or a
//! freshly generated one when the log is empty — and then judges every
//! candidate a worker reports: a candidate whose metric strictly exceeds the
//! current best replaces it and yields the record to persist and the new
//! threshold to broadcast; any other candidate is stale and changes nothing.

use vstd::prelude::*;

use crate::checkpoint::{encode_record, spec_encode_record};
use crate::keypair::{generate_keypair, public_key_to_u64, spec_metric, Keypair};
use crate::threshold::running_max;

verus! {

/// What the controller decided about one reported candidate.
pub enum Verdict {
    /// The candidate improves on the best: `record` is the checkpoint line
    /// to append and flush, and `threshold` the new value to broadcast to
    /// every worker — in that order, so that durability precedes
    /// propagation.
    Improved { record: Vec<u8>, threshold: u64 },
    /// The candidate does not exceed the current best and is discarded.
    Stale,
}

/// The authoritative global best: the keypair and its metric.  Mutated only
/// here, and only when a candidate strictly improves on it.
pub struct Controller {
    pub best: Keypair,
    pub best_metric: u64,
}

impl Controller {
    /// The controller's invariant: the best keypair is well formed and the
    /// held metric is the metric of its public half.
    pub open spec fn inv(&self) -> bool {
        &&& self.best.wf()
        &&& self.best_metric == spec_metric(self.best.public@)
    }

    /// Starts the controller from the keypair recovered out of the
    /// checkpoint log, or from one freshly generated keypair when the log
    /// held none.
    pub fn new(recovered: Option<Keypair>) -> (r: Controller)
        requires
            recovered matches Some(p) ==> p.wf(),
        ensures
            r.inv(),
            recovered matches Some(p) ==> r.best == p,
    {
        let best = match recovered {
            Some(p) => p,
            None => generate_keypair(),
        };
        let best_metric = public_key_to_u64(&best.public);
        Controller { best, best_metric }
    }

    /// The current global best metric: the initial threshold to broadcast.
    pub fn best_metric(&self) -> (r: u64)
        ensures
            r == self.best_metric,
    {
        self.best_metric
    }

    /// Judges one reported candidate against the authoritative best at the
    /// moment of acceptance, never trusting a comparison the sender made
    /// earlier.  The best metric never decreases, and moves exactly as the
    /// running maximum of the arriving candidate metrics.
    pub fn process_candidate(&mut self, candidate: Keypair) -> (r: Verdict)
        requires
            old(self).inv(),
            candidate.wf(),
        ensures
            final(self).inv(),
            final(self).best_metric >= old(self).best_metric,
            final(self).best_metric == running_max(
                old(self).best_metric,
                seq![spec_metric(candidate.public@)],
            ),
            spec_metric(candidate.public@) > old(self).best_metric ==> {
                &&& final(self).best == candidate
                &&& final(self).best_metric == spec_metric(candidate.public@)
                &&& r matches Verdict::Improved { record, threshold } && record@
                    == spec_encode_record(candidate) && threshold == spec_metric(candidate.public@)
            },
            spec_metric(candidate.public@) <= old(self).best_metric ==> {
                &&& final(self).best == old(self).best
                &&& final(self).best_metric == old(self).best_metric
                &&& r is Stale
            },
    {
        proof {
            assert(seq![spec_metric(candidate.public@)].drop_last() =~= Seq::<u64>::empty());
            assert(running_max(old(self).best_metric, Seq::<u64>::empty())
                == old(self).best_metric);
        }
        let m = public_key_to_u64(&candidate.public);
        if m > self.best_metric {
            let record = encode_record(&candidate);
            self.best = candidate;
            self.best_metric = m;
            Verdict::Improved { record, threshold: m }
        } else {
            Verdict::Stale
        }
    }
}

} // verus!
