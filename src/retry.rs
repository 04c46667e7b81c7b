//! Per-peer retry decisions of the orchestrator, and its final report.
//!
//! Each peer gets its own [`PeerRetry`]; the driver runs an attempt, reports
//! its outcome, and waits the fixed backoff before the next attempt whenever
//! the decision is [`Decision::Retry`].
use vstd::prelude::*;
use crate::error::HandshakeError;

verus! {

/// What the orchestrator does with a peer after an attempt.
#[derive(Debug, Clone, Copy, PartialEq, Eq, Structural)]
pub enum Decision {
    /// The handshake succeeded; the peer is not tried again.
    Succeeded,
    /// Wait the backoff interval, then try again.
    Retry,
    /// No attempt is left, or the failure is not worth retrying.
    Exhausted,
}

/// Attempts made so far on one peer, out of the limit.
#[derive(Debug, Clone, Copy, PartialEq, Eq, Structural)]
pub struct PeerRetry {
    pub attempts: u32,
    pub max_attempts: u32,
}

/// A fresh retry budget of `max_attempts`.
pub open spec fn fresh_retry(max_attempts: u32) -> PeerRetry {
    PeerRetry { attempts: 0, max_attempts }
}

impl PeerRetry {
    /// Another attempt may still be made.
    pub open spec fn can_attempt(self) -> bool {
        self.attempts < self.max_attempts <= 127
    }

    /// A budget of `max_attempts` attempts, none made yet.
    pub fn new(max_attempts: i8) -> (r: PeerRetry)
        requires
            max_attempts >= 1,
        ensures
            r == fresh_retry(max_attempts as u32),
            r.can_attempt(),
    {
        PeerRetry { attempts: 0, max_attempts: max_attempts as u32 }
    }

    /// The budget after an attempt with the given outcome, and the decision.
    pub open spec fn after(self, outcome: Result<(), HandshakeError>) -> (PeerRetry, Decision) {
        match outcome {
            Ok(()) => (self, Decision::Succeeded),
            Err(e) => {
                let next = PeerRetry { attempts: (self.attempts + 1) as u32, ..self };
                if !e.spec_is_retryable() || next.attempts >= self.max_attempts {
                    (next, Decision::Exhausted)
                } else {
                    (next, Decision::Retry)
                }
            },
        }
    }

    /// Records one attempt: success ends the sequence, a failure that is
    /// worth retrying leads to another attempt while the limit allows, any
    /// other failure exhausts the peer.
    pub fn on_attempt(&mut self, outcome: &Result<(), HandshakeError>) -> (r: Decision)
        requires
            old(self).can_attempt(),
        ensures
            (*final(self), r) == old(self).after(*outcome),
            r == Decision::Retry ==> final(self).can_attempt(),
    {
        match outcome {
            Ok(()) => Decision::Succeeded,
            Err(e) => {
                self.attempts = self.attempts + 1;
                if !e.is_retryable() || self.attempts >= self.max_attempts {
                    Decision::Exhausted
                } else {
                    Decision::Retry
                }
            },
        }
    }
}

/// The decisions of a peer's attempts with the given outcomes, up to and
/// including the first one that ends the sequence.
pub open spec fn decisions(s: PeerRetry, outcomes: Seq<Result<(), HandshakeError>>) -> Seq<Decision>
    decreases outcomes.len(),
{
    if outcomes.len() == 0 {
        Seq::empty()
    } else {
        let (next, v) = s.after(outcomes[0]);
        if v == Decision::Retry {
            seq![v] + decisions(next, outcomes.drop_first())
        } else {
            seq![v]
        }
    }
}

/// Whether an outcome is a failure that is worth retrying.
pub open spec fn is_retryable_failure(outcome: Result<(), HandshakeError>) -> bool {
    outcome matches Err(e) && e.spec_is_retryable()
}

/// Whether every outcome is a failure that is worth retrying.
pub open spec fn all_retryable_failures(outcomes: Seq<Result<(), HandshakeError>>) -> bool {
    forall|i: int| 0 <= i < outcomes.len() ==> #[trigger] is_retryable_failure(outcomes[i])
}

/// A peer that fails every attempt with retryable errors is tried exactly as
/// often as its remaining budget allows, with a backoff between consecutive
/// attempts, and then reported exhausted.
pub proof fn lemma_exhausted_after_budget(s: PeerRetry, outcomes: Seq<Result<(), HandshakeError>>)
    requires
        s.can_attempt(),
        all_retryable_failures(outcomes),
        outcomes.len() >= s.max_attempts - s.attempts,
    ensures
        decisions(s, outcomes).len() == s.max_attempts - s.attempts,
        decisions(s, outcomes).last() == Decision::Exhausted,
        forall|i: int| 0 <= i < decisions(s, outcomes).len() - 1 ==> decisions(s, outcomes)[i] == Decision::Retry,
    decreases s.max_attempts - s.attempts,
{
    assert(is_retryable_failure(outcomes[0]));
    let (next, v) = s.after(outcomes[0]);
    if v == Decision::Retry {
        let rest = outcomes.drop_first();
        assert(all_retryable_failures(rest)) by {
            assert forall|i: int| 0 <= i < rest.len() implies is_retryable_failure(rest[i]) by {
                assert(rest[i] == outcomes[i + 1]);
                assert(is_retryable_failure(outcomes[i + 1]));
            }
        }
        lemma_exhausted_after_budget(next, rest);
    }
}

/// A peer whose first attempt succeeds is attempted once and not retried.
pub proof fn lemma_first_success_stops(s: PeerRetry, outcomes: Seq<Result<(), HandshakeError>>)
    requires
        outcomes.len() > 0,
        outcomes[0] == Ok::<(), HandshakeError>(()),
    ensures
        decisions(s, outcomes) == seq![Decision::Succeeded],
{
}

/// Positions of the peers whose decision is not a success.
pub open spec fn failed_indices(vs: Seq<Decision>) -> Seq<usize>
    decreases vs.len(),
{
    if vs.len() == 0 {
        Seq::empty()
    } else if vs.last() == Decision::Succeeded {
        failed_indices(vs.drop_last())
    } else {
        failed_indices(vs.drop_last()).push((vs.len() - 1) as usize)
    }
}

/// The peers, by position, that did not succeed; the run as a whole
/// succeeded exactly when this is empty.
pub fn failed_peers(final_decisions: &Vec<Decision>) -> (r: Vec<usize>)
    ensures
        r@ == failed_indices(final_decisions@),
{
    let mut r: Vec<usize> = Vec::new();
    let mut i: usize = 0;
    while i < final_decisions.len()
        invariant
            0 <= i <= final_decisions@.len(),
            r@ == failed_indices(final_decisions@.subrange(0, i as int)),
        decreases final_decisions@.len() - i,
    {
        let ghost before = final_decisions@.subrange(0, i as int);
        if final_decisions[i] != Decision::Succeeded {
            r.push(i);
        }
        i = i + 1;
        assert(final_decisions@.subrange(0, i as int).drop_last() =~= before);
    }
    assert(final_decisions@.subrange(0, final_decisions@.len() as int) =~= final_decisions@);
    r
}

} // verus!
