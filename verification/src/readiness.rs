//! Startup: the backend is probed until it reports ready, a bounded number
//! of times at a fixed spacing.

use crate::delivery::{is_success_status, Transport};
use vstd::prelude::*;

verus! {

/// The most probes made before startup is given up.
pub const READY_ATTEMPTS: u32 = 60;

/// Seconds between two probes.
pub const READY_SPACING_SECS: u64 = 2;

/// Seconds after which one probe is given up.
pub const READY_TIMEOUT_SECS: u64 = 2;

/// After every so many failed probes a notice of the wait is due.
pub const READY_NOTICE_EVERY: u32 = 10;

/// What to do after a probe.
#[derive(Clone, Copy, Debug, PartialEq, Eq)]
pub enum ProbeAction {
    /// The backend is ready: go on.
    Proceed,
    /// Wait for the spacing, then probe again. `announce` asks for a notice
    /// that the wait goes on.
    Retry { announce: bool },
    /// Wait for the spacing, then give startup up: that was the last probe.
    GiveUp { announce: bool },
}

/// Whether a probe found the backend ready: it answered, with a status of
/// the success class.
pub open spec fn found_ready(outcome: Transport) -> bool {
    outcome matches Transport::Answered { status, .. } && is_success_status(status)
}

/// Whether a probe found the backend ready.
pub fn probe_ready(outcome: &Transport) -> (r: bool)
    ensures
        r == found_ready(*outcome),
{
    match outcome {
        Transport::Answered { status, .. } => 200 <= *status && *status < 300,
        Transport::Failed { .. } => false,
    }
}

/// What follows probe number `attempt`, counted from 1.
pub open spec fn after_probe(attempt: u32, ready: bool) -> ProbeAction {
    if ready {
        ProbeAction::Proceed
    } else if attempt >= READY_ATTEMPTS {
        ProbeAction::GiveUp { announce: attempt % READY_NOTICE_EVERY == 0 }
    } else {
        ProbeAction::Retry { announce: attempt % READY_NOTICE_EVERY == 0 }
    }
}

/// The wait for the backend at startup.
#[derive(Debug)]
pub struct Readiness {
    attempt: u32,
}

impl View for Readiness {
    type V = u32;

    /// The number of the probe that is under way, counted from 1.
    closed spec fn view(&self) -> u32 {
        self.attempt
    }
}

impl Readiness {
    #[verifier::type_invariant]
    spec fn bounded(self) -> bool {
        1 <= self.attempt <= READY_ATTEMPTS
    }

    /// The wait before the first probe.
    pub fn new() -> (r: Readiness)
        ensures
            r@ == 1,
    {
        Readiness { attempt: 1 }
    }

    /// The number of the probe that is under way, counted from 1.
    pub fn attempt(&self) -> (r: u32)
        ensures
            r == self@,
            1 <= r <= READY_ATTEMPTS,
    {
        proof {
            use_type_invariant(self);
        }
        self.attempt
    }

    /// Takes the result of the probe under way and says what follows. Only
    /// a retry moves on to the next probe.
    pub fn on_probe(&mut self, ready: bool) -> (action: ProbeAction)
        ensures
            action == after_probe(old(self)@, ready),
            final(self)@ == if action is Retry {
                (old(self)@ + 1) as u32
            } else {
                old(self)@
            },
            1 <= old(self)@ <= READY_ATTEMPTS,
    {
        proof {
            use_type_invariant(&*self);
        }
        if ready {
            return ProbeAction::Proceed;
        }
        let announce = self.attempt % READY_NOTICE_EVERY == 0;
        if self.attempt >= READY_ATTEMPTS {
            ProbeAction::GiveUp { announce: announce }
        } else {
            self.attempt = self.attempt + 1;
            ProbeAction::Retry { announce: announce }
        }
    }
}

/// The wait is bounded: a probe that fails is followed by another only while
/// fewer than the allowed number were made, and the last one allowed is
/// followed by giving up.
pub proof fn lemma_probes_bounded(attempt: u32)
    requires
        1 <= attempt <= READY_ATTEMPTS,
    ensures
        after_probe(attempt, false) is Retry <==> attempt < READY_ATTEMPTS,
        after_probe(attempt, false) is GiveUp <==> attempt == READY_ATTEMPTS,
        after_probe(attempt, true) is Proceed,
{
}

} // verus!
