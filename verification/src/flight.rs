use vstd::prelude::*;

verus! {

/// The single-flight admission model for the engine: an instrumented
/// in-flight counter around the decode session. The process-wide lock that
/// callers block on lives with the I/O layer; this model states and keeps
/// the policy it must enforce — at most one decode session at a time.
pub struct FlightGuard {
    /// How many decode sessions are active right now.
    pub in_flight: u32,
}

impl FlightGuard {
    /// The admission invariant: never more than one session in flight.
    pub open spec fn wf(self) -> bool {
        self.in_flight <= 1
    }

    pub fn new() -> (r: FlightGuard)
        ensures
            r.wf(),
            r.in_flight == 0,
    {
        FlightGuard { in_flight: 0 }
    }

    /// Admits a session exactly when none is in flight.
    pub fn try_enter(&mut self) -> (admitted: bool)
        requires
            old(self).wf(),
        ensures
            final(self).wf(),
            admitted == (old(self).in_flight == 0),
            admitted ==> final(self).in_flight == 1,
            !admitted ==> final(self).in_flight == old(self).in_flight,
    {
        if self.in_flight == 0 {
            self.in_flight = 1;
            true
        } else {
            false
        }
    }

    /// Releases the one admitted session.
    pub fn exit(&mut self)
        requires
            old(self).wf(),
            old(self).in_flight == 1,
        ensures
            final(self).wf(),
            final(self).in_flight == 0,
    {
        self.in_flight = 0;
    }
}

/// However many callers contend, a guard that respects the invariant never
/// counts more than one active decode session, and every operation above
/// preserves the invariant: admission is denied while a session is in
/// flight.
pub proof fn lemma_single_flight(g: FlightGuard)
    requires
        g.wf(),
    ensures
        g.in_flight <= 1,
{
}

} // verus!
