//! The shutdown signal: a shared flag that every supervised loop observes, and
//! the two-stage escalation applied to termination requests.
use std::sync::atomic::{AtomicBool, Ordering};
use std::sync::Arc;
use vstd::prelude::*;

verus! {

/// Exit status of a process stopped by a second termination request.
pub const FORCED_EXIT_CODE: i32 = 1;

/// How to answer one termination request.
#[derive(Clone, Copy, Debug, PartialEq, Eq, Structural)]
pub enum ShutdownResponse {
    /// The flag has just been fired: let every loop wind down.
    Graceful,
    /// A shutdown was already under way: leave at once with this status.
    ForceExit(i32),
}

pub open spec fn escalation_spec(already_fired: bool) -> ShutdownResponse {
    if already_fired {
        ShutdownResponse::ForceExit(FORCED_EXIT_CODE)
    } else {
        ShutdownResponse::Graceful
    }
}

/// The answer to a termination request, given whether the shutdown flag had already
/// fired when it came.
pub fn escalation(already_fired: bool) -> (r: ShutdownResponse)
    ensures
        r == escalation_spec(already_fired),
{
    if already_fired {
        ShutdownResponse::ForceExit(FORCED_EXIT_CODE)
    } else {
        ShutdownResponse::Graceful
    }
}

/// A termination request on a shutdown flag in state `fired`: the shutdown flag is fired
/// afterwards, and the request is answered by the state it found.
pub open spec fn request(fired: bool) -> (bool, ShutdownResponse) {
    (true, escalation_spec(fired))
}

/// Escalation: a first request on an unfired flag asks for a graceful
/// shutdown; a second one, whatever the state it found, forces an exit with
/// status 1.
pub proof fn law_escalation(fired: bool)
    ensures
        request(false).1 == ShutdownResponse::Graceful,
        request(request(fired).0).1 == ShutdownResponse::ForceExit(1),
{
}

/// A process-wide cancellation flag, shared by cloning the handle.
#[derive(Clone, Debug)]
pub struct SmartSignal {
    flag: Arc<AtomicBool>,
}

impl SmartSignal {
    /// A flag that has not fired.
    pub fn new() -> (r: SmartSignal) {
        SmartSignal { flag: Arc::new(AtomicBool::new(false)) }
    }

    /// Whether the shutdown flag has fired. Every handle shares the flag, so the
    /// answer may change between two calls.
    pub fn has_fired(&self) -> (r: bool) {
        self.flag.load(Ordering::SeqCst)
    }

    /// Fires the shutdown flag; firing it again changes nothing.
    pub fn fire(&self) {
        self.flag.store(true, Ordering::SeqCst);
    }

    /// Handles one termination request: fires the shutdown flag and answers by
    /// whether it had already fired.
    pub fn on_termination_request(&self) -> (r: ShutdownResponse)
        ensures
            r == ShutdownResponse::Graceful || r == ShutdownResponse::ForceExit(FORCED_EXIT_CODE),
    {
        let was = self.flag.swap(true, Ordering::SeqCst);
        escalation(was)
    }
}

} // verus!
