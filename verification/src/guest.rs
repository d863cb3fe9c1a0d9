//! The guest's side of the protocol: which tests to run after asking the host.

use crate::error::ReceiveError;
use crate::serial_bridge_protocol::HostToGuestMsg;
use vstd::prelude::*;

verus! {

/// How long the guest waits for the host's list of tests, in milliseconds.
pub const TEST_LIST_TIMEOUT_MILLIS: u64 = 5000;

/// How the wait for the host's list of tests ended.
#[derive(Debug, PartialEq, Eq)]
pub enum WaitOutcome {
    /// The host answered.
    Reply(HostToGuestMsg),
    /// The time to wait passed without an answer.
    TimedOut,
    /// No answer could be read from the channel.
    Unreadable(ReceiveError),
}

/// What came of one stretch of waiting.
#[derive(Debug, PartialEq, Eq)]
pub enum WaitReport {
    /// The host answered.
    Reply(HostToGuestMsg),
    /// No answer could be read from the channel.
    Unreadable(ReceiveError),
    /// This many milliseconds passed without an answer.
    Silent(u64),
}

/// What follows a stretch of waiting.
#[derive(Debug, PartialEq, Eq)]
pub enum WaitStep {
    /// Wait on, for this many milliseconds at most.
    KeepWaiting(u64),
    /// The wait is over.
    Settled(WaitOutcome),
}

/// The jobs that the guest runs after the wait; an empty list means all of them.
///
/// The guest fails open: a host that does not answer in time, or whose channel has closed,
/// is taken to have asked for everything. Only bytes that are no frame stop the guest.
pub open spec fn jobs_after(outcome: WaitOutcome) -> Result<Seq<String>, ReceiveError> {
    match outcome {
        WaitOutcome::Reply(HostToGuestMsg::PleaseRunTheseTests(jobs)) => Ok(jobs@),
        WaitOutcome::TimedOut => Ok(Seq::empty()),
        WaitOutcome::Unreadable(ReceiveError::StreamClosed) => Ok(Seq::empty()),
        WaitOutcome::Unreadable(error) => Err(error),
    }
}

/// The time that is left to wait, in milliseconds, after `waited` of them.
pub open spec fn budget_of(waited: nat) -> nat {
    if waited < TEST_LIST_TIMEOUT_MILLIS {
        (TEST_LIST_TIMEOUT_MILLIS - waited) as nat
    } else {
        0
    }
}

/// The time waited after `silent` more milliseconds without an answer. Time beyond the whole
/// time to wait does not count.
pub open spec fn waited_after(waited: nat, silent: nat) -> nat {
    if waited + silent < TEST_LIST_TIMEOUT_MILLIS {
        waited + silent
    } else {
        TEST_LIST_TIMEOUT_MILLIS as nat
    }
}

/// What follows a report, when `waited` milliseconds had passed before it.
pub open spec fn step_after(waited: nat, report: WaitReport) -> WaitStep {
    match report {
        WaitReport::Reply(reply) => WaitStep::Settled(WaitOutcome::Reply(reply)),
        WaitReport::Unreadable(error) => WaitStep::Settled(WaitOutcome::Unreadable(error)),
        WaitReport::Silent(silent) => if budget_of(waited_after(waited, silent as nat)) == 0 {
            WaitStep::Settled(WaitOutcome::TimedOut)
        } else {
            WaitStep::KeepWaiting(budget_of(waited_after(waited, silent as nat)) as u64)
        },
    }
}

/// Decides which jobs to run once the wait for the host's answer has ended.
pub fn jobs_to_run(outcome: WaitOutcome) -> (jobs: Result<Vec<String>, ReceiveError>)
    ensures
        match jobs {
            Ok(list) => jobs_after(outcome) == Ok::<Seq<String>, ReceiveError>(list@),
            Err(error) => jobs_after(outcome) == Err::<Seq<String>, ReceiveError>(error),
        },
{
    match outcome {
        WaitOutcome::Reply(HostToGuestMsg::PleaseRunTheseTests(jobs)) => Ok(jobs),
        WaitOutcome::TimedOut => Ok(Vec::new()),
        WaitOutcome::Unreadable(ReceiveError::StreamClosed) => Ok(Vec::new()),
        WaitOutcome::Unreadable(error) => Err(error),
    }
}

/// The guest's wait for the host's list of tests: how much of the time to wait has passed.
///
/// The wait decides; whoever owns the clock waits. It is asked how long the next stretch may
/// last, and is told what came of it.
pub struct TestListWait {
    waited: u64,
}

impl View for TestListWait {
    type V = nat;

    closed spec fn view(&self) -> nat {
        self.waited as nat
    }
}

impl TestListWait {
    /// A wait that is about to begin.
    pub fn new() -> (wait: TestListWait)
        ensures
            wait@ == 0,
    {
        TestListWait { waited: 0 }
    }

    /// How long the next stretch of waiting may last, in milliseconds; zero once the whole
    /// time to wait has passed.
    pub fn budget(&self) -> (millis: u64)
        ensures
            millis == budget_of(self@),
    {
        if self.waited < TEST_LIST_TIMEOUT_MILLIS {
            TEST_LIST_TIMEOUT_MILLIS - self.waited
        } else {
            0
        }
    }

    /// Takes what came of a stretch of waiting, and says whether to wait on.
    ///
    /// An answer, or a channel that cannot be read, ends the wait at once. Silence ends it when
    /// the whole time to wait has passed; until then it is to go on, for the time that is left.
    pub fn on_report(&mut self, report: WaitReport) -> (step: WaitStep)
        ensures
            step == step_after(old(self)@, report),
            final(self)@ == match report {
                WaitReport::Silent(silent) => waited_after(old(self)@, silent as nat),
                _ => old(self)@,
            },
    {
        match report {
            WaitReport::Reply(reply) => WaitStep::Settled(WaitOutcome::Reply(reply)),
            WaitReport::Unreadable(error) => WaitStep::Settled(WaitOutcome::Unreadable(error)),
            WaitReport::Silent(silent) => {
                let left = self.budget();
                if silent >= left {
                    self.waited = TEST_LIST_TIMEOUT_MILLIS;
                    WaitStep::Settled(WaitOutcome::TimedOut)
                } else {
                    self.waited = self.waited + silent;
                    WaitStep::KeepWaiting(left - silent)
                }
            },
        }
    }
}

} // verus!
