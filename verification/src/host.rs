//! The host's side of the protocol: what to do with each message of the guest.

use crate::serial_bridge_protocol::{GuestToHostMsg, HostToGuestMsg, TestOutput, TestStart};
use vstd::prelude::*;

verus! {

/// A message that the protocol does not allow where it came.
#[derive(Clone, Copy, Debug, PartialEq, Eq, Structural)]
pub enum ProtocolViolation {
    /// The guest asked for the list of tests a second time.
    RepeatedRequest,
    /// The guest sent a message after it had said that it was done.
    AfterDone,
}

/// What the host does in answer to a message.
#[derive(Debug, PartialEq, Eq)]
pub enum HostAction {
    /// Note on the diagnostic stream that this test is starting.
    Announce(TestStart),
    /// Print this result on the result stream.
    Report(TestOutput),
    /// Send this message to the guest.
    Reply(HostToGuestMsg),
    /// Stop: the run is over.
    Stop,
}

/// What the host remembers between messages.
pub struct HostState {
    /// The jobs that the operator asked for; none means all.
    pub jobs: Seq<String>,
    /// The guest has asked for the list of tests.
    pub asked: bool,
    /// The guest has said that it is done.
    pub done: bool,
}

/// The host's state after `msg`.
pub open spec fn host_after(state: HostState, msg: GuestToHostMsg) -> HostState {
    if state.done {
        state
    } else {
        match msg {
            GuestToHostMsg::WhatTestsShouldIRun() => HostState { asked: true, ..state },
            GuestToHostMsg::Done() => HostState { done: true, ..state },
            _ => state,
        }
    }
}

/// The host of one run.
pub struct HostSession {
    jobs: Vec<String>,
    asked: bool,
    done: bool,
}

impl View for HostSession {
    type V = HostState;

    closed spec fn view(&self) -> HostState {
        HostState { jobs: self.jobs@, asked: self.asked, done: self.done }
    }
}

impl HostSession {
    /// A host at the start of a run, with the jobs that the operator asked for.
    pub fn new(jobs: Vec<String>) -> (session: HostSession)
        ensures
            session@ == (HostState { jobs: jobs@, asked: false, done: false }),
    {
        HostSession { jobs, asked: false, done: false }
    }

    /// Whether the guest has said that it is done.
    pub fn is_done(&self) -> (done: bool)
        ensures
            done == self@.done,
    {
        self.done
    }

    /// Decides what to do with a message of the guest.
    ///
    /// A test that starts is announced and a result is reported, as they come. The first
    /// request for the list of tests is answered with the operator's jobs; a second one is a
    /// violation. `Done` stops the run, and any message after it is a violation.
    pub fn handle(&mut self, msg: GuestToHostMsg) -> (action: Result<
        HostAction,
        ProtocolViolation,
    >)
        ensures
            final(self)@ == host_after(old(self)@, msg),
            match action {
                Ok(HostAction::Announce(start)) => !old(self)@.done && msg
                    == GuestToHostMsg::TestStart(start),
                Ok(HostAction::Report(output)) => !old(self)@.done && msg
                    == GuestToHostMsg::TestOutput(output),
                Ok(HostAction::Reply(HostToGuestMsg::PleaseRunTheseTests(jobs))) => {
                    &&& !old(self)@.done
                    &&& !old(self)@.asked
                    &&& msg == GuestToHostMsg::WhatTestsShouldIRun()
                    &&& jobs@ == old(self)@.jobs
                },
                Ok(HostAction::Stop) => !old(self)@.done && msg == GuestToHostMsg::Done(),
                Err(ProtocolViolation::RepeatedRequest) => {
                    &&& !old(self)@.done
                    &&& old(self)@.asked
                    &&& msg == GuestToHostMsg::WhatTestsShouldIRun()
                },
                Err(ProtocolViolation::AfterDone) => old(self)@.done,
            },
    {
        if self.done {
            return Err(ProtocolViolation::AfterDone);
        }
        match msg {
            GuestToHostMsg::TestStart(start) => Ok(HostAction::Announce(start)),
            GuestToHostMsg::TestOutput(output) => Ok(HostAction::Report(output)),
            GuestToHostMsg::WhatTestsShouldIRun() => {
                if self.asked {
                    Err(ProtocolViolation::RepeatedRequest)
                } else {
                    self.asked = true;
                    let jobs = self.jobs.clone();
                    assert(jobs@ =~= self.jobs@);
                    Ok(HostAction::Reply(HostToGuestMsg::PleaseRunTheseTests(jobs)))
                }
            },
            GuestToHostMsg::Done() => {
                self.done = true;
                Ok(HostAction::Stop)
            },
        }
    }
}

} // verus!
