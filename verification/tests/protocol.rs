use serial_bridge::error::ReceiveError;
use serial_bridge::guest::{
    jobs_to_run, TestListWait, WaitOutcome, WaitReport, WaitStep, TEST_LIST_TIMEOUT_MILLIS,
};
use serial_bridge::host::{HostAction, HostSession, ProtocolViolation};
use serial_bridge::serial_bridge_protocol::{
    receive_message, send_message, GuestToHostMsg, HostToGuestMsg, TestOutput, TestStart,
};

fn start() -> TestStart {
    TestStart { execution_id: 0x0123_4567_89ab_cdef_0123_4567_89ab_cdef, name: "fio".to_string() }
}

fn output() -> TestOutput {
    TestOutput {
        execution_id: 0x0123_4567_89ab_cdef_0123_4567_89ab_cdef,
        name: "fio".to_string(),
        output: "ok\n".to_string(),
        dmesg: String::new(),
        exitcode: 0,
        runtime_millis: 1500,
    }
}

fn jobs(names: &[&str]) -> Vec<String> {
    names.iter().map(|name| name.to_string()).collect()
}

#[test]
fn host_announces_a_start_and_reports_a_result() {
    let mut host = HostSession::new(vec![]);
    assert_eq!(host.handle(GuestToHostMsg::TestStart(start())), Ok(HostAction::Announce(start())));
    assert_eq!(host.handle(GuestToHostMsg::TestOutput(output())), Ok(HostAction::Report(output())));
    assert!(!host.is_done());
}

#[test]
fn host_answers_the_request_with_the_operators_jobs() {
    let mut host = HostSession::new(jobs(&["cool_job", "other_job"]));
    assert_eq!(
        host.handle(GuestToHostMsg::WhatTestsShouldIRun()),
        Ok(HostAction::Reply(HostToGuestMsg::PleaseRunTheseTests(jobs(&["cool_job", "other_job"]))))
    );
    let mut all = HostSession::new(vec![]);
    assert_eq!(
        all.handle(GuestToHostMsg::WhatTestsShouldIRun()),
        Ok(HostAction::Reply(HostToGuestMsg::PleaseRunTheseTests(vec![])))
    );
}

#[test]
fn host_refuses_a_second_request() {
    let mut host = HostSession::new(jobs(&["a"]));
    assert!(host.handle(GuestToHostMsg::WhatTestsShouldIRun()).is_ok());
    assert_eq!(host.handle(GuestToHostMsg::TestStart(start())), Ok(HostAction::Announce(start())));
    assert_eq!(
        host.handle(GuestToHostMsg::WhatTestsShouldIRun()),
        Err(ProtocolViolation::RepeatedRequest)
    );
    assert_eq!(host.handle(GuestToHostMsg::Done()), Ok(HostAction::Stop));
}

#[test]
fn host_stops_on_done_and_refuses_what_follows() {
    let mut host = HostSession::new(vec![]);
    assert_eq!(host.handle(GuestToHostMsg::Done()), Ok(HostAction::Stop));
    assert!(host.is_done());
    assert_eq!(host.handle(GuestToHostMsg::Done()), Err(ProtocolViolation::AfterDone));
    assert_eq!(
        host.handle(GuestToHostMsg::WhatTestsShouldIRun()),
        Err(ProtocolViolation::AfterDone)
    );
    assert_eq!(host.handle(GuestToHostMsg::TestOutput(output())), Err(ProtocolViolation::AfterDone));
    assert!(host.is_done());
}

#[test]
fn host_accepts_a_result_without_a_start() {
    let mut host = HostSession::new(vec![]);
    assert_eq!(host.handle(GuestToHostMsg::TestOutput(output())), Ok(HostAction::Report(output())));
    assert_eq!(host.handle(GuestToHostMsg::Done()), Ok(HostAction::Stop));
}

#[test]
fn host_run_after_boot_text_reports_one_result_and_stops() {
    let start_text = br#"{"TestStart":{"execution_id":"01234567-89ab-cdef-0123-456789abcdef","name":"fio"}}"#;
    let output_text = br#"{"TestOutput":{"execution_id":"01234567-89ab-cdef-0123-456789abcdef","name":"fio","output":"ok\n","dmesg":"","exitcode":0,"runtime_millis":1500}}"#;
    let done_text = br#""Done""#;

    let mut channel: Vec<u8> = b"SeaBIOS (version 1.16)\r\nBooting from Hard Disk..\r\n".to_vec();
    assert_eq!(channel.len(), 50);
    send_message(&mut channel, start_text);
    send_message(&mut channel, output_text);
    send_message(&mut channel, done_text);

    let mut host = HostSession::new(vec![]);
    let mut at = 0;
    let mut announced = 0;
    let mut reported = Vec::new();
    let mut stopped = false;
    while !host.is_done() {
        let frame = receive_message(&channel[at..]).unwrap();
        at += frame.consumed;
        let msg = if frame.payload == start_text.to_vec() {
            GuestToHostMsg::TestStart(start())
        } else if frame.payload == output_text.to_vec() {
            GuestToHostMsg::TestOutput(output())
        } else {
            assert_eq!(frame.payload, done_text.to_vec());
            GuestToHostMsg::Done()
        };
        match host.handle(msg).unwrap() {
            HostAction::Announce(test) => {
                assert!(reported.is_empty());
                assert_eq!(test, start());
                announced += 1;
            }
            HostAction::Report(result) => reported.push(result),
            HostAction::Reply(_) => panic!("nothing was asked"),
            HostAction::Stop => stopped = true,
        }
    }
    assert_eq!(announced, 1);
    assert_eq!(reported, vec![output()]);
    assert!(stopped);
    assert_eq!(at, channel.len());
}

#[test]
fn guest_waits_five_seconds_for_the_list() {
    assert_eq!(TEST_LIST_TIMEOUT_MILLIS, 5000);
}

#[test]
fn guest_runs_everything_when_the_host_is_silent() {
    assert_eq!(jobs_to_run(WaitOutcome::TimedOut), Ok(vec![]));

    let mut wait = TestListWait::new();
    assert_eq!(wait.budget(), 5000);
    let step = wait.on_report(WaitReport::Silent(5000));
    assert_eq!(step, WaitStep::Settled(WaitOutcome::TimedOut));
    assert_eq!(wait.budget(), 0);
    match step {
        WaitStep::Settled(outcome) => assert_eq!(jobs_to_run(outcome), Ok(vec![])),
        WaitStep::KeepWaiting(_) => panic!("the time to wait is over"),
    }
}

#[test]
fn guest_wait_never_grants_more_than_what_is_left() {
    let mut wait = TestListWait::new();
    assert_eq!(wait.on_report(WaitReport::Silent(0)), WaitStep::KeepWaiting(5000));
    assert_eq!(wait.on_report(WaitReport::Silent(1200)), WaitStep::KeepWaiting(3800));
    assert_eq!(wait.budget(), 3800);
    assert_eq!(wait.on_report(WaitReport::Silent(3799)), WaitStep::KeepWaiting(1));
    assert_eq!(wait.on_report(WaitReport::Silent(1)), WaitStep::Settled(WaitOutcome::TimedOut));
    assert_eq!(wait.budget(), 0);
    assert_eq!(wait.on_report(WaitReport::Silent(0)), WaitStep::Settled(WaitOutcome::TimedOut));

    let mut late = TestListWait::new();
    assert_eq!(late.on_report(WaitReport::Silent(u64::MAX)), WaitStep::Settled(WaitOutcome::TimedOut));
    assert_eq!(late.budget(), 0);
}

#[test]
fn guest_wait_ends_at_once_on_an_answer_or_a_dead_channel() {
    let mut wait = TestListWait::new();
    assert_eq!(wait.on_report(WaitReport::Silent(100)), WaitStep::KeepWaiting(4900));
    let reply = HostToGuestMsg::PleaseRunTheseTests(jobs(&["a"]));
    assert_eq!(
        wait.on_report(WaitReport::Reply(reply)),
        WaitStep::Settled(WaitOutcome::Reply(HostToGuestMsg::PleaseRunTheseTests(jobs(&["a"]))))
    );
    assert_eq!(wait.budget(), 4900);
    assert_eq!(
        wait.on_report(WaitReport::Unreadable(ReceiveError::StreamClosed)),
        WaitStep::Settled(WaitOutcome::Unreadable(ReceiveError::StreamClosed))
    );
    assert_eq!(
        wait.on_report(WaitReport::Unreadable(ReceiveError::MalformedLength)),
        WaitStep::Settled(WaitOutcome::Unreadable(ReceiveError::MalformedLength))
    );
}

#[test]
fn guest_runs_everything_when_the_channel_closed() {
    assert_eq!(jobs_to_run(WaitOutcome::Unreadable(ReceiveError::StreamClosed)), Ok(vec![]));
}

#[test]
fn guest_runs_the_jobs_that_the_host_names() {
    let reply = HostToGuestMsg::PleaseRunTheseTests(jobs(&["b", "a", "b"]));
    assert_eq!(jobs_to_run(WaitOutcome::Reply(reply)), Ok(jobs(&["b", "a", "b"])));
    let none = HostToGuestMsg::PleaseRunTheseTests(vec![]);
    assert_eq!(jobs_to_run(WaitOutcome::Reply(none)), Ok(vec![]));
}

#[test]
fn guest_stops_on_a_malformed_answer() {
    assert_eq!(
        jobs_to_run(WaitOutcome::Unreadable(ReceiveError::MalformedLength)),
        Err(ReceiveError::MalformedLength)
    );
}
