//! The monitor: its reports, its commands and what it does with processes.

use rezygisk::monitor::children::{
    handoff_step, handoff_wait, is_stopping_signal_stop, tracer_program, ChildAction, Handoff,
    HandoffPhase, HandoffTarget, ParkStep, RanOutcome, ReapStep,
};
use rezygisk::monitor::control::{
    claim_init_tracer, file_stamp, init_monitor, init_stopped, recv_control_datagram,
    rezygiskd_listener_callback, taken_message, write_file_finish, ClaimResult, ControlRequest,
    EventStep, InitRequest, LoopStep, MonitorPhase, PollResult, ReceiveResult, ReceiveStep,
    WriteResult, WriteStep,
};
use rezygisk::monitor::prop::{split_module_prop, strip_status_brackets};
use rezygisk::monitor::report::{StateFile, StatusStep};
use rezygisk::monitor::{Monitor, RezygiskdCommand, TracingState, ZygoteStartCounter};
use rezygisk::wait::WaitResult;

const SECOND: u64 = 1_000_000_000;

fn monitor_with_status() -> Monitor {
    let mut m = Monitor::new();
    m.env64.root_impl = Some("KernelSU".into());
    m.env64.modules = vec!["truman".into(), "playintegrityfix".into()];
    m.status64.supported = true;
    m.status64.daemon_running = true;
    m.status64.zygote_injected = true;
    m
}

#[test]
fn state_json_64bit_healthy() {
    let m = monitor_with_status();
    assert_eq!(
        m.build_state_json(),
        "{\n\
         \x20 \"root\": \"KernelSU\",\n\
         \x20 \"monitor\": {\n\
         \x20   \"state\": \"0\"\n\
         \x20 },\n\
         \x20 \"rezygiskd\": {\n\
         \x20   \"64\": {\n\
         \x20     \"state\": 1,\n\
         \x20     \"modules\": [\"truman\", \"playintegrityfix\"]\n\
         \x20   }\n\
         \x20 },\n\
         \x20 \"zygote\": {\n\
         \x20   \"64\": 1\n\
         \x20 }\n\
         }\n"
    );
}

#[test]
fn state_json_both_abis_with_errors() {
    let mut m = monitor_with_status();
    m.env32.root_impl = Some("Magisk".into());
    m.env32.modules = vec!["truman".into()];
    m.status32.supported = true;
    m.status32.daemon_running = false;
    m.status32.daemon_error_info = Some("exec failed".into());
    m.status32.zygote_injected = true;
    m.tracing_state = TracingState::Stopping;
    m.stop_reason = Some("Zygote crashed");

    let json = m.build_state_json();
    assert_eq!(
        json,
        "{\n\
         \x20 \"root\": \"KernelSU\",\n\
         \x20 \"monitor\": {\n\
         \x20   \"state\": \"1\",\n\
         \x20   \"reason\": \"Zygote crashed\",\n\
         \x20 },\n\
         \x20 \"rezygiskd\": {\n\
         \x20   \"64\": {\n\
         \x20     \"state\": 1,\n\
         \x20     \"modules\": [\"truman\", \"playintegrityfix\"]\n\
         \x20   },\n\
         \x20   \"32\": {\n\
         \x20     \"state\": 0,\n\
         \x20     \"reason\": \"exec failed\",\n\
         \x20     \"modules\": [\"truman\"]\n\
         \x20   }\n\
         \x20 },\n\
         \x20 \"zygote\": {\n\
         \x20   \"64\": 1,\n\
         \x20   \"32\": 1\n\
         \x20 }\n\
         }\n"
    );
}

#[test]
fn state_json_empty_environment() {
    let m = Monitor::new();
    assert_eq!(
        m.build_state_json(),
        "{\n\
         \x20 \"root\": \"\",\n\
         \x20 \"monitor\": {\n\
         \x20   \"state\": \"0\"\n\
         \x20 }\n\
         }\n"
    );
}

#[test]
fn module_prop_split() {
    let orig = "id=rezygisk\nname=ReZygisk\ndescription=[Monitor: ✅] tracer\nversion=v1\nextra=1\n";
    let (pre, post) = split_module_prop(orig);
    assert_eq!(pre, "id=rezygisk\nname=ReZygisk\ndescription=");
    assert_eq!(post, "tracer\nversion=v1\nextra=1\n");

    let dirty = "description=[Monitor: ✅, ReZygisk 64-bit: ✅, ReZygisk 32-bit: ✅] \
                 [Monitor: ✅, ReZygisk 64-bit: ✅, ReZygisk 32-bit: ⚠️] Standalone implementation of Zygisk.\n\
                 versionCode=1\n";
    let (pre, post) = split_module_prop(dirty);
    assert_eq!(post, "Standalone implementation of Zygisk.\nversionCode=1\n");
    assert_eq!(
        format!("{}[Monitor: ✅] {}", pre, post),
        "description=[Monitor: ✅] Standalone implementation of Zygisk.\nversionCode=1\n"
    );

    let (_, post) = split_module_prop("description=[TIP] friendly text\n");
    assert_eq!(post, "[TIP] friendly text\n");

    let (pre, post) = split_module_prop("a=1\ndescription=d\nb=2");
    assert_eq!(pre, "a=1\ndescription=");
    assert_eq!(post, "d\nb=2");
}

#[test]
fn status_text_and_payload_shape() {
    let mut m = monitor_with_status();
    let pre = "id=rezygisk\ndescription=";
    let post = "original\n";
    m.pre_section = pre.into();
    m.post_section = post.into();

    let text = m.status_text();
    assert_eq!(text, "Monitor: ✅, ReZygisk 64-bit: ✅");
    assert_eq!(
        format!("{}[{text}] {}", m.pre_section, m.post_section),
        "id=rezygisk\ndescription=[Monitor: ✅, ReZygisk 64-bit: ✅] original\n"
    );
    assert_eq!(
        m.status_payload(None),
        "id=rezygisk\ndescription=[Monitor: ✅, ReZygisk 64-bit: ✅] original\n"
    );
    assert_eq!(
        m.status_payload(Some("❌ Multiple Zygisks functioning")),
        "id=rezygisk\ndescription=[❌ Multiple Zygisks functioning] original\n"
    );

    m.status64.daemon_running = false;
    m.status64.zygote_injected = false;
    assert_eq!(m.status_text(), "Monitor: ✅, ReZygisk 64-bit: ⚠️(ReZygiskd: not running)");
}

#[test]
fn zygote_counter_first_call_clears() {
    let mut c = ZygoteStartCounter::new();
    assert!(!c.should_stop_inject(0));
    assert_eq!(c.count, 0);
}

#[test]
fn sixth_rapid_start_stops() {
    let mut c = ZygoteStartCounter::new();
    for i in 0..5u64 {
        assert!(!c.should_stop_inject(i * SECOND));
    }
    assert!(c.should_stop_inject(5 * SECOND));
    assert!(!c.should_stop_inject(36 * SECOND));
    assert_eq!(c.count, 0);
}

#[test]
fn control_command_values() {
    assert_eq!(RezygiskdCommand::Start.value(), 1);
    assert_eq!(RezygiskdCommand::Stop.value(), 2);
    assert_eq!(RezygiskdCommand::Exit.value(), 3);
    assert_eq!(RezygiskdCommand::Zygote64Injected.value(), 4);
    assert_eq!(RezygiskdCommand::Zygote32Injected.value(), 5);
    assert_eq!(RezygiskdCommand::Daemon64SetInfo.value(), 6);
    assert_eq!(RezygiskdCommand::Daemon32SetInfo.value(), 7);
    assert_eq!(RezygiskdCommand::Daemon64SetErrorInfo.value(), 8);
    assert_eq!(RezygiskdCommand::Daemon32SetErrorInfo.value(), 9);
}

#[test]
fn status_is_replaced_however_often_it_is_written() {
    let mut m = Monitor::new();
    let first = "id=x\ndescription=A tracer\nversion=1\n";
    let (pre, post) = split_module_prop(first);
    m.pre_section = pre.clone();
    m.post_section = post.clone();
    let mut file = m.status_payload(None);
    for _ in 0..3 {
        let (p, q) = split_module_prop(&file);
        assert_eq!((p.as_str(), q.as_str()), (pre.as_str(), post.as_str()));
        m.pre_section = p;
        m.post_section = q;
        file = m.status_payload(None);
    }
    assert_eq!(file, "id=x\ndescription=[Monitor: ✅] A tracer\nversion=1\n");
    let once = strip_status_brackets("  [Monitor: a] [Monitor: b] rest");
    assert_eq!(once, "rest");
    assert_eq!(strip_status_brackets(&once), once);
    assert_eq!(strip_status_brackets("  plain"), "  plain");
}

#[test]
fn state_file_follows_the_reports() {
    let mut m = Monitor::new();
    assert_eq!(m.state_file(None), StateFile::Remove);
    assert_eq!(m.state_file(Some("text")), StateFile::Keep);
    m.env32.root_impl = Some("Magisk".into());
    assert_eq!(m.state_file(None), StateFile::Write);
}

#[test]
fn data_is_no_command() {
    assert_eq!(rezygiskd_listener_callback(2, &vec![]), ControlRequest::Stop);
    assert_eq!(rezygiskd_listener_callback(2, &vec![0, 0, 0]), ControlRequest::Ignore);
    assert_eq!(rezygiskd_listener_callback(1, &vec![]), ControlRequest::Start);
    assert_eq!(rezygiskd_listener_callback(3, &vec![]), ControlRequest::Exit);
    assert_eq!(rezygiskd_listener_callback(4, &vec![]), ControlRequest::ZygoteInjected);
    assert_eq!(rezygiskd_listener_callback(7, &vec![1]), ControlRequest::Info);
    assert_eq!(rezygiskd_listener_callback(8, &vec![1]), ControlRequest::ErrorInfo);
    assert_eq!(rezygiskd_listener_callback(0, &vec![]), ControlRequest::Ignore);
    assert_eq!(rezygiskd_listener_callback(10, &vec![]), ControlRequest::Ignore);
}

#[test]
fn datagrams_are_taken_apart() {
    let buf = vec![6u8, 1, 2, 3];
    match recv_control_datagram(&buf, ReceiveResult::Received(3)) {
        ReceiveStep::Datagram(cmd, payload) => {
            assert_eq!(cmd, 6);
            assert_eq!(payload, vec![1, 2]);
        }
        _ => panic!("a datagram"),
    }
    assert!(matches!(
        recv_control_datagram(&buf, ReceiveResult::Received(5)),
        ReceiveStep::Nothing
    ));
    assert!(matches!(
        recv_control_datagram(&buf, ReceiveResult::Received(0)),
        ReceiveStep::Nothing
    ));
    assert!(matches!(
        recv_control_datagram(&buf, ReceiveResult::Failed { interrupted: true }),
        ReceiveStep::Again
    ));
    assert!(matches!(
        recv_control_datagram(&buf, ReceiveResult::Failed { interrupted: false }),
        ReceiveStep::Nothing
    ));
}

#[test]
fn start_stop_and_exit() {
    let mut m = Monitor::new();
    assert_eq!(m.handle_start(), InitRequest::Nothing);
    assert_eq!(m.handle_stop(), InitRequest::Interrupt);
    assert_eq!(m.tracing_state, TracingState::Stopping);
    assert_eq!(m.stop_reason, Some("user requested"));
    assert_eq!(m.handle_stop(), InitRequest::Nothing);
    assert_eq!(m.status_text(), "Monitor: ⛔");
    assert_eq!(m.handle_start(), InitRequest::Nothing);
    assert_eq!(m.tracing_state, TracingState::Tracing);
    m.tracing_state = TracingState::Stopped;
    assert_eq!(m.handle_start(), InitRequest::Seize);
    m.handle_exit();
    assert_eq!(m.tracing_state, TracingState::Exiting);
    assert!(!m.events_running);
    assert_eq!(m.status_text(), "Monitor: ❌");
}

#[test]
fn reports_of_the_daemons() {
    let mut m = Monitor::new();
    assert!(!m.handle_set_info(6, None));
    assert!(m.handle_set_info(7, Some(("Magisk".to_string(), vec!["a".to_string()]))));
    assert_eq!(m.env32.root_impl.as_deref(), Some("Magisk"));
    assert!(m.env64.root_impl.is_none());
    assert!(m.handle_set_error_info(8, Some("broken".to_string())));
    assert_eq!(m.status64.daemon_error_info.as_deref(), Some("broken"));
    assert!(!m.handle_set_error_info(9, None));
    m.handle_zygote_injected(4);
    assert!(m.status64.zygote_injected && !m.status32.zygote_injected);
}

#[test]
fn daemon_comes_and_goes() {
    let mut m = Monitor::new();
    assert_eq!(m.ensure_daemon_created(true), None);
    assert!(!m.daemon_started(true, None));
    assert!(m.daemon_started(true, Some(77)));
    assert_eq!(m.ensure_daemon_created(true), Some(true));
    assert_eq!(m.ensure_daemon_created(false), None);
    // A stop is not the end of the daemon.
    assert!(!m.check_daemon_exit(77, 0x137f));
    assert!(m.check_daemon_exit(77, 0x0100));
    assert_eq!(m.status64.daemon_pid, -1);
    assert!(!m.status64.daemon_running);
    assert!(m.status64.daemon_error_info.is_some());
    assert_eq!(m.ensure_daemon_created(true), None);
}

#[test]
fn init_is_never_left_stopped() {
    let mut m = Monitor::new();
    // A fork of init.
    assert_eq!(m.handle_sigchld_child(1, 0x1057f), ChildAction::Continue(0));
    // A signal is handed on, a stop is not.
    assert_eq!(m.handle_sigchld_child(1, 0x0f7f), ChildAction::Continue(15));
    assert_eq!(m.handle_sigchld_child(1, 0x137f), ChildAction::Continue(0));
    m.tracing_state = TracingState::Stopping;
    assert_eq!(m.handle_sigchld_child(1, 0x80057f), ChildAction::DetachInit);
    assert_eq!(m.tracing_state, TracingState::Stopped);
    assert!(!m.watchdog_check_init(true));
    m.tracing_state = TracingState::Tracing;
    assert!(m.watchdog_check_init(true));
    assert!(!m.watchdog_check_init(false));
}

#[test]
fn children_are_listed_once() {
    let mut m = Monitor::new();
    assert_eq!(m.handle_sigchld_child(50, 0x137f), ChildAction::Attach);
    assert_eq!(m.handle_sigchld_child(60, 0x137f), ChildAction::Attach);
    // An end report is no reason to follow a process.
    assert_eq!(m.handle_sigchld_child(70, 0), ChildAction::Nothing);
    assert_eq!(m.attached, vec![50, 60]);
    // A followed process that stops is followed on.
    assert_eq!(m.handle_sigchld_child(50, 0x137f), ChildAction::Continue(0));
    assert_eq!(m.attached, vec![50, 60]);
    assert_eq!(m.handle_sigchld_child(50, 0x4057f), ChildAction::Ran);
    assert_eq!(m.finish_ran(50, RanOutcome::Kept), ChildAction::Detach);
    assert_eq!(m.attached, vec![0, 60]);
    assert_eq!(m.handle_sigchld_child(80, 0x137f), ChildAction::Attach);
    assert_eq!(m.attached, vec![80, 60]);
    assert_eq!(m.finish_ran(80, RanOutcome::HandedOff), ChildAction::Nothing);
    assert_eq!(m.handle_sigchld_child(60, 0x0b7f), ChildAction::Detach);
    assert_eq!(m.attached, vec![0, 0]);
    assert!(is_stopping_signal_stop(0x80057f));
    assert!(!is_stopping_signal_stop(0x0b7f));
}

#[test]
fn reaping_ends() {
    let mut m = Monitor::new();
    assert_eq!(m.sigchld_listener_callback(0, false), ReapStep::Done);
    assert_eq!(m.sigchld_listener_callback(-1, true), ReapStep::Again);
    assert_eq!(m.sigchld_listener_callback(12, false), ReapStep::Child(12));
    m.tracing_state = TracingState::Stopped;
    assert_eq!(m.sigchld_listener_callback(-1, true), ReapStep::Done);
}

#[test]
fn only_zygotes_go_to_a_tracer() {
    let mut m = Monitor::new();
    let z64 = "/system/bin/app_process64";
    let line = "zygote64 -Xzygote /system/bin --zygote --start-system-server";
    assert_eq!(m.consider_handoff("/system/bin/sh", line, Some(1), 0), Handoff::Leave);
    assert_eq!(m.consider_handoff(z64, "app_process64 cmd", Some(1), 0), Handoff::Leave);
    assert_eq!(m.consider_handoff(z64, line, Some(5), 0), Handoff::Leave);
    assert_eq!(
        m.consider_handoff(z64, line, Some(1), 0),
        Handoff::Proceed(HandoffTarget::App64)
    );
    // What cannot be read does not count against it.
    assert_eq!(
        m.consider_handoff("/system/bin/app_process32", "", None, 0),
        Handoff::Proceed(HandoffTarget::App32)
    );
    assert_eq!(
        m.consider_handoff("/system_ext/bin/tango_translator", "x", Some(9), 40 * SECOND),
        Handoff::Proceed(HandoffTarget::Tango)
    );
    m.tracing_state = TracingState::Stopping;
    assert_eq!(m.consider_handoff(z64, line, Some(1), 0), Handoff::Leave);
}

#[test]
fn crashing_zygote_stops_the_injection() {
    let mut m = Monitor::new();
    let z = "/system/bin/app_process64";
    for i in 0..5u64 {
        assert_eq!(
            m.consider_handoff(z, "z --zygote", Some(1), i * SECOND),
            Handoff::Proceed(HandoffTarget::App64)
        );
    }
    assert_eq!(
        m.consider_handoff(z, "z --zygote", Some(1), 5 * SECOND),
        Handoff::StopInjecting
    );
    assert_eq!(m.stop_reason, Some("Zygote crashed"));
    assert_eq!(m.tracing_state, TracingState::Stopping);
}

#[test]
fn missing_daemon_stops_the_injection() {
    let mut m = Monitor::new();
    m.daemon_missing();
    assert_eq!(m.stop_reason, Some("ReZygiskd not running"));
    assert_eq!(m.tracing_state, TracingState::Stopping);
}

#[test]
fn parking_is_bounded() {
    assert_eq!(handoff_wait(WaitResult::Changed(0x137f), false), ParkStep::Parked);
    assert_eq!(handoff_wait(WaitResult::Changed(0x80057f), false), ParkStep::Parked);
    assert_eq!(handoff_wait(WaitResult::Changed(0), false), ParkStep::Ended);
    assert_eq!(
        handoff_wait(WaitResult::Changed(0x0b7f), false),
        ParkStep::Rearm { signal: 11, last: false }
    );
    assert_eq!(
        handoff_wait(WaitResult::Changed(0x147f), true),
        ParkStep::Rearm { signal: 0, last: true }
    );
    assert_eq!(handoff_wait(WaitResult::Nothing, false), ParkStep::Sleep);
    assert_eq!(handoff_wait(WaitResult::Nothing, true), ParkStep::GiveUp);
    assert_eq!(handoff_wait(WaitResult::Error { interrupted: true }, false), ParkStep::Sleep);
    assert_eq!(handoff_wait(WaitResult::Error { interrupted: false }, false), ParkStep::GiveUp);
    let mut m = Monitor::new();
    m.attached = vec![9];
    assert!(m.abandon_handoff(9, 0x0b7f));
    assert_eq!(m.attached, vec![0]);
    assert!(!m.abandon_handoff(9, 0));
}

#[test]
fn tracer_arguments() {
    let mut m = Monitor::new();
    assert_eq!(m.tracer_args(321, HandoffTarget::App64), vec!["zygisk-ptrace64", "trace", "321"]);
    m.counter64.count = 1;
    assert_eq!(m.tracer_args(321, HandoffTarget::App64), vec!["zygisk-ptrace64", "trace", "321"]);
    m.counter64.count = 2;
    assert_eq!(
        m.tracer_args(321, HandoffTarget::App64),
        vec!["zygisk-ptrace64", "trace", "321", "--restart"]
    );
    m.counter32.count = 2;
    assert_eq!(
        m.tracer_args(5, HandoffTarget::Tango),
        vec!["zygisk-ptrace32", "trace", "5", "--restart", "--tango"]
    );
    assert_eq!(tracer_program(HandoffTarget::App32), "./bin/zygisk-ptrace32");
    assert_eq!(tracer_program(HandoffTarget::App64), "./bin/zygisk-ptrace64");
}

#[test]
fn event_loop_steps() {
    let mut m = Monitor::new();
    let mut ticks = 13;
    assert_eq!(m.events_loop(&mut ticks, PollResult::Timeout), LoopStep::Watch { heartbeat: false });
    assert_eq!(m.events_loop(&mut ticks, PollResult::Timeout), LoopStep::Watch { heartbeat: true });
    assert_eq!(m.events_loop(&mut ticks, PollResult::Ready), LoopStep::Handle);
    assert_eq!(ticks, 0);
    assert_eq!(
        m.events_loop(&mut ticks, PollResult::Failed { interrupted: true }),
        LoopStep::Again
    );
    assert!(m.events_running);
    assert_eq!(m.handle_event(1, 5, 5, 6), EventStep::Control);
    assert_eq!(m.handle_event(1, 6, 5, 6), EventStep::Children);
    assert_eq!(m.handle_event(1, 7, 5, 6), EventStep::Nothing);
    assert_eq!(m.handle_event(0x10, 5, 5, 6), EventStep::Leave);
    assert!(!m.events_running);
    m.events_running = true;
    assert_eq!(
        m.events_loop(&mut ticks, PollResult::Failed { interrupted: false }),
        LoopStep::Leave
    );
    assert!(!m.events_running);
}

#[test]
fn stopped_init_is_seen() {
    assert!(init_stopped("1 (init) T 0 1 1"));
    assert!(init_stopped("1 (a ) b) t 0"));
    assert!(!init_stopped("1 (init) S 0"));
    assert!(!init_stopped("nothing"));
}

#[test]
fn files_are_stamped() {
    assert_eq!(file_stamp(None, None), "MISSING");
    assert_eq!(
        file_stamp(Some((123, 456)), Some([0x7f, 0x45, 0x4c, 0x46, 2])),
        "123 bytes mtime=456 ELF64"
    );
    assert_eq!(
        file_stamp(Some((1, 0)), Some([0x7f, 0x45, 0x4c, 0x46, 1])),
        "1 bytes mtime=0 ELF32"
    );
    assert_eq!(file_stamp(Some((1, 2)), Some([0, 0, 0, 0, 0])), "1 bytes mtime=2 not-elf");
    assert_eq!(file_stamp(Some((1, 2)), None), "1 bytes mtime=2 unreadable");
}

#[test]
fn monitor_closes_what_it_opened() {
    let mut phase = MonitorPhase::Prepare;
    let mut seen = Vec::new();
    while !matches!(phase, MonitorPhase::Ended(_)) {
        seen.push(phase);
        phase = init_monitor(phase, true);
    }
    assert_eq!(phase, MonitorPhase::Ended(0));
    assert!(seen.contains(&MonitorPhase::CloseSignals));
    assert_eq!(
        init_monitor(MonitorPhase::OpenSignals, false),
        MonitorPhase::CloseListener(1)
    );
    assert_eq!(init_monitor(MonitorPhase::CloseListener(1), true), MonitorPhase::CloseEvents);
    assert_eq!(init_monitor(MonitorPhase::CloseEvents, true), MonitorPhase::Ended(1));
    assert_eq!(claim_init_tracer(None), ClaimResult::Claimed);
    assert_eq!(claim_init_tracer(Some(1)), ClaimResult::Taken);
    assert_eq!(claim_init_tracer(Some(3)), ClaimResult::Failed);
    assert_eq!(taken_message(), "❌ Multiple Zygisks functioning");
}

#[test]
fn files_are_written_to_the_end() {
    assert_eq!(write_file_finish(10, 0, WriteResult::Written(4)), WriteStep::From(4));
    assert_eq!(write_file_finish(10, 4, WriteResult::Written(6)), WriteStep::Done);
    assert_eq!(
        write_file_finish(10, 4, WriteResult::Failed { interrupted: true }),
        WriteStep::From(4)
    );
    assert_eq!(
        write_file_finish(10, 4, WriteResult::Failed { interrupted: false }),
        WriteStep::Fail
    );
}

#[test]
fn zygote_is_handed_over_in_order() {
    let run = |target: HandoffTarget, fails_at: Option<HandoffPhase>| {
        let mut seen = Vec::new();
        let mut phase = HandoffPhase::Daemon;
        while !matches!(phase, HandoffPhase::Over(_)) {
            seen.push(phase);
            phase = handoff_step(phase, target, Some(phase) != fails_at);
        }
        seen.push(phase);
        seen
    };
    assert_eq!(
        run(HandoffTarget::App64, None),
        vec![
            HandoffPhase::Daemon,
            HandoffPhase::Park,
            HandoffPhase::LetGoStopped,
            HandoffPhase::StartTracer,
            HandoffPhase::Over(RanOutcome::HandedOff),
        ]
    );
    assert_eq!(
        run(HandoffTarget::Tango, None),
        vec![
            HandoffPhase::Daemon,
            HandoffPhase::LetGoRunning,
            HandoffPhase::StartTracer,
            HandoffPhase::Over(RanOutcome::HandedOff),
        ]
    );
    assert_eq!(
        run(HandoffTarget::App32, Some(HandoffPhase::StartTracer)),
        vec![
            HandoffPhase::Daemon,
            HandoffPhase::Park,
            HandoffPhase::LetGoStopped,
            HandoffPhase::StartTracer,
            HandoffPhase::Kill,
            HandoffPhase::Over(RanOutcome::HandedOff),
        ]
    );
    assert_eq!(
        run(HandoffTarget::App32, Some(HandoffPhase::Park)),
        vec![
            HandoffPhase::Daemon,
            HandoffPhase::Park,
            HandoffPhase::Abandon,
            HandoffPhase::Over(RanOutcome::Kept),
        ]
    );
    assert_eq!(
        run(HandoffTarget::App32, Some(HandoffPhase::Daemon)),
        vec![
            HandoffPhase::Daemon,
            HandoffPhase::StopInjecting,
            HandoffPhase::Over(RanOutcome::Kept),
        ]
    );
}

#[test]
fn state_file_follows_the_property_file() {
    let mut monitor = Monitor::new();
    let first = StatusStep::WriteProp;
    assert_eq!(monitor.update_status(first, None, false), StatusStep::Over(false));
    assert_eq!(monitor.update_status(first, Some("note"), true), StatusStep::Over(true));
    assert_eq!(monitor.update_status(first, None, true), StatusStep::RemoveState);
    let step = monitor.update_status(StatusStep::RemoveState, None, false);
    assert_eq!(step, StatusStep::Over(true));
    monitor.env32.root_impl = Some("Magisk".to_string());
    assert_eq!(monitor.update_status(first, None, true), StatusStep::WriteState);
    let step = monitor.update_status(StatusStep::WriteState, None, false);
    assert_eq!(step, StatusStep::Over(false));
}

#[test]
fn later_description_lines_stay_whole() {
    let (pre, post) = split_module_prop("description=x\ndescription=y\n");
    assert_eq!(pre, "description=");
    assert_eq!(post, "x\ndescription=y\n");
    let (pre, post) = split_module_prop("a\ndescription=[Monitor: s] x\ndescription=[Monitor: t] y");
    assert_eq!(pre, "a\ndescription=");
    assert_eq!(post, "x\ndescription=[Monitor: t] y");
    // A status in front of an empty description.
    let (pre, post) = split_module_prop("description=[Monitor: s] ");
    assert_eq!((pre.as_str(), post.as_str()), ("description=", ""));
}
