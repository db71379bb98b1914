//! What the monitor does with control datagrams, idle ticks and the daemons.
use vstd::prelude::*;
use crate::monitor::{EnvironmentInformation, Monitor, RezygiskdStatus, TracingState};
use crate::text::{
    digits, find_after_last, find_word, is_blank, law_status_fields_follow_the_name,
    law_words_are_counted, push_digits, stat_field, to_chars,
};
use crate::wait::{is_exited, is_signaled, parse_status, status_text, wifexited, wifsignaled};

verus! {

/// The largest control datagram.
pub const MAX_CONTROL_DATAGRAM: usize = 65536;

/// How an attempt to receive a datagram ended.
#[derive(Clone, Copy, Debug, PartialEq, Eq, Structural)]
pub enum ReceiveResult {
    /// It failed; `interrupted` if only because a signal came in.
    Failed { interrupted: bool },
    /// A datagram of this length came in; longer than the buffer if it was cut.
    Received(usize),
}

/// What follows an attempt to receive a datagram.
pub enum ReceiveStep {
    /// Try again.
    Again,
    /// Nothing more to read now.
    Nothing,
    /// A command byte and what follows it.
    Datagram(u8, Vec<u8>),
}

/// Takes a datagram apart: the first byte is the command, the rest belongs to
/// it. An empty or a cut datagram is none.
pub fn recv_control_datagram(buf: &Vec<u8>, result: ReceiveResult) -> (r: ReceiveStep)
    ensures
        match result {
            ReceiveResult::Failed { interrupted: true } => r is Again,
            ReceiveResult::Failed { interrupted: false } => r is Nothing,
            ReceiveResult::Received(n) => if n == 0 || n > buf@.len() {
                r is Nothing
            } else {
                &&& r matches ReceiveStep::Datagram(cmd, payload)
                &&& cmd == buf@[0]
                &&& payload@ == buf@.subrange(1, n as int)
            },
        },
{
    match result {
        ReceiveResult::Failed { interrupted } => if interrupted {
            ReceiveStep::Again
        } else {
            ReceiveStep::Nothing
        },
        ReceiveResult::Received(n) => {
            if n == 0 || n > buf.len() {
                return ReceiveStep::Nothing;
            }
            let mut payload: Vec<u8> = Vec::new();
            let mut i: usize = 1;
            while i < n
                invariant
                    1 <= i <= n <= buf@.len(),
                    payload@ == buf@.subrange(1, i as int),
                decreases n - i,
            {
                payload.push(buf[i]);
                assert(payload@ =~= buf@.subrange(1, i + 1));
                i = i + 1;
            }
            ReceiveStep::Datagram(buf[0], payload)
        },
    }
}

/// What a control datagram asks for.
#[derive(Clone, Copy, Debug, PartialEq, Eq, Structural)]
pub enum ControlRequest {
    /// Trace init again.
    Start,
    /// Stop tracing init.
    Stop,
    /// Leave.
    Exit,
    /// A zygote holds the library.
    ZygoteInjected,
    /// A daemon reports what it found.
    Info,
    /// A daemon reports why it failed.
    ErrorInfo,
    /// Nothing: the datagram has no known shape.
    Ignore,
}

/// What a command byte with so many further bytes asks for.
pub open spec fn request_of(cmd: u8, payload_len: nat) -> ControlRequest {
    if cmd == 6 || cmd == 7 {
        ControlRequest::Info
    } else if cmd == 8 || cmd == 9 {
        ControlRequest::ErrorInfo
    } else if payload_len > 0 {
        ControlRequest::Ignore
    } else if cmd == 1 {
        ControlRequest::Start
    } else if cmd == 2 {
        ControlRequest::Stop
    } else if cmd == 3 {
        ControlRequest::Exit
    } else if cmd == 4 || cmd == 5 {
        ControlRequest::ZygoteInjected
    } else {
        ControlRequest::Ignore
    }
}

/// Says what a control datagram asks for. The commands that change the
/// monitor are one byte long: one that carries more is ignored.
pub fn rezygiskd_listener_callback(cmd: u8, payload: &Vec<u8>) -> (r: ControlRequest)
    ensures
        r == request_of(cmd, payload@.len()),
{
    if cmd == 6 || cmd == 7 {
        ControlRequest::Info
    } else if cmd == 8 || cmd == 9 {
        ControlRequest::ErrorInfo
    } else if payload.len() > 0 {
        ControlRequest::Ignore
    } else if cmd == 1 {
        ControlRequest::Start
    } else if cmd == 2 {
        ControlRequest::Stop
    } else if cmd == 3 {
        ControlRequest::Exit
    } else if cmd == 4 || cmd == 5 {
        ControlRequest::ZygoteInjected
    } else {
        ControlRequest::Ignore
    }
}

/// A datagram with data never stops, starts or ends the monitor, whatever
/// its first byte is.
pub proof fn law_data_is_no_command(cmd: u8, payload_len: nat)
    requires
        payload_len > 0,
    ensures
        request_of(cmd, payload_len) is Info || request_of(cmd, payload_len) is ErrorInfo
            || request_of(cmd, payload_len) is Ignore,
{
}

/// The reason that a user gives.
pub open spec fn user_reason(r: Option<&'static str>) -> bool {
    r matches Some(text) && text@ == "user requested"@
}

/// The status of one word size replaced.
pub open spec fn with_status(m: Monitor, is_64: bool, status: RezygiskdStatus) -> Monitor {
    if is_64 {
        Monitor { status64: status, ..m }
    } else {
        Monitor { status32: status, ..m }
    }
}

/// The status of one word size.
pub open spec fn status_of(m: Monitor, is_64: bool) -> RezygiskdStatus {
    if is_64 {
        m.status64
    } else {
        m.status32
    }
}

/// Whether init has to be stopped so that the monitor can let go of it, or
/// taken up again.
#[derive(Clone, Copy, Debug, PartialEq, Eq, Structural)]
pub enum InitRequest {
    /// Nothing.
    Nothing,
    /// Attach to init.
    Seize,
    /// Stop init.
    Interrupt,
}

/// What the loop does after waiting for events.
#[derive(Clone, Copy, Debug, PartialEq, Eq, Structural)]
pub enum LoopStep {
    /// Nothing came in: look after init, and say so if `heartbeat`.
    Watch { heartbeat: bool },
    /// Wait again.
    Again,
    /// Leave the loop.
    Leave,
    /// Handle what came in.
    Handle,
}

/// How a wait for events ended.
#[derive(Clone, Copy, Debug, PartialEq, Eq, Structural)]
pub enum PollResult {
    /// Nothing came in.
    Timeout,
    /// It failed; `interrupted` if only because a signal came in.
    Failed { interrupted: bool },
    /// Something came in.
    Ready,
}

/// So many idle ticks pass between two signs of life.
pub const HEARTBEAT_TICKS: u32 = 15;

/// The ticks after a wait.
pub open spec fn next_ticks(ticks: u32, result: PollResult) -> u32 {
    if result is Timeout {
        if ticks < u32::MAX {
            (ticks + 1) as u32
        } else {
            ticks
        }
    } else {
        0
    }
}

/// An error or a hang-up is among the events.
pub const EPOLL_BROKEN: u32 = 0x18;

/// What one event asks for.
#[derive(Clone, Copy, Debug, PartialEq, Eq, Structural)]
pub enum EventStep {
    /// Leave the loop.
    Leave,
    /// Read the control socket.
    Control,
    /// Reap children.
    Children,
    /// Nothing.
    Nothing,
}

impl Monitor {
    /// What the loop does after waiting for events; it goes on unless the
    /// wait failed for good.
    pub fn events_loop(&mut self, idle_ticks: &mut u32, result: PollResult) -> (r: LoopStep)
        ensures
            *final(idle_ticks) == next_ticks(*old(idle_ticks), result),
            match result {
                PollResult::Timeout => r == (LoopStep::Watch {
                    heartbeat: *final(idle_ticks) % HEARTBEAT_TICKS == 0,
                }) && *final(self) == *old(self),
                PollResult::Failed { interrupted: true } => r is Again && *final(self) == *old(self),
                PollResult::Failed { interrupted: false } => r is Leave && *final(self) == (Monitor {
                    events_running: false,
                    ..*old(self)
                }),
                PollResult::Ready => r is Handle && *final(self) == *old(self),
            },
    {
        match result {
            PollResult::Timeout => {
                if *idle_ticks < u32::MAX {
                    *idle_ticks = *idle_ticks + 1;
                }
                LoopStep::Watch { heartbeat: *idle_ticks % HEARTBEAT_TICKS == 0 }
            },
            PollResult::Failed { interrupted } => {
                *idle_ticks = 0;
                if interrupted {
                    LoopStep::Again
                } else {
                    self.events_running = false;
                    LoopStep::Leave
                }
            },
            PollResult::Ready => {
                *idle_ticks = 0;
                LoopStep::Handle
            },
        }
    }

    /// What one event asks for; a broken source ends the loop.
    pub fn handle_event(&mut self, events: u32, id: u64, sock: u64, sig: u64) -> (r: EventStep)
        ensures
            if events & EPOLL_BROKEN != 0 {
                r is Leave && *final(self) == (Monitor { events_running: false, ..*old(self) })
            } else {
                &&& *final(self) == *old(self)
                &&& r == if id == sock {
                    EventStep::Control
                } else if id == sig {
                    EventStep::Children
                } else {
                    EventStep::Nothing
                }
            },
    {
        if events & EPOLL_BROKEN != 0 {
            self.events_running = false;
            EventStep::Leave
        } else if id == sock {
            EventStep::Control
        } else if id == sig {
            EventStep::Children
        } else {
            EventStep::Nothing
        }
    }

    /// Traces init again. The status is to be reported in any case.
    pub fn handle_start(&mut self) -> (r: InitRequest)
        ensures
            r == if old(self).tracing_state == TracingState::Stopped {
                InitRequest::Seize
            } else {
                InitRequest::Nothing
            },
            *final(self) == if old(self).tracing_state == TracingState::Stopping || old(
                self,
            ).tracing_state == TracingState::Stopped {
                Monitor { tracing_state: TracingState::Tracing, ..*old(self) }
            } else {
                *old(self)
            },
    {
        match self.tracing_state {
            TracingState::Stopping => {
                self.tracing_state = TracingState::Tracing;
                InitRequest::Nothing
            },
            TracingState::Stopped => {
                self.tracing_state = TracingState::Tracing;
                InitRequest::Seize
            },
            _ => InitRequest::Nothing,
        }
    }

    /// Stops tracing init. Where it asks for the interrupt, the status is to
    /// be reported too; otherwise nothing happens.
    pub fn handle_stop(&mut self) -> (r: InitRequest)
        ensures
            if old(self).tracing_state == TracingState::Tracing {
                &&& r is Interrupt
                &&& user_reason(final(self).stop_reason)
                &&& *final(self) == (Monitor {
                    tracing_state: TracingState::Stopping,
                    stop_reason: final(self).stop_reason,
                    ..*old(self)
                })
            } else {
                r is Nothing && *final(self) == *old(self)
            },
    {
        if self.tracing_state == TracingState::Tracing {
            self.tracing_state = TracingState::Stopping;
            self.stop_reason = Some("user requested");
            InitRequest::Interrupt
        } else {
            InitRequest::Nothing
        }
    }

    /// Ends the monitor. The status is to be reported.
    pub fn handle_exit(&mut self)
        ensures
            user_reason(final(self).stop_reason),
            *final(self) == (Monitor {
                tracing_state: TracingState::Exiting,
                stop_reason: final(self).stop_reason,
                events_running: false,
                ..*old(self)
            }),
    {
        self.tracing_state = TracingState::Exiting;
        self.stop_reason = Some("user requested");
        self.events_running = false;
    }

    /// Notes that a zygote holds the library. The status is to be reported.
    pub fn handle_zygote_injected(&mut self, cmd: u8)
        ensures
            *final(self) == with_status(
                *old(self),
                cmd == 4,
                RezygiskdStatus { zygote_injected: true, ..status_of(*old(self), cmd == 4) },
            ),
    {
        if cmd == 4 {
            self.status64.zygote_injected = true;
        } else {
            self.status32.zygote_injected = true;
        }
    }

    /// Notes what a daemon found. A report that could not be read is dropped;
    /// the result says whether the status is to be reported.
    pub fn handle_set_info(&mut self, cmd: u8, report: Option<(String, Vec<String>)>) -> (r: bool)
        ensures
            match report {
                Some((root, modules)) => {
                    let env = EnvironmentInformation { root_impl: Some(root), modules };
                    &&& r
                    &&& *final(self) == if cmd == 6 {
                        Monitor { env64: env, ..*old(self) }
                    } else {
                        Monitor { env32: env, ..*old(self) }
                    }
                },
                None => !r && *final(self) == *old(self),
            },
    {
        match report {
            Some((root, modules)) => {
                let env = EnvironmentInformation { root_impl: Some(root), modules };
                if cmd == 6 {
                    self.env64 = env;
                } else {
                    self.env32 = env;
                }
                true
            },
            None => false,
        }
    }

    /// Notes why a daemon failed. A report that could not be read is dropped;
    /// the result says whether the status is to be reported.
    pub fn handle_set_error_info(&mut self, cmd: u8, report: Option<String>) -> (r: bool)
        ensures
            match report {
                Some(info) => r && *final(self) == with_status(
                    *old(self),
                    cmd == 8,
                    RezygiskdStatus {
                        daemon_error_info: Some(info),
                        ..status_of(*old(self), cmd == 8)
                    },
                ),
                None => !r && *final(self) == *old(self),
            },
    {
        match report {
            Some(info) => {
                if cmd == 8 {
                    self.status64.daemon_error_info = Some(info);
                } else {
                    self.status32.daemon_error_info = Some(info);
                }
                true
            },
            None => false,
        }
    }

    /// Whether a daemon is there: `None` says that one has to be started
    /// first, otherwise the result says whether it runs.
    pub fn ensure_daemon_created(&self, is_64bit: bool) -> (r: Option<bool>)
        ensures
            r == if status_of(*self, is_64bit).daemon_pid != -1 {
                Some(status_of(*self, is_64bit).daemon_running)
            } else {
                None
            },
    {
        if is_64bit {
            if self.status64.daemon_pid != -1 {
                Some(self.status64.daemon_running)
            } else {
                None
            }
        } else {
            if self.status32.daemon_pid != -1 {
                Some(self.status32.daemon_running)
            } else {
                None
            }
        }
    }

    /// Notes how the start of a daemon ended, and says whether one runs.
    pub fn daemon_started(&mut self, is_64bit: bool, child: Option<i32>) -> (r: bool)
        ensures
            match child {
                Some(pid) => r && *final(self) == with_status(
                    *old(self),
                    is_64bit,
                    RezygiskdStatus {
                        supported: true,
                        daemon_pid: pid,
                        daemon_running: true,
                        ..status_of(*old(self), is_64bit)
                    },
                ),
                None => !r && *final(self) == *old(self),
            },
    {
        match child {
            Some(pid) => {
                if is_64bit {
                    self.status64.supported = true;
                    self.status64.daemon_pid = pid;
                    self.status64.daemon_running = true;
                } else {
                    self.status32.supported = true;
                    self.status32.daemon_pid = pid;
                    self.status32.daemon_running = true;
                }
                true
            },
            None => false,
        }
    }

    /// Whether the watchdog resumes init.
    pub fn watchdog_check_init(&self, stopped: bool) -> (r: bool)
        ensures
            r == (self.tracing_state == TracingState::Tracing && stopped),
    {
        self.tracing_state == TracingState::Tracing && stopped
    }
}

/// A daemon ended with this status.
pub open spec fn daemon_ended(daemon: RezygiskdStatus, pid: i32, status: i32) -> bool {
    daemon.supported && pid == daemon.daemon_pid && (is_exited(status as int) || is_signaled(
        status as int,
    ))
}

/// What remains known of a daemon that ended: its place is free again, and
/// the first reason for a failure is kept.
pub open spec fn is_after_end(
    before: RezygiskdStatus,
    after: RezygiskdStatus,
    status: i32,
) -> bool {
    &&& after.supported == before.supported
    &&& after.zygote_injected == before.zygote_injected
    &&& !after.daemon_running
    &&& after.daemon_pid == -1
    &&& before.daemon_error_info is Some ==> after.daemon_error_info == before.daemon_error_info
    &&& before.daemon_error_info is None ==> after.error_text() == Some(status_text(status as int))
}

fn end_daemon(daemon: &mut RezygiskdStatus, status: i32)
    ensures
        is_after_end(*old(daemon), *final(daemon), status),
{
    daemon.daemon_running = false;
    daemon.daemon_pid = -1;
    if daemon.daemon_error_info.is_none() {
        daemon.daemon_error_info = Some(parse_status(status));
    }
}

impl Monitor {
    /// Notes the end of a daemon. The result says whether the process was
    /// one; a daemon's process that only stopped is not at its end.
    pub fn check_daemon_exit(&mut self, pid: i32, status: i32) -> (r: bool)
        ensures
            if daemon_ended(old(self).status64, pid, status) {
                &&& r
                &&& is_after_end(old(self).status64, final(self).status64, status)
                &&& *final(self) == (Monitor { status64: final(self).status64, ..*old(self) })
            } else if daemon_ended(old(self).status32, pid, status) {
                &&& r
                &&& is_after_end(old(self).status32, final(self).status32, status)
                &&& *final(self) == (Monitor { status32: final(self).status32, ..*old(self) })
            } else {
                !r && *final(self) == *old(self)
            },
    {
        let ended = wifexited(status) || wifsignaled(status);
        if self.status64.supported && pid == self.status64.daemon_pid && ended {
            end_daemon(&mut self.status64, status);
            return true;
        }
        if self.status32.supported && pid == self.status32.daemon_pid && ended {
            end_daemon(&mut self.status32, status);
            return true;
        }
        false
    }
}

/// A daemon that ended can be started again.
pub proof fn law_ended_daemon_restarts(before: RezygiskdStatus, after: RezygiskdStatus, status: i32)
    requires
        is_after_end(before, after, status),
    ensures
        after.daemon_pid == -1,
        !after.daemon_running,
        after.daemon_error_info is Some,
{
}

/// A process status line shows the process stopped.
pub open spec fn shows_stopped(stat: Seq<char>) -> bool {
    stat_field(stat, 0) == Some("T"@) || stat_field(stat, 0) == Some("t"@)
}

/// Whether init's status line shows it stopped.
pub fn init_stopped(stat: &str) -> (r: bool)
    ensures
        r == shows_stopped(stat@),
{
    let s = to_chars(stat);
    proof {
        reveal_strlit("T");
        reveal_strlit("t");
    }
    match find_after_last(&s, ')') {
        Some(at) => match find_word(&s, at, 0) {
            Some((a, b)) => {
                let ghost word = s@.subrange(a as int, b as int);
                let r = b - a == 1 && (s[a] == 'T' || s[a] == 't');
                proof {
                    if word == "T"@ {
                        assert(word[0] == 'T');
                    }
                    if word == "t"@ {
                        assert(word[0] == 't');
                    }
                    if r {
                        if s@[a as int] == 'T' {
                            assert(word =~= "T"@);
                        } else {
                            assert(word =~= "t"@);
                        }
                    }
                }
                r
            },
            None => false,
        },
        None => false,
    }
}

/// The class that the first five bytes of a file show.
pub open spec fn file_class(magic: Option<Seq<u8>>) -> Seq<char> {
    match magic {
        Some(m) => if !(m.len() >= 5 && m[0] == 0x7f && m[1] == 0x45 && m[2] == 0x4c && m[3]
            == 0x46) {
            "not-elf"@
        } else if m[4] == 2 {
            "ELF64"@
        } else {
            "ELF32"@
        },
        None => "unreadable"@,
    }
}

/// The bytes as a sequence.
pub open spec fn seen_bytes(magic: Option<[u8; 5]>) -> Option<Seq<u8>> {
    match magic {
        Some(m) => Some(m@),
        None => None,
    }
}

/// A line that identifies a deployed file: its size, when it changed, and its
/// class. `meta` is its size and change time, `magic` its first bytes.
pub fn file_stamp(meta: Option<(u64, u64)>, magic: Option<[u8; 5]>) -> (out: String)
    ensures
        out@ == match meta {
            Some((size, mtime)) => digits(size as nat, 10) + " bytes mtime="@ + digits(
                mtime as nat,
                10,
            ) + " "@ + file_class(seen_bytes(magic)),
            None => "MISSING"@,
        },
{
    let mut out = String::new();
    match meta {
        Some((size, mtime)) => {
            push_digits(&mut out, size, 10);
            assert(out@ =~= digits(size as nat, 10));
            out.append(" bytes mtime=");
            push_digits(&mut out, mtime, 10);
            out.append(" ");
            match magic {
                Some(m) => {
                    let elf = m[0] == 0x7f && m[1] == 0x45 && m[2] == 0x4c && m[3] == 0x46;
                    if !elf {
                        out.append("not-elf");
                    } else if m[4] == 2 {
                        out.append("ELF64");
                    } else {
                        out.append("ELF32");
                    }
                },
                None => out.append("unreadable"),
            }
        },
        None => {
            out.append("MISSING");
            assert(out@ =~= "MISSING"@);
        },
    }
    out
}

/// The kernel's word for a refused operation.
pub const EPERM: i32 = 1;

/// What follows an attempt to take hold of init, given the kernel's error:
/// `None` where init is held. Otherwise the monitor leaves, and shows a
/// message where somebody else holds init.
#[derive(Clone, Copy, Debug, PartialEq, Eq, Structural)]
pub enum ClaimResult {
    /// Init is held.
    Claimed,
    /// Somebody else holds init: show that.
    Taken,
    /// It failed.
    Failed,
}

/// What follows an attempt to take hold of init.
pub fn claim_init_tracer(error: Option<i32>) -> (r: ClaimResult)
    ensures
        r == match error {
            None => ClaimResult::Claimed,
            Some(e) => if e == EPERM {
                ClaimResult::Taken
            } else {
                ClaimResult::Failed
            },
        },
{
    match error {
        None => ClaimResult::Claimed,
        Some(e) => if e == EPERM {
            ClaimResult::Taken
        } else {
            ClaimResult::Failed
        },
    }
}

/// The message that is shown where somebody else holds init.
pub fn taken_message() -> (s: &'static str)
    ensures
        s@ == "❌ Multiple Zygisks functioning"@,
{
    "❌ Multiple Zygisks functioning"
}

/// How an attempt to write to a file ended.
#[derive(Clone, Copy, Debug, PartialEq, Eq, Structural)]
pub enum WriteResult {
    /// It failed; `interrupted` if only because a signal came in.
    Failed { interrupted: bool },
    /// So many bytes were written.
    Written(usize),
}

/// What follows an attempt to write to a file.
#[derive(Clone, Copy, Debug, PartialEq, Eq, Structural)]
pub enum WriteStep {
    /// Write what follows this many bytes.
    From(usize),
    /// All is written: close the file.
    Done,
    /// Close the file; it is not complete.
    Fail,
}

/// What follows an attempt to write a text of `len` bytes of which `written`
/// were written before.
pub fn write_file_finish(len: usize, written: usize, result: WriteResult) -> (r: WriteStep)
    requires
        written <= len,
        result matches WriteResult::Written(n) ==> written + n <= len,
    ensures
        r == match result {
            WriteResult::Failed { interrupted } => if interrupted {
                WriteStep::From(written)
            } else {
                WriteStep::Fail
            },
            WriteResult::Written(n) => if written + n < len {
                WriteStep::From((written + n) as usize)
            } else {
                WriteStep::Done
            },
        },
{
    match result {
        WriteResult::Failed { interrupted } => if interrupted {
            WriteStep::From(written)
        } else {
            WriteStep::Fail
        },
        WriteResult::Written(n) => if written + n < len {
            WriteStep::From(written + n)
        } else {
            WriteStep::Done
        },
    }
}

/// The life of the monitor.
#[derive(Clone, Copy, Debug, PartialEq, Eq, Structural)]
pub enum MonitorPhase {
    /// Read and split the property file.
    Prepare,
    /// Take hold of init.
    Claim,
    /// Set up the event queue; how that goes makes no difference.
    OpenEvents,
    /// Open the control socket and watch it.
    OpenListener,
    /// Open the source of child signals and watch it.
    OpenSignals,
    /// Handle events until there is no reason to go on.
    Loop,
    /// Close the control socket; the monitor ends with this code.
    CloseListener(i32),
    /// Close the source of child signals and forget the children.
    CloseSignals,
    /// Close the event queue.
    CloseEvents,
    /// The monitor has ended with this code.
    Ended(i32),
}

/// The phase that follows one that succeeded or not.
pub open spec fn monitor_next(phase: MonitorPhase, ok: bool) -> MonitorPhase {
    match phase {
        MonitorPhase::Prepare => if ok {
            MonitorPhase::Claim
        } else {
            MonitorPhase::Ended(1)
        },
        MonitorPhase::Claim => if ok {
            MonitorPhase::OpenEvents
        } else {
            MonitorPhase::Ended(1)
        },
        MonitorPhase::OpenEvents => MonitorPhase::OpenListener,
        MonitorPhase::OpenListener => if ok {
            MonitorPhase::OpenSignals
        } else {
            MonitorPhase::CloseEvents
        },
        MonitorPhase::OpenSignals => if ok {
            MonitorPhase::Loop
        } else {
            MonitorPhase::CloseListener(1)
        },
        MonitorPhase::Loop => MonitorPhase::CloseListener(0),
        MonitorPhase::CloseListener(code) => if code == 0 {
            MonitorPhase::CloseSignals
        } else {
            MonitorPhase::CloseEvents
        },
        MonitorPhase::CloseSignals => MonitorPhase::Ended(0),
        MonitorPhase::CloseEvents => MonitorPhase::Ended(1),
        MonitorPhase::Ended(code) => MonitorPhase::Ended(code),
    }
}

/// The next phase in the life of the monitor. The event loop closes the event
/// queue itself.
pub fn init_monitor(phase: MonitorPhase, ok: bool) -> (r: MonitorPhase)
    ensures
        r == monitor_next(phase, ok),
{
    match phase {
        MonitorPhase::Prepare => if ok {
            MonitorPhase::Claim
        } else {
            MonitorPhase::Ended(1)
        },
        MonitorPhase::Claim => if ok {
            MonitorPhase::OpenEvents
        } else {
            MonitorPhase::Ended(1)
        },
        MonitorPhase::OpenEvents => MonitorPhase::OpenListener,
        MonitorPhase::OpenListener => if ok {
            MonitorPhase::OpenSignals
        } else {
            MonitorPhase::CloseEvents
        },
        MonitorPhase::OpenSignals => if ok {
            MonitorPhase::Loop
        } else {
            MonitorPhase::CloseListener(1)
        },
        MonitorPhase::Loop => MonitorPhase::CloseListener(0),
        MonitorPhase::CloseListener(code) => if code == 0 {
            MonitorPhase::CloseSignals
        } else {
            MonitorPhase::CloseEvents
        },
        MonitorPhase::CloseSignals => MonitorPhase::Ended(0),
        MonitorPhase::CloseEvents => MonitorPhase::Ended(1),
        MonitorPhase::Ended(code) => MonitorPhase::Ended(code),
    }
}

/// What is open in a phase: the event queue, the control socket, the source
/// of child signals.
pub open spec fn held_open(phase: MonitorPhase) -> (bool, bool, bool) {
    match phase {
        MonitorPhase::OpenListener => (true, false, false),
        MonitorPhase::OpenSignals => (true, true, false),
        MonitorPhase::Loop => (true, true, true),
        MonitorPhase::CloseListener(code) => (code != 0, true, code == 0),
        MonitorPhase::CloseSignals => (false, false, true),
        MonitorPhase::CloseEvents => (true, false, false),
        _ => (false, false, false),
    }
}

/// What is open after a phase did its work.
pub open spec fn open_after(phase: MonitorPhase, ok: bool) -> (bool, bool, bool) {
    let (events, socket, signals) = held_open(phase);
    match phase {
        MonitorPhase::OpenEvents => (true, socket, signals),
        MonitorPhase::OpenListener => (events, ok, signals),
        MonitorPhase::OpenSignals => (events, socket, ok),
        MonitorPhase::Loop => (false, socket, signals),
        MonitorPhase::CloseListener(code) => (events, false, signals),
        MonitorPhase::CloseSignals => (events, socket, false),
        MonitorPhase::CloseEvents => (false, socket, signals),
        _ => (events, socket, signals),
    }
}

/// Whatever fails, the monitor ends with nothing left open: each phase leads
/// from what is open to what is open in the next one, and nothing is open at
/// the end.
pub proof fn law_monitor_closes_what_it_opened(phase: MonitorPhase, ok: bool, code: i32)
    ensures
        open_after(phase, ok) == held_open(monitor_next(phase, ok)),
        held_open(MonitorPhase::Prepare) == (false, false, false),
        held_open(MonitorPhase::Ended(code)) == (false, false, false),
{
}

/// Every command that is sent is understood, and nothing else is: a byte that
/// stands for no command asks for nothing.
pub proof fn law_commands_are_understood(c: crate::monitor::RezygiskdCommand, other: u8)
    ensures
        ({
            let asked = request_of(crate::monitor::command_byte(c), 0);
            match c {
                crate::monitor::RezygiskdCommand::Start => asked is Start,
                crate::monitor::RezygiskdCommand::Stop => asked is Stop,
                crate::monitor::RezygiskdCommand::Exit => asked is Exit,
                crate::monitor::RezygiskdCommand::Zygote64Injected => asked is ZygoteInjected,
                crate::monitor::RezygiskdCommand::Zygote32Injected => asked is ZygoteInjected,
                crate::monitor::RezygiskdCommand::Daemon64SetInfo => asked is Info,
                crate::monitor::RezygiskdCommand::Daemon32SetInfo => asked is Info,
                crate::monitor::RezygiskdCommand::Daemon64SetErrorInfo => asked is ErrorInfo,
                crate::monitor::RezygiskdCommand::Daemon32SetErrorInfo => asked is ErrorInfo,
            }
        }),
        (forall|d: crate::monitor::RezygiskdCommand| #[trigger]
            crate::monitor::command_byte(d) != other) ==> request_of(other, 0) is Ignore,
{
    if forall|d: crate::monitor::RezygiskdCommand| #[trigger]
        crate::monitor::command_byte(d) != other {
        assert(crate::monitor::command_byte(crate::monitor::RezygiskdCommand::Start) != other);
        assert(crate::monitor::command_byte(crate::monitor::RezygiskdCommand::Stop) != other);
        assert(crate::monitor::command_byte(crate::monitor::RezygiskdCommand::Exit) != other);
        assert(crate::monitor::command_byte(
            crate::monitor::RezygiskdCommand::Zygote64Injected,
        ) != other);
        assert(crate::monitor::command_byte(
            crate::monitor::RezygiskdCommand::Zygote32Injected,
        ) != other);
        assert(crate::monitor::command_byte(crate::monitor::RezygiskdCommand::Daemon64SetInfo)
            != other);
        assert(crate::monitor::command_byte(crate::monitor::RezygiskdCommand::Daemon32SetInfo)
            != other);
        assert(crate::monitor::command_byte(crate::monitor::RezygiskdCommand::Daemon64SetErrorInfo)
            != other);
        assert(crate::monitor::command_byte(crate::monitor::RezygiskdCommand::Daemon32SetErrorInfo)
            != other);
    }
}

/// A report keeps what it carries, however long it is.
pub proof fn law_reports_carry_data(cmd: u8, payload_len: nat)
    ensures
        request_of(cmd, payload_len) is Info <==> cmd == 6 || cmd == 7,
        request_of(cmd, payload_len) is ErrorInfo <==> cmd == 8 || cmd == 9,
{
}

/// A datagram is its command byte, then its data, nothing lost and nothing
/// added; a cut or an empty one is none, and only an interrupt asks for another
/// try.
pub proof fn law_datagram_is_whole(buf: &Vec<u8>, result: ReceiveResult, r: ReceiveStep)
    requires
        call_ensures(recv_control_datagram, (buf, result), r),
    ensures
        r matches ReceiveStep::Datagram(cmd, data) ==> {
            &&& result matches ReceiveResult::Received(n) && n == 1 + data@.len() && n
                <= buf@.len()
            &&& seq![cmd] + data@ == buf@.take(1 + data@.len() as int)
        },
        r is Datagram <==> (result matches ReceiveResult::Received(n) && 0 < n <= buf@.len()),
        r is Again <==> result == (ReceiveResult::Failed { interrupted: true }),
{
    if let ReceiveStep::Datagram(cmd, data) = r {
        assert(seq![cmd] + data@ =~= buf@.take(1 + data@.len() as int));
    }
}

/// Stopping and starting again leads back to tracing, and takes hold of init
/// anew exactly where it had been let go in between.
pub proof fn law_start_undoes_stop(
    a: &mut Monitor,
    stop: InitRequest,
    b: &mut Monitor,
    start: InitRequest,
)
    requires
        call_ensures(Monitor::handle_stop, (a,), stop),
        call_ensures(Monitor::handle_start, (b,), start),
        old(a).tracing_state is Tracing,
        *old(b) == *final(a) || *old(b) == (Monitor {
            tracing_state: TracingState::Stopped,
            ..*final(a)
        }),
    ensures
        stop is Interrupt,
        final(a).tracing_state is Stopping,
        final(b).tracing_state is Tracing,
        start is Seize <==> old(b).tracing_state is Stopped,
        start is Interrupt ==> false,
        final(b).status64 == old(a).status64,
        final(b).status32 == old(a).status32,
        final(b).attached == old(a).attached,
        final(b).events_running == old(a).events_running,
{
}

/// A monitor that does not trace is not stopped, and one that traces or leaves is
/// not started.
pub proof fn law_commands_fit_the_state(
    a: &mut Monitor,
    stop: InitRequest,
    b: &mut Monitor,
    start: InitRequest,
)
    requires
        call_ensures(Monitor::handle_stop, (a,), stop),
        call_ensures(Monitor::handle_start, (b,), start),
    ensures
        !(old(a).tracing_state is Tracing) ==> stop is Nothing && *final(a) == *old(a),
        old(b).tracing_state is Tracing || old(b).tracing_state is Exiting ==> start is Nothing
            && *final(b) == *old(b),
{
}

/// Leaving ends the loop, and nothing takes up tracing again.
pub proof fn law_exit_is_final(a: &mut Monitor, b: &mut Monitor, start: InitRequest)
    requires
        call_ensures(Monitor::handle_exit, (a,), ()),
        call_ensures(Monitor::handle_start, (b,), start),
        *old(b) == *final(a),
    ensures
        !final(a).events_running,
        final(b).tracing_state is Exiting,
        start is Nothing,
        final(a).status64 == old(a).status64,
        final(a).status32 == old(a).status32,
{
}

/// The report of an injected zygote marks the word size that sent it, and
/// changes nothing else.
pub proof fn law_injection_is_noted_by_word_size(
    m: &mut Monitor,
    c: crate::monitor::RezygiskdCommand,
)
    requires
        call_ensures(Monitor::handle_zygote_injected, (m, crate::monitor::command_byte(c)), ()),
        c is Zygote64Injected || c is Zygote32Injected,
    ensures
        final(m).status64.zygote_injected == (c is Zygote64Injected || old(
            m,
        ).status64.zygote_injected),
        final(m).status32.zygote_injected == (c is Zygote32Injected || old(
            m,
        ).status32.zygote_injected),
        final(m).status64 == (RezygiskdStatus {
            zygote_injected: final(m).status64.zygote_injected,
            ..old(m).status64
        }),
        final(m).status32 == (RezygiskdStatus {
            zygote_injected: final(m).status32.zygote_injected,
            ..old(m).status32
        }),
        final(m).tracing_state == old(m).tracing_state,
{
}

/// What a daemon reports of itself, or of its failure, is kept for the word size
/// that sent it; what could not be read changes nothing.
pub proof fn law_reports_are_kept_by_word_size(
    a: &mut Monitor,
    info: Option<(String, Vec<String>)>,
    ra: bool,
    b: &mut Monitor,
    error: Option<String>,
    rb: bool,
    c: crate::monitor::RezygiskdCommand,
    d: crate::monitor::RezygiskdCommand,
)
    requires
        call_ensures(Monitor::handle_set_info, (a, crate::monitor::command_byte(c), info), ra),
        call_ensures(
            Monitor::handle_set_error_info,
            (b, crate::monitor::command_byte(d), error),
            rb,
        ),
        c is Daemon64SetInfo || c is Daemon32SetInfo,
        d is Daemon64SetErrorInfo || d is Daemon32SetErrorInfo,
    ensures
        ra == info is Some,
        rb == error is Some,
        info is None ==> *final(a) == *old(a),
        error is None ==> *final(b) == *old(b),
        info matches Some((root, modules)) ==> {
            let (to, other_now, other_was) = if c is Daemon64SetInfo {
                (final(a).env64, final(a).env32, old(a).env32)
            } else {
                (final(a).env32, final(a).env64, old(a).env64)
            };
            to.root_impl == Some(root) && to.modules == modules && other_now == other_was
        },
        error is Some ==> {
            let (to, other_now, other_was) = if d is Daemon64SetErrorInfo {
                (final(b).status64, final(b).status32, old(b).status32)
            } else {
                (final(b).status32, final(b).status64, old(b).status64)
            };
            to.daemon_error_info == error && other_now == other_was
        },
{
}

/// A daemon is started once: where it was started, it is there and running, and
/// it is to be started again only once it ended.
pub proof fn law_daemon_is_started_once(
    a: &mut Monitor,
    wide: bool,
    child: Option<i32>,
    started: bool,
    before: Option<bool>,
    after: Option<bool>,
)
    requires
        call_ensures(Monitor::ensure_daemon_created, (&*old(a), wide), before),
        call_ensures(Monitor::daemon_started, (a, wide, child), started),
        call_ensures(Monitor::ensure_daemon_created, (&*final(a), wide), after),
        before is None,
        child matches Some(pid) ==> pid > 0,
    ensures
        started <==> child is Some,
        started ==> after == Some(true),
        !started ==> after is None,
        started ==> status_of(*final(a), wide).supported,
        status_of(*final(a), !wide) == status_of(*old(a), !wide),
        old(a).status64.zygote_injected == final(a).status64.zygote_injected,
        old(a).status32.zygote_injected == final(a).status32.zygote_injected,
{
}

/// The end of a started daemon's process, and of no other, is the end of that
/// daemon: it no longer runs, can be started again, and a reason is kept. A
/// process that only stopped has not ended.
pub proof fn law_daemon_end_is_noted(m: &mut Monitor, pid: i32, status: i32, r: bool)
    requires
        call_ensures(Monitor::check_daemon_exit, (m, pid, status), r),
        old(m).status64.daemon_pid != old(m).status32.daemon_pid,
    ensures
        ({
            let ended = status % 128 != 127;
            let wide = old(m).status64.supported && old(m).status64.daemon_pid == pid;
            let narrow = old(m).status32.supported && old(m).status32.daemon_pid == pid;
            &&& r <==> ended && (wide || narrow)
            &&& !r ==> *final(m) == *old(m)
            &&& r && wide ==> !final(m).status64.daemon_running && final(m).status64.daemon_pid
                == -1 && final(m).status64.daemon_error_info is Some && final(m).status32 == old(
                m,
            ).status32
            &&& r && narrow ==> !final(m).status32.daemon_running && final(m).status32.daemon_pid
                == -1 && final(m).status32.daemon_error_info is Some && final(m).status64 == old(
                m,
            ).status64
        }),
{
}

/// The first reason for a daemon's failure is the one that is kept, however
/// often it ends; one that gave none is described by how it first ended. What
/// is known of its zygote stays.
pub proof fn law_first_reason_is_kept(
    before: RezygiskdStatus,
    once: RezygiskdStatus,
    twice: RezygiskdStatus,
    first: i32,
    second: i32,
)
    requires
        is_after_end(before, once, first),
        is_after_end(once, twice, second),
    ensures
        before.daemon_error_info is Some ==> twice.daemon_error_info == before.daemon_error_info,
        before.daemon_error_info is None ==> twice.error_text() == Some(
            status_text(first as int),
        ),
        twice.daemon_error_info is Some,
        !once.daemon_running && !twice.daemon_running,
        once.daemon_pid < 0,
        twice.zygote_injected == before.zygote_injected,
        twice.supported == before.supported,
{
}

/// The loop ends only where a wait failed for good, and says that it lives once
/// in so many idle ticks.
pub proof fn law_loop_goes_on(m: &mut Monitor, ticks: &mut u32, result: PollResult, r: LoopStep)
    requires
        call_ensures(Monitor::events_loop, (m, ticks, result), r),
        *old(ticks) < u32::MAX,
    ensures
        r is Leave <==> result == (PollResult::Failed { interrupted: false }),
        !final(m).events_running ==> !old(m).events_running || r is Leave,
        r is Leave ==> !final(m).events_running,
        final(m).tracing_state == old(m).tracing_state,
        final(m).status64 == old(m).status64,
        final(m).status32 == old(m).status32,
        r is Handle <==> result is Ready,
        r is Watch <==> result is Timeout,
        result is Timeout ==> *final(ticks) == *old(ticks) + 1,
        !(result is Timeout) ==> *final(ticks) == 0,
        r == (LoopStep::Watch { heartbeat: true }) ==> *final(ticks) % 15 == 0,
        r == (LoopStep::Watch { heartbeat: false }) ==> *final(ticks) % 15 != 0,
{
}

/// A broken source ends the loop; a sound one is told by its number.
pub proof fn law_events_are_told_apart(
    m: &mut Monitor,
    events: u32,
    id: u64,
    sock: u64,
    sig: u64,
    r: EventStep,
)
    requires
        call_ensures(Monitor::handle_event, (m, events, id, sock, sig), r),
        sock != sig,
    ensures
        r is Leave <==> events & 0x18 != 0,
        r is Leave ==> !final(m).events_running,
        !(r is Leave) ==> *final(m) == *old(m),
        !(r is Leave) ==> (r is Control <==> id == sock) && (r is Children <==> id == sig),
{
}

/// The watchdog lets init run on exactly where it should be traced and running,
/// and is found stopped.
pub proof fn law_watchdog_frees_init(m: &Monitor, stopped: bool, r: bool)
    requires
        call_ensures(Monitor::watchdog_check_init, (m, stopped), r),
    ensures
        r <==> stopped && m.tracing_state is Tracing,
{
}

/// A file is written to its end: each step goes on from what has been written,
/// it is done exactly when nothing is left, and only an interrupt does not count
/// as a failure.
pub proof fn law_file_is_written_to_its_end(
    len: usize,
    written: usize,
    result: WriteResult,
    r: WriteStep,
)
    requires
        call_ensures(write_file_finish, (len, written, result), r),
        written <= len,
        result matches WriteResult::Written(n) ==> written + n <= len,
    ensures
        r is Done <==> (result matches WriteResult::Written(n) && written + n == len),
        r is Fail <==> result == (WriteResult::Failed { interrupted: false }),
        r matches WriteStep::From(at) ==> at == written + match result {
            WriteResult::Written(n) => n as int,
            WriteResult::Failed { interrupted: _ } => 0,
        },
{
}

/// Init is held exactly where the kernel reports no error; a refusal means that
/// somebody else holds it.
pub proof fn law_claim_is_told(error: Option<i32>, r: ClaimResult)
    requires
        call_ensures(claim_init_tracer, (error,), r),
    ensures
        r is Claimed <==> error is None,
        r is Taken <==> error == Some(1i32),
{
}

/// The monitor opens what it needs in order, runs its loop only with all of it
/// open, and ends well exactly by way of the loop.
pub proof fn law_monitor_order(phase: MonitorPhase, ok: bool)
    ensures
        ({
            let next = monitor_next(phase, ok);
            &&& next != MonitorPhase::Prepare
            &&& next == MonitorPhase::Claim ==> phase == MonitorPhase::Prepare && ok
            &&& next == MonitorPhase::OpenEvents ==> phase == MonitorPhase::Claim && ok
            &&& next == MonitorPhase::OpenListener ==> phase == MonitorPhase::OpenEvents
            &&& next == MonitorPhase::OpenSignals ==> phase == MonitorPhase::OpenListener && ok
            &&& next == MonitorPhase::Loop ==> phase == MonitorPhase::OpenSignals && ok
            &&& next is CloseListener ==> (phase == MonitorPhase::Loop && next->CloseListener_0
                == 0) || (phase == MonitorPhase::OpenSignals && !ok && next->CloseListener_0 == 1)
            &&& next == MonitorPhase::CloseSignals ==> phase == MonitorPhase::CloseListener(0)
            &&& next == MonitorPhase::CloseEvents ==> (phase == MonitorPhase::OpenListener && !ok)
                || (phase is CloseListener && phase->CloseListener_0 != 0)
            &&& next == MonitorPhase::Ended(0) ==> phase == MonitorPhase::Ended(0) || phase
                == MonitorPhase::CloseSignals
            &&& next is Ended && next->Ended_0 != 0 && !(phase is Ended) ==> next
                == MonitorPhase::Ended(1) && (phase == MonitorPhase::CloseEvents || (!ok && (phase
                == MonitorPhase::Prepare || phase == MonitorPhase::Claim)))
            &&& phase is Ended ==> next == phase
        }),
{
}

/// A file is told by its first bytes: without the four of the format it is
/// another kind, and the fifth says its width.
pub proof fn law_file_class_is_told(m: Seq<u8>)
    ensures
        ({
            let elf = m.len() >= 5 && m.take(4) == seq![0x7fu8, 0x45u8, 0x4cu8, 0x46u8];
            &&& !elf ==> file_class(Some(m)) == "not-elf"@
            &&& elf && m[4] == 2 ==> file_class(Some(m)) == "ELF64"@
            &&& elf && m[4] != 2 ==> file_class(Some(m)) == "ELF32"@
            &&& file_class(None) == "unreadable"@
        }),
{
    if m.len() >= 5 {
        let head = m.take(4);
        let format = seq![0x7fu8, 0x45u8, 0x4cu8, 0x46u8];
        if m[0] == 0x7f && m[1] == 0x45 && m[2] == 0x4c && m[3] == 0x46 {
            assert(head =~= format);
        } else if head == format {
            assert(head[0] == 0x7f && head[1] == 0x45 && head[2] == 0x4c && head[3] == 0x46);
        }
    }
}

/// A status line shows its process stopped by the first letter behind the name
/// of the process, whatever that name holds.
pub proof fn law_stop_is_shown_by_one_letter(head: Seq<char>, letter: char, tail: Seq<char>)
    requires
        !tail.contains(')'),
        letter != ')',
        !is_blank(letter),
        tail.len() == 0 || is_blank(tail[0]),
    ensures
        shows_stopped(head + seq![')'] + (seq![' ', letter] + tail)) <==> letter == 'T' || letter
            == 't',
        !shows_stopped(tail),
{
    let rest = seq![' ', letter] + tail;
    assert forall|j: int| 0 <= j < rest.len() implies rest[j] != ')' by {
        if j >= 2 {
            assert(rest[j] == tail[j - 2]);
            assert(tail.contains(tail[j - 2]));
        }
    }
    law_status_fields_follow_the_name(head, rest, 0);
    law_status_fields_follow_the_name(head, tail, 0);
    let word = seq![letter];
    law_words_are_counted(seq![' '], word, tail, 0);
    assert(seq![' '] + word + tail =~= rest);
    reveal_strlit("T");
    reveal_strlit("t");
    assert("T"@ =~= seq!['T']);
    assert("t"@ =~= seq!['t']);
    assert(word[0] == letter);
    assert("T"@[0] == 'T' && "t"@[0] == 't');
}

/// A stamp tells whether a file is there, and of one that is, its size, when
/// it changed and its class: files of different sizes, or that changed at
/// different times, have different stamps.
pub proof fn law_stamps_tell_files_apart(
    size: u64,
    time: u64,
    magic: Option<[u8; 5]>,
    a: String,
    b: String,
)
    requires
        call_ensures(file_stamp, (Some((size, time)), magic), a),
        call_ensures(file_stamp, (None, magic), b),
    ensures
        digits(size as nat, 10).is_prefix_of(a@),
        a@.len() >= digits(size as nat, 10).len() + digits(time as nat, 10).len() + 13,
        b@ == "MISSING"@,
        magic is None ==> a@ == digits(size as nat, 10) + " bytes mtime="@ + digits(
            time as nat,
            10,
        ) + " "@ + "unreadable"@,
{
    reveal_strlit(" bytes mtime=");
    reveal_strlit(" ");
}

} // verus!
