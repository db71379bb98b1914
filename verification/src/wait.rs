//! Wait statuses of traced processes, and what to do about them.
//!
//! A wait status is a number whose low byte says how the process changed, whose
//! second byte holds a signal or an exit code, and whose upper half holds the
//! ptrace event, if any.
use vstd::prelude::*;

use crate::text::{decimal, hexadecimal, push_decimal, push_digits};

verus! {

/// Signals that the tracer tells apart.
pub const SIGTRAP: i32 = 5;

pub const SIGSEGV: i32 = 11;

pub const SIGCHLD: i32 = 17;

pub const SIGCONT: i32 = 18;

pub const SIGSTOP: i32 = 19;

pub const SIGTSTP: i32 = 20;

pub const SIGTTIN: i32 = 21;

pub const SIGTTOU: i32 = 22;

/// Ptrace events.
pub const PTRACE_EVENT_FORK: i32 = 1;

pub const PTRACE_EVENT_VFORK: i32 = 2;

pub const PTRACE_EVENT_CLONE: i32 = 3;

pub const PTRACE_EVENT_EXEC: i32 = 4;

pub const PTRACE_EVENT_VFORK_DONE: i32 = 5;

pub const PTRACE_EVENT_EXIT: i32 = 6;

pub const PTRACE_EVENT_SECCOMP: i32 = 7;

pub const PTRACE_EVENT_STOP: i32 = 128;

/// The status that stands for a wait that failed: an exit with code 255.
pub const WAIT_FAILED: i32 = 0xff00;

/// The low seven bits: zero after an exit, else the signal that ended the
/// process or the mark of a stop.
pub open spec fn low7(status: int) -> int {
    status % 128
}

/// The second byte: an exit code or a stop signal.
pub open spec fn second_byte(status: int) -> int {
    (status / 256) % 256
}

/// The upper half: the ptrace event.
pub open spec fn upper_half(status: int) -> int {
    status / 65536
}

/// The process was stopped.
pub open spec fn is_stopped(status: int) -> bool {
    status % 256 == 127
}

/// The process exited.
pub open spec fn is_exited(status: int) -> bool {
    low7(status) == 0
}

/// A signal ended the process.
pub open spec fn is_signaled(status: int) -> bool {
    low7(status) != 0 && low7(status) != 127
}

/// Whether the process was stopped.
pub fn wifstopped(status: i32) -> (r: bool)
    ensures
        r == is_stopped(status as int),
{
    assert(status & 0xff == status % 256) by (bit_vector);
    (status & 0xff) == 0x7f
}

/// The signal that stopped the process.
pub fn wstopsig(status: i32) -> (sig: i32)
    ensures
        sig == second_byte(status as int),
{
    assert((status >> 8) & 0xff == (status / 256) % 256) by (bit_vector);
    (status >> 8) & 0xff
}

/// The ptrace event of a stop.
pub fn wptevent(status: i32) -> (event: i32)
    ensures
        event == upper_half(status as int),
{
    assert(status >> 16 == status / 65536) by (bit_vector);
    status >> 16
}

/// Whether the process was stopped with just this signal and event; both are
/// taken bit by bit, the event above the low byte.
pub fn stopped_with(status: i32, sig: i32, event: i32) -> (r: bool)
    ensures
        r == (is_stopped(status as int) && (status as int) / 256 == (sig | (event << 8))),
{
    assert(status >> 8 == status / 256) by (bit_vector);
    wifstopped(status) && (status >> 8) == (sig | (event << 8))
}

/// Whether the process exited.
pub fn wifexited(status: i32) -> (r: bool)
    ensures
        r == is_exited(status as int),
{
    assert(status & 0x7f == status % 128) by (bit_vector);
    (status & 0x7f) == 0
}

/// The exit code.
pub fn wexitstatus(status: i32) -> (code: i32)
    ensures
        code == second_byte(status as int),
{
    assert((status >> 8) & 0xff == (status / 256) % 256) by (bit_vector);
    (status >> 8) & 0xff
}

/// Whether a signal ended the process.
pub fn wifsignaled(status: i32) -> (r: bool)
    ensures
        r == is_signaled(status as int),
{
    assert(status & 0x7f == status % 128) by (bit_vector);
    let s: i32 = status & 0x7f;
    s != 0 && s != 0x7f
}

/// The signal that ended the process.
pub fn wtermsig(status: i32) -> (sig: i32)
    ensures
        sig == low7(status as int),
{
    assert(status & 0x7f == status % 128) by (bit_vector);
    status & 0x7f
}

/// The name of a ptrace event.
pub open spec fn event_name(event: int) -> Seq<char> {
    if event == 1 {
        "PTRACE_EVENT_FORK"@
    } else if event == 2 {
        "PTRACE_EVENT_VFORK"@
    } else if event == 3 {
        "PTRACE_EVENT_CLONE"@
    } else if event == 4 {
        "PTRACE_EVENT_EXEC"@
    } else if event == 5 {
        "PTRACE_EVENT_VFORK_DONE"@
    } else if event == 6 {
        "PTRACE_EVENT_EXIT"@
    } else if event == 7 {
        "PTRACE_EVENT_SECCOMP"@
    } else if event == 128 {
        "PTRACE_EVENT_STOP"@
    } else {
        "(no event)"@
    }
}

/// The name of the ptrace event in a status.
pub fn parse_ptrace_event(status: i32) -> (name: &'static str)
    ensures
        name@ == event_name(upper_half(status as int)),
{
    match wptevent(status) {
        1 => "PTRACE_EVENT_FORK",
        2 => "PTRACE_EVENT_VFORK",
        3 => "PTRACE_EVENT_CLONE",
        4 => "PTRACE_EVENT_EXEC",
        5 => "PTRACE_EVENT_VFORK_DONE",
        6 => "PTRACE_EVENT_EXIT",
        7 => "PTRACE_EVENT_SECCOMP",
        128 => "PTRACE_EVENT_STOP",
        _ => "(no event)",
    }
}

/// The abbreviated name of a signal.
pub open spec fn signal_name(sig: int) -> Seq<char> {
    if sig == 1 {
        "HUP"@
    } else if sig == 2 {
        "INT"@
    } else if sig == 3 {
        "QUIT"@
    } else if sig == 4 {
        "ILL"@
    } else if sig == 5 {
        "TRAP"@
    } else if sig == 6 {
        "ABRT"@
    } else if sig == 7 {
        "BUS"@
    } else if sig == 8 {
        "FPE"@
    } else if sig == 9 {
        "KILL"@
    } else if sig == 10 {
        "USR1"@
    } else if sig == 11 {
        "SEGV"@
    } else if sig == 12 {
        "USR2"@
    } else if sig == 13 {
        "PIPE"@
    } else if sig == 14 {
        "ALRM"@
    } else if sig == 15 {
        "TERM"@
    } else if sig == 17 {
        "CHLD"@
    } else if sig == 18 {
        "CONT"@
    } else if sig == 19 {
        "STOP"@
    } else if sig == 20 {
        "TSTP"@
    } else if sig == 21 {
        "TTIN"@
    } else if sig == 22 {
        "TTOU"@
    } else if sig == 23 {
        "URG"@
    } else if sig == 24 {
        "XCPU"@
    } else if sig == 25 {
        "XFSZ"@
    } else if sig == 26 {
        "VTALRM"@
    } else if sig == 27 {
        "PROF"@
    } else if sig == 28 {
        "WINCH"@
    } else if sig == 29 {
        "IO"@
    } else if sig == 31 {
        "SYS"@
    } else {
        "(unknown)"@
    }
}

/// The abbreviated name of a signal.
pub fn sigabbrev_np(sig: i32) -> (name: &'static str)
    ensures
        name@ == signal_name(sig as int),
{
    match sig {
        1 => "HUP",
        2 => "INT",
        3 => "QUIT",
        4 => "ILL",
        5 => "TRAP",
        6 => "ABRT",
        7 => "BUS",
        8 => "FPE",
        9 => "KILL",
        10 => "USR1",
        11 => "SEGV",
        12 => "USR2",
        13 => "PIPE",
        14 => "ALRM",
        15 => "TERM",
        17 => "CHLD",
        18 => "CONT",
        19 => "STOP",
        20 => "TSTP",
        21 => "TTIN",
        22 => "TTOU",
        23 => "URG",
        24 => "XCPU",
        25 => "XFSZ",
        26 => "VTALRM",
        27 => "PROF",
        28 => "WINCH",
        29 => "IO",
        31 => "SYS",
        _ => "(unknown)",
    }
}

/// A 32-bit number seen as unsigned.
pub open spec fn unsigned32(v: int) -> nat {
    (if v < 0 {
        v + 0x1_0000_0000
    } else {
        v
    }) as nat
}

/// A signal in text: its name and, in brackets, its number.
pub open spec fn signal_text(sig: int) -> Seq<char> {
    signal_name(sig) + "("@ + decimal(sig) + ")"@
}

/// A status in text: its hexadecimal value and what it means.
pub open spec fn status_text(status: int) -> Seq<char> {
    "0x"@ + hexadecimal(unsigned32(status)) + " "@ + if is_exited(status) {
        "exited with "@ + decimal(second_byte(status))
    } else if is_signaled(status) {
        "signaled with "@ + signal_text(low7(status))
    } else if is_stopped(status) {
        "stopped by signal="@ + signal_text(second_byte(status)) + ",event="@ + event_name(
            upper_half(status),
        )
    } else {
        "unknown"@
    }
}

fn push_signal(buf: &mut String, sig: i32)
    ensures
        final(buf)@ == old(buf)@ + signal_text(sig as int),
{
    buf.append(sigabbrev_np(sig));
    buf.append("(");
    push_decimal(buf, sig as i64);
    buf.append(")");
    assert(buf@ =~= old(buf)@ + signal_text(sig as int));
}

/// A status in text.
pub fn parse_status(status: i32) -> (buf: String)
    ensures
        buf@ == status_text(status as int),
{
    let mut buf = String::new();
    buf.append("0x");
    assert(status as u32 == if status < 0 {
        status + 0x1_0000_0000
    } else {
        status as int
    }) by (bit_vector);
    push_digits(&mut buf, (status as u32) as u64, 16);
    buf.append(" ");
    if wifexited(status) {
        buf.append("exited with ");
        push_decimal(&mut buf, wexitstatus(status) as i64);
    } else if wifsignaled(status) {
        buf.append("signaled with ");
        push_signal(&mut buf, wtermsig(status));
    } else if wifstopped(status) {
        buf.append("stopped by signal=");
        push_signal(&mut buf, wstopsig(status));
        buf.append(",event=");
        buf.append(parse_ptrace_event(status));
    } else {
        buf.append("unknown");
    }
    assert(buf@ =~= status_text(status as int));
    buf
}

/// What a call that waits for a process came back with.
#[derive(Clone, Copy, Debug, PartialEq, Eq, Structural)]
pub enum WaitResult {
    /// It failed; `interrupted` if only because a signal came in.
    Error { interrupted: bool },
    /// The process has not changed yet.
    Nothing,
    /// Another process changed.
    Other,
    /// The process changed to this status.
    Changed(i32),
}

/// What to do after waiting for a traced process to stop.
#[derive(Clone, Copy, Debug, PartialEq, Eq, Structural)]
pub enum TraceStep {
    /// Wait again at once.
    Retry,
    /// Wait again after a short sleep.
    Sleep,
    /// Let the process run on and wait again.
    Resume,
    /// Keep the process from making the system call it is about to make, let
    /// it run on and wait again.
    SkipSyscall,
    /// The wait is over with this status; `ok` if the process is stopped.
    Over { status: i32, ok: bool },
}

/// A stop before a system call that a filter asked the tracer about.
pub open spec fn is_seccomp_stop(status: int) -> bool {
    status / 256 == SIGTRAP + 256 * PTRACE_EVENT_SECCOMP
}

/// What a change of the process means: stops by a child's signal and by
/// filtered system calls are passed over.
pub open spec fn changed_step(status: i32) -> TraceStep {
    if is_stopped(status as int) && second_byte(status as int) == SIGCHLD {
        TraceStep::Resume
    } else if is_seccomp_stop(status as int) {
        TraceStep::SkipSyscall
    } else {
        TraceStep::Over { status, ok: is_stopped(status as int) }
    }
}

fn step_of_change(status: i32) -> (r: TraceStep)
    ensures
        r == changed_step(status),
{
    assert(status >> 8 == status / 256) by (bit_vector);
    if wifstopped(status) && wstopsig(status) == SIGCHLD {
        TraceStep::Resume
    } else if status >> 8 == 0x705 {
        TraceStep::SkipSyscall
    } else {
        TraceStep::Over { status, ok: wifstopped(status) }
    }
}

/// The next step of a wait without time limit.
pub fn wait_for_trace(result: WaitResult) -> (r: TraceStep)
    ensures
        r == match result {
            WaitResult::Changed(status) => changed_step(status),
            WaitResult::Error { interrupted: false } => TraceStep::Over {
                status: WAIT_FAILED,
                ok: false,
            },
            _ => TraceStep::Retry,
        },
{
    match result {
        WaitResult::Changed(status) => step_of_change(status),
        WaitResult::Error { interrupted: false } => TraceStep::Over {
            status: WAIT_FAILED,
            ok: false,
        },
        _ => TraceStep::Retry,
    }
}

/// The next step of a wait with a time limit: a change counts even after the
/// limit, an interrupted call is repeated, and without a change the wait ends
/// as failed once the limit has passed.
pub fn wait_for_trace_deadline(result: WaitResult, past_deadline: bool) -> (r: TraceStep)
    ensures
        r == match result {
            WaitResult::Changed(status) => changed_step(status),
            WaitResult::Error { interrupted } => if interrupted {
                TraceStep::Retry
            } else {
                TraceStep::Over { status: WAIT_FAILED, ok: false }
            },
            _ => if past_deadline {
                TraceStep::Over { status: WAIT_FAILED, ok: false }
            } else {
                TraceStep::Sleep
            },
        },
{
    match result {
        WaitResult::Changed(status) => step_of_change(status),
        WaitResult::Error { interrupted } => if interrupted {
            TraceStep::Retry
        } else {
            TraceStep::Over { status: WAIT_FAILED, ok: false }
        },
        _ => if past_deadline {
            TraceStep::Over { status: WAIT_FAILED, ok: false }
        } else {
            TraceStep::Sleep
        },
    }
}

/// What to do while draining a process's stops up to the one that the tracer
/// asked for.
#[derive(Clone, Copy, Debug, PartialEq, Eq, Structural)]
pub enum DrainStep {
    /// The asked-for stop is reached.
    Reached,
    /// The process is not stopped: give up.
    Lost,
    /// Let it run on with this signal.
    Continue(i32),
}

/// The next step after a wait while draining: an ordinary signal is passed on
/// to the process, an event is not.
pub fn wait_for_event_stop(status: i32) -> (r: DrainStep)
    ensures
        r == if !is_stopped(status as int) {
            DrainStep::Lost
        } else if second_byte(status as int) == SIGTRAP && upper_half(status as int)
            == PTRACE_EVENT_STOP {
            DrainStep::Reached
        } else if upper_half(status as int) != 0 {
            DrainStep::Continue(0)
        } else {
            DrainStep::Continue(second_byte(status as int) as i32)
        },
{
    if !wifstopped(status) {
        return DrainStep::Lost;
    }
    if wstopsig(status) == SIGTRAP && wptevent(status) == PTRACE_EVENT_STOP {
        return DrainStep::Reached;
    }
    if wptevent(status) != 0 {
        DrainStep::Continue(0)
    } else {
        DrainStep::Continue(wstopsig(status))
    }
}

/// What to do while waiting for a process to reach a system call boundary.
#[derive(Clone, Copy, Debug, PartialEq, Eq, Structural)]
pub enum SyscallStep {
    /// Wait again at once.
    Retry,
    /// Wait again after a short sleep.
    Sleep,
    /// Another stop was pending: step to the next boundary and wait again.
    StepAgain,
    /// The boundary is reached.
    Reached,
    /// Give up.
    Fail,
}

/// How many pending stops are passed over before the wait is given up.
pub const MAX_PENDING_STOPS: u32 = 4;

/// A stop at a system call boundary: a trap, marked or not, without an event.
pub open spec fn is_syscall_stop(status: int) -> bool {
    upper_half(status) % 256 == 0 && (second_byte(status) == SIGTRAP || second_byte(status)
        == SIGTRAP + 128)
}

/// A stop that was pending when the process was resumed.
pub open spec fn is_pending_stop(status: int) -> bool {
    upper_half(status) % 256 == PTRACE_EVENT_STOP && (second_byte(status) == SIGTRAP
        || second_byte(status) == SIGSTOP)
}

/// What a change means for a wait that has passed over `retries` stops.
pub open spec fn syscall_step(status: int, retries: u32) -> SyscallStep {
    if !is_stopped(status) {
        SyscallStep::Fail
    } else if is_pending_stop(status) {
        if retries >= MAX_PENDING_STOPS {
            SyscallStep::Fail
        } else {
            SyscallStep::StepAgain
        }
    } else if is_syscall_stop(status) {
        SyscallStep::Reached
    } else {
        SyscallStep::Fail
    }
}

/// The step for what the wait came back with; without a time limit
/// `past_deadline` is `None`.
pub open spec fn boundary_step(
    result: WaitResult,
    past_deadline: Option<bool>,
    retries: u32,
) -> SyscallStep {
    match result {
        WaitResult::Error { interrupted } => if interrupted {
            SyscallStep::Retry
        } else {
            SyscallStep::Fail
        },
        WaitResult::Nothing => match past_deadline {
            None => SyscallStep::Retry,
            Some(true) => SyscallStep::Fail,
            Some(false) => SyscallStep::Sleep,
        },
        WaitResult::Other => SyscallStep::Retry,
        WaitResult::Changed(status) => syscall_step(status as int, retries),
    }
}

fn next_boundary_step(
    result: WaitResult,
    past_deadline: Option<bool>,
    retries: &mut u32,
) -> (r: SyscallStep)
    requires
        *old(retries) <= MAX_PENDING_STOPS,
    ensures
        r == boundary_step(result, past_deadline, *old(retries)),
        *final(retries) == if r == SyscallStep::StepAgain {
            *old(retries) + 1
        } else {
            *old(retries) as int
        },
{
    match result {
        WaitResult::Error { interrupted } => if interrupted {
            SyscallStep::Retry
        } else {
            SyscallStep::Fail
        },
        WaitResult::Nothing => match past_deadline {
            None => SyscallStep::Retry,
            Some(past) => if past {
                SyscallStep::Fail
            } else {
                SyscallStep::Sleep
            },
        },
        WaitResult::Other => SyscallStep::Retry,
        WaitResult::Changed(status) => {
            if !wifstopped(status) {
                return SyscallStep::Fail;
            }
            let sig: i32 = wstopsig(status);
            let event: i32 = wptevent(status) & 0xff;
            proof {
                let e = (status as int / 65536) as i32;
                assert(e & 0xff == e % 256) by (bit_vector);
            }
            if (sig == SIGSTOP || sig == SIGTRAP) && event == PTRACE_EVENT_STOP {
                if *retries >= MAX_PENDING_STOPS {
                    return SyscallStep::Fail;
                }
                *retries = *retries + 1;
                return SyscallStep::StepAgain;
            }
            if event == 0 && (sig == SIGTRAP || sig == SIGTRAP + 0x80) {
                SyscallStep::Reached
            } else {
                SyscallStep::Fail
            }
        },
    }
}

/// The next step of a wait for a system call boundary without time limit.
pub fn wait_for_ptrace_syscall_stop(result: WaitResult, retries: &mut u32) -> (r: SyscallStep)
    requires
        *old(retries) <= MAX_PENDING_STOPS,
    ensures
        r == boundary_step(result, None, *old(retries)),
        *final(retries) == if r == SyscallStep::StepAgain {
            *old(retries) + 1
        } else {
            *old(retries) as int
        },
        *final(retries) <= MAX_PENDING_STOPS,
{
    next_boundary_step(result, None, retries)
}

/// The next step of a wait for a system call boundary with a time limit.
pub fn wait_for_ptrace_syscall_stop_deadline(
    result: WaitResult,
    past_deadline: bool,
    retries: &mut u32,
) -> (r: SyscallStep)
    requires
        *old(retries) <= MAX_PENDING_STOPS,
    ensures
        r == boundary_step(result, Some(past_deadline), *old(retries)),
        *final(retries) == if r == SyscallStep::StepAgain {
            *old(retries) + 1
        } else {
            *old(retries) as int
        },
        *final(retries) <= MAX_PENDING_STOPS,
{
    next_boundary_step(result, Some(past_deadline), retries)
}

/// What to do while waiting for a short-lived intermediate child.
#[derive(Clone, Copy, Debug, PartialEq, Eq, Structural)]
pub enum ChildStep {
    /// It exited cleanly.
    Done,
    /// It failed, or the wait did.
    Failed,
    /// It took too long: kill it, and report failure.
    Kill,
    /// Look again after a short sleep.
    Sleep,
}

/// The next step while waiting for the intermediate of a double fork; an error
/// of the wait is final.
pub fn fork_dont_care(result: WaitResult, past_deadline: bool) -> (r: ChildStep)
    ensures
        r == match result {
            WaitResult::Changed(status) => if is_exited(status as int) && second_byte(
                status as int,
            ) == 0 {
                ChildStep::Done
            } else {
                ChildStep::Failed
            },
            WaitResult::Error { interrupted: _ } => ChildStep::Failed,
            _ => if past_deadline {
                ChildStep::Kill
            } else {
                ChildStep::Sleep
            },
        },
{
    match result {
        WaitResult::Changed(status) => if wifexited(status) && wexitstatus(status) == 0 {
            ChildStep::Done
        } else {
            ChildStep::Failed
        },
        WaitResult::Error { interrupted: _ } => ChildStep::Failed,
        _ => if past_deadline {
            ChildStep::Kill
        } else {
            ChildStep::Sleep
        },
    }
}

/// A status means at most one of: exited, ended by a signal, stopped.
pub proof fn law_status_kinds_exclude_each_other(status: i32)
    ensures
        !(is_exited(status as int) && is_signaled(status as int)),
        !(is_exited(status as int) && is_stopped(status as int)),
        !(is_signaled(status as int) && is_stopped(status as int)),
{
}

/// For a signal of one byte and an event that can be shifted past it, being
/// stopped with them is being stopped, by that signal, with that event.
pub proof fn law_stopped_with_fields(status: i32, sig: i32, event: i32)
    requires
        0 <= sig < 256,
        0 <= event < 0x80_0000,
    ensures
        (is_stopped(status as int) && (status as int) / 256 == (sig | (event << 8))) <==> (
        is_stopped(status as int) && second_byte(status as int) == sig && upper_half(status as int)
            == event),
{
    assert((sig | (event << 8)) == sig + 256 * event) by (bit_vector)
        requires
            0 <= sig < 256,
            0 <= event < 0x80_0000,
    ;
}

/// The status of a failed wait is no stop, so a caller that asks for one takes
/// its failure path.
pub proof fn law_failed_wait_is_no_stop()
    ensures
        !is_stopped(WAIT_FAILED as int),
        is_exited(WAIT_FAILED as int),
        second_byte(WAIT_FAILED as int) == 255,
{
}

/// A stop is told as it was made: the mark of a stop, then the signal, then the
/// event.
pub proof fn law_stop_has_its_fields(sig: int, event: int)
    requires
        0 <= sig < 256,
    ensures
        ({
            let status = 127 + 256 * sig + 65536 * event;
            &&& is_stopped(status)
            &&& !is_exited(status)
            &&& !is_signaled(status)
            &&& second_byte(status) == sig
            &&& upper_half(status) == event
        }),
{
}

/// An exit is told as it was made, with its code; and so is an end by a signal,
/// whether or not it left a core file behind.
pub proof fn law_end_has_its_fields(code: int, sig: int, core: bool)
    requires
        0 <= code < 256,
        0 < sig < 127,
    ensures
        is_exited(256 * code),
        second_byte(256 * code) == code,
        ({
            let status = sig + if core {
                128int
            } else {
                0
            };
            is_signaled(status) && low7(status) == sig && !is_exited(status) && !is_stopped(status)
        }),
{
}

/// A wait for a stop passes over the stops that a child's signal and a filtered
/// system call cause; of every other change it ends, well exactly where the
/// process is stopped.
pub proof fn law_changes_end_a_wait(status: i32)
    ensures
        ({
            let stopped = status % 256 == 127;
            let sig = (status as int / 256) % 256;
            let step = changed_step(status);
            &&& step is Resume <==> stopped && sig == 17
            &&& step is SkipSyscall <==> !(stopped && sig == 17) && status as int / 256 == 0x705
            &&& !(step is Resume) && !(step is SkipSyscall) ==> step == (TraceStep::Over {
                status,
                ok: stopped,
            })
        }),
{
}

/// Both waits for a stop treat a change alike. Without one, a wait is over only
/// where it failed for good, or where there is a time limit that has passed; and
/// then never well.
pub proof fn law_waits_end_by_failure_or_time(
    result: WaitResult,
    past: bool,
    free: TraceStep,
    limited: TraceStep,
)
    requires
        call_ensures(wait_for_trace, (result,), free),
        call_ensures(wait_for_trace_deadline, (result, past), limited),
    ensures
        result is Changed ==> free == limited && free == changed_step(result->Changed_0),
        !(result is Changed) ==> {
            let broken = result == (WaitResult::Error { interrupted: false });
            let quiet = result is Nothing || result is Other;
            &&& free is Over <==> broken
            &&& limited is Over <==> broken || (quiet && past)
            &&& limited is Sleep <==> quiet && !past
            &&& !broken ==> free is Retry
            &&& result == (WaitResult::Error { interrupted: true }) ==> limited is Retry
            &&& free matches TraceStep::Over { status, ok } ==> status == 0xff00 && !ok
            &&& limited matches TraceStep::Over { status, ok } ==> status == 0xff00 && !ok
        },
{
}

/// Draining ends at the stop of an interrupt; a process that is gone is lost;
/// and what came before is passed on, the signal of a plain stop, nothing for an
/// event.
pub proof fn law_drained_signals_are_passed_on(status: i32, r: DrainStep)
    requires
        call_ensures(wait_for_event_stop, (status,), r),
    ensures
        ({
            let stopped = status % 256 == 127;
            let word = status as int / 256;
            &&& r is Lost <==> !stopped
            &&& r is Reached <==> stopped && word == 0x8005
            &&& stopped && word != 0x8005 && 0 <= word < 256 ==> (r matches DrainStep::Continue(s)
                && s == word)
            &&& stopped && word != 0x8005 && !(0 <= word < 256) ==> r == DrainStep::Continue(0)
        }),
{
}

/// A system call boundary is a trap, marked or plain, without an event. A stop
/// that was only pending is stepped over, at most four times. Everything else
/// ends the wait.
pub proof fn law_boundary_is_a_trap(sig: int, event: int, retries: u32)
    requires
        0 <= sig < 256,
        0 <= event < 256,
    ensures
        ({
            let step = syscall_step(127 + 256 * sig + 65536 * event, retries);
            &&& step is Reached <==> event == 0 && (sig == 5 || sig == 133)
            &&& step is StepAgain <==> event == 128 && (sig == 5 || sig == 19) && retries < 4
            &&& step is Fail <==> !(step is Reached) && !(step is StepAgain)
        }),
{
}

/// What is not stopped reaches no boundary.
pub proof fn law_ended_process_reaches_no_boundary(status: int, retries: u32)
    requires
        status % 256 != 127,
    ensures
        syscall_step(status, retries) is Fail,
{
}

/// While nothing changed, a wait for a boundary goes on: at once after an
/// interrupt, after another process's change or without a time limit, else after
/// a sleep until the limit has passed.
pub proof fn law_boundary_wait_goes_on(result: WaitResult, past: Option<bool>, retries: u32)
    requires
        !(result is Changed),
    ensures
        boundary_step(result, past, retries) is Fail <==> result == (WaitResult::Error {
            interrupted: false,
        }) || (result is Nothing && past == Some(true)),
        boundary_step(result, past, retries) is Sleep <==> result is Nothing && past == Some(false),
        !(boundary_step(result, past, retries) is Reached),
        !(boundary_step(result, past, retries) is StepAgain),
{
}

/// A change is judged alike with and without a time limit.
pub proof fn law_boundary_is_judged_alike(
    status: i32,
    past: Option<bool>,
    retries: u32,
)
    ensures
        boundary_step(WaitResult::Changed(status), past, retries) == syscall_step(
            status as int,
            retries,
        ),
{
}

/// The intermediate of a double fork did its work exactly where it exited with
/// code zero; one that stays is killed once its time is over.
pub proof fn law_intermediate_must_exit_cleanly(result: WaitResult, past: bool, r: ChildStep)
    requires
        call_ensures(fork_dont_care, (result, past), r),
    ensures
        r is Done <==> (result matches WaitResult::Changed(status) && status % 128 == 0 && (
        status as int / 256) % 256 == 0),
        r is Kill <==> (result is Nothing || result is Other) && past,
        r is Sleep <==> (result is Nothing || result is Other) && !past,
{
}

/// The text of a status says what it means, in the words for its kind.
pub proof fn law_status_text_tells_the_kind(status: i32)
    ensures
        ({
            let lead = "0x"@ + hexadecimal(unsigned32(status as int)) + " "@;
            let text = status_text(status as int);
            let low = status % 128;
            let sig = (status as int / 256) % 256;
            &&& low == 0 ==> text == lead + ("exited with "@ + decimal(sig))
            &&& low != 0 && low != 127 ==> text == lead + ("signaled with "@ + (signal_name(
                low as int,
            ) + "("@ + decimal(low as int) + ")"@))
            &&& status % 256 == 127 ==> text == lead + ("stopped by signal="@ + (signal_name(sig)
                + "("@ + decimal(sig) + ")"@) + ",event="@ + event_name(status as int / 65536))
        }),
{
}

/// Events have names of their own, and only they do.
pub proof fn law_events_are_named_apart(a: int, b: int)
    requires
        1 <= a <= 7 || a == 128,
    ensures
        event_name(a) == event_name(b) ==> a == b,
{
    reveal_strlit("PTRACE_EVENT_FORK");
    reveal_strlit("PTRACE_EVENT_VFORK");
    reveal_strlit("PTRACE_EVENT_CLONE");
    reveal_strlit("PTRACE_EVENT_EXEC");
    reveal_strlit("PTRACE_EVENT_VFORK_DONE");
    reveal_strlit("PTRACE_EVENT_EXIT");
    reveal_strlit("PTRACE_EVENT_SECCOMP");
    reveal_strlit("PTRACE_EVENT_STOP");
    reveal_strlit("(no event)");
    let (x, y) = (event_name(a), event_name(b));
    assert(a != b ==> x.len() != y.len() || x[13] != y[13] || x[14] != y[14] || x[15] != y[15]);
}

/// Each pending stop that is stepped over is counted, and nothing else is, with
/// or without a time limit; the two waits agree as long as there is time.
pub proof fn law_pending_stops_are_counted(
    result: WaitResult,
    late: bool,
    a: &mut u32,
    b: &mut u32,
    ra: SyscallStep,
    rb: SyscallStep,
)
    requires
        *old(a) <= MAX_PENDING_STOPS,
        *old(a) == *old(b),
        call_ensures(wait_for_ptrace_syscall_stop_deadline, (result, late, a), ra),
        call_ensures(wait_for_ptrace_syscall_stop, (result, b), rb),
    ensures
        ra == SyscallStep::StepAgain <==> *final(a) != *old(a),
        ra == SyscallStep::StepAgain ==> *final(a) == *old(a) + 1,
        rb == SyscallStep::StepAgain <==> *final(b) != *old(b),
        rb == SyscallStep::StepAgain ==> *final(b) == *old(b) + 1,
        *final(a) <= MAX_PENDING_STOPS,
        result is Changed ==> ra == rb,
{
}

/// Each event is told by its own name, and what is none of them as no event.
pub proof fn law_events_are_told_by_name(event: int, name: &'static str, status: i32)
    requires
        call_ensures(parse_ptrace_event, (status,), name),
        event == status as int / 0x1_0000,
    ensures
        name@ == "PTRACE_EVENT_FORK"@ <==> event == 1,
        name@ == "PTRACE_EVENT_VFORK"@ <==> event == 2,
        name@ == "PTRACE_EVENT_CLONE"@ <==> event == 3,
        name@ == "PTRACE_EVENT_EXEC"@ <==> event == 4,
        name@ == "PTRACE_EVENT_VFORK_DONE"@ <==> event == 5,
        name@ == "PTRACE_EVENT_EXIT"@ <==> event == 6,
        name@ == "PTRACE_EVENT_SECCOMP"@ <==> event == 7,
        name@ == "PTRACE_EVENT_STOP"@ <==> event == 128,
        name@ == "(no event)"@ <==> !(1 <= event <= 7) && event != 128,
{
    reveal_strlit("PTRACE_EVENT_FORK");
    reveal_strlit("PTRACE_EVENT_VFORK");
    reveal_strlit("PTRACE_EVENT_CLONE");
    reveal_strlit("PTRACE_EVENT_EXEC");
    reveal_strlit("PTRACE_EVENT_VFORK_DONE");
    reveal_strlit("PTRACE_EVENT_EXIT");
    reveal_strlit("PTRACE_EVENT_SECCOMP");
    reveal_strlit("PTRACE_EVENT_STOP");
    reveal_strlit("(no event)");
    assert("PTRACE_EVENT_FORK"@.len() == 17);
    assert("PTRACE_EVENT_VFORK"@.len() == 18);
    assert("PTRACE_EVENT_CLONE"@.len() == 18);
    assert("PTRACE_EVENT_EXEC"@.len() == 17);
    assert("PTRACE_EVENT_VFORK_DONE"@.len() == 23);
    assert("PTRACE_EVENT_EXIT"@.len() == 17);
    assert("PTRACE_EVENT_SECCOMP"@.len() == 20);
    assert("PTRACE_EVENT_STOP"@.len() == 17);
    assert("(no event)"@.len() == 10);
    assert("PTRACE_EVENT_FORK"@[13] == 'F');
    assert("PTRACE_EVENT_CLONE"@[13] == 'C');
    assert("PTRACE_EVENT_VFORK"@[13] == 'V');
    assert("PTRACE_EVENT_EXEC"@[13] == 'E' && "PTRACE_EVENT_EXEC"@[15] == 'E');
    assert("PTRACE_EVENT_EXIT"@[13] == 'E' && "PTRACE_EVENT_EXIT"@[15] == 'I');
    assert("PTRACE_EVENT_SECCOMP"@[14] == 'E');
    assert("PTRACE_EVENT_STOP"@[13] == 'S' && "PTRACE_EVENT_STOP"@[14] == 'T');
}

/// A status is written as the unsigned number that has the same bits.
pub proof fn law_status_is_written_without_sign(status: i32)
    ensures
        unsigned32(status as int) < 0x1_0000_0000,
        (unsigned32(status as int) - status) % 0x1_0000_0000 == 0,
{
}

/// The first two letters of a text and its last one.
pub open spec fn has_letters(s: Seq<char>, a: char, b: char, c: char) -> bool {
    s.len() >= 2 && s[0] == a && s[1] == b && s.last() == c
}

/// Each signal is told by its own name, and what is none of them as unknown.
#[verifier::rlimit(80)]
#[verifier::spinoff_prover]
pub proof fn law_signals_are_told_by_name(sig: i32, name: &'static str)
    requires
        call_ensures(sigabbrev_np, (sig,), name),
    ensures
        name@ == "HUP"@ <==> sig == 1,
        name@ == "INT"@ <==> sig == 2,
        name@ == "QUIT"@ <==> sig == 3,
        name@ == "ILL"@ <==> sig == 4,
        name@ == "TRAP"@ <==> sig == 5,
        name@ == "ABRT"@ <==> sig == 6,
        name@ == "BUS"@ <==> sig == 7,
        name@ == "FPE"@ <==> sig == 8,
        name@ == "KILL"@ <==> sig == 9,
        name@ == "USR1"@ <==> sig == 10,
        name@ == "SEGV"@ <==> sig == 11,
        name@ == "USR2"@ <==> sig == 12,
        name@ == "PIPE"@ <==> sig == 13,
        name@ == "ALRM"@ <==> sig == 14,
        name@ == "TERM"@ <==> sig == 15,
        name@ == "CHLD"@ <==> sig == 17,
        name@ == "CONT"@ <==> sig == 18,
        name@ == "STOP"@ <==> sig == 19,
        name@ == "TSTP"@ <==> sig == 20,
        name@ == "TTIN"@ <==> sig == 21,
        name@ == "TTOU"@ <==> sig == 22,
        name@ == "URG"@ <==> sig == 23,
        name@ == "XCPU"@ <==> sig == 24,
        name@ == "XFSZ"@ <==> sig == 25,
        name@ == "VTALRM"@ <==> sig == 26,
        name@ == "PROF"@ <==> sig == 27,
        name@ == "WINCH"@ <==> sig == 28,
        name@ == "IO"@ <==> sig == 29,
        name@ == "SYS"@ <==> sig == 31,
        name@ == "(unknown)"@ <==> !(1 <= sig <= 31) || sig == 16 || sig == 30,
{
    reveal_strlit("HUP");
    reveal_strlit("INT");
    reveal_strlit("QUIT");
    reveal_strlit("ILL");
    reveal_strlit("TRAP");
    reveal_strlit("ABRT");
    reveal_strlit("BUS");
    reveal_strlit("FPE");
    reveal_strlit("KILL");
    reveal_strlit("USR1");
    reveal_strlit("SEGV");
    reveal_strlit("USR2");
    reveal_strlit("PIPE");
    reveal_strlit("ALRM");
    reveal_strlit("TERM");
    reveal_strlit("CHLD");
    reveal_strlit("CONT");
    reveal_strlit("STOP");
    reveal_strlit("TSTP");
    reveal_strlit("TTIN");
    reveal_strlit("TTOU");
    reveal_strlit("URG");
    reveal_strlit("XCPU");
    reveal_strlit("XFSZ");
    reveal_strlit("VTALRM");
    reveal_strlit("PROF");
    reveal_strlit("WINCH");
    reveal_strlit("IO");
    reveal_strlit("SYS");
    reveal_strlit("(unknown)");
    assert(has_letters("HUP"@, 'H', 'U', 'P'));
    assert(has_letters("INT"@, 'I', 'N', 'T'));
    assert(has_letters("QUIT"@, 'Q', 'U', 'T'));
    assert(has_letters("ILL"@, 'I', 'L', 'L'));
    assert(has_letters("TRAP"@, 'T', 'R', 'P'));
    assert(has_letters("ABRT"@, 'A', 'B', 'T'));
    assert(has_letters("BUS"@, 'B', 'U', 'S'));
    assert(has_letters("FPE"@, 'F', 'P', 'E'));
    assert(has_letters("KILL"@, 'K', 'I', 'L'));
    assert(has_letters("USR1"@, 'U', 'S', '1'));
    assert(has_letters("SEGV"@, 'S', 'E', 'V'));
    assert(has_letters("USR2"@, 'U', 'S', '2'));
    assert(has_letters("PIPE"@, 'P', 'I', 'E'));
    assert(has_letters("ALRM"@, 'A', 'L', 'M'));
    assert(has_letters("TERM"@, 'T', 'E', 'M'));
    assert(has_letters("CHLD"@, 'C', 'H', 'D'));
    assert(has_letters("CONT"@, 'C', 'O', 'T'));
    assert(has_letters("STOP"@, 'S', 'T', 'P'));
    assert(has_letters("TSTP"@, 'T', 'S', 'P'));
    assert(has_letters("TTIN"@, 'T', 'T', 'N'));
    assert(has_letters("TTOU"@, 'T', 'T', 'U'));
    assert(has_letters("URG"@, 'U', 'R', 'G'));
    assert(has_letters("XCPU"@, 'X', 'C', 'U'));
    assert(has_letters("XFSZ"@, 'X', 'F', 'Z'));
    assert(has_letters("VTALRM"@, 'V', 'T', 'M'));
    assert(has_letters("PROF"@, 'P', 'R', 'F'));
    assert(has_letters("WINCH"@, 'W', 'I', 'H'));
    assert(has_letters("IO"@, 'I', 'O', 'O'));
    assert(has_letters("SYS"@, 'S', 'Y', 'S'));
    assert(has_letters("(unknown)"@, '(', 'u', ')'));
}

} // verus!
