//! Injecting the library into a zygote: the order in which a process is
//! seized, stopped, changed and let go.
//!
//! Every step is an action of the caller on the process; the functions here
//! take how it went and say what follows.
use vstd::prelude::*;

use crate::elf::{le32, le64, read_le32, read_le64};
use crate::maps::MapEntry;
use crate::wait::{
    is_stopped, second_byte, stopped_with, upper_half, wifstopped, wptevent, wstopsig,
    PTRACE_EVENT_STOP, SIGCONT, SIGSEGV, SIGSTOP, SIGTRAP,
};

verus! {

/// Why an injection failed.
#[derive(Debug)]
pub enum InjectError {
    MapsParseFailed,
    GetRegsFailed,
    SetRegsFailed,
    AtEntryNotFound,
    LoadLibraryFailed(String),
    RemoteCallFailed,
    PtraceFailed(String),
    TraceTimeout,
    UnexpectedStopStatus(String),
}

impl InjectError {
    /// The error in words.
    pub open spec fn text(self) -> Seq<char> {
        match self {
            InjectError::MapsParseFailed => "failed to parse remote maps"@,
            InjectError::GetRegsFailed => "failed to get registers"@,
            InjectError::SetRegsFailed => "failed to set registers"@,
            InjectError::AtEntryNotFound => "AT_ENTRY not found in auxv"@,
            InjectError::LoadLibraryFailed(what) => "failed to load library: "@ + what@,
            InjectError::RemoteCallFailed => "remote call failed"@,
            InjectError::PtraceFailed(what) => "ptrace operation failed: "@ + what@,
            InjectError::TraceTimeout => "timeout waiting for trace event"@,
            InjectError::UnexpectedStopStatus(what) => "unexpected stop status: "@ + what@,
        }
    }

    /// The error in words.
    pub fn message(&self) -> (s: String)
        ensures
            s@ == self.text(),
    {
        match self {
            InjectError::MapsParseFailed => String::from_str("failed to parse remote maps"),
            InjectError::GetRegsFailed => String::from_str("failed to get registers"),
            InjectError::SetRegsFailed => String::from_str("failed to set registers"),
            InjectError::AtEntryNotFound => String::from_str("AT_ENTRY not found in auxv"),
            InjectError::LoadLibraryFailed(what) => String::from_str(
                "failed to load library: ",
            ).concat(what.as_str()),
            InjectError::RemoteCallFailed => String::from_str("remote call failed"),
            InjectError::PtraceFailed(what) => String::from_str(
                "ptrace operation failed: ",
            ).concat(what.as_str()),
            InjectError::TraceTimeout => String::from_str("timeout waiting for trace event"),
            InjectError::UnexpectedStopStatus(what) => String::from_str(
                "unexpected stop status: ",
            ).concat(what.as_str()),
        }
    }
}

/// Options of a seized process.
pub const PTRACE_O_TRACESYSGOOD: u64 = 0x1;

pub const PTRACE_O_TRACESECCOMP: u64 = 0x80;

pub const PTRACE_O_EXITKILL: u64 = 0x10_0000;

/// The kernel can kill the process with its tracer and report filtered system
/// calls.
pub open spec fn kernel_has_exitkill(major: u32, minor: u32) -> bool {
    major > 3 || (major == 3 && minor >= 8)
}

/// The options with which a zygote is seized: none on old kernels; a translated
/// process also has its system call stops marked.
pub fn seize_options(major: u32, minor: u32, tango: bool) -> (r: u64)
    ensures
        r == if !kernel_has_exitkill(major, minor) {
            0
        } else if tango {
            PTRACE_O_EXITKILL + PTRACE_O_TRACESECCOMP + PTRACE_O_TRACESYSGOOD
        } else {
            PTRACE_O_EXITKILL + PTRACE_O_TRACESECCOMP
        },
{
    if !(major > 3 || (major == 3 && minor >= 8)) {
        0
    } else if tango {
        PTRACE_O_EXITKILL + PTRACE_O_TRACESECCOMP + PTRACE_O_TRACESYSGOOD
    } else {
        PTRACE_O_EXITKILL + PTRACE_O_TRACESECCOMP
    }
}

/// Whether the first stop of a seized process is waited for even where it is a
/// translated one: on old kernels it is.
pub fn waits_first(major: u32, minor: u32) -> (r: bool)
    ensures
        r == !kernel_has_exitkill(major, minor),
{
    !(major > 3 || (major == 3 && minor >= 8))
}

/// The steps of tracing a zygote.
#[derive(Clone, Copy, Debug, PartialEq, Eq, Structural)]
pub enum TracePhase {
    /// Seize the process.
    Seize,
    /// Wait for the stop that seizing it reports.
    FirstStop,
    /// Interrupt a translated process.
    Interrupt,
    /// Drain its stops up to that of the interrupt.
    Drain,
    /// Wait until its linker is ready.
    WaitLinker,
    /// Let it leave the system call; how that goes makes no difference.
    LeaveSyscall,
    /// Interrupt it again.
    InterruptAgain,
    /// Drain its stops again.
    DrainAgain,
    /// Inject the library into a translated process.
    InjectTango,
    /// Inject the library at the process's entry.
    InjectMain,
    /// Send the process the signal to continue.
    SendCont,
    /// Let the process run, and wait for the stop that ends its group stop.
    RunToTrap,
    TrapStop,
    /// Let the process run, and wait for the delivery of the signal.
    RunToCont,
    ContStop,
    /// Let the process run to a system call; how that goes makes no
    /// difference. This clears a stale event message of older kernels.
    StepSyscall,
    SyscallStop,
    /// Let the process go with this signal; the trace ends with this result.
    Detach { signal: i32, result: bool },
    /// The trace is over.
    Over(bool),
}

/// The status is a stop by just this signal and event.
pub open spec fn stop_is(status: int, sig: int, event: int) -> bool {
    is_stopped(status) && second_byte(status) == sig && upper_half(status) == event
}

fn is_stop(status: i32, sig: i32, event: i32) -> (r: bool)
    requires
        0 <= sig < 256,
        0 <= event < 0x80_0000,
    ensures
        r == stop_is(status as int, sig as int, event as int),
{
    proof {
        crate::wait::law_stopped_with_fields(status, sig, event);
    }
    stopped_with(status, sig, event)
}

/// The step that follows; `ok` says whether the last one succeeded, and
/// `status` what a wait ended with. `waits_first` says that a stop is reported
/// even for a translated process.
pub open spec fn trace_next(
    phase: TracePhase,
    tango: bool,
    waits_first: bool,
    ok: bool,
    status: int,
) -> TracePhase {
    let gone = TracePhase::Over(false);
    let let_go = TracePhase::Detach { signal: 0, result: false };
    let let_go_on = TracePhase::Detach { signal: SIGCONT, result: false };
    match phase {
        TracePhase::Seize => if !ok {
            gone
        } else if tango && !waits_first {
            TracePhase::Interrupt
        } else {
            TracePhase::FirstStop
        },
        TracePhase::FirstStop => if !ok {
            gone
        } else if tango {
            TracePhase::Interrupt
        } else if stop_is(status, SIGSTOP as int, PTRACE_EVENT_STOP as int) {
            TracePhase::InjectMain
        } else {
            let_go
        },
        TracePhase::Interrupt => if ok {
            TracePhase::Drain
        } else {
            let_go
        },
        TracePhase::Drain => if ok {
            TracePhase::WaitLinker
        } else {
            let_go_on
        },
        TracePhase::WaitLinker => if ok {
            TracePhase::LeaveSyscall
        } else {
            let_go_on
        },
        TracePhase::LeaveSyscall => TracePhase::InterruptAgain,
        TracePhase::InterruptAgain => if ok {
            TracePhase::DrainAgain
        } else {
            let_go_on
        },
        TracePhase::DrainAgain => if ok {
            TracePhase::InjectTango
        } else {
            let_go_on
        },
        TracePhase::InjectTango => TracePhase::Detach { signal: SIGCONT, result: ok },
        TracePhase::InjectMain => if ok {
            TracePhase::SendCont
        } else {
            gone
        },
        TracePhase::SendCont => if ok {
            TracePhase::RunToTrap
        } else {
            gone
        },
        TracePhase::RunToTrap => if ok {
            TracePhase::TrapStop
        } else {
            gone
        },
        TracePhase::TrapStop => if !ok {
            gone
        } else if stop_is(status, SIGTRAP as int, PTRACE_EVENT_STOP as int) {
            TracePhase::RunToCont
        } else {
            let_go
        },
        TracePhase::RunToCont => if ok {
            TracePhase::ContStop
        } else {
            gone
        },
        TracePhase::ContStop => if !ok {
            gone
        } else if stop_is(status, SIGCONT as int, 0) {
            TracePhase::StepSyscall
        } else {
            TracePhase::Over(true)
        },
        TracePhase::StepSyscall => TracePhase::SyscallStop,
        TracePhase::SyscallStop => if ok {
            TracePhase::Detach { signal: SIGCONT, result: true }
        } else {
            gone
        },
        TracePhase::Detach { signal: _, result } => TracePhase::Over(result),
        TracePhase::Over(result) => TracePhase::Over(result),
    }
}

/// The step of tracing a zygote that follows. A zygote in which the signal to
/// continue never arrives is not let go: it dies with the tracer and is traced
/// anew.
pub fn trace_zygote(
    phase: TracePhase,
    tango: bool,
    waits_first: bool,
    ok: bool,
    status: i32,
) -> (r: TracePhase)
    ensures
        r == trace_next(phase, tango, waits_first, ok, status as int),
{
    let gone = TracePhase::Over(false);
    let let_go = TracePhase::Detach { signal: 0, result: false };
    let let_go_on = TracePhase::Detach { signal: SIGCONT, result: false };
    match phase {
        TracePhase::Seize => if !ok {
            gone
        } else if tango && !waits_first {
            TracePhase::Interrupt
        } else {
            TracePhase::FirstStop
        },
        TracePhase::FirstStop => if !ok {
            gone
        } else if tango {
            TracePhase::Interrupt
        } else if is_stop(status, SIGSTOP, PTRACE_EVENT_STOP) {
            TracePhase::InjectMain
        } else {
            let_go
        },
        TracePhase::Interrupt => if ok {
            TracePhase::Drain
        } else {
            let_go
        },
        TracePhase::Drain => if ok {
            TracePhase::WaitLinker
        } else {
            let_go_on
        },
        TracePhase::WaitLinker => if ok {
            TracePhase::LeaveSyscall
        } else {
            let_go_on
        },
        TracePhase::LeaveSyscall => TracePhase::InterruptAgain,
        TracePhase::InterruptAgain => if ok {
            TracePhase::DrainAgain
        } else {
            let_go_on
        },
        TracePhase::DrainAgain => if ok {
            TracePhase::InjectTango
        } else {
            let_go_on
        },
        TracePhase::InjectTango => TracePhase::Detach { signal: SIGCONT, result: ok },
        TracePhase::InjectMain => if ok {
            TracePhase::SendCont
        } else {
            gone
        },
        TracePhase::SendCont => if ok {
            TracePhase::RunToTrap
        } else {
            gone
        },
        TracePhase::RunToTrap => if ok {
            TracePhase::TrapStop
        } else {
            gone
        },
        TracePhase::TrapStop => if !ok {
            gone
        } else if is_stop(status, SIGTRAP, PTRACE_EVENT_STOP) {
            TracePhase::RunToCont
        } else {
            let_go
        },
        TracePhase::RunToCont => if ok {
            TracePhase::ContStop
        } else {
            gone
        },
        TracePhase::ContStop => if !ok {
            gone
        } else if is_stop(status, SIGCONT, 0) {
            TracePhase::StepSyscall
        } else {
            TracePhase::Over(true)
        },
        TracePhase::StepSyscall => TracePhase::SyscallStop,
        TracePhase::SyscallStop => if ok {
            TracePhase::Detach { signal: SIGCONT, result: true }
        } else {
            gone
        },
        TracePhase::Detach { signal: _, result } => TracePhase::Over(result),
        TracePhase::Over(result) => TracePhase::Over(result),
    }
}

/// How many steps may still follow.
pub open spec fn trace_rank(phase: TracePhase) -> nat {
    match phase {
        TracePhase::Seize => 13,
        TracePhase::FirstStop => 12,
        TracePhase::Interrupt => 8,
        TracePhase::Drain => 7,
        TracePhase::WaitLinker => 6,
        TracePhase::LeaveSyscall => 5,
        TracePhase::InterruptAgain => 4,
        TracePhase::DrainAgain => 3,
        TracePhase::InjectTango => 2,
        TracePhase::InjectMain => 9,
        TracePhase::SendCont => 8,
        TracePhase::RunToTrap => 7,
        TracePhase::TrapStop => 6,
        TracePhase::RunToCont => 5,
        TracePhase::ContStop => 4,
        TracePhase::StepSyscall => 3,
        TracePhase::SyscallStop => 2,
        TracePhase::Detach { signal: _, result: _ } => 1,
        TracePhase::Over(_) => 0,
    }
}

/// The library has been injected.
pub open spec fn is_injected(phase: TracePhase) -> bool {
    match phase {
        TracePhase::SendCont => true,
        TracePhase::RunToTrap => true,
        TracePhase::TrapStop => true,
        TracePhase::RunToCont => true,
        TracePhase::ContStop => true,
        TracePhase::StepSyscall => true,
        TracePhase::SyscallStop => true,
        TracePhase::Detach { signal: _, result } => result,
        TracePhase::Over(result) => result,
        _ => false,
    }
}

/// A trace ends after at most thirteen steps, whatever happens.
pub proof fn law_trace_ends(
    phase: TracePhase,
    tango: bool,
    waits_first: bool,
    ok: bool,
    status: int,
)
    ensures
        trace_rank(phase) <= 13,
        phase is Over || trace_rank(trace_next(phase, tango, waits_first, ok, status))
            < trace_rank(phase),
{
}

/// A trace reports success only where an injection step succeeded.
pub proof fn law_trace_success_means_injected(
    phase: TracePhase,
    tango: bool,
    waits_first: bool,
    ok: bool,
    status: int,
)
    requires
        is_injected(trace_next(phase, tango, waits_first, ok, status)),
    ensures
        is_injected(phase) || (ok && (phase == TracePhase::InjectMain || phase
            == TracePhase::InjectTango)),
{
}

/// The place of the process's entry address in the argument block that the
/// kernel left on its stack, and the address itself.
#[derive(Clone, Copy, Debug, PartialEq, Eq, Structural)]
pub struct EntrySlot {
    pub entry: u64,
    pub slot: u64,
}

/// Types of the entries of an auxiliary vector.
pub const AT_NULL: u64 = 0;

pub const AT_ENTRY: u64 = 9;

/// A word of the process at an offset.
pub open spec fn word_at(b: Seq<u8>, at: int, word: int) -> u64 {
    if word == 8 {
        le64(b, at)
    } else {
        le32(b, at) as u64
    }
}

/// The end of a list of words: the first that is zero or cannot be read.
pub open spec fn list_end(b: Seq<u8>, at: int, word: int) -> int
    decreases b.len() - at,
{
    if word <= 0 || at + word > b.len() || word_at(b, at, word) == 0 {
        at
    } else {
        list_end(b, at + word, word)
    }
}

/// The entry of an auxiliary vector: its value and the offset of the value.
pub open spec fn aux_entry(b: Seq<u8>, at: int, word: int) -> Option<(u64, int)>
    decreases b.len() - at,
{
    if word <= 0 || at + 2 * word > b.len() {
        None
    } else if word_at(b, at, word) == AT_ENTRY {
        Some((word_at(b, at + word, word), at + word))
    } else if word_at(b, at, word) == AT_NULL {
        None
    } else {
        aux_entry(b, at + 2 * word, word)
    }
}

/// The number of arguments that the block starts with.
pub open spec fn arg_count(b: Seq<u8>) -> int {
    if b.len() >= 4 {
        let n = le32(b, 0);
        if n < 0x8000_0000 {
            n as int
        } else {
            n - 0x1_0000_0000
        }
    } else {
        0
    }
}

/// The entry address in an argument block: the block holds the number of
/// arguments, the arguments and a zero, the environment and a zero, and the
/// auxiliary vector. `None` where the vector has no entry address or a zero
/// one.
pub open spec fn block_entry(b: Seq<u8>, word: int) -> Option<(u64, int)> {
    let envp = word + (arg_count(b) + 1) * word;
    let auxv = list_end(b, envp, word) + word;
    if arg_count(b) < 0 {
        None
    } else {
        match aux_entry(b, auxv, word) {
            Some((v, at)) => if v == 0 {
                None
            } else {
                Some((v, at))
            },
            None => None,
        }
    }
}

fn read_word(b: &[u8], at: usize, word: usize) -> (v: u64)
    requires
        word == 4 || word == 8,
        at + word <= b@.len(),
    ensures
        v == word_at(b@, at as int, word as int),
{
    if word == 8 {
        read_le64(b, at)
    } else {
        read_le32(b, at) as u64
    }
}

/// Finds the entry address in the argument block of a process whose stack
/// pointer is `sp`; `block` is what could be read from there on.
pub fn find_entry(block: &[u8], sp: u64, word: usize) -> (r: Option<EntrySlot>)
    requires
        word == 4 || word == 8,
    ensures
        r == match block_entry(block@, word as int) {
            Some((entry, at)) => Some(EntrySlot { entry, slot: sp.wrapping_add(at as u64) }),
            None => None,
        },
{
    let len: usize = block.len();
    let argc: u32 = if len >= 4 {
        read_le32(block, 0)
    } else {
        0
    };
    if argc >= 0x8000_0000 {
        return None;
    }
    let start: u64 = (argc as u64 + 2) * (word as u64);
    if start >= len as u64 {
        assert(start == word + (arg_count(block@) + 1) * word);
        return None;
    }
    let mut p: usize = start as usize;
    assert(p == word + (arg_count(block@) + 1) * word);
    let ghost envp = p as int;
    while len - p >= word && read_word(block, p, word) != 0
        invariant
            word == 4 || word == 8,
            len == block@.len(),
            p <= len,
            list_end(block@, envp, word as int) == list_end(block@, p as int, word as int),
        decreases len - p,
    {
        p = p + word;
    }
    if len - p < word {
        return None;
    }
    let mut v: usize = p + word;
    let ghost auxv = v as int;
    assert(auxv == list_end(block@, envp, word as int) + word);
    let mut found: Option<(u64, usize)> = None;
    let mut open = true;
    while open && len - v >= 2 * word
        invariant
            word == 4 || word == 8,
            len == block@.len(),
            v <= len,
            open ==> found is None && aux_entry(block@, auxv, word as int) == aux_entry(
                block@,
                v as int,
                word as int,
            ),
            !open ==> match found {
                Some((val, at)) => aux_entry(block@, auxv, word as int) == Some((val, at as int)),
                None => aux_entry(block@, auxv, word as int) is None,
            },
        decreases len - v + if open {
            1int
        } else {
            0
        },
    {
        let kind: u64 = read_word(block, v, word);
        if kind == AT_ENTRY {
            found = Some((read_word(block, v + word, word), v + word));
            open = false;
        } else if kind == AT_NULL {
            open = false;
        } else {
            v = v + 2 * word;
        }
    }
    match found {
        Some((entry, at)) => {
            if entry == 0 {
                None
            } else {
                Some(EntrySlot { entry, slot: sp.wrapping_add(at as u64) })
            }
        },
        None => None,
    }
}

/// The address that stands in for the entry address: near the end of the
/// address space, where nothing is mapped, with the entry's Thumb bit.
pub fn break_address(entry: u64, word: usize) -> (r: u64)
    requires
        word == 4 || word == 8,
    ensures
        r == (if word == 8 {
            0xffff_ffff_ffff_fff0
        } else {
            0xffff_fff0u64
        }) + entry % 2,
{
    (if word == 8 {
        0xffff_ffff_ffff_fff0
    } else {
        0xffff_fff0u64
    }) + entry % 2
}

/// The steps of injecting the library at a process's entry.
#[derive(Clone, Copy, Debug, PartialEq, Eq, Structural)]
pub enum MainPhase {
    /// Read the process's memory map.
    ReadMap,
    /// Fetch its registers.
    GetRegs,
    /// Look its entry address up.
    FindEntry,
    /// Replace the entry address.
    Poison,
    /// Let the process run until it stops.
    Run,
    /// Fetch its registers at the stop.
    GetStopRegs,
    /// Put the entry address back.
    Unpoison,
    /// Read both memory maps.
    ReadMaps,
    /// Map the library into the process.
    Load,
    /// Call the library's entry.
    Call,
    /// Put the registers back, with the process at its entry.
    Restore { entered: bool },
    /// The injection is over.
    Over(bool),
}

/// Two code addresses are the same but for the Thumb bit.
pub open spec fn same_code(a: u64, b: u64) -> bool {
    a - a % 2 == b - b % 2
}

/// What the step before found: the status of a wait, the instruction pointer,
/// and where it was meant to be.
#[derive(Clone, Copy, Debug, PartialEq, Eq, Structural)]
pub struct MainEvent {
    pub ok: bool,
    pub status: i32,
    pub ip: u64,
    pub expected_ip: u64,
    /// Code addresses may differ in the Thumb bit.
    pub thumb: bool,
}

/// The step that follows.
pub open spec fn main_next(phase: MainPhase, e: MainEvent) -> MainPhase {
    let gone = MainPhase::Over(false);
    match phase {
        MainPhase::ReadMap => if e.ok {
            MainPhase::GetRegs
        } else {
            gone
        },
        MainPhase::GetRegs => if e.ok {
            MainPhase::FindEntry
        } else {
            gone
        },
        MainPhase::FindEntry => if e.ok {
            MainPhase::Poison
        } else {
            gone
        },
        MainPhase::Poison => if e.ok {
            MainPhase::Run
        } else {
            gone
        },
        MainPhase::Run => if e.ok && is_stopped(e.status as int) && second_byte(e.status as int)
            == SIGSEGV {
            MainPhase::GetStopRegs
        } else {
            gone
        },
        MainPhase::GetStopRegs => if e.ok && same_code(e.ip, e.expected_ip) {
            MainPhase::Unpoison
        } else {
            gone
        },
        MainPhase::Unpoison => if e.ok {
            MainPhase::ReadMaps
        } else {
            gone
        },
        MainPhase::ReadMaps => if e.ok {
            MainPhase::Load
        } else {
            gone
        },
        MainPhase::Load => if e.ok {
            MainPhase::Call
        } else {
            gone
        },
        MainPhase::Call => MainPhase::Restore {
            entered: if e.thumb {
                same_code(e.ip, e.expected_ip)
            } else {
                e.ip == e.expected_ip
            },
        },
        MainPhase::Restore { entered } => MainPhase::Over(entered && e.ok),
        MainPhase::Over(r) => MainPhase::Over(r),
    }
}

/// The step of injecting the library at the entry that follows. The call of the
/// library's entry counts by where the process stopped after it.
pub fn inject_on_main(phase: MainPhase, e: MainEvent) -> (r: MainPhase)
    ensures
        r == main_next(phase, e),
{
    let gone = MainPhase::Over(false);
    let same = e.ip - e.ip % 2 == e.expected_ip - e.expected_ip % 2;
    match phase {
        MainPhase::ReadMap => if e.ok {
            MainPhase::GetRegs
        } else {
            gone
        },
        MainPhase::GetRegs => if e.ok {
            MainPhase::FindEntry
        } else {
            gone
        },
        MainPhase::FindEntry => if e.ok {
            MainPhase::Poison
        } else {
            gone
        },
        MainPhase::Poison => if e.ok {
            MainPhase::Run
        } else {
            gone
        },
        MainPhase::Run => if e.ok && wifstopped(e.status) && wstopsig(e.status) == SIGSEGV {
            MainPhase::GetStopRegs
        } else {
            gone
        },
        MainPhase::GetStopRegs => if e.ok && same {
            MainPhase::Unpoison
        } else {
            gone
        },
        MainPhase::Unpoison => if e.ok {
            MainPhase::ReadMaps
        } else {
            gone
        },
        MainPhase::ReadMaps => if e.ok {
            MainPhase::Load
        } else {
            gone
        },
        MainPhase::Load => if e.ok {
            MainPhase::Call
        } else {
            gone
        },
        MainPhase::Call => MainPhase::Restore {
            entered: if e.thumb {
                same
            } else {
                e.ip == e.expected_ip
            },
        },
        MainPhase::Restore { entered } => MainPhase::Over(entered && e.ok),
        MainPhase::Over(r) => MainPhase::Over(r),
    }
}

/// After the library's entry was called, the process's registers are put back
/// before the injection ends, whether the call succeeded or not.
pub proof fn law_main_restores_after_call(e: MainEvent)
    ensures
        main_next(MainPhase::Call, e) is Restore,
{
}

/// An injection succeeds only through a call that returned where it should and
/// registers that were put back.
pub proof fn law_main_success(phase: MainPhase, e: MainEvent)
    requires
        !(phase is Over),
        main_next(phase, e) == MainPhase::Over(true),
    ensures
        phase == (MainPhase::Restore { entered: true }),
        e.ok,
{
}

/// The code that is run in a translated process: it makes the library's pages
/// accessible, calls the library's entry and raises a trap; the library's
/// address, its size and its entry follow the instructions.
pub open spec fn trampoline(base: u32, size: u32, entry: u32) -> Seq<u32> {
    seq![
        0x4807_b5ffu32,
        0x2207_4907u32,
        0xdf00_277du32,
        0x4905_4804u32,
        0x4b05_2201u32,
        0x2714_4798u32,
        0x2105_df00u32,
        0xdf00_2725u32,
        base,
        size,
        entry,
        0u32,
    ]
}

/// The code of the trampoline.
pub fn tango_trampoline(base: u32, size: u32, entry: u32) -> (code: Vec<u32>)
    ensures
        code@ == trampoline(base, size, entry),
{
    let code: Vec<u32> = vec![
        0x4807_b5ff,
        0x2207_4907,
        0xdf00_277d,
        0x4905_4804,
        0x4b05_2201,
        0x2714_4798,
        0x2105_df00,
        0xdf00_2725,
        base,
        size,
        entry,
        0,
    ];
    assert(code@ =~= trampoline(base, size, entry));
    code
}

/// Where the code that goes on with the program stands in the trampoline, in
/// bytes.
pub const TAIL_STUB_AT: u32 = 32;

/// The code that restores what the trampoline saved and jumps to `target`.
pub open spec fn tail_stub(target: u32) -> Seq<u32> {
    seq![0x40ff_e8bdu32, 0xc004_f8dfu32, 0x0000_4760u32, target]
}

/// The code that goes on with the program.
pub fn tango_tail_stub(target: u32) -> (code: Vec<u32>)
    ensures
        code@ == tail_stub(target),
{
    let code: Vec<u32> = vec![0x40ff_e8bd, 0xc004_f8df, 0x0000_4760, target];
    assert(code@ =~= tail_stub(target));
    code
}

/// The tail stub ends where the trampoline ends, so that what was reserved for
/// the one holds the other.
pub proof fn law_tail_stub_fits(base: u32, size: u32, entry: u32, target: u32)
    ensures
        TAIL_STUB_AT + 4 * tail_stub(target).len() == 4 * trampoline(base, size, entry).len(),
{
}

/// Named code of a 32-bit guest.
pub open spec fn is_guest_code(m: MapEntry) -> bool {
    m.path@.len() > 0 && m.executable && m.start < 0x1_0000_0000
}

/// The indices of the mappings with the guest's named code.
pub open spec fn guest_code(map: Seq<MapEntry>) -> Seq<usize>
    decreases map.len(),
{
    if map.len() == 0 {
        seq![]
    } else {
        let rest = guest_code(map.drop_last());
        if is_guest_code(map.last()) {
            rest.push((map.len() - 1) as usize)
        } else {
            rest
        }
    }
}

/// Where padding for the trampoline may be, in order; the first mapping that
/// has enough is taken.
pub fn trampoline_candidates(map: &Vec<MapEntry>) -> (out: Vec<usize>)
    ensures
        out@ == guest_code(map@),
{
    let mut out: Vec<usize> = Vec::new();
    let mut i: usize = 0;
    while i < map.len()
        invariant
            i <= map@.len(),
            out@ == guest_code(map@.take(i as int)),
        decreases map@.len() - i,
    {
        assert(map@.take(i + 1).drop_last() =~= map@.take(i as int));
        let m = &map[i];
        if !m.path.as_str().is_empty() && m.executable && (m.start as u64) < 0x1_0000_0000 {
            out.push(i);
        }
        i = i + 1;
    }
    assert(map@.take(i as int) =~= map@);
    out
}

/// The steps of injecting the library into a translated process.
#[derive(Clone, Copy, Debug, PartialEq, Eq, Structural)]
pub enum TangoPhase {
    /// Fetch the registers, to be put back on failure.
    GetRegs,
    /// Read both memory maps.
    ReadMaps,
    /// Map the library into the process.
    Load,
    /// Look for padding.
    FindPadding,
    /// Write the trampoline.
    WriteCode,
    /// Let the watched slot lead to the trampoline.
    PatchSlot,
    /// Put the registers back before the run.
    SetRegs,
    /// Let the process run.
    Run,
    /// Wait for the trampoline's trap.
    WaitTrap,
    /// Let the process run on with a signal that was not the trap.
    PassOn(i32),
    /// Erase the trampoline, repair the slot and write the tail stub.
    CleanUp,
    /// Let the process run to a system call.
    StepSyscall,
    /// Wait for it.
    WaitSyscall,
    /// Erase the tail stub.
    EraseStub,
    /// Put the registers back; the injection failed.
    Restore,
    /// The injection is over.
    Over(bool),
}

/// The step that follows.
pub open spec fn tango_next(phase: TangoPhase, ok: bool, status: int) -> TangoPhase {
    let gone = TangoPhase::Over(false);
    let undo = TangoPhase::Restore;
    match phase {
        TangoPhase::GetRegs => if ok {
            TangoPhase::ReadMaps
        } else {
            gone
        },
        TangoPhase::ReadMaps => if ok {
            TangoPhase::Load
        } else {
            gone
        },
        TangoPhase::Load => if ok {
            TangoPhase::FindPadding
        } else {
            undo
        },
        TangoPhase::FindPadding => if ok {
            TangoPhase::WriteCode
        } else {
            undo
        },
        TangoPhase::WriteCode => if ok {
            TangoPhase::PatchSlot
        } else {
            undo
        },
        TangoPhase::PatchSlot => if ok {
            TangoPhase::SetRegs
        } else {
            undo
        },
        TangoPhase::SetRegs => if ok {
            TangoPhase::Run
        } else {
            undo
        },
        TangoPhase::Run => if ok {
            TangoPhase::WaitTrap
        } else {
            gone
        },
        TangoPhase::WaitTrap => if !is_stopped(status) {
            gone
        } else if upper_half(status) % 256 != 0 {
            TangoPhase::PassOn(0)
        } else if second_byte(status) == SIGTRAP {
            TangoPhase::CleanUp
        } else {
            TangoPhase::PassOn(second_byte(status) as i32)
        },
        TangoPhase::PassOn(_) => if ok {
            TangoPhase::WaitTrap
        } else {
            gone
        },
        TangoPhase::CleanUp => TangoPhase::StepSyscall,
        TangoPhase::StepSyscall => if ok {
            TangoPhase::WaitSyscall
        } else {
            TangoPhase::Over(true)
        },
        TangoPhase::WaitSyscall => if ok {
            TangoPhase::EraseStub
        } else {
            gone
        },
        TangoPhase::EraseStub => TangoPhase::Over(true),
        TangoPhase::Restore => gone,
        TangoPhase::Over(r) => TangoPhase::Over(r),
    }
}

/// The step of injecting the library into a translated process that follows;
/// `status` is what a wait ended with. A library without an entry counts as not
/// loaded.
pub fn inject_tango(phase: TangoPhase, ok: bool, status: i32) -> (r: TangoPhase)
    ensures
        r == tango_next(phase, ok, status as int),
{
    let gone = TangoPhase::Over(false);
    let undo = TangoPhase::Restore;
    match phase {
        TangoPhase::GetRegs => if ok {
            TangoPhase::ReadMaps
        } else {
            gone
        },
        TangoPhase::ReadMaps => if ok {
            TangoPhase::Load
        } else {
            gone
        },
        TangoPhase::Load => if ok {
            TangoPhase::FindPadding
        } else {
            undo
        },
        TangoPhase::FindPadding => if ok {
            TangoPhase::WriteCode
        } else {
            undo
        },
        TangoPhase::WriteCode => if ok {
            TangoPhase::PatchSlot
        } else {
            undo
        },
        TangoPhase::PatchSlot => if ok {
            TangoPhase::SetRegs
        } else {
            undo
        },
        TangoPhase::SetRegs => if ok {
            TangoPhase::Run
        } else {
            undo
        },
        TangoPhase::Run => if ok {
            TangoPhase::WaitTrap
        } else {
            gone
        },
        TangoPhase::WaitTrap => {
            if !wifstopped(status) {
                return gone;
            }
            let event: i32 = wptevent(status);
            // A multiple of 256 is no event; the upper half may be negative.
            let none = event % 256 == 0;
            assert(none == (upper_half(status as int) % 256 == 0));
            if !none {
                TangoPhase::PassOn(0)
            } else if wstopsig(status) == SIGTRAP {
                TangoPhase::CleanUp
            } else {
                TangoPhase::PassOn(wstopsig(status))
            }
        },
        TangoPhase::PassOn(_) => if ok {
            TangoPhase::WaitTrap
        } else {
            gone
        },
        TangoPhase::CleanUp => TangoPhase::StepSyscall,
        TangoPhase::StepSyscall => if ok {
            TangoPhase::WaitSyscall
        } else {
            TangoPhase::Over(true)
        },
        TangoPhase::WaitSyscall => if ok {
            TangoPhase::EraseStub
        } else {
            gone
        },
        TangoPhase::EraseStub => TangoPhase::Over(true),
        TangoPhase::Restore => gone,
        TangoPhase::Over(r) => TangoPhase::Over(r),
    }
}

/// Between fetching the registers and the run, a failed injection puts them
/// back.
pub proof fn law_tango_restores(phase: TangoPhase, status: int)
    requires
        phase == TangoPhase::Load || phase == TangoPhase::FindPadding || phase
            == TangoPhase::WriteCode || phase == TangoPhase::PatchSlot || phase
            == TangoPhase::SetRegs,
    ensures
        tango_next(phase, false, status) == TangoPhase::Restore,
{
}

/// An injection into a translated process succeeds only after its trampoline
/// was cleaned up.
pub proof fn law_tango_success_is_clean(phase: TangoPhase, ok: bool, status: int)
    requires
        !(phase is Over),
        tango_next(phase, ok, status) == TangoPhase::Over(true),
    ensures
        phase == TangoPhase::StepSyscall || phase == TangoPhase::EraseStub,
{
}

/// Translated processes can only be injected on 32-bit Arm.
pub fn tango_supported(isa: crate::remote::Isa) -> (r: bool)
    ensures
        r == (isa == crate::remote::Isa::Arm),
{
    isa == crate::remote::Isa::Arm
}

/// An injection at the entry goes through its steps one by one: each is reached
/// from the one before it alone, and only where that one succeeded. So a process
/// whose entry address was replaced runs to the fault at the replacement, gets
/// its entry address back, and only then gets the library.
pub proof fn law_main_order(phase: MainPhase, e: MainEvent)
    ensures
        main_next(phase, e) != MainPhase::ReadMap,
        main_next(phase, e) == MainPhase::GetRegs ==> phase == MainPhase::ReadMap && e.ok,
        main_next(phase, e) == MainPhase::FindEntry ==> phase == MainPhase::GetRegs && e.ok,
        main_next(phase, e) == MainPhase::Poison ==> phase == MainPhase::FindEntry && e.ok,
        main_next(phase, e) == MainPhase::Run ==> phase == MainPhase::Poison && e.ok,
        main_next(phase, e) == MainPhase::GetStopRegs ==> phase == MainPhase::Run && e.ok
            && e.status % 256 == 127 && (e.status as int / 256) % 256 == SIGSEGV,
        main_next(phase, e) == MainPhase::Unpoison ==> phase == MainPhase::GetStopRegs && e.ok
            && e.ip / 2 == e.expected_ip / 2,
        main_next(phase, e) == MainPhase::ReadMaps ==> phase == MainPhase::Unpoison && e.ok,
        main_next(phase, e) == MainPhase::Load ==> phase == MainPhase::ReadMaps && e.ok,
        main_next(phase, e) == MainPhase::Call ==> phase == MainPhase::Load && e.ok,
        main_next(phase, e) is Restore ==> phase == MainPhase::Call,
{
}

/// What the step of a phase is there for came out: it succeeded, the process
/// ran into the fault, and the fault is at the address that stands in for the
/// entry.
pub open spec fn main_succeeded(phase: MainPhase, e: MainEvent) -> bool {
    &&& e.ok
    &&& phase == MainPhase::Run ==> e.status % 256 == 127 && (e.status as int / 256) % 256
        == SIGSEGV
    &&& phase == MainPhase::GetStopRegs ==> e.ip / 2 == e.expected_ip / 2
}

/// Up to the call of the library's entry, a step that comes out is followed by
/// another one, and a step that does not ends the injection without success.
pub proof fn law_main_goes_on(phase: MainPhase, e: MainEvent)
    requires
        !(phase is Call),
        !(phase is Restore),
        !(phase is Over),
    ensures
        main_succeeded(phase, e) ==> !(main_next(phase, e) is Over),
        !main_succeeded(phase, e) ==> main_next(phase, e) == MainPhase::Over(false),
{
}

/// The call counts as made exactly where the process stopped at the address
/// that it was to return to, and the injection then succeeds exactly where the
/// registers were put back as well. Only where code addresses may carry the
/// Thumb bit does that bit not count.
pub proof fn law_main_result(call: MainEvent, restored: MainEvent)
    ensures
        ({
            let end = main_next(main_next(MainPhase::Call, call), restored);
            &&& end is Over
            &&& end == MainPhase::Over(true) <==> restored.ok && (call.ip == call.expected_ip || (
            call.thumb && call.ip / 2 == call.expected_ip / 2))
        }),
{
}

/// What has ended stays as it ended.
pub proof fn law_injections_stay_over(r: bool, e: MainEvent, ok: bool, status: int)
    ensures
        main_next(MainPhase::Over(r), e) == MainPhase::Over(r),
        tango_next(TangoPhase::Over(r), ok, status) == TangoPhase::Over(r),
{
}

/// A trace goes through its steps one by one, each reached only where what it
/// rests on succeeded: a process is injected at its entry at the stop that
/// seizing it reports, a translated one once its linker was found ready and its
/// stops were drained a second time.
pub proof fn law_trace_order(
    phase: TracePhase,
    tango: bool,
    waits_first: bool,
    ok: bool,
    status: int,
)
    ensures
        ({
            let next = trace_next(phase, tango, waits_first, ok, status);
            let stop = status % 256 == 127;
            let sig = (status / 256) % 256;
            let event = status / 65536;
            &&& next != TracePhase::Seize
            &&& next == TracePhase::FirstStop ==> phase == TracePhase::Seize && ok && (!tango
                || waits_first)
            &&& next == TracePhase::Interrupt ==> tango && ok && if waits_first {
                phase == TracePhase::FirstStop
            } else {
                phase == TracePhase::Seize || phase == TracePhase::FirstStop
            }
            &&& next == TracePhase::Drain ==> phase == TracePhase::Interrupt && ok
            &&& next == TracePhase::WaitLinker ==> phase == TracePhase::Drain && ok
            &&& next == TracePhase::LeaveSyscall ==> phase == TracePhase::WaitLinker && ok
            &&& next == TracePhase::InterruptAgain ==> phase == TracePhase::LeaveSyscall
            &&& next == TracePhase::DrainAgain ==> phase == TracePhase::InterruptAgain && ok
            &&& next == TracePhase::InjectTango ==> phase == TracePhase::DrainAgain && ok
            &&& next == TracePhase::InjectMain ==> phase == TracePhase::FirstStop && ok && !tango
                && stop && sig == SIGSTOP && event == PTRACE_EVENT_STOP
            &&& next == TracePhase::SendCont ==> phase == TracePhase::InjectMain && ok
            &&& next == TracePhase::RunToTrap ==> phase == TracePhase::SendCont && ok
            &&& next == TracePhase::TrapStop ==> phase == TracePhase::RunToTrap && ok
            &&& next == TracePhase::RunToCont ==> phase == TracePhase::TrapStop && ok && stop
                && sig == SIGTRAP && event == PTRACE_EVENT_STOP
            &&& next == TracePhase::ContStop ==> phase == TracePhase::RunToCont && ok
            &&& next == TracePhase::StepSyscall ==> phase == TracePhase::ContStop && ok && stop
                && sig == SIGCONT && event == 0
            &&& next == TracePhase::SyscallStop ==> phase == TracePhase::StepSyscall
        }),
{
}

/// The step of a phase of a trace came out: it succeeded, or nothing depends on
/// how it went, and a stop that was waited for is the one that was expected.
pub open spec fn trace_succeeded(phase: TracePhase, tango: bool, ok: bool, status: int) -> bool {
    let stop = status % 256 == 127;
    let sig = (status / 256) % 256;
    let event = status / 65536;
    &&& ok || phase == TracePhase::LeaveSyscall || phase == TracePhase::StepSyscall
    &&& phase == TracePhase::FirstStop && !tango ==> stop && sig == SIGSTOP && event
        == PTRACE_EVENT_STOP
    &&& phase == TracePhase::TrapStop ==> stop && sig == SIGTRAP && event == PTRACE_EVENT_STOP
    &&& phase == TracePhase::ContStop ==> stop && sig == SIGCONT && event == 0
}

/// Up to the last step, one that comes out is followed by another one. The last
/// one lets the process go on, with success.
pub proof fn law_trace_goes_on(
    phase: TracePhase,
    tango: bool,
    waits_first: bool,
    ok: bool,
    status: int,
)
    requires
        !(phase is Detach),
        !(phase is Over),
        trace_succeeded(phase, tango, ok, status),
    ensures
        ({
            let next = trace_next(phase, tango, waits_first, ok, status);
            if phase == TracePhase::InjectTango || phase == TracePhase::SyscallStop {
                next == (TracePhase::Detach { signal: SIGCONT, result: true })
            } else {
                !(next is Detach) && !(next is Over)
            }
        }),
{
}

/// A step that fails ends the trace. A translated process is let go, with the
/// signal to continue once it may have been stopped by an interrupt; one that is
/// injected at its entry is not let go where its tracer lost hold of it, so that
/// it dies with the tracer, but is let go at a stop that was not expected. Of
/// the delivery of the signal to continue alone, another stop is no failure.
pub proof fn law_trace_failure(
    phase: TracePhase,
    tango: bool,
    waits_first: bool,
    ok: bool,
    status: int,
)
    requires
        !(phase is Detach),
        !(phase is Over),
        !trace_succeeded(phase, tango, ok, status),
    ensures
        ({
            let next = trace_next(phase, tango, waits_first, ok, status);
            if phase == TracePhase::Interrupt {
                next == (TracePhase::Detach { signal: 0, result: false })
            } else if phase == TracePhase::Drain || phase == TracePhase::WaitLinker || phase
                == TracePhase::InterruptAgain || phase == TracePhase::DrainAgain || phase
                == TracePhase::InjectTango {
                next == (TracePhase::Detach { signal: SIGCONT, result: false })
            } else if !ok {
                next == TracePhase::Over(false)
            } else if phase == TracePhase::ContStop {
                next == TracePhase::Over(true)
            } else {
                next == (TracePhase::Detach { signal: 0, result: false })
            }
        }),
{
}

/// Letting a process go ends a trace with the result that was decided before,
/// and an ended trace keeps its result.
pub proof fn law_trace_result_is_kept(
    signal: i32,
    result: bool,
    tango: bool,
    waits_first: bool,
    ok: bool,
    status: int,
)
    ensures
        trace_next(TracePhase::Detach { signal, result }, tango, waits_first, ok, status)
            == TracePhase::Over(result),
        trace_next(TracePhase::Over(result), tango, waits_first, ok, status) == TracePhase::Over(
            result,
        ),
{
}

/// An injection into a translated process goes through its steps one by one:
/// the library is mapped and the trampoline written before the watched slot
/// leads to it, the process runs only then, and its trap is what the trampoline
/// is cleaned up on.
pub proof fn law_tango_order(phase: TangoPhase, ok: bool, status: int)
    ensures
        ({
            let next = tango_next(phase, ok, status);
            &&& next != TangoPhase::GetRegs
            &&& next == TangoPhase::ReadMaps ==> phase == TangoPhase::GetRegs && ok
            &&& next == TangoPhase::Load ==> phase == TangoPhase::ReadMaps && ok
            &&& next == TangoPhase::FindPadding ==> phase == TangoPhase::Load && ok
            &&& next == TangoPhase::WriteCode ==> phase == TangoPhase::FindPadding && ok
            &&& next == TangoPhase::PatchSlot ==> phase == TangoPhase::WriteCode && ok
            &&& next == TangoPhase::SetRegs ==> phase == TangoPhase::PatchSlot && ok
            &&& next == TangoPhase::Run ==> phase == TangoPhase::SetRegs && ok
            &&& next == TangoPhase::WaitTrap ==> ok && (phase == TangoPhase::Run || phase is PassOn)
            &&& next is PassOn ==> phase == TangoPhase::WaitTrap
            &&& next == TangoPhase::CleanUp ==> phase == TangoPhase::WaitTrap && status % 256 == 127
                && (status / 256) % 256 == SIGTRAP && (status / 65536) % 256 == 0
            &&& next == TangoPhase::StepSyscall ==> phase == TangoPhase::CleanUp
            &&& next == TangoPhase::WaitSyscall ==> phase == TangoPhase::StepSyscall && ok
            &&& next == TangoPhase::EraseStub ==> phase == TangoPhase::WaitSyscall && ok
        }),
{
}

/// A step of an injection into a translated process that succeeds is followed
/// by another one; cleaning up goes on however it went, and the injection ends
/// with success once the stub is erased.
pub proof fn law_tango_goes_on(phase: TangoPhase, ok: bool, status: int)
    requires
        ok || phase == TangoPhase::CleanUp || phase == TangoPhase::EraseStub,
        !(phase is WaitTrap),
        !(phase is Restore),
        !(phase is Over),
    ensures
        if phase == TangoPhase::EraseStub {
            tango_next(phase, ok, status) == TangoPhase::Over(true)
        } else {
            !(tango_next(phase, ok, status) is Over) && !(tango_next(phase, ok, status) is Restore)
        },
{
}

/// While the trap is waited for, a process that ended ends the injection, and
/// one that stopped for another reason gets its signal: none for an event, else
/// the one that it stopped by.
pub proof fn law_tango_passes_signals_on(ok: bool, status: int)
    ensures
        ({
            let next = tango_next(TangoPhase::WaitTrap, ok, status);
            let sig = (status / 256) % 256;
            let event = (status / 65536) % 256;
            &&& status % 256 != 127 <==> next == TangoPhase::Over(false)
            &&& status % 256 == 127 && event != 0 ==> next == TangoPhase::PassOn(0)
            &&& status % 256 == 127 && event == 0 && sig != SIGTRAP ==> (next matches TangoPhase::PassOn(
                s,
            ) && s == sig)
            &&& status % 256 == 127 && event == 0 && sig == SIGTRAP ==> next == TangoPhase::CleanUp
        }),
{
}

/// Once the process ran, there is nothing to put back: a failure ends the
/// injection. After the clean-up, a process that cannot be run to a system call
/// is injected all the same. Putting the registers back is itself a failure.
pub proof fn law_tango_failure(phase: TangoPhase, status: int)
    ensures
        phase == TangoPhase::GetRegs || phase == TangoPhase::ReadMaps || phase == TangoPhase::Run
            || phase is PassOn || phase == TangoPhase::WaitSyscall ==> tango_next(
            phase,
            false,
            status,
        ) == TangoPhase::Over(false),
        phase == TangoPhase::StepSyscall ==> tango_next(phase, false, status) == TangoPhase::Over(
            true,
        ),
        tango_next(TangoPhase::Restore, true, status) == TangoPhase::Over(false),
        tango_next(TangoPhase::Restore, false, status) == TangoPhase::Over(false),
{
}

/// The mappings in which a trampoline may be put are the named executable ones
/// below 4 GiB, all of them, each once and in the order of the map.
pub proof fn law_candidates_are_guest_code(map: Seq<MapEntry>)
    requires
        map.len() <= usize::MAX,
    ensures
        forall|i: int|
            0 <= i < guest_code(map).len() ==> {
                let k = #[trigger] guest_code(map)[i];
                &&& k < map.len()
                &&& map[k as int].path@.len() > 0
                &&& map[k as int].executable
                &&& map[k as int].start < 0x1_0000_0000
            },
        forall|k: int|
            0 <= k < map.len() && (#[trigger] map[k]).path@.len() > 0 && map[k].executable
                && map[k].start < 0x1_0000_0000 ==> guest_code(map).contains(k as usize),
        forall|i: int, j: int|
            0 <= i < j < guest_code(map).len() ==> #[trigger] guest_code(map)[i]
                < #[trigger] guest_code(map)[j],
    decreases map.len(),
{
    if map.len() > 0 {
        let rest = map.drop_last();
        law_candidates_are_guest_code(rest);
        assert forall|k: int|
            0 <= k < map.len() && (#[trigger] map[k]).path@.len() > 0 && map[k].executable
                && map[k].start < 0x1_0000_0000 implies guest_code(map).contains(k as usize) by {
            if k < rest.len() {
                assert(rest[k] == map[k]);
                let i = choose|i: int|
                    0 <= i < guest_code(rest).len() && guest_code(rest)[i] == k as usize;
                assert(guest_code(map)[i] == k as usize);
            } else {
                assert(guest_code(map)[guest_code(rest).len() as int] == k as usize);
            }
        }
    }
}

/// The trampoline and its tail stub carry what they are made for, in words of
/// their own behind the instructions.
pub proof fn law_trampoline_carries_its_operands(base: u32, size: u32, entry: u32, target: u32)
    ensures
        trampoline(base, size, entry)[8] == base,
        trampoline(base, size, entry)[9] == size,
        trampoline(base, size, entry)[10] == entry,
        tail_stub(target).last() == target,
{
}

proof fn lemma_list_end(b: Seq<u8>, at: int, n: int, word: int)
    requires
        word > 0,
        0 <= n,
        at + n * word + word <= b.len(),
        forall|k: int| 0 <= k < n ==> word_at(b, #[trigger] (at + k * word), word) != 0,
        word_at(b, at + n * word, word) == 0,
    ensures
        list_end(b, at, word) == at + n * word,
    decreases n,
{
    if n > 0 {
        assert(word_at(b, at + 0 * word, word) != 0);
        assert(n * word == (n - 1) * word + word) by (nonlinear_arith);
        assert((n - 1) * word >= 0) by (nonlinear_arith)
            requires
                n > 0,
                word > 0,
        ;
        assert forall|k: int| 0 <= k < n - 1 implies word_at(
            b,
            #[trigger] (at + word + k * word),
            word,
        ) != 0 by {
            assert(at + word + k * word == at + (k + 1) * word) by (nonlinear_arith);
        }
        lemma_list_end(b, at + word, n - 1, word);
    } else {
        assert(0 * word == 0) by (nonlinear_arith);
    }
}

proof fn lemma_aux_entry(b: Seq<u8>, at: int, n: int, word: int)
    requires
        word > 0,
        0 <= n,
        at + n * (2 * word) + 2 * word <= b.len(),
        forall|k: int|
            0 <= k < n ==> {
                let kind = word_at(b, #[trigger] (at + k * (2 * word)), word);
                kind != AT_ENTRY && kind != AT_NULL
            },
        word_at(b, at + n * (2 * word), word) == AT_ENTRY,
    ensures
        aux_entry(b, at, word) == Some(
            (word_at(b, at + n * (2 * word) + word, word), at + n * (2 * word) + word),
        ),
    decreases n,
{
    let two = 2 * word;
    if n > 0 {
        assert(word_at(b, at + 0 * two, word) != AT_ENTRY);
        assert(0 * two == 0) by (nonlinear_arith);
        assert(n * two == (n - 1) * two + two) by (nonlinear_arith);
        assert((n - 1) * two >= 0) by (nonlinear_arith)
            requires
                n > 0,
                two > 0,
        ;
        assert forall|k: int| 0 <= k < n - 1 implies {
            let kind = word_at(b, #[trigger] (at + two + k * two), word);
            kind != AT_ENTRY && kind != AT_NULL
        } by {
            assert(at + two + k * two == at + (k + 1) * two) by (nonlinear_arith);
        }
        lemma_aux_entry(b, at + two, n - 1, word);
    } else {
        assert(0 * two == 0) by (nonlinear_arith);
    }
}

/// The entry address is found where the kernel puts it: behind the number of
/// arguments, the arguments and a zero, `env` words of environment and a zero,
/// and `before` entries of the auxiliary vector of other types.
pub proof fn law_entry_is_found(b: Seq<u8>, word: int, argc: int, env: int, before: int)
    requires
        word == 4 || word == 8,
        b.len() >= 4,
        le32(b, 0) == argc,
        argc < 0x8000_0000,
        env >= 0,
        before >= 0,
        ({
            let envp = (argc + 2) * word;
            let auxv = envp + (env + 1) * word;
            &&& forall|k: int| 0 <= k < env ==> word_at(b, #[trigger] (envp + k * word), word) != 0
            &&& word_at(b, envp + env * word, word) == 0
            &&& forall|k: int|
                0 <= k < before ==> {
                    let kind = word_at(b, #[trigger] (auxv + k * (2 * word)), word);
                    kind != 9 && kind != 0
                }
            &&& word_at(b, auxv + before * (2 * word), word) == 9
            &&& auxv + before * (2 * word) + 2 * word <= b.len()
        }),
    ensures
        ({
            let at = (argc + env + 3) * word + before * (2 * word) + word;
            block_entry(b, word) == if word_at(b, at, word) == 0 {
                None
            } else {
                Some((word_at(b, at, word), at))
            }
        }),
{
    let envp = (argc + 2) * word;
    let auxv = envp + (env + 1) * word;
    assert(before * (2 * word) >= 0) by (nonlinear_arith)
        requires
            before >= 0,
            word > 0,
    ;
    assert(auxv == envp + env * word + word) by (nonlinear_arith)
        requires
            auxv == envp + (env + 1) * word,
    ;
    assert((argc + env + 3) * word == auxv) by (nonlinear_arith)
        requires
            auxv == (argc + 2) * word + (env + 1) * word,
    ;
    assert(word + (argc + 1) * word == envp) by (nonlinear_arith)
        requires
            envp == (argc + 2) * word,
    ;
    lemma_list_end(b, envp, env, word);
    lemma_aux_entry(b, auxv, before, word);
}

proof fn lemma_aux_value(b: Seq<u8>, at: int, word: int)
    requires
        word > 0,
        aux_entry(b, at, word) is Some,
    ensures
        ({
            let (v, slot) = aux_entry(b, at, word)->0;
            &&& at + word <= slot
            &&& slot + word <= b.len()
            &&& word_at(b, slot, word) == v
            &&& word_at(b, slot - word, word) == 9
        }),
    decreases b.len() - at,
{
    if word_at(b, at, word) != AT_ENTRY {
        lemma_aux_value(b, at + 2 * word, word);
    }
}

/// What is found as the entry address is not zero, and is the word behind the
/// type of such an entry, inside what was read.
pub proof fn law_found_entry_is_one(b: Seq<u8>, word: int)
    requires
        word == 4 || word == 8,
        block_entry(b, word) is Some,
    ensures
        ({
            let (v, slot) = block_entry(b, word)->0;
            &&& v != 0
            &&& slot + word <= b.len()
            &&& word_at(b, slot, word) == v
            &&& word_at(b, slot - word, word) == 9
        }),
{
    lemma_aux_value(b, list_end(b, word + (arg_count(b) + 1) * word, word) + word, word);
}

/// The address that stands in for an entry is in the last sixteen bytes of the
/// address space, so that nothing is mapped there, and selects the same
/// instruction set as the entry.
pub proof fn law_break_address(entry: u64, word: usize, r: u64)
    requires
        word == 4 || word == 8,
        call_ensures(break_address, (entry, word), r),
    ensures
        r % 2 == entry % 2,
        word == 8 ==> u64::MAX - r < 16,
        word == 4 ==> r <= u32::MAX && u32::MAX - r < 16,
{
}

/// Kernels from 3.8 on, and no others, can be told to kill a process with its
/// tracer: there a zygote is seized with options, and the first stop of a
/// translated one is not waited for. A translated process has one option more.
pub proof fn law_options_fit_the_kernel(
    major: u32,
    minor: u32,
    plain: u64,
    translated: u64,
    waits: bool,
)
    requires
        call_ensures(seize_options, (major, minor, false), plain),
        call_ensures(seize_options, (major, minor, true), translated),
        call_ensures(waits_first, (major, minor), waits),
    ensures
        waits <==> major * 0x1_0000_0000 + minor < 3 * 0x1_0000_0000 + 8,
        waits <==> plain == 0,
        waits <==> translated == 0,
        !waits ==> plain == 0x10_0080 && translated == plain + 1,
{
}

/// The place of the entry address lies as far behind the stack pointer as it
/// was found in what was read from there on.
pub proof fn law_entry_slot_moves_with_the_stack(
    block: &[u8],
    low: u64,
    high: u64,
    word: usize,
    a: Option<EntrySlot>,
    b: Option<EntrySlot>,
)
    requires
        call_ensures(find_entry, (block, low, word), a),
        call_ensures(find_entry, (block, high, word), b),
        a is Some,
        low <= high,
        block_entry(block@, word as int) is Some ==> 0 <= (block_entry(block@, word as int)->0).1
            && high + (block_entry(block@, word as int)->0).1 <= u64::MAX,
    ensures
        b is Some,
        b->0.slot - a->0.slot == high - low,
        b->0.entry == a->0.entry,
        a->0.entry != 0,
{
}

/// Translated processes are injected on 32-bit Arm and nowhere else.
pub proof fn law_translation_is_for_arm(isa: crate::remote::Isa, r: bool)
    requires
        call_ensures(tango_supported, (isa,), r),
    ensures
        r ==> isa is Arm,
        isa is Arm ==> r,
{
}

/// A word of the argument block is read least significant byte first, from
/// eight bytes or from four.
pub proof fn law_words_of_the_block(b: Seq<u8>, at: int)
    ensures
        word_at(b, at, 8) % 0x100 == b[at],
        word_at(b, at, 8) / 0x100_0000_0000_0000 == b[at + 7],
        word_at(b, at, 4) % 0x100 == b[at],
        word_at(b, at, 4) / 0x100_0000 == b[at + 3],
        word_at(b, at, 8) % 0x1_0000_0000 == word_at(b, at, 4),
{
}

} // verus!
