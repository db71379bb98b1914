//! What the monitor does with the processes that it follows: init itself, the
//! children that init forks, and those that turn out to be zygotes.
use vstd::prelude::*;
use crate::monitor::control::daemon_ended;
use crate::monitor::{next_count, Monitor, TracingState, ZygoteStartCounter, MAX_RETRY_COUNT};
use crate::text::{decimal, has_field, push_decimal, same_text, text_has_field};
use crate::wait::{
    is_exited, is_signaled, is_stopped, second_byte, stopped_with, upper_half, wifexited,
    wifsignaled, wifstopped, wptevent, wstopsig, WaitResult, PTRACE_EVENT_EXEC, PTRACE_EVENT_STOP,
    SIGSTOP, SIGTRAP, SIGTSTP, SIGTTIN, SIGTTOU,
};

verus! {

/// The upper bytes of a trap that an event reports: the signal below, the
/// event above.
pub open spec fn trap_word(event: i32) -> int {
    SIGTRAP + 256 * event
}

/// The process stopped with these upper bytes.
pub open spec fn stopped_as(status: i32, word: int) -> bool {
    is_stopped(status as int) && (status as int) / 256 == word
}

proof fn lemma_stop_words()
    by (bit_vector)
    ensures
        5i32 | (128i32 << 8) == 0x8005i32,
        5i32 | (4i32 << 8) == 0x405i32,
        19i32 | (0i32 << 8) == 19i32,
{
}

/// One of the signals that stop a process under job control.
pub open spec fn is_stop_signal(sig: int) -> bool {
    sig == SIGSTOP || sig == SIGTSTP || sig == SIGTTIN || sig == SIGTTOU
}

fn stop_signal(sig: i32) -> (r: bool)
    ensures
        r == is_stop_signal(sig as int),
{
    sig == SIGSTOP || sig == SIGTSTP || sig == SIGTTIN || sig == SIGTTOU
}

/// The process only stopped for job control: it is neither gone nor has it
/// run a program.
pub open spec fn is_job_stop(status: i32) -> bool {
    ||| stopped_as(status, trap_word(PTRACE_EVENT_STOP))
    ||| is_stopped(status as int) && upper_half(status as int) == 0 && is_stop_signal(
        second_byte(status as int),
    )
}

/// Whether a status is a stop that must not cost the process.
pub fn is_stopping_signal_stop(status: i32) -> (r: bool)
    ensures
        r == is_job_stop(status),
{
    proof {
        lemma_stop_words();
    }
    if stopped_with(status, SIGTRAP, PTRACE_EVENT_STOP) {
        return true;
    }
    if !wifstopped(status) || wptevent(status) != 0 {
        return false;
    }
    stop_signal(wstopsig(status))
}

/// The first place of a process in a list, or the length.
pub open spec fn first_place(pids: Seq<i32>, pid: i32) -> int
    decreases pids.len(),
{
    if pids.len() == 0 || pids[0] == pid {
        0
    } else {
        1 + first_place(pids.drop_first(), pid)
    }
}

proof fn lemma_first_place(pids: Seq<i32>, pid: i32)
    ensures
        0 <= first_place(pids, pid) <= pids.len(),
        first_place(pids, pid) < pids.len() ==> pids[first_place(pids, pid)] == pid,
        forall|j: int| 0 <= j < first_place(pids, pid) ==> #[trigger] pids[j] != pid,
    decreases pids.len(),
{
    if pids.len() > 0 && pids[0] != pid {
        let rest = pids.drop_first();
        lemma_first_place(rest, pid);
        assert forall|j: int| 0 <= j < first_place(pids, pid) implies #[trigger] pids[j] != pid by {
            if j > 0 {
                assert(pids[j] == rest[j - 1]);
            }
        }
    }
}

fn find_place(pids: &Vec<i32>, pid: i32) -> (r: usize)
    ensures
        r == first_place(pids@, pid),
        r <= pids@.len(),
{
    let mut i: usize = 0;
    assert(pids@.skip(0) =~= pids@);
    while i < pids.len() && pids[i] != pid
        invariant
            i <= pids@.len(),
            first_place(pids@, pid) == i + first_place(pids@.skip(i as int), pid),
        decreases pids@.len() - i,
    {
        assert(pids@.skip(i as int).drop_first() =~= pids@.skip(i + 1));
        i = i + 1;
    }
    i
}

/// The list with one more process, in the first free place if there is one.
pub open spec fn with_child(pids: Seq<i32>, pid: i32) -> Seq<i32> {
    let i = first_place(pids, 0);
    if i < pids.len() {
        pids.update(i, pid)
    } else {
        pids.push(pid)
    }
}

/// The list without a process, whose place becomes free.
pub open spec fn without_child(pids: Seq<i32>, pid: i32) -> Seq<i32> {
    let i = first_place(pids, pid);
    if i < pids.len() {
        pids.update(i, 0)
    } else {
        pids
    }
}

/// No process is listed twice.
pub open spec fn listed_once(pids: Seq<i32>) -> bool {
    forall|i: int, j: int|
        0 <= i < j < pids.len() && #[trigger] pids[i] != 0 ==> pids[i] != #[trigger] pids[j]
}

/// Following a process that is not followed yet, and letting one go, keeps
/// every process listed at most once; the one is then listed, the other not.
pub proof fn law_children_are_listed_once(pids: Seq<i32>, pid: i32)
    requires
        listed_once(pids),
        pid != 0,
    ensures
        listed_once(without_child(pids, pid)),
        !without_child(pids, pid).contains(pid),
        !pids.contains(pid) ==> listed_once(with_child(pids, pid)) && with_child(
            pids,
            pid,
        ).contains(pid),
{
    lemma_first_place(pids, pid);
    lemma_first_place(pids, 0);
    let out = without_child(pids, pid);
    let k = first_place(pids, pid);
    assert forall|i: int, j: int| 0 <= i < j < out.len() && #[trigger] out[i] != 0 implies out[i]
        != #[trigger] out[j] by {
        assert(pids[i] != 0);
        assert(pids[i] != pids[j]);
    }
    if out.contains(pid) {
        let j = choose|j: int| 0 <= j < out.len() && out[j] == pid;
        assert(pids[j] == pid);
        assert(k < j);
        assert(pids[k] != pids[j]);
    }
    if !pids.contains(pid) {
        let more = with_child(pids, pid);
        let z = first_place(pids, 0);
        assert(more[z] == pid);
        assert forall|i: int, j: int|
            0 <= i < j < more.len() && #[trigger] more[i] != 0 implies more[i] != #[trigger] more[j] by {
            if i < pids.len() && i != z {
                assert(more[i] == pids[i]);
                assert(pids.contains(pids[i]));
            }
            if j < pids.len() && j != z {
                assert(more[j] == pids[j]);
                assert(pids.contains(pids[j]));
            }
            if i != z && j != z {
                assert(pids[i] != pids[j]);
            }
        }
    }
}

/// What to do with a process that changed.
#[derive(Clone, Copy, Debug, PartialEq, Eq, Structural)]
pub enum ChildAction {
    /// Nothing.
    Nothing,
    /// Let go of init.
    DetachInit,
    /// Let it run on, with this signal or none.
    Continue(i32),
    /// It was a daemon that ended: report the status.
    DaemonEnded,
    /// It is new: ask for the report of the program that it runs, and let it run on.
    Attach,
    /// It runs a program now: see whether that is a zygote.
    Ran,
    /// Let go of it.
    Detach,
}

/// What to do with init.
pub open spec fn init_action(state: TracingState, status: i32) -> ChildAction {
    if stopped_as(status, trap_word(PTRACE_EVENT_STOP)) && state == TracingState::Stopping {
        ChildAction::DetachInit
    } else if is_stopped(status as int) {
        if upper_half(status as int) == 0 && !is_stop_signal(second_byte(status as int)) {
            ChildAction::Continue(second_byte(status as int) as i32)
        } else {
            ChildAction::Continue(0)
        }
    } else {
        ChildAction::Nothing
    }
}

/// A stop of init never stays: it runs on, or is let go.
pub proof fn law_init_is_never_left_stopped(state: TracingState, status: i32)
    requires
        is_stopped(status as int),
    ensures
        init_action(state, status) is Continue || init_action(state, status) is DetachInit,
{
}

/// What to do with a process that is neither init nor a daemon that ended.
pub open spec fn child_action(
    state: TracingState,
    known: bool,
    pid: i32,
    status: i32,
) -> ChildAction {
    if !known {
        if pid > 0 && is_stopped(status as int) {
            ChildAction::Attach
        } else {
            ChildAction::Nothing
        }
    } else if stopped_as(status, trap_word(PTRACE_EVENT_EXEC)) {
        ChildAction::Ran
    } else if state == TracingState::Tracing && is_job_stop(status) {
        ChildAction::Continue(0)
    } else if is_stopped(status as int) {
        ChildAction::Detach
    } else {
        ChildAction::Nothing
    }
}

/// The list after a process changed.
pub open spec fn children_after(
    state: TracingState,
    pids: Seq<i32>,
    pid: i32,
    status: i32,
) -> Seq<i32> {
    let known = first_place(pids, pid) < pids.len();
    match child_action(state, known, pid, status) {
        ChildAction::Attach => with_child(pids, pid),
        ChildAction::Ran => pids,
        ChildAction::Continue(_) => pids,
        _ => if known {
            without_child(pids, pid)
        } else {
            pids
        },
    }
}

/// While init is traced, a followed process that only stops for job control
/// is followed on: nothing short of a program, its end or an unknown stop
/// takes it from the list.
pub proof fn law_job_stop_keeps_the_child(pids: Seq<i32>, pid: i32, status: i32)
    requires
        pids.contains(pid),
        is_job_stop(status),
    ensures
        children_after(TracingState::Tracing, pids, pid, status) == pids,
        child_action(TracingState::Tracing, true, pid, status) == ChildAction::Continue(0),
{
    lemma_first_place(pids, pid);
    let k = first_place(pids, pid);
    if k == pids.len() {
        let j = choose|j: int| 0 <= j < pids.len() && pids[j] == pid;
        assert(pids[j] != pid);
    }
}

impl Monitor {
    /// Frees the place of a process.
    pub fn clear_tracked(&mut self, pid: i32)
        ensures
            final(self).attached@ == without_child(old(self).attached@, pid),
            *final(self) == (Monitor { attached: final(self).attached, ..*old(self) }),
    {
        let i: usize = find_place(&self.attached, pid);
        if i < self.attached.len() {
            self.attached.set(i, 0);
        }
    }

    /// Notes that a process changed, and says what to do with it.
    pub fn handle_sigchld_child(&mut self, pid: i32, status: i32) -> (r: ChildAction)
        ensures
            if pid == 1 {
                &&& r == init_action(old(self).tracing_state, status)
                &&& *final(self) == if r is DetachInit {
                    Monitor { tracing_state: TracingState::Stopped, ..*old(self) }
                } else {
                    *old(self)
                }
            } else if daemon_ended(old(self).status64, pid, status) || daemon_ended(
                old(self).status32,
                pid,
                status,
            ) {
                &&& r is DaemonEnded
                &&& *final(self) == (Monitor {
                    status64: final(self).status64,
                    status32: final(self).status32,
                    ..*old(self)
                })
                &&& if daemon_ended(old(self).status64, pid, status) {
                    crate::monitor::control::is_after_end(
                        old(self).status64,
                        final(self).status64,
                        status,
                    ) && final(self).status32 == old(self).status32
                } else {
                    crate::monitor::control::is_after_end(
                        old(self).status32,
                        final(self).status32,
                        status,
                    ) && final(self).status64 == old(self).status64
                }
            } else {
                &&& r == child_action(
                    old(self).tracing_state,
                    first_place(old(self).attached@, pid) < old(self).attached@.len(),
                    pid,
                    status,
                )
                &&& final(self).attached@ == children_after(
                    old(self).tracing_state,
                    old(self).attached@,
                    pid,
                    status,
                )
                &&& *final(self) == (Monitor { attached: final(self).attached, ..*old(self) })
            },
    {
        proof {
            lemma_stop_words();
        }
        if pid == 1 {
            if stopped_with(status, SIGTRAP, PTRACE_EVENT_STOP) && self.tracing_state
                == TracingState::Stopping {
                self.tracing_state = TracingState::Stopped;
                return ChildAction::DetachInit;
            }
            if wifstopped(status) {
                if wptevent(status) == 0 {
                    let sig: i32 = wstopsig(status);
                    if !stop_signal(sig) {
                        return ChildAction::Continue(sig);
                    }
                }
                return ChildAction::Continue(0);
            }
            return ChildAction::Nothing;
        }
        if self.check_daemon_exit(pid, status) {
            return ChildAction::DaemonEnded;
        }
        let place: usize = find_place(&self.attached, pid);
        if place == self.attached.len() {
            if pid > 0 && wifstopped(status) {
                let free: usize = find_place(&self.attached, 0);
                if free < self.attached.len() {
                    self.attached.set(free, pid);
                } else {
                    self.attached.push(pid);
                }
                return ChildAction::Attach;
            }
            return ChildAction::Nothing;
        }
        if stopped_with(status, SIGTRAP, PTRACE_EVENT_EXEC) {
            return ChildAction::Ran;
        }
        if self.tracing_state == TracingState::Tracing && is_stopping_signal_stop(status) {
            return ChildAction::Continue(0);
        }
        self.clear_tracked(pid);
        if wifstopped(status) {
            ChildAction::Detach
        } else {
            ChildAction::Nothing
        }
    }
}

/// What became of a process that ran a program.
#[derive(Clone, Copy, Debug, PartialEq, Eq, Structural)]
pub enum RanOutcome {
    /// The program could not be read.
    Unreadable,
    /// It was handed to a tracer, which let go of it already.
    HandedOff,
    /// It was not handed on.
    Kept,
}

impl Monitor {
    /// Closes the matter of a process that ran a program: its place becomes
    /// free, and it is let go unless a tracer has it or its program could not
    /// be read.
    pub fn finish_ran(&mut self, pid: i32, outcome: RanOutcome) -> (r: ChildAction)
        ensures
            final(self).attached@ == without_child(old(self).attached@, pid),
            *final(self) == (Monitor { attached: final(self).attached, ..*old(self) }),
            r == if outcome is Kept {
                ChildAction::Detach
            } else {
                ChildAction::Nothing
            },
    {
        self.clear_tracked(pid);
        match outcome {
            RanOutcome::Kept => ChildAction::Detach,
            _ => ChildAction::Nothing,
        }
    }
}

/// What a wait for any child returned.
#[derive(Clone, Copy, Debug, PartialEq, Eq, Structural)]
pub enum ReapStep {
    /// No more children have changed.
    Done,
    /// Wait again.
    Again,
    /// This child changed.
    Child(i32),
}

impl Monitor {
    /// What follows a wait for any child. A failed wait is never taken for a
    /// child; it ends the round only where init was let go and no child is
    /// left.
    pub fn sigchld_listener_callback(&self, pid: i32, no_children: bool) -> (r: ReapStep)
        ensures
            r == if pid == 0 || pid == -1 && self.tracing_state == TracingState::Stopped
                && no_children {
                ReapStep::Done
            } else if pid == -1 {
                ReapStep::Again
            } else {
                ReapStep::Child(pid)
            },
    {
        if pid == 0 {
            ReapStep::Done
        } else if pid == -1 {
            if self.tracing_state == TracingState::Stopped && no_children {
                ReapStep::Done
            } else {
                ReapStep::Again
            }
        } else {
            ReapStep::Child(pid)
        }
    }
}

/// Which zygote a program is.
#[derive(Clone, Copy, Debug, PartialEq, Eq, Structural)]
pub enum HandoffTarget {
    /// The 64-bit one.
    App64,
    /// The 32-bit one.
    App32,
    /// A translator that runs the 32-bit one.
    Tango,
}

/// Which zygote a program's path stands for.
pub open spec fn target_of(program: Seq<char>) -> Option<HandoffTarget> {
    if program == "/system/bin/app_process64"@ {
        Some(HandoffTarget::App64)
    } else if program == "/system/bin/app_process32"@ {
        Some(HandoffTarget::App32)
    } else if program == "/system_ext/bin/tango_translator"@ {
        Some(HandoffTarget::Tango)
    } else {
        None
    }
}

fn find_target(program: &str) -> (r: Option<HandoffTarget>)
    ensures
        r == target_of(program@),
{
    if same_text(program, "/system/bin/app_process64") {
        Some(HandoffTarget::App64)
    } else if same_text(program, "/system/bin/app_process32") {
        Some(HandoffTarget::App32)
    } else if same_text(program, "/system_ext/bin/tango_translator") {
        Some(HandoffTarget::Tango)
    } else {
        None
    }
}

/// Nothing that is known of the process speaks against a zygote: its command
/// line asks for one, and init is its parent. What cannot be read does not
/// count against it.
pub open spec fn may_be_zygote(cmdline: Seq<char>, parent: Option<i32>) -> bool {
    &&& cmdline.len() == 0 || has_field(cmdline, ' ', "--zygote"@)
    &&& parent matches Some(ppid) ==> ppid == 1
}

/// What to do with a process that runs a program.
#[derive(Clone, Copy, Debug, PartialEq, Eq, Structural)]
pub enum Handoff {
    /// It is no business of a tracer.
    Leave,
    /// The zygote crashes: stop init so that it can be let go.
    StopInjecting,
    /// Hand it to a tracer once the daemon is there.
    Proceed(HandoffTarget),
}

/// A process that runs this program is to be handed to a tracer, if it has
/// not crashed too often.
pub open spec fn wants_handoff(
    state: TracingState,
    program: Seq<char>,
    cmdline: Seq<char>,
    parent: Option<i32>,
) -> bool {
    &&& target_of(program) is Some
    &&& target_of(program) != Some(HandoffTarget::Tango) ==> may_be_zygote(cmdline, parent)
    &&& state == TracingState::Tracing
}

/// A counter after a start.
pub open spec fn counted(c: ZygoteStartCounter, now: u64) -> ZygoteStartCounter {
    ZygoteStartCounter { last: Some(now), count: next_count(c.last, c.count, now) }
}

/// The text of a reason.
pub open spec fn reason_is(r: Option<&'static str>, text: Seq<char>) -> bool {
    r matches Some(s) && s@ == text
}

impl Monitor {
    /// The starts of one word size.
    pub open spec fn counter(self, is_64: bool) -> ZygoteStartCounter {
        if is_64 {
            self.counter64
        } else {
            self.counter32
        }
    }

    /// The monitor with a start noted.
    pub open spec fn noted_start(self, is_64: bool, now: u64) -> Monitor {
        if is_64 {
            Monitor { counter64: counted(self.counter64, now), ..self }
        } else {
            Monitor { counter32: counted(self.counter32, now), ..self }
        }
    }

    /// Decides whether a process that runs a program goes to a tracer: only
    /// a zygote does, only while init is traced, and only until it has
    /// restarted too often.
    pub fn consider_handoff(
        &mut self,
        program: &str,
        cmdline: &str,
        parent: Option<i32>,
        now: u64,
    ) -> (r: Handoff)
        ensures
            if !wants_handoff(old(self).tracing_state, program@, cmdline@, parent) {
                r is Leave && *final(self) == *old(self)
            } else {
                let target = target_of(program@)->0;
                let is_64 = target == HandoffTarget::App64;
                let noted = old(self).noted_start(is_64, now);
                if noted.counter(is_64).count >= MAX_RETRY_COUNT {
                    &&& r is StopInjecting
                    &&& reason_is(final(self).stop_reason, "Zygote crashed"@)
                    &&& *final(self) == (Monitor {
                        tracing_state: TracingState::Stopping,
                        stop_reason: final(self).stop_reason,
                        ..noted
                    })
                } else {
                    r == Handoff::Proceed(target) && *final(self) == noted
                }
            },
    {
        let target = match find_target(program) {
            Some(target) => target,
            None => {
                return Handoff::Leave;
            },
        };
        if target != HandoffTarget::Tango {
            let empty = cmdline.unicode_len() == 0;
            if !empty && !text_has_field(cmdline, ' ', "--zygote") {
                return Handoff::Leave;
            }
            match parent {
                Some(ppid) => {
                    if ppid != 1 {
                        return Handoff::Leave;
                    }
                },
                None => {},
            }
        }
        if self.tracing_state != TracingState::Tracing {
            return Handoff::Leave;
        }
        let crashed = if target == HandoffTarget::App64 {
            self.counter64.should_stop_inject(now)
        } else {
            self.counter32.should_stop_inject(now)
        };
        if crashed {
            self.tracing_state = TracingState::Stopping;
            self.stop_reason = Some("Zygote crashed");
            return Handoff::StopInjecting;
        }
        Handoff::Proceed(target)
    }

    /// Gives the injection up because the daemon does not run; init is then
    /// to be stopped so that it can be let go.
    pub fn daemon_missing(&mut self)
        ensures
            reason_is(final(self).stop_reason, "ReZygiskd not running"@),
            *final(self) == (Monitor {
                tracing_state: TracingState::Stopping,
                stop_reason: final(self).stop_reason,
                ..*old(self)
            }),
    {
        self.tracing_state = TracingState::Stopping;
        self.stop_reason = Some("ReZygiskd not running");
    }
}

/// What follows a look at a zygote that is to stop.
#[derive(Clone, Copy, Debug, PartialEq, Eq, Structural)]
pub enum ParkStep {
    /// It stopped as asked.
    Parked,
    /// It ended.
    Ended,
    /// It did not stop in time, or cannot be waited for.
    GiveUp,
    /// Look again a little later.
    Sleep,
    /// It stopped for something else: ask it to stop again and let it run on
    /// with this signal or none; then give up if `last`, else look again.
    Rearm { signal: i32, last: bool },
}

/// The zygote stopped as asked, in either of the two forms in which that is
/// reported.
pub open spec fn is_parked(status: i32) -> bool {
    stopped_as(status, SIGSTOP as int) || stopped_as(status, trap_word(PTRACE_EVENT_STOP))
}

/// What follows a look at a zygote that is to stop.
pub open spec fn park_step(result: WaitResult, past_deadline: bool) -> ParkStep {
    let idle = if past_deadline {
        ParkStep::GiveUp
    } else {
        ParkStep::Sleep
    };
    match result {
        WaitResult::Changed(status) => if is_parked(status) {
            ParkStep::Parked
        } else if is_exited(status as int) || is_signaled(status as int) {
            ParkStep::Ended
        } else {
            let sig = second_byte(status as int);
            ParkStep::Rearm {
                signal: if is_stop_signal(sig) {
                    0
                } else {
                    sig as i32
                },
                last: past_deadline,
            }
        },
        WaitResult::Error { interrupted: false } => ParkStep::GiveUp,
        _ => idle,
    }
}

/// Decides what follows a look at a zygote that is to stop. A signal other
/// than a stop that comes in between is delivered again.
pub fn handoff_wait(result: WaitResult, past_deadline: bool) -> (r: ParkStep)
    ensures
        r == park_step(result, past_deadline),
{
    proof {
        lemma_stop_words();
    }
    match result {
        WaitResult::Changed(status) => {
            if stopped_with(status, SIGSTOP, 0) || stopped_with(status, SIGTRAP, PTRACE_EVENT_STOP) {
                return ParkStep::Parked;
            }
            if wifexited(status) || wifsignaled(status) {
                return ParkStep::Ended;
            }
            let sig: i32 = wstopsig(status);
            let signal: i32 = if stop_signal(sig) {
                0
            } else {
                sig
            };
            return ParkStep::Rearm { signal, last: past_deadline };
        },
        WaitResult::Error { interrupted } => {
            if !interrupted {
                return ParkStep::GiveUp;
            }
        },
        _ => {},
    }
    if past_deadline {
        ParkStep::GiveUp
    } else {
        ParkStep::Sleep
    }
}

/// The wait ends: once the deadline has passed, no look asks for another.
pub proof fn law_parking_is_bounded(result: WaitResult)
    ensures
        match park_step(result, true) {
            ParkStep::Sleep => false,
            ParkStep::Rearm { signal, last } => last,
            _ => true,
        },
{
}

impl Monitor {
    /// Gives up on a zygote that did not stop as asked. The result says that
    /// it is to be let go with a signal to run on: it last showed itself
    /// stopped.
    pub fn abandon_handoff(&mut self, pid: i32, last_status: i32) -> (r: bool)
        ensures
            r == is_stopped(last_status as int),
            final(self).attached@ == without_child(old(self).attached@, pid),
            *final(self) == (Monitor { attached: final(self).attached, ..*old(self) }),
    {
        self.clear_tracked(pid);
        wifstopped(last_status)
    }

    /// The tracer is to restart the companions: the zygote started again in
    /// quick succession more than once.
    pub open spec fn restarts(self, target: HandoffTarget) -> bool {
        self.counter(target == HandoffTarget::App64).count > 1
    }

    /// The arguments of the tracer for a process.
    pub fn tracer_args(&self, pid: i32, target: HandoffTarget) -> (args: Vec<String>)
        ensures
            args@.len() == 3 + (if self.restarts(target) {
                1int
            } else {
                0
            }) + (if target is Tango {
                1int
            } else {
                0
            }),
            args@[0]@ == if target is App64 {
                "zygisk-ptrace64"@
            } else {
                "zygisk-ptrace32"@
            },
            args@[1]@ == "trace"@,
            args@[2]@ == decimal(pid as int),
            self.restarts(target) ==> args@[3]@ == "--restart"@,
            target is Tango ==> args@.last()@ == "--tango"@,
    {
        let mut args: Vec<String> = Vec::new();
        match target {
            HandoffTarget::App64 => args.push(String::from_str("zygisk-ptrace64")),
            _ => args.push(String::from_str("zygisk-ptrace32")),
        }
        args.push(String::from_str("trace"));
        let mut number = String::new();
        push_decimal(&mut number, pid as i64);
        assert(number@ =~= decimal(pid as int));
        args.push(number);
        let count: i32 = match target {
            HandoffTarget::App64 => self.counter64.count,
            _ => self.counter32.count,
        };
        if count > 1 {
            args.push(String::from_str("--restart"));
        }
        match target {
            HandoffTarget::Tango => args.push(String::from_str("--tango")),
            _ => {},
        }
        args
    }
}

/// The tracer's program for a zygote.
pub fn tracer_program(target: HandoffTarget) -> (path: &'static str)
    ensures
        path@ == if target is App64 {
            "./bin/zygisk-ptrace64"@
        } else {
            "./bin/zygisk-ptrace32"@
        },
{
    match target {
        HandoffTarget::App64 => "./bin/zygisk-ptrace64",
        _ => "./bin/zygisk-ptrace32",
    }
}

/// The steps of handing a zygote to a tracer.
#[derive(Clone, Copy, Debug, PartialEq, Eq, Structural)]
pub enum HandoffPhase {
    /// See that the daemon runs.
    Daemon,
    /// Give the injection up, and stop init so that it can be let go.
    StopInjecting,
    /// Let go of a translator, which runs on.
    LetGoRunning,
    /// Ask the zygote to stop, and wait until it has.
    Park,
    /// Give up on the zygote.
    Abandon,
    /// Let go of the zygote, which stays stopped.
    LetGoStopped,
    /// Start the tracer.
    StartTracer,
    /// Kill the zygote, which nobody would ever let run on.
    Kill,
    /// It is over.
    Over(RanOutcome),
}

/// The step that follows one that succeeded or not. A translator's process is
/// not stopped: its tracer finds the place to stop it by itself.
pub open spec fn handoff_next(phase: HandoffPhase, target: HandoffTarget, ok: bool) -> HandoffPhase {
    match phase {
        HandoffPhase::Daemon => if !ok {
            HandoffPhase::StopInjecting
        } else if target == HandoffTarget::Tango {
            HandoffPhase::LetGoRunning
        } else {
            HandoffPhase::Park
        },
        HandoffPhase::StopInjecting => HandoffPhase::Over(RanOutcome::Kept),
        HandoffPhase::LetGoRunning => HandoffPhase::StartTracer,
        HandoffPhase::Park => if ok {
            HandoffPhase::LetGoStopped
        } else {
            HandoffPhase::Abandon
        },
        HandoffPhase::Abandon => HandoffPhase::Over(RanOutcome::Kept),
        HandoffPhase::LetGoStopped => HandoffPhase::StartTracer,
        HandoffPhase::StartTracer => if ok {
            HandoffPhase::Over(RanOutcome::HandedOff)
        } else {
            HandoffPhase::Kill
        },
        HandoffPhase::Kill => HandoffPhase::Over(RanOutcome::HandedOff),
        HandoffPhase::Over(outcome) => HandoffPhase::Over(outcome),
    }
}

/// The step of handing a zygote to a tracer that follows.
pub fn handoff_step(phase: HandoffPhase, target: HandoffTarget, ok: bool) -> (r: HandoffPhase)
    ensures
        r == handoff_next(phase, target, ok),
{
    match phase {
        HandoffPhase::Daemon => if !ok {
            HandoffPhase::StopInjecting
        } else if target == HandoffTarget::Tango {
            HandoffPhase::LetGoRunning
        } else {
            HandoffPhase::Park
        },
        HandoffPhase::StopInjecting => HandoffPhase::Over(RanOutcome::Kept),
        HandoffPhase::LetGoRunning => HandoffPhase::StartTracer,
        HandoffPhase::Park => if ok {
            HandoffPhase::LetGoStopped
        } else {
            HandoffPhase::Abandon
        },
        HandoffPhase::Abandon => HandoffPhase::Over(RanOutcome::Kept),
        HandoffPhase::LetGoStopped => HandoffPhase::StartTracer,
        HandoffPhase::StartTracer => if ok {
            HandoffPhase::Over(RanOutcome::HandedOff)
        } else {
            HandoffPhase::Kill
        },
        HandoffPhase::Kill => HandoffPhase::Over(RanOutcome::HandedOff),
        HandoffPhase::Over(outcome) => HandoffPhase::Over(outcome),
    }
}

/// A tracer is started only for a process that was let go, so that it can be
/// traced anew.
pub proof fn law_tracer_finds_a_free_process(
    phase: HandoffPhase,
    target: HandoffTarget,
    ok: bool,
)
    requires
        handoff_next(phase, target, ok) == HandoffPhase::StartTracer,
    ensures
        phase == HandoffPhase::LetGoRunning || phase == HandoffPhase::LetGoStopped,
{
}

/// A zygote that was let go stopped gets a tracer or is killed: it never stays
/// stopped with nobody to let it run on.
pub proof fn law_stopped_zygote_is_not_forgotten(target: HandoffTarget, stepped: bool, started: bool)
    ensures
        handoff_next(HandoffPhase::LetGoStopped, target, stepped) == HandoffPhase::StartTracer,
        handoff_next(HandoffPhase::StartTracer, target, started) == if started {
            HandoffPhase::Over(RanOutcome::HandedOff)
        } else {
            HandoffPhase::Kill
        },
{
}

/// A stop under job control is one that the kernel reports as such, or a plain
/// stop by one of the four signals that are there for it.
pub proof fn law_job_stops(status: i32)
    ensures
        is_job_stop(status) <==> status % 256 == 127 && (status as int / 256 == 0x8005 || (
        status as int / 256 == 19 || status as int / 256 == 20 || status as int / 256 == 21
            || status as int / 256 == 22)),
{
}

/// Following a process, and letting one go, leaves all others in the list, and
/// puts none in.
pub proof fn law_other_children_stay(pids: Seq<i32>, pid: i32, other: i32)
    requires
        pid != 0,
        other != 0,
        other != pid,
    ensures
        with_child(pids, pid).contains(other) == pids.contains(other),
        without_child(pids, pid).contains(other) == pids.contains(other),
        with_child(pids, pid).contains(pid),
        !pids.contains(pid) ==> without_child(pids, pid) == pids,
{
    lemma_first_place(pids, 0);
    lemma_first_place(pids, pid);
    let added = with_child(pids, pid);
    let left = without_child(pids, pid);
    let i = first_place(pids, 0);
    let at = if i < pids.len() {
        i
    } else {
        pids.len() as int
    };
    assert(added[at] == pid);
    if pids.contains(other) {
        let k = choose|k: int| 0 <= k < pids.len() && pids[k] == other;
        assert(added[k] == other);
        assert(left[k] == other);
    }
    if added.contains(other) {
        let k = choose|k: int| 0 <= k < added.len() && added[k] == other;
        assert(pids[k] == other);
    }
    if left.contains(other) {
        let k = choose|k: int| 0 <= k < left.len() && left[k] == other;
        assert(pids[k] == other);
    }
}

/// A free place is used again before the list grows.
pub proof fn law_free_places_are_used(pids: Seq<i32>, pid: i32)
    ensures
        pids.contains(0) ==> with_child(pids, pid).len() == pids.len(),
        !pids.contains(0) ==> with_child(pids, pid) == pids.push(pid),
        without_child(pids, pid).len() == pids.len(),
        pids.contains(pid) ==> without_child(pids, pid).contains(0),
{
    lemma_first_place(pids, 0);
    lemma_first_place(pids, pid);
    if pids.contains(pid) {
        let left = without_child(pids, pid);
        assert(left[first_place(pids, pid)] == 0);
    }
}

/// Init gets every signal that it stopped by, but for those of job control, and
/// none for an event. It is let go exactly at the stop that was asked for, while
/// the monitor waits for it.
pub proof fn law_init_gets_its_signals(state: TracingState, status: i32)
    ensures
        ({
            let stopped = status % 256 == 127;
            let word = status as int / 256;
            let job = word == 19 || word == 20 || word == 21 || word == 22;
            let action = init_action(state, status);
            &&& action is DetachInit <==> stopped && word == 0x8005 && state is Stopping
            &&& action is Nothing <==> !stopped
            &&& action is Continue || action is DetachInit || action is Nothing
            &&& stopped && 0 <= word < 256 && !job ==> (action matches ChildAction::Continue(s) && s
                == word)
            &&& stopped && !(action is DetachInit) && (job || !(0 <= word < 256)) ==> action
                == ChildAction::Continue(0)
        }),
{
}

/// A process is followed from its first stop; its program is looked at when it
/// runs one; while init is traced, job control does not end that; and any other
/// stop lets it go. One that ended needs nothing.
pub proof fn law_children_are_followed_to_their_program(
    state: TracingState,
    known: bool,
    pid: i32,
    status: i32,
)
    ensures
        ({
            let stopped = status % 256 == 127;
            let word = status as int / 256;
            let job = word == 0x8005 || word == 19 || word == 20 || word == 21 || word == 22;
            let action = child_action(state, known, pid, status);
            &&& action is Attach <==> !known && stopped && pid > 0
            &&& action is Ran <==> known && stopped && word == 0x405
            &&& action == ChildAction::Continue(0) <==> known && stopped && job && state is Tracing
            &&& action is Detach <==> known && stopped && word != 0x405 && !(job && state
                is Tracing)
            &&& action is Nothing <==> !(action is Attach) && !stopped || !known && !(action
                is Attach)
        }),
{
}

/// A process that ended, or is let go, is not followed on.
pub proof fn law_gone_children_are_forgotten(
    state: TracingState,
    pids: Seq<i32>,
    pid: i32,
    status: i32,
)
    requires
        listed_once(pids),
        pid > 0,
    ensures
        ({
            let after = children_after(state, pids, pid, status);
            let stopped = status % 256 == 127;
            let word = status as int / 256;
            let job = word == 0x8005 || word == 19 || word == 20 || word == 21 || word == 22;
            after.contains(pid) <==> stopped && (!pids.contains(pid) || word == 0x405 || (job
                && state is Tracing))
        }),
{
    lemma_first_place(pids, pid);
    law_children_are_listed_once(pids, pid);
    law_job_stops(status);
    if pids.contains(pid) {
        let k = choose|k: int| 0 <= k < pids.len() && pids[k] == pid;
        assert(first_place(pids, pid) < pids.len());
    } else {
        assert(first_place(pids, pid) == pids.len());
    }
}

proof fn lemma_programs_differ()
    ensures
        "/system/bin/app_process64"@ != "/system/bin/app_process32"@,
        "/system/bin/app_process64"@ != "/system_ext/bin/tango_translator"@,
        "/system/bin/app_process32"@ != "/system_ext/bin/tango_translator"@,
{
    reveal_strlit("/system/bin/app_process64");
    reveal_strlit("/system/bin/app_process32");
    reveal_strlit("/system_ext/bin/tango_translator");
    assert("/system/bin/app_process64"@[23] != "/system/bin/app_process32"@[23]);
}

/// Only a zygote goes to a tracer, and only while init is traced: one of the two
/// app processes whose command line asks for a zygote and whose parent is init,
/// as far as that can be read, or the translator.
pub proof fn law_only_zygotes_are_handed_off(
    m: &mut Monitor,
    program: &str,
    cmdline: &str,
    parent: Option<i32>,
    now: u64,
    r: Handoff,
)
    requires
        call_ensures(Monitor::consider_handoff, (m, program, cmdline, parent, now), r),
    ensures
        ({
            let app = program@ == "/system/bin/app_process64"@ || program@
                == "/system/bin/app_process32"@;
            let translator = program@ == "/system_ext/bin/tango_translator"@;
            let zygote = (cmdline@.len() == 0 || has_field(cmdline@, ' ', "--zygote"@)) && (
            parent is None || parent == Some(1i32));
            &&& !(r is Leave) <==> old(m).tracing_state is Tracing && (translator || (app
                && zygote))
            &&& r is Leave ==> *final(m) == *old(m)
            &&& !(r is Leave) ==> (r is StopInjecting <==> final(m).tracing_state is Stopping)
            &&& r is Proceed ==> final(m).tracing_state is Tracing
        }),
{
    lemma_programs_differ();
}

/// The tracer that a zygote goes to is the one for its word size, and the start
/// counts for that word size alone. Too many starts in a row stop the injection.
pub proof fn law_starts_count_by_word_size(
    m: &mut Monitor,
    program: &str,
    cmdline: &str,
    parent: Option<i32>,
    now: u64,
    r: Handoff,
)
    requires
        call_ensures(Monitor::consider_handoff, (m, program, cmdline, parent, now), r),
        !(r is Leave),
    ensures
        ({
            let wide = program@ == "/system/bin/app_process64"@;
            let before = if wide {
                old(m).counter64
            } else {
                old(m).counter32
            };
            let after = if wide {
                final(m).counter64
            } else {
                final(m).counter32
            };
            &&& wide ==> final(m).counter32 == old(m).counter32
            &&& !wide ==> final(m).counter64 == old(m).counter64
            &&& after.last == Some(now)
            &&& after.count == next_count(before.last, before.count, now)
            &&& r is StopInjecting <==> after.count >= 5
            &&& r matches Handoff::Proceed(target) ==> {
                &&& target is App64 <==> wide
                &&& target is App32 <==> program@ == "/system/bin/app_process32"@
                &&& target is Tango <==> program@ == "/system_ext/bin/tango_translator"@
            }
            &&& final(m).attached == old(m).attached
            &&& final(m).status64 == old(m).status64
            &&& final(m).status32 == old(m).status32
        }),
{
    lemma_programs_differ();
}

/// Waiting for a zygote to stop ends when it stopped as asked, ended, or cannot
/// be waited for; a signal other than a stop that came first is delivered to it.
pub proof fn law_parking_outcomes(result: WaitResult, past_deadline: bool)
    ensures
        ({
            let step = park_step(result, past_deadline);
            match result {
                WaitResult::Changed(status) => {
                    let stopped = status % 256 == 127;
                    let word = status as int / 256;
                    let sig = word % 256;
                    let job = sig == 19 || sig == 20 || sig == 21 || sig == 22;
                    &&& step is Parked <==> stopped && (word == 19 || word == 0x8005)
                    &&& step is Ended <==> status % 128 != 127
                    &&& step is Rearm <==> status % 128 == 127 && !(stopped && (word == 19 || word
                        == 0x8005))
                    &&& step is Rearm ==> step->last == past_deadline
                    &&& step is Rearm ==> step->signal == if job {
                        0
                    } else {
                        sig
                    }
                },
                WaitResult::Error { interrupted } => if interrupted {
                    step == if past_deadline {
                        ParkStep::GiveUp
                    } else {
                        ParkStep::Sleep
                    }
                } else {
                    step is GiveUp
                },
                _ => step == if past_deadline {
                    ParkStep::GiveUp
                } else {
                    ParkStep::Sleep
                },
            }
        }),
{
}

/// A zygote is handed over step by step: a translator is let go as it runs, any
/// other zygote once it stopped as asked; only then is the tracer started. What
/// is handed over is not kept, and what is given up on is not handed over.
pub proof fn law_handoff_order(phase: HandoffPhase, target: HandoffTarget, ok: bool)
    ensures
        ({
            let next = handoff_next(phase, target, ok);
            &&& next != HandoffPhase::Daemon
            &&& next == HandoffPhase::StopInjecting ==> phase == HandoffPhase::Daemon && !ok
            &&& next == HandoffPhase::LetGoRunning ==> phase == HandoffPhase::Daemon && ok
                && target is Tango
            &&& next == HandoffPhase::Park ==> phase == HandoffPhase::Daemon && ok && !(target
                is Tango)
            &&& next == HandoffPhase::Abandon ==> phase == HandoffPhase::Park && !ok
            &&& next == HandoffPhase::LetGoStopped ==> phase == HandoffPhase::Park && ok
            &&& next == HandoffPhase::StartTracer ==> phase == HandoffPhase::LetGoRunning || phase
                == HandoffPhase::LetGoStopped
            &&& next == HandoffPhase::Kill ==> phase == HandoffPhase::StartTracer && !ok
            &&& !(phase is Over) ==> {
                &&& next == HandoffPhase::Over(RanOutcome::HandedOff) ==> phase
                    == HandoffPhase::Kill || (phase == HandoffPhase::StartTracer && ok)
                &&& next == HandoffPhase::Over(RanOutcome::Kept) ==> phase
                    == HandoffPhase::StopInjecting || phase == HandoffPhase::Abandon
                &&& next != HandoffPhase::Over(RanOutcome::Unreadable)
            }
            &&& phase is Over ==> next == phase
        }),
{
}

/// A child that a wait returned is looked at; a wait that failed never names
/// one, and ends the round only where init was let go and no child is left.
pub proof fn law_reaping(m: &Monitor, pid: i32, no_children: bool, r: ReapStep)
    requires
        call_ensures(Monitor::sigchld_listener_callback, (m, pid, no_children), r),
    ensures
        r matches ReapStep::Child(p) ==> p == pid && pid != 0 && pid != -1,
        r is Child <==> pid != 0 && pid != -1,
        pid == 0 ==> r is Done,
        pid == -1 ==> (r is Done <==> no_children && m.tracing_state is Stopped),
{
}

/// A process that ran a program is not followed on, and is let go exactly where
/// it was kept: neither handed to a tracer nor unreadable.
pub proof fn law_ran_process_is_settled(
    m: &mut Monitor,
    pid: i32,
    outcome: RanOutcome,
    r: ChildAction,
)
    requires
        call_ensures(Monitor::finish_ran, (m, pid, outcome), r),
        listed_once(old(m).attached@),
        pid != 0,
    ensures
        !final(m).attached@.contains(pid),
        r is Detach <==> outcome is Kept,
        r is Nothing <==> !(outcome is Kept),
{
    law_children_are_listed_once(old(m).attached@, pid);
}

/// A zygote that is given up on is not followed on, and runs on where it was
/// last seen stopped.
pub proof fn law_abandoned_zygote_runs_on(m: &mut Monitor, pid: i32, last: i32, r: bool)
    requires
        call_ensures(Monitor::abandon_handoff, (m, pid, last), r),
        listed_once(old(m).attached@),
        pid != 0,
    ensures
        !final(m).attached@.contains(pid),
        r <==> last % 256 == 127,
        final(m).tracing_state == old(m).tracing_state,
{
    law_children_are_listed_once(old(m).attached@, pid);
}

/// The tracer's companions are restarted from the third start in a row on, and
/// the starts that count are those of the word size that is traced.
pub proof fn law_restart_is_for_repeated_starts(m: Monitor, target: HandoffTarget)
    ensures
        m.restarts(target) <==> (if target is App64 {
            m.counter64.count
        } else {
            m.counter32.count
        }) >= 2,
{
}

/// A zygote is handed to the tracer of its own word size.
pub proof fn law_tracer_has_the_size_of_the_zygote(target: HandoffTarget, path: &'static str)
    requires
        call_ensures(tracer_program, (target,), path),
    ensures
        path@.len() > 2,
        target is App64 <==> path@[path@.len() - 2] == '6' && path@[path@.len() - 1] == '4',
        !(target is App64) <==> path@[path@.len() - 2] == '3' && path@[path@.len() - 1] == '2',
{
    reveal_strlit("./bin/zygisk-ptrace64");
    reveal_strlit("./bin/zygisk-ptrace32");
}

/// Where the daemon does not run the monitor stops, with a reason, and what it
/// knows of the daemons and the zygotes stays.
pub proof fn law_missing_daemon_stops_the_monitor(monitor: &mut Monitor)
    requires
        call_ensures(Monitor::daemon_missing, (monitor,), ()),
    ensures
        final(monitor).tracing_state == TracingState::Stopping,
        final(monitor).stop_reason is Some,
        final(monitor).status64 == old(monitor).status64,
        final(monitor).status32 == old(monitor).status32,
        final(monitor).env64 == old(monitor).env64,
        final(monitor).env32 == old(monitor).env32,
{
}

/// Whoever changed, what is known of the others stays: init changes the state
/// of tracing alone, and only where it is let go; the end of a daemon changes
/// what is known of that daemon, the wider one first; and any other process
/// changes the list of those that are followed.
pub proof fn law_a_change_touches_one_thing(m: &mut Monitor, pid: i32, status: i32, r: ChildAction)
    requires
        call_ensures(Monitor::handle_sigchld_child, (m, pid, status), r),
    ensures
        r is DetachInit ==> final(m).tracing_state == TracingState::Stopped,
        !(r is DetachInit) ==> final(m).tracing_state == old(m).tracing_state,
        pid == 1 ==> final(m).attached == old(m).attached && final(m).status64 == old(m).status64
            && final(m).status32 == old(m).status32,
        pid != 1 ==> !(r is DetachInit),
        r is DaemonEnded ==> final(m).attached == old(m).attached && pid != 1,
        r is DaemonEnded ==> (final(m).status64 == old(m).status64 && !final(m).status32.daemon_running) || (final(m).status32 == old(m).status32 && !final(m).status64.daemon_running),
        !(r is DaemonEnded) ==> final(m).status64 == old(m).status64 && final(m).status32 == old(
            m,
        ).status32,
        r is DaemonEnded ==> final(m).status64.zygote_injected == old(m).status64.zygote_injected
            && final(m).status32.zygote_injected == old(m).status32.zygote_injected,
{
}

/// The tracer is told whom to trace; that a zygote was started again, and that
/// it is a translated one, are told exactly where it is so, in this order.
pub proof fn law_tracer_is_told(m: &Monitor, pid: i32, target: HandoffTarget, args: Vec<String>)
    requires
        call_ensures(Monitor::tracer_args, (m, pid, target), args),
    ensures
        args@.len() >= 3,
        args@[2]@ == decimal(pid as int),
        args@.len() == 3 <==> !m.restarts(target) && !(target is Tango),
        args@.len() == 5 <==> m.restarts(target) && target is Tango,
        args@.len() == 4 ==> (args@[3]@ == "--restart"@ <==> m.restarts(target)),
        args@.len() == 4 ==> (args@[3]@ == "--tango"@ <==> target is Tango),
        args@.len() == 5 ==> args@[3]@ == "--restart"@ && args@[4]@ == "--tango"@,
        args@[0]@.last() == '4' <==> target is App64,
{
    reveal_strlit("--restart");
    reveal_strlit("--tango");
    reveal_strlit("zygisk-ptrace64");
    reveal_strlit("zygisk-ptrace32");
    assert("--restart"@[2] == 'r' && "--tango"@[2] == 't');
    assert("zygisk-ptrace64"@.last() == '4' && "zygisk-ptrace32"@.last() == '2');
}

} // verus!
