//! The monitor: it follows init, hands every zygote that starts to a tracer,
//! keeps the daemons alive and reports its own state.
use vstd::prelude::*;

pub mod children;
pub mod control;
pub mod prop;
pub mod report;

verus! {

/// A command of the control socket.
#[derive(Clone, Copy, Debug, PartialEq, Eq, Structural)]
pub enum RezygiskdCommand {
    /// Trace init again.
    Start,
    /// Stop tracing init.
    Stop,
    /// Leave.
    Exit,
    /// The 64-bit zygote holds the library.
    Zygote64Injected,
    /// The 32-bit zygote holds the library.
    Zygote32Injected,
    /// What the 64-bit daemon found.
    Daemon64SetInfo,
    /// What the 32-bit daemon found.
    Daemon32SetInfo,
    /// Why the 64-bit daemon failed.
    Daemon64SetErrorInfo,
    /// Why the 32-bit daemon failed.
    Daemon32SetErrorInfo,
}

/// The byte that stands for a command.
pub open spec fn command_byte(cmd: RezygiskdCommand) -> u8 {
    match cmd {
        RezygiskdCommand::Start => 1,
        RezygiskdCommand::Stop => 2,
        RezygiskdCommand::Exit => 3,
        RezygiskdCommand::Zygote64Injected => 4,
        RezygiskdCommand::Zygote32Injected => 5,
        RezygiskdCommand::Daemon64SetInfo => 6,
        RezygiskdCommand::Daemon32SetInfo => 7,
        RezygiskdCommand::Daemon64SetErrorInfo => 8,
        RezygiskdCommand::Daemon32SetErrorInfo => 9,
    }
}

impl RezygiskdCommand {
    /// The byte that stands for the command on the wire.
    pub fn value(self) -> (b: u8)
        ensures
            b == command_byte(self),
    {
        match self {
            RezygiskdCommand::Start => 1,
            RezygiskdCommand::Stop => 2,
            RezygiskdCommand::Exit => 3,
            RezygiskdCommand::Zygote64Injected => 4,
            RezygiskdCommand::Zygote32Injected => 5,
            RezygiskdCommand::Daemon64SetInfo => 6,
            RezygiskdCommand::Daemon32SetInfo => 7,
            RezygiskdCommand::Daemon64SetErrorInfo => 8,
            RezygiskdCommand::Daemon32SetErrorInfo => 9,
        }
    }
}

/// No two commands share a byte.
pub proof fn law_commands_are_distinct(a: RezygiskdCommand, b: RezygiskdCommand)
    ensures
        command_byte(a) == command_byte(b) ==> a == b,
{
}

/// What the monitor does with init.
#[derive(Clone, Copy, Debug, PartialEq, Eq, Structural)]
pub enum TracingState {
    /// It follows init.
    Tracing,
    /// It waits for init to stop so that it can let go.
    Stopping,
    /// It has let go of init.
    Stopped,
    /// It is about to leave.
    Exiting,
}

/// What is known of one daemon.
pub struct RezygiskdStatus {
    /// A daemon of this word size has been started.
    pub supported: bool,
    /// The zygote of this word size holds the library.
    pub zygote_injected: bool,
    /// The daemon runs.
    pub daemon_running: bool,
    /// The daemon's process, or -1.
    pub daemon_pid: i32,
    /// Why the daemon failed.
    pub daemon_error_info: Option<String>,
}

impl RezygiskdStatus {
    /// The reason for the failure as text.
    pub open spec fn error_text(self) -> Option<Seq<char>> {
        match self.daemon_error_info {
            Some(s) => Some(s@),
            None => None,
        }
    }
}

impl Default for RezygiskdStatus {
    fn default() -> (s: Self)
        ensures
            !s.supported,
            !s.zygote_injected,
            !s.daemon_running,
            s.daemon_pid == -1,
            s.daemon_error_info is None,
    {
        RezygiskdStatus {
            supported: false,
            zygote_injected: false,
            daemon_running: false,
            daemon_pid: -1,
            daemon_error_info: None,
        }
    }
}

/// What one daemon reported.
pub struct EnvironmentInformation {
    /// The root implementation that it found.
    pub root_impl: Option<String>,
    /// The names of the modules that it serves.
    pub modules: Vec<String>,
}

impl Default for EnvironmentInformation {
    fn default() -> (e: Self)
        ensures
            e.root_impl is None,
            e.modules@.len() == 0,
    {
        EnvironmentInformation { root_impl: None, modules: Vec::new() }
    }
}

/// So many restarts in a row stop the injection.
pub const MAX_RETRY_COUNT: i32 = 5;

/// A restart counts when it comes within so many nanoseconds of the last.
pub const RESTART_WINDOW: u64 = 30_000_000_000;

/// Counts the restarts of a zygote that come close after one another.
pub struct ZygoteStartCounter {
    /// When the zygote last started, in nanoseconds of a monotonic clock.
    pub last: Option<u64>,
    /// Restarts in a row.
    pub count: i32,
}

/// The count after a start at `now`.
pub open spec fn next_count(last: Option<u64>, count: i32, now: u64) -> i32 {
    match last {
        Some(t) => if now < t + RESTART_WINDOW {
            if count < i32::MAX {
                (count + 1) as i32
            } else {
                count
            }
        } else {
            0
        },
        None => 0,
    }
}

impl ZygoteStartCounter {
    /// A counter that has seen no start.
    pub fn new() -> (c: Self)
        ensures
            c.last is None,
            c.count == 0,
    {
        ZygoteStartCounter { last: None, count: 0 }
    }

    /// Notes a start at `now` and says whether injection has to stop.
    pub fn should_stop_inject(&mut self, now: u64) -> (stop: bool)
        ensures
            final(self).last == Some(now),
            final(self).count == next_count(old(self).last, old(self).count, now),
            stop == (final(self).count >= MAX_RETRY_COUNT),
    {
        match self.last {
            Some(last) => {
                let near = now < last || now - last < RESTART_WINDOW;
                if near {
                    if self.count < i32::MAX {
                        self.count = self.count + 1;
                    }
                } else {
                    self.count = 0;
                }
            },
            None => {
                self.count = 0;
            },
        }
        self.last = Some(now);
        self.count >= MAX_RETRY_COUNT
    }
}

/// The count after starts at the given times, on a counter that had seen none.
pub open spec fn count_after(times: Seq<u64>) -> i32
    decreases times.len(),
{
    if times.len() <= 1 {
        0
    } else {
        next_count(
            Some(times[times.len() - 2]),
            count_after(times.drop_last()),
            times.last(),
        )
    }
}

/// Starts that each come within the window of the one before: none of the
/// first five stops the injection, every later one does.
pub proof fn law_sixth_rapid_start_stops(times: Seq<u64>)
    requires
        1 <= times.len() <= i32::MAX,
        forall|i: int|
            1 <= i < times.len() ==> (#[trigger] times[i]) < times[i - 1] + RESTART_WINDOW,
    ensures
        count_after(times) == times.len() - 1,
        (count_after(times) >= MAX_RETRY_COUNT) == (times.len() >= 6),
    decreases times.len(),
{
    if times.len() > 1 {
        let before = times.drop_last();
        assert forall|i: int| 1 <= i < before.len() implies (#[trigger] before[i]) < before[i - 1]
            + RESTART_WINDOW by {
            assert(times[i] < times[i - 1] + RESTART_WINDOW);
        }
        law_sixth_rapid_start_stops(before);
        assert(times[times.len() - 1] < times[times.len() - 1 - 1] + RESTART_WINDOW);
    }
}

/// A start that comes late never stops the injection.
pub proof fn law_late_start_clears(last: u64, count: i32, now: u64)
    requires
        now >= last + RESTART_WINDOW,
    ensures
        next_count(Some(last), count, now) == 0,
{
}

/// The monitor.
pub struct Monitor {
    /// What it does with init.
    pub tracing_state: TracingState,
    /// Why it stopped.
    pub stop_reason: Option<&'static str>,
    /// Its event loop goes on.
    pub events_running: bool,
    /// The 64-bit daemon.
    pub status64: RezygiskdStatus,
    /// The 32-bit daemon.
    pub status32: RezygiskdStatus,
    /// What the 64-bit daemon reported.
    pub env64: EnvironmentInformation,
    /// What the 32-bit daemon reported.
    pub env32: EnvironmentInformation,
    /// Starts of the 64-bit zygote.
    pub counter64: ZygoteStartCounter,
    /// Starts of the 32-bit zygote.
    pub counter32: ZygoteStartCounter,
    /// Children of init that have not run a program yet; zero marks a free place.
    pub attached: Vec<i32>,
    /// The property file up to the description's value.
    pub pre_section: String,
    /// The property file from the description's value on.
    pub post_section: String,
}

impl Monitor {
    /// The reason as text.
    pub open spec fn reason(self) -> Option<Seq<char>> {
        match self.stop_reason {
            Some(s) => Some(s@),
            None => None,
        }
    }

    /// A monitor that has seen nothing.
    pub fn new() -> (m: Self)
        ensures
            m.tracing_state == TracingState::Tracing,
            m.stop_reason is None,
            m.events_running,
            !m.status64.supported,
            !m.status64.zygote_injected,
            !m.status64.daemon_running,
            m.status64.daemon_pid == -1,
            m.status64.daemon_error_info is None,
            !m.status32.supported,
            !m.status32.zygote_injected,
            !m.status32.daemon_running,
            m.status32.daemon_pid == -1,
            m.status32.daemon_error_info is None,
            m.env64.root_impl is None,
            m.env64.modules@.len() == 0,
            m.env32.root_impl is None,
            m.env32.modules@.len() == 0,
            m.counter64.last is None,
            m.counter64.count == 0,
            m.counter32.last is None,
            m.counter32.count == 0,
            m.attached@.len() == 0,
            m.pre_section@.len() == 0,
            m.post_section@.len() == 0,
    {
        Monitor {
            tracing_state: TracingState::Tracing,
            stop_reason: None,
            events_running: true,
            status64: RezygiskdStatus::default(),
            status32: RezygiskdStatus::default(),
            env64: EnvironmentInformation::default(),
            env32: EnvironmentInformation::default(),
            counter64: ZygoteStartCounter::new(),
            counter32: ZygoteStartCounter::new(),
            attached: Vec::new(),
            pre_section: String::new(),
            post_section: String::new(),
        }
    }
}

/// A start counts up exactly where it comes less than thirty seconds after the
/// one before; a first start, or a later one, starts the count anew.
pub proof fn law_restart_window(last: u64, count: i32, now: u64)
    requires
        0 <= count < i32::MAX,
    ensures
        now - last < 30_000_000_000 ==> next_count(Some(last), count, now) == count + 1,
        now - last >= 30_000_000_000 ==> next_count(Some(last), count, now) == 0,
        next_count(None, count, now) == 0,
{
}

/// A start is noted with its time, and stops the injection exactly where it is
/// at least the fifth in a row that came too soon.
pub proof fn law_start_is_noted(c: &mut ZygoteStartCounter, now: u64, stop: bool)
    requires
        call_ensures(ZygoteStartCounter::should_stop_inject, (c, now), stop),
        0 <= old(c).count < i32::MAX,
    ensures
        final(c).last == Some(now),
        stop <==> (old(c).last matches Some(t) && now - t < 30_000_000_000 && old(c).count >= 4),
        final(c).count == 0 || final(c).count == old(c).count + 1,
{
}

} // verus!
