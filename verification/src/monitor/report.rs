//! How the monitor reports its state: the status text in the property file
//! and the state file.
use vstd::prelude::*;
use crate::monitor::{Monitor, RezygiskdStatus, TracingState};

verus! {

/// The mark for the monitor itself.
pub open spec fn monitor_mark(state: TracingState) -> Seq<char> {
    match state {
        TracingState::Tracing => "✅"@,
        TracingState::Stopping => "⛔"@,
        TracingState::Stopped => "⛔"@,
        TracingState::Exiting => "❌"@,
    }
}

/// What follows the mark of a daemon that does not run.
pub open spec fn daemon_note(status: RezygiskdStatus) -> Seq<char> {
    if status.daemon_running {
        ""@
    } else {
        match status.daemon_error_info {
            Some(info) => "(ReZygiskd: "@ + info@ + ")"@,
            None => "(ReZygiskd: not running)"@,
        }
    }
}

/// The mark for one word size.
pub open spec fn abi_mark(state: TracingState, status: RezygiskdStatus) -> Seq<char> {
    if state != TracingState::Tracing {
        "❌"@
    } else if status.zygote_injected && status.daemon_running {
        "✅"@
    } else {
        "⚠️"@
    }
}

/// The part of the status text about one word size.
pub open spec fn abi_text(
    state: TracingState,
    head: Seq<char>,
    status: RezygiskdStatus,
) -> Seq<char> {
    if status.supported {
        head + abi_mark(state, status) + daemon_note(status)
    } else {
        ""@
    }
}

/// The whole status text.
pub open spec fn monitor_text(m: Monitor) -> Seq<char> {
    "Monitor: "@ + monitor_mark(m.tracing_state) + abi_text(
        m.tracing_state,
        ", ReZygisk 64-bit: "@,
        m.status64,
    ) + abi_text(m.tracing_state, ", ReZygisk 32-bit: "@, m.status32)
}

/// Appends the part of the status text about one word size.
fn push_abi(out: &mut String, state: TracingState, head: &str, status: &RezygiskdStatus)
    ensures
        final(out)@ == old(out)@ + abi_text(state, head@, *status),
{
    let ghost before = out@;
    proof {
        reveal_strlit("");
    }
    if !status.supported {
        assert(before + ""@ =~= before);
        return;
    }
    out.append(head);
    if state != TracingState::Tracing {
        out.append("❌");
    } else if status.zygote_injected && status.daemon_running {
        out.append("✅");
    } else {
        out.append("⚠️");
    }
    let ghost mark = abi_mark(state, *status);
    assert(out@ =~= before + (head@ + mark));
    if !status.daemon_running {
        match &status.daemon_error_info {
            Some(info) => {
                out.append("(ReZygiskd: ");
                out.append(info.as_str());
                out.append(")");
            },
            None => {
                out.append("(ReZygiskd: not running)");
            },
        }
    }
    assert(out@ =~= before + (head@ + mark + daemon_note(*status)));
}

/// The digit for a flag.
pub open spec fn flag_text(b: bool) -> Seq<char> {
    if b {
        "1"@
    } else {
        "0"@
    }
}

fn push_flag(out: &mut String, b: bool)
    ensures
        final(out)@ == old(out)@ + flag_text(b),
{
    if b {
        out.append("1");
    } else {
        out.append("0");
    }
}

/// The digit for a state.
pub open spec fn state_digit(state: TracingState) -> Seq<char> {
    match state {
        TracingState::Tracing => "0"@,
        TracingState::Stopping => "1"@,
        TracingState::Stopped => "2"@,
        TracingState::Exiting => "3"@,
    }
}

/// A list of quoted names.
pub open spec fn name_list(names: Seq<String>) -> Seq<char>
    decreases names.len(),
{
    if names.len() == 0 {
        ""@
    } else {
        let quoted = "\""@ + names.last()@ + "\""@;
        if names.len() == 1 {
            quoted
        } else {
            name_list(names.drop_last()) + ", "@ + quoted
        }
    }
}

fn push_names(out: &mut String, names: &Vec<String>)
    ensures
        final(out)@ == old(out)@ + name_list(names@),
{
    let ghost before = out@;
    let mut i: usize = 0;
    proof {
        reveal_strlit("");
        assert(before + ""@ =~= before);
        assert(names@.take(0).len() == 0);
    }
    while i < names.len()
        invariant
            0 <= i <= names@.len(),
            out@ == before + name_list(names@.take(i as int)),
        decreases names@.len() - i,
    {
        let ghost done = names@.take(i as int);
        let ghost more = names@.take(i + 1);
        assert(more.drop_last() =~= done);
        if i > 0 {
            out.append(", ");
        }
        out.append("\"");
        out.append(names[i].as_str());
        out.append("\"");
        proof {
            let quoted = "\""@ + names@[i as int]@ + "\""@;
            assert(more.last() == names@[i as int]);
            if i == 0 {
                assert(done.len() == 0);
                reveal_strlit("");
                assert(out@ =~= before + quoted);
            } else {
                assert(out@ =~= before + (name_list(done) + ", "@ + quoted));
            }
        }
        i = i + 1;
    }
    assert(names@.take(i as int) =~= names@);
}

/// The line about a daemon's failure.
pub open spec fn daemon_reason(status: RezygiskdStatus) -> Seq<char> {
    match status.daemon_error_info {
        Some(info) => "      \"reason\": \""@ + info@ + "\",\n"@,
        None => ""@,
    }
}

/// The part of the state file about one daemon.
pub open spec fn daemon_json(
    head: Seq<char>,
    status: RezygiskdStatus,
    names: Seq<String>,
    tail: Seq<char>,
) -> Seq<char> {
    if status.supported {
        head + "      \"state\": "@ + flag_text(status.daemon_running) + ",\n"@ + daemon_reason(
            status,
        ) + "      \"modules\": ["@ + name_list(names) + "]\n    }"@ + tail
    } else {
        ""@
    }
}

fn push_daemon(out: &mut String, head: &str, status: &RezygiskdStatus, names: &Vec<String>, tail: &str)
    ensures
        final(out)@ == old(out)@ + daemon_json(head@, *status, names@, tail@),
{
    let ghost before = out@;
    proof {
        reveal_strlit("");
    }
    if !status.supported {
        assert(before + ""@ =~= before);
        return;
    }
    out.append(head);
    out.append("      \"state\": ");
    push_flag(out, status.daemon_running);
    out.append(",\n");
    let ghost first = head@ + "      \"state\": "@ + flag_text(status.daemon_running) + ",\n"@;
    assert(out@ =~= before + first);
    let ghost note = daemon_reason(*status);
    match &status.daemon_error_info {
        Some(info) => {
            out.append("      \"reason\": \"");
            out.append(info.as_str());
            out.append("\",\n");
        },
        None => {},
    }
    assert(out@ =~= before + (first + note));
    out.append("      \"modules\": [");
    push_names(out, names);
    assert(out@ =~= before + (first + note + "      \"modules\": ["@ + name_list(names@)));
    out.append("]\n    }");
    out.append(tail);
    assert(out@ =~= before + (first + note + "      \"modules\": ["@ + name_list(names@)
        + "]\n    }"@ + tail@));
}

/// The root implementation that is shown.
pub open spec fn shown_root(m: Monitor) -> Seq<char> {
    match m.env64.root_impl {
        Some(s) => s@,
        None => match m.env32.root_impl {
            Some(s) => s@,
            None => ""@,
        },
    }
}

/// A daemon of some word size has been started.
pub open spec fn any_daemon(m: Monitor) -> bool {
    m.status64.supported || m.status32.supported
}

/// The first part of the state file.
pub open spec fn head_json(m: Monitor) -> Seq<char> {
    "{\n  \"root\": \""@ + shown_root(m) + "\",\n  \"monitor\": {\n    \"state\": \""@ + state_digit(
        m.tracing_state,
    ) + "\""@ + (match m.stop_reason {
        Some(reason) => ",\n    \"reason\": \""@ + reason@ + "\",\n"@,
        None => "\n"@,
    }) + (if any_daemon(m) {
        "  },\n"@
    } else {
        "  }\n"@
    })
}

/// The 32-bit zygote is listed.
pub open spec fn lists_zygote32(m: Monitor) -> bool {
    m.status32.supported && m.status32.zygote_injected
}

/// The part of the state file about the zygotes.
pub open spec fn zygote_json(m: Monitor) -> Seq<char> {
    "  \"zygote\": {\n"@ + (if m.status64.supported {
        "    \"64\": "@ + flag_text(m.status64.zygote_injected) + (if lists_zygote32(m) {
            ",\n"@
        } else {
            "\n"@
        })
    } else {
        ""@
    }) + (if lists_zygote32(m) {
        "    \"32\": 1\n"@
    } else {
        ""@
    }) + "  }\n"@
}

/// The whole state file.
pub open spec fn state_json(m: Monitor) -> Seq<char> {
    head_json(m) + (if any_daemon(m) {
        "  \"rezygiskd\": {\n"@ + daemon_json(
            "    \"64\": {\n"@,
            m.status64,
            m.env64.modules@,
            if m.status32.supported {
                ",\n"@
            } else {
                "\n"@
            },
        ) + daemon_json("    \"32\": {\n"@, m.status32, m.env32.modules@, "\n"@) + "  },\n"@
            + zygote_json(m)
    } else {
        ""@
    }) + "}\n"@
}

/// What has to happen to the state file.
#[derive(Clone, Copy, Debug, PartialEq, Eq, Structural)]
pub enum StateFile {
    /// It stays as it is.
    Keep,
    /// It is written anew.
    Write,
    /// It is removed.
    Remove,
}

/// The steps of reporting the state.
#[derive(Clone, Copy, Debug, PartialEq, Eq, Structural)]
pub enum StatusStep {
    /// Write the property file.
    WriteProp,
    /// Write the state file.
    WriteState,
    /// Remove the state file; how that goes makes no difference.
    RemoveState,
    /// It is over; `true` if it succeeded.
    Over(bool),
}

impl Monitor {
    /// The status text: the monitor's own mark, then that of each word size
    /// for which a daemon was started.
    pub fn status_text(&self) -> (out: String)
        ensures
            out@ == monitor_text(*self),
    {
        let mut out = String::new();
        out.append("Monitor: ");
        match self.tracing_state {
            TracingState::Tracing => out.append("✅"),
            TracingState::Stopping => out.append("⛔"),
            TracingState::Stopped => out.append("⛔"),
            TracingState::Exiting => out.append("❌"),
        }
        assert(out@ =~= "Monitor: "@ + monitor_mark(self.tracing_state));
        push_abi(&mut out, self.tracing_state, ", ReZygisk 64-bit: ", &self.status64);
        push_abi(&mut out, self.tracing_state, ", ReZygisk 32-bit: ", &self.status32);
        out
    }

    /// The property file that shows a text in front of the description: a
    /// given message, or the status text.
    pub fn status_payload(&self, message: Option<&str>) -> (out: String)
        ensures
            out@ == self.pre_section@ + "["@ + (match message {
                Some(text) => text@,
                None => monitor_text(*self),
            }) + "] "@ + self.post_section@,
    {
        let mut out = String::new();
        out.append(self.pre_section.as_str());
        out.append("[");
        assert(out@ =~= self.pre_section@ + "["@);
        match message {
            Some(text) => out.append(text),
            None => {
                let text = self.status_text();
                out.append(text.as_str());
            },
        }
        out.append("] ");
        out.append(self.post_section.as_str());
        out
    }

    /// What has to happen to the state file once the property file is
    /// written: a message leaves it alone, and it exists only while some
    /// daemon has reported its root implementation.
    pub fn state_file(&self, message: Option<&str>) -> (r: StateFile)
        ensures
            r == if message is Some {
                StateFile::Keep
            } else if self.env64.root_impl is Some || self.env32.root_impl is Some {
                StateFile::Write
            } else {
                StateFile::Remove
            },
    {
        if message.is_some() {
            StateFile::Keep
        } else if self.env64.root_impl.is_some() || self.env32.root_impl.is_some() {
            StateFile::Write
        } else {
            StateFile::Remove
        }
    }

    /// The step of reporting the state that follows one that succeeded or not:
    /// the state file is touched only once the property file is written.
    pub fn update_status(&self, step: StatusStep, message: Option<&str>, ok: bool) -> (r: StatusStep)
        ensures
            r == match step {
                StatusStep::WriteProp => if !ok {
                    StatusStep::Over(false)
                } else if message is Some {
                    StatusStep::Over(true)
                } else if self.env64.root_impl is Some || self.env32.root_impl is Some {
                    StatusStep::WriteState
                } else {
                    StatusStep::RemoveState
                },
                StatusStep::WriteState => StatusStep::Over(ok),
                StatusStep::RemoveState => StatusStep::Over(true),
                StatusStep::Over(done) => StatusStep::Over(done),
            },
    {
        match step {
            StatusStep::WriteProp => if !ok {
                StatusStep::Over(false)
            } else {
                match self.state_file(message) {
                    StateFile::Keep => StatusStep::Over(true),
                    StateFile::Write => StatusStep::WriteState,
                    StateFile::Remove => StatusStep::RemoveState,
                }
            },
            StatusStep::WriteState => StatusStep::Over(ok),
            StatusStep::RemoveState => StatusStep::Over(true),
            StatusStep::Over(done) => StatusStep::Over(done),
        }
    }

    fn push_head(&self, out: &mut String)
        ensures
            final(out)@ == old(out)@ + head_json(*self),
    {
        let ghost before = out@;
        out.append("{\n  \"root\": \"");
        match &self.env64.root_impl {
            Some(root) => out.append(root.as_str()),
            None => match &self.env32.root_impl {
                Some(root) => out.append(root.as_str()),
                None => out.append(""),
            },
        }
        out.append("\",\n  \"monitor\": {\n    \"state\": \"");
        let ghost a = "{\n  \"root\": \""@ + shown_root(*self)
            + "\",\n  \"monitor\": {\n    \"state\": \""@;
        assert(out@ =~= before + a);
        match self.tracing_state {
            TracingState::Tracing => out.append("0"),
            TracingState::Stopping => out.append("1"),
            TracingState::Stopped => out.append("2"),
            TracingState::Exiting => out.append("3"),
        }
        out.append("\"");
        let ghost b = a + state_digit(self.tracing_state) + "\""@;
        assert(out@ =~= before + b);
        let ghost c = match self.stop_reason {
            Some(reason) => ",\n    \"reason\": \""@ + reason@ + "\",\n"@,
            None => "\n"@,
        };
        match self.stop_reason {
            Some(reason) => {
                out.append(",\n    \"reason\": \"");
                out.append(reason);
                out.append("\",\n");
            },
            None => {
                out.append("\n");
            },
        }
        assert(out@ =~= before + (b + c));
        if self.status64.supported || self.status32.supported {
            out.append("  },\n");
        } else {
            out.append("  }\n");
        }
        assert(out@ =~= before + head_json(*self));
    }

    fn push_zygotes(&self, out: &mut String)
        ensures
            final(out)@ == old(out)@ + zygote_json(*self),
    {
        let ghost before = out@;
        let listed = self.status32.supported && self.status32.zygote_injected;
        proof {
            reveal_strlit("");
        }
        out.append("  \"zygote\": {\n");
        let ghost a = if self.status64.supported {
            "    \"64\": "@ + flag_text(self.status64.zygote_injected) + (if lists_zygote32(*self) {
                ",\n"@
            } else {
                "\n"@
            })
        } else {
            ""@
        };
        if self.status64.supported {
            out.append("    \"64\": ");
            push_flag(out, self.status64.zygote_injected);
            if listed {
                out.append(",\n");
            } else {
                out.append("\n");
            }
        }
        assert(out@ =~= before + ("  \"zygote\": {\n"@ + a));
        if listed {
            out.append("    \"32\": 1\n");
        }
        out.append("  }\n");
        assert(out@ =~= before + zygote_json(*self));
    }

    /// The state file.
    pub fn build_state_json(&self) -> (json: String)
        ensures
            json@ == state_json(*self),
    {
        let mut out = String::new();
        self.push_head(&mut out);
        let ghost a = head_json(*self);
        assert(out@ =~= a);
        proof {
            reveal_strlit("");
        }
        if self.status64.supported || self.status32.supported {
            out.append("  \"rezygiskd\": {\n");
            let tail = if self.status32.supported {
                ",\n"
            } else {
                "\n"
            };
            push_daemon(&mut out, "    \"64\": {\n", &self.status64, &self.env64.modules, tail);
            let ghost d64 = daemon_json("    \"64\": {\n"@, self.status64, self.env64.modules@, tail@);
            assert(out@ =~= a + ("  \"rezygiskd\": {\n"@ + d64));
            push_daemon(&mut out, "    \"32\": {\n", &self.status32, &self.env32.modules, "\n");
            let ghost d32 = daemon_json("    \"32\": {\n"@, self.status32, self.env32.modules@, "\n"@);
            assert(out@ =~= a + ("  \"rezygiskd\": {\n"@ + d64 + d32));
            out.append("  },\n");
            self.push_zygotes(&mut out);
            assert(out@ =~= a + ("  \"rezygiskd\": {\n"@ + d64 + d32 + "  },\n"@ + zygote_json(*self)));
        } else {
            assert(out@ =~= a + ""@);
        }
        out.append("}\n");
        out
    }
}

/// While the monitor traces, a supported word size is shown as good exactly
/// where its zygote is injected and its daemon runs; else it carries the
/// warning. While the monitor does not trace, it is shown as off, whatever its
/// state.
pub proof fn law_good_mark_means_injected(
    state: TracingState,
    head: Seq<char>,
    status: RezygiskdStatus,
)
    requires
        status.supported,
    ensures
        ({
            let text = abi_text(state, head, status);
            let good = status.zygote_injected && status.daemon_running;
            &&& text.len() > head.len()
            &&& text.take(head.len() as int) == head
            &&& text[head.len() as int] == '✅' <==> state is Tracing && good
            &&& text[head.len() as int] == '⚠' <==> state is Tracing && !good
            &&& text[head.len() as int] == '❌' <==> !(state is Tracing)
        }),
{
    reveal_strlit("✅");
    reveal_strlit("⚠️");
    reveal_strlit("❌");
    let text = abi_text(state, head, status);
    assert(text.take(head.len() as int) =~= head);
    assert(text[head.len() as int] == abi_mark(state, status)[0]);
}

/// What is said of a word size's daemon follows its mark: nothing while the
/// daemon runs, else that it does not, with its own words where it left any.
pub proof fn law_stopped_daemon_is_told(
    state: TracingState,
    head: Seq<char>,
    status: RezygiskdStatus,
)
    requires
        status.supported,
    ensures
        ({
            let text = abi_text(state, head, status);
            &&& text.last() == ')' <==> !status.daemon_running
            &&& status.daemon_running ==> text.len() <= head.len() + 2
            &&& !status.daemon_running && status.daemon_error_info is Some ==> exists|mark: Seq<
                char,
            >|
                text == head + mark + "(ReZygiskd: "@ + status.daemon_error_info->0@ + ")"@
            &&& !status.daemon_running && status.daemon_error_info is None ==> exists|mark: Seq<
                char,
            >|
                text == head + mark + "(ReZygiskd: not running)"@
        }),
{
    reveal_strlit("✅");
    reveal_strlit("⚠️");
    reveal_strlit("❌");
    reveal_strlit("");
    reveal_strlit(")");
    reveal_strlit("(ReZygiskd: not running)");
    let text = abi_text(state, head, status);
    let mark = abi_mark(state, status);
    if !status.daemon_running {
        match status.daemon_error_info {
            Some(info) => {
                assert(text =~= head + mark + "(ReZygiskd: "@ + info@ + ")"@);
            },
            None => {
                assert(text =~= head + mark + "(ReZygiskd: not running)"@);
            },
        }
    }
}

/// A word size without a daemon is not mentioned, and each that has one is, the
/// wider one first, behind the monitor's own mark.
pub proof fn law_text_names_what_is_supported(m: Monitor)
    ensures
        ({
            let own = "Monitor: "@ + monitor_mark(m.tracing_state);
            let wide = abi_text(m.tracing_state, ", ReZygisk 64-bit: "@, m.status64);
            let narrow = abi_text(m.tracing_state, ", ReZygisk 32-bit: "@, m.status32);
            &&& !m.status64.supported && !m.status32.supported ==> monitor_text(m) == own
            &&& m.status64.supported && !m.status32.supported ==> monitor_text(m) == own + wide
            &&& !m.status64.supported && m.status32.supported ==> monitor_text(m) == own + narrow
            &&& m.status64.supported && m.status32.supported ==> monitor_text(m) == own + wide
                + narrow
        }),
{
    reveal_strlit("");
    let own = "Monitor: "@ + monitor_mark(m.tracing_state);
    let wide = abi_text(m.tracing_state, ", ReZygisk 64-bit: "@, m.status64);
    let narrow = abi_text(m.tracing_state, ", ReZygisk 32-bit: "@, m.status32);
    assert(own + ""@ =~= own);
    assert(own + ""@ + narrow =~= own + narrow);
    assert(own + wide + ""@ =~= own + wide);
    assert(monitor_text(m) =~= own + wide + narrow);
}

/// The monitor's own mark is good exactly while it traces; one that exits is
/// told apart from one that only stopped.
pub proof fn law_monitor_mark_shows_its_state(state: TracingState)
    ensures
        monitor_mark(state).len() == 1,
        monitor_mark(state)[0] == '✅' <==> state is Tracing,
        monitor_mark(state)[0] == '❌' <==> state is Exiting,
        monitor_mark(state)[0] == '⛔' <==> state is Stopping || state is Stopped,
{
    reveal_strlit("✅");
    reveal_strlit("⛔");
    reveal_strlit("❌");
}

/// The property file shows a message, or else the status, in brackets in front
/// of the description; taking that out again gives the file as it was read.
pub proof fn law_payload_keeps_the_file(m: &Monitor, message: Option<&str>, out: String)
    requires
        call_ensures(Monitor::status_payload, (m, message), out),
    ensures
        ({
            let text = match message {
                Some(t) => t@,
                None => monitor_text(*m),
            };
            let n = m.pre_section@.len() as int;
            let k = n + 3 + text.len();
            &&& out@.take(n) == m.pre_section@
            &&& out@[n] == '['
            &&& out@.subrange(n + 1, k - 2) == text
            &&& out@[k - 2] == ']'
            &&& out@[k - 1] == ' '
            &&& out@.skip(k) == m.post_section@
        }),
{
    reveal_strlit("[");
    reveal_strlit("] ");
    let text = match message {
        Some(t) => t@,
        None => monitor_text(*m),
    };
    let n = m.pre_section@.len() as int;
    let k = n + 3 + text.len();
    assert(out@.take(n) =~= m.pre_section@);
    assert(out@.subrange(n + 1, k - 2) =~= text);
    assert(out@.skip(k) =~= m.post_section@);
}

/// The state file is written exactly where the status is reported and some
/// daemon said what it found, and removed where none did; a message leaves it
/// alone. It is touched only after the property file was written.
pub proof fn law_state_file_follows_the_daemons(
    m: &Monitor,
    message: Option<&str>,
    file: StateFile,
    step: StatusStep,
    ok: bool,
    next: StatusStep,
)
    requires
        call_ensures(Monitor::state_file, (m, message), file),
        call_ensures(Monitor::update_status, (m, step, message, ok), next),
    ensures
        ({
            let found = m.env64.root_impl is Some || m.env32.root_impl is Some;
            &&& file is Keep <==> message is Some
            &&& file is Write <==> message is None && found
            &&& file is Remove <==> message is None && !found
            &&& next is WriteState <==> step is WriteProp && ok && file is Write
            &&& next is RemoveState <==> step is WriteProp && ok && file is Remove
            &&& !(next is WriteProp)
            &&& step is WriteProp && !ok ==> next == StatusStep::Over(false)
            &&& step is WriteProp && ok && file is Keep ==> next == StatusStep::Over(true)
            &&& step is WriteState ==> next == StatusStep::Over(ok)
            &&& step is RemoveState ==> next == StatusStep::Over(true)
            &&& step is Over ==> next == step
        }),
{
}

/// A list of names has each of them in quotes, in order and apart by commas:
/// adding a name adds just that.
pub proof fn law_names_are_listed_in_order(names: Seq<String>, name: String)
    ensures
        name_list(seq![]) == Seq::<char>::empty(),
        name_list(seq![name]) == seq!['"'] + name@ + seq!['"'],
        names.len() > 0 ==> name_list(names.push(name)) == name_list(names) + seq![',', ' ', '"']
            + name@ + seq!['"'],
{
    reveal_strlit("");
    reveal_strlit("\"");
    reveal_strlit(", ");
    let one = seq![name];
    assert(one.last() == name);
    assert(name_list(seq![]) =~= Seq::<char>::empty());
    assert(name_list(one) =~= seq!['"'] + name@ + seq!['"']);
    let more = names.push(name);
    assert(more.drop_last() =~= names);
    assert(more.last() == name);
    if names.len() > 0 {
        assert(name_list(more) =~= name_list(names) + seq![',', ' ', '"'] + name@ + seq!['"']);
    }
}

/// The state file shows the root implementation that a daemon found; that of the
/// wider one goes first.
pub proof fn law_root_is_shown(m: Monitor)
    ensures
        m.env64.root_impl matches Some(s) ==> shown_root(m) == s@,
        m.env64.root_impl is None && m.env32.root_impl is Some ==> shown_root(m)
            == m.env32.root_impl->0@,
        m.env64.root_impl is None && m.env32.root_impl is None ==> shown_root(m).len() == 0,
{
    reveal_strlit("");
}

/// The digits of the states are their numbers, each its own.
pub proof fn law_states_have_digits(a: TracingState, b: TracingState)
    ensures
        state_digit(a) == state_digit(b) ==> a == b,
        state_digit(a).len() == 1,
        state_digit(a)[0] == match a {
            TracingState::Tracing => '0',
            TracingState::Stopping => '1',
            TracingState::Stopped => '2',
            TracingState::Exiting => '3',
        },
{
    reveal_strlit("0");
    reveal_strlit("1");
    reveal_strlit("2");
    reveal_strlit("3");
    assert(state_digit(a)[0] == state_digit(b)[0] ==> a == b);
}

/// A flag is shown as the digit one where it is set, else as zero.
pub proof fn law_flags_are_shown(b: bool)
    ensures
        flag_text(b) == seq![
            if b {
                '1'
            } else {
                '0'
            },
        ],
{
    reveal_strlit("0");
    reveal_strlit("1");
    assert(flag_text(b) =~= seq![
        if b {
            '1'
        } else {
            '0'
        },
    ]);
}

/// The part of the state file about a daemon shows whether it runs, its own
/// reason where it gave one, and its modules, and is there exactly for a daemon
/// that was started.
pub proof fn law_daemon_part_shows_the_daemon(
    head: Seq<char>,
    status: RezygiskdStatus,
    names: Seq<String>,
    tail: Seq<char>,
)
    ensures
        !status.supported ==> daemon_json(head, status, names, tail).len() == 0,
        status.supported && status.daemon_error_info is None ==> daemon_json(
            head,
            status,
            names,
            tail,
        ) == head + "      \"state\": "@ + seq![
            if status.daemon_running {
                '1'
            } else {
                '0'
            },
        ] + ",\n      \"modules\": ["@ + name_list(names) + "]\n    }"@ + tail,
        status.supported && status.daemon_error_info is Some ==> daemon_json(
            head,
            status,
            names,
            tail,
        ) == head + "      \"state\": "@ + seq![
            if status.daemon_running {
                '1'
            } else {
                '0'
            },
        ] + ",\n      \"reason\": \""@ + status.daemon_error_info->0@ + "\",\n      \"modules\": ["@
            + name_list(names) + "]\n    }"@ + tail,
{
    reveal_strlit("");
    reveal_strlit(",\n");
    reveal_strlit(",\n      \"modules\": [");
    reveal_strlit("      \"modules\": [");
    reveal_strlit("      \"reason\": \"");
    reveal_strlit("\",\n");
    reveal_strlit(",\n      \"reason\": \"");
    reveal_strlit("\",\n      \"modules\": [");
    law_flags_are_shown(status.daemon_running);
    let part = daemon_json(head, status, names, tail);
    let digit = seq![
        if status.daemon_running {
            '1'
        } else {
            '0'
        },
    ];
    if status.supported {
        match status.daemon_error_info {
            None => {
                assert(part =~= head + "      \"state\": "@ + digit + ",\n      \"modules\": ["@
                    + name_list(names) + "]\n    }"@ + tail);
            },
            Some(info) => {
                assert(part =~= head + "      \"state\": "@ + digit + ",\n      \"reason\": \""@
                    + info@ + "\",\n      \"modules\": ["@ + name_list(names) + "]\n    }"@
                    + tail);
            },
        }
    }
}

/// The zygote of a started 64-bit daemon is shown, injected or not; the 32-bit
/// one only once it is injected, behind it.
pub proof fn law_zygotes_are_shown(m: Monitor)
    ensures
        ({
            let wide = m.status64.supported;
            let narrow = m.status32.supported && m.status32.zygote_injected;
            let open = "  \"zygote\": {\n"@;
            let first = "    \"64\": "@ + flag_text(m.status64.zygote_injected);
            let second = "    \"32\": 1\n"@;
            let close = "  }\n"@;
            &&& !wide && !narrow ==> zygote_json(m) == open + close
            &&& wide && !narrow ==> zygote_json(m) == open + first + "\n"@ + close
            &&& !wide && narrow ==> zygote_json(m) == open + second + close
            &&& wide && narrow ==> zygote_json(m) == open + first + ",\n"@ + second + close
        }),
{
    reveal_strlit("");
    let wide = m.status64.supported;
    let narrow = m.status32.supported && m.status32.zygote_injected;
    let open = "  \"zygote\": {\n"@;
    let first = "    \"64\": "@ + flag_text(m.status64.zygote_injected);
    let second = "    \"32\": 1\n"@;
    let close = "  }\n"@;
    let text = zygote_json(m);
    if !wide && !narrow {
        assert(text =~= open + close);
    } else if wide && !narrow {
        assert(text =~= open + first + "\n"@ + close);
    } else if !wide && narrow {
        assert(text =~= open + second + close);
    } else {
        assert(text =~= open + first + ",\n"@ + second + close);
    }
}

/// The state file shows everything that is known: it opens with the monitor's
/// own part and, where a daemon was started, holds the part of each daemon,
/// the wider first, and then the zygotes; without a daemon it ends there.
pub proof fn law_state_file_holds_all_parts(m: &Monitor, out: String)
    requires
        call_ensures(Monitor::build_state_json, (m,), out),
    ensures
        ({
            let head = head_json(*m);
            let wide = daemon_json(
                "    \"64\": {\n"@,
                m.status64,
                m.env64.modules@,
                if m.status32.supported {
                    ",\n"@
                } else {
                    "\n"@
                },
            );
            let narrow = daemon_json("    \"32\": {\n"@, m.status32, m.env32.modules@, "\n"@);
            &&& head.is_prefix_of(out@)
            &&& !m.status64.supported && !m.status32.supported ==> out@ == head + "}\n"@
            &&& m.status64.supported || m.status32.supported ==> out@ == head
                + "  \"rezygiskd\": {\n"@ + wide + narrow + "  },\n"@ + zygote_json(*m) + "}\n"@
        }),
{
    reveal_strlit("");
    let head = head_json(*m);
    let wide = daemon_json(
        "    \"64\": {\n"@,
        m.status64,
        m.env64.modules@,
        if m.status32.supported {
            ",\n"@
        } else {
            "\n"@
        },
    );
    let narrow = daemon_json("    \"32\": {\n"@, m.status32, m.env32.modules@, "\n"@);
    if m.status64.supported || m.status32.supported {
        assert(out@ =~= head + "  \"rezygiskd\": {\n"@ + wide + narrow + "  },\n"@ + zygote_json(*m)
            + "}\n"@);
    } else {
        assert(out@ =~= head + "}\n"@);
    }
}

/// The reason for which the monitor stopped is shown, as it is, exactly if
/// there is one: two states of the monitor that differ in it alone have
/// different parts.
pub proof fn law_reason_is_shown(m: Monitor, reason: &'static str)
    requires
        m.stop_reason == Some(reason),
    ensures
        exists|i: int|
            0 <= i && i + reason@.len() <= head_json(m).len() && #[trigger] head_json(m).subrange(
                i,
                i + reason@.len(),
            ) == reason@,
        head_json(m).len() == head_json(Monitor { stop_reason: None, ..m }).len()
            + ",\n    \"reason\": \""@.len() + reason@.len() + 2,
{
    let none = Monitor { stop_reason: None, ..m };
    let a = "{\n  \"root\": \""@ + shown_root(m)
        + "\",\n  \"monitor\": {\n    \"state\": \""@ + state_digit(m.tracing_state) + "\""@;
    let b = ",\n    \"reason\": \""@;
    let i = (a.len() + b.len()) as int;
    let s = head_json(m);
    reveal_strlit("\",\n");
    reveal_strlit("\n");
    assert(shown_root(none) == shown_root(m));
    assert(s.subrange(i, i + reason@.len()) =~= reason@);
}

/// The first part of the state file ends in a comma exactly if another part
/// follows it.
pub proof fn law_head_is_continued(m: Monitor)
    ensures
        ({
            let s = head_json(m);
            let n = s.len() as int;
            &&& n >= 4
            &&& s[n - 1] == '\n'
            &&& s[n - 2] == ',' <==> m.status64.supported || m.status32.supported
            &&& s[n - 2] == '}' <==> !m.status64.supported && !m.status32.supported
        }),
{
    reveal_strlit("  },\n");
    reveal_strlit("  }\n");
    let open = "{\n  \"root\": \""@ + shown_root(m)
        + "\",\n  \"monitor\": {\n    \"state\": \""@ + state_digit(m.tracing_state) + "\""@ + (
    match m.stop_reason {
        Some(reason) => ",\n    \"reason\": \""@ + reason@ + "\",\n"@,
        None => "\n"@,
    });
    let k = open.len() as int;
    let s = head_json(m);
    if any_daemon(m) {
        let tail = "  },\n"@;
        assert(s == open + tail);
        assert(tail.len() == 5 && tail[3] == ',' && tail[4] == '\n');
        assert(s[k + 3] == tail[3] && s[k + 4] == tail[4]);
    } else {
        let tail = "  }\n"@;
        assert(s == open + tail);
        assert(tail.len() == 4 && tail[2] == '}' && tail[3] == '\n');
        assert(s[k + 2] == tail[2] && s[k + 3] == tail[3]);
    }
}

} // verus!
