//! The command line of the tracer program.
use vstd::prelude::*;
use crate::monitor::RezygiskdCommand;
use crate::text::{
    blank, decimal, digit_value, digits, digits_value, is_blank, law_number_reads_back,
    parse_digits, same_text, skip_blanks, to_chars, trim_end, trim_start,
};

verus! {

/// A text without blanks at either end.
pub open spec fn trimmed(s: Seq<char>) -> Seq<char> {
    trim_end(trim_start(s))
}

/// The sign and what follows it.
pub open spec fn sign_split(s: Seq<char>) -> (bool, Seq<char>) {
    if s.len() > 0 && s[0] == '-' {
        (true, s.skip(1))
    } else if s.len() > 0 && s[0] == '+' {
        (false, s.skip(1))
    } else {
        (false, s)
    }
}

/// The base of a number and its digits: sixteen after `0x`, eight after a
/// zero that is not the whole number, else ten.
pub open spec fn base_split(s: Seq<char>) -> (nat, Seq<char>) {
    if s.len() >= 2 && s[0] == '0' && (s[1] == 'x' || s[1] == 'X') {
        (16, s.skip(2))
    } else if s.len() > 1 && s[0] == '0' {
        (8, s.skip(1))
    } else {
        (10, s)
    }
}

/// The process number that a text denotes: blanks aside, one sign at most, and
/// after it at least one digit and nothing but digits of the base.
pub open spec fn pid_value(text: Seq<char>) -> Option<i32> {
    let (negative, unsigned) = sign_split(trimmed(text));
    let (base, digits) = base_split(unsigned);
    if digits.len() == 0 {
        None
    } else {
        match digits_value(digits, base) {
            Some(m) => {
                let v = if negative {
                    -m
                } else {
                    m as int
                };
                if i32::MIN <= v <= i32::MAX {
                    Some(v as i32)
                } else {
                    None
                }
            },
            None => None,
        }
    }
}

/// The end of a text without the blanks at its end.
fn trimmed_end(s: &Vec<char>, from: usize) -> (to: usize)
    requires
        from <= s@.len(),
    ensures
        from <= to <= s@.len(),
        s@.subrange(from as int, to as int) == trim_end(s@.skip(from as int)),
{
    let mut to: usize = s.len();
    assert(s@.subrange(from as int, to as int) =~= s@.skip(from as int));
    while to > from && blank(s[to - 1])
        invariant
            from <= to <= s@.len(),
            trim_end(s@.skip(from as int)) == trim_end(s@.subrange(from as int, to as int)),
        decreases to,
    {
        let ghost part = s@.subrange(from as int, to as int);
        assert(part.last() == s@[to - 1]);
        assert(part.drop_last() =~= s@.subrange(from as int, to - 1));
        to = to - 1;
    }
    proof {
        let part = s@.subrange(from as int, to as int);
        if to > from {
            assert(part.last() == s@[to - 1]);
        }
    }
    to
}

/// The process number that a text denotes: an optional sign, then a
/// hexadecimal, octal or decimal number, and nothing else but blanks around.
pub fn parse_pid(text: &str) -> (r: Option<i32>)
    ensures
        r == pid_value(text@),
{
    let s = to_chars(text);
    assert(s@.skip(0) =~= s@);
    let start: usize = skip_blanks(&s, 0);
    let to: usize = trimmed_end(&s, start);
    let ghost t = trimmed(text@);
    assert(s@.subrange(start as int, to as int) == t);
    let mut at: usize = start;
    let mut negative = false;
    if at < to && s[at] == '-' {
        negative = true;
        at = at + 1;
    } else if at < to && s[at] == '+' {
        at = at + 1;
    }
    let ghost u = sign_split(t).1;
    proof {
        if start < to {
            assert(t[0] == s@[start as int]);
        }
        assert(u =~= s@.subrange(at as int, to as int));
        assert(negative == sign_split(t).0);
    }
    let mut base: u64 = 10;
    let ghost first = at;
    if to - at >= 2 && s[at] == '0' && (s[at + 1] == 'x' || s[at + 1] == 'X') {
        base = 16;
        at = at + 2;
    } else if to - at > 1 && s[at] == '0' {
        base = 8;
        at = at + 1;
    }
    proof {
        if first < to {
            assert(u[0] == s@[first as int]);
        }
        if first + 1 < to {
            assert(u[1] == s@[first + 1]);
        }
        assert(base_split(u).0 == base as nat);
        assert(base_split(u).1 =~= s@.subrange(at as int, to as int));
    }
    if at == to {
        return None;
    }
    match parse_digits(&s, at, to, base, 0x8000_0000) {
        Some(m) => {
            if negative {
                Some((0 - m as i64) as i32)
            } else if m <= 0x7fff_ffff {
                Some(m as i32)
            } else {
                None
            }
        },
        None => None,
    }
}

/// What the program is asked to do.
#[derive(Clone, Copy, Debug, PartialEq, Eq, Structural)]
pub enum Command {
    /// Run the monitor.
    Monitor,
    /// Inject into a process; `None` stands for a text that is no number.
    Trace { pid: Option<i32>, tango: bool, restart: bool },
    /// Send a command to the monitor; `None` stands for an unknown one.
    Ctl(Option<RezygiskdCommand>),
    /// Show the version.
    Version,
    /// Drop the daemon's namespaces.
    InvalidateNs,
    /// Show what the daemon reports.
    Info,
    /// Show the commands.
    Usage,
}

/// An argument from `from` on is this one.
pub open spec fn has_argument(args: Seq<String>, from: int, text: Seq<char>) -> bool {
    exists|i: int| from <= i < args.len() && (#[trigger] args[i])@ == text
}

/// The command that a word names.
pub open spec fn control_of(args: Seq<String>) -> Option<RezygiskdCommand> {
    if args.len() < 3 {
        None
    } else if args[2]@ == "start"@ {
        Some(RezygiskdCommand::Start)
    } else if args[2]@ == "stop"@ {
        Some(RezygiskdCommand::Stop)
    } else if args[2]@ == "exit"@ {
        Some(RezygiskdCommand::Exit)
    } else {
        None
    }
}

/// What the arguments ask for; the first one is the program itself.
pub open spec fn command_of(args: Seq<String>) -> Command {
    if args.len() < 2 {
        Command::Usage
    } else if args[1]@ == "monitor"@ {
        Command::Monitor
    } else if args.len() >= 3 && args[1]@ == "trace"@ {
        Command::Trace {
            pid: pid_value(args[2]@),
            tango: has_argument(args, 3, "--tango"@),
            restart: has_argument(args, 3, "--restart"@),
        }
    } else if args[1]@ == "ctl"@ {
        Command::Ctl(control_of(args))
    } else if args[1]@ == "version"@ {
        Command::Version
    } else if args[1]@ == "invalidate-ns"@ {
        Command::InvalidateNs
    } else if args[1]@ == "info"@ {
        Command::Info
    } else {
        Command::Usage
    }
}

fn find_argument(args: &Vec<String>, from: usize, text: &str) -> (r: bool)
    requires
        from <= args@.len(),
    ensures
        r == has_argument(args@, from as int, text@),
{
    let mut i: usize = from;
    while i < args.len()
        invariant
            from <= i <= args@.len(),
            forall|j: int| from <= j < i ==> (#[trigger] args@[j])@ != text@,
        decreases args@.len() - i,
    {
        if same_text(args[i].as_str(), text) {
            assert(args@[i as int]@ == text@);
            return true;
        }
        i = i + 1;
    }
    false
}

/// What the arguments ask for.
pub fn parse_args(args: &Vec<String>) -> (r: Command)
    ensures
        r == command_of(args@),
{
    if args.len() < 2 {
        return Command::Usage;
    }
    let word = args[1].as_str();
    if same_text(word, "monitor") {
        Command::Monitor
    } else if args.len() >= 3 && same_text(word, "trace") {
        Command::Trace {
            pid: parse_pid(args[2].as_str()),
            tango: find_argument(args, 3, "--tango"),
            restart: find_argument(args, 3, "--restart"),
        }
    } else if same_text(word, "ctl") {
        if args.len() < 3 {
            return Command::Ctl(None);
        }
        let name = args[2].as_str();
        if same_text(name, "start") {
            Command::Ctl(Some(RezygiskdCommand::Start))
        } else if same_text(name, "stop") {
            Command::Ctl(Some(RezygiskdCommand::Stop))
        } else if same_text(name, "exit") {
            Command::Ctl(Some(RezygiskdCommand::Exit))
        } else {
            Command::Ctl(None)
        }
    } else if same_text(word, "version") {
        Command::Version
    } else if same_text(word, "invalidate-ns") {
        Command::InvalidateNs
    } else if same_text(word, "info") {
        Command::Info
    } else {
        Command::Usage
    }
}

proof fn lemma_trimmed_number(lead: Seq<char>, n: Seq<char>, trail: Seq<char>)
    requires
        forall|i: int| 0 <= i < lead.len() ==> is_blank(#[trigger] lead[i]),
        forall|i: int| 0 <= i < trail.len() ==> is_blank(#[trigger] trail[i]),
        n.len() > 0,
        !is_blank(n[0]),
        !is_blank(n.last()),
    ensures
        trimmed(lead + n + trail) == n,
    decreases lead.len() + trail.len(),
{
    let s = lead + n + trail;
    if lead.len() > 0 {
        let more = lead.drop_first();
        assert forall|i: int| 0 <= i < more.len() implies is_blank(#[trigger] more[i]) by {
            assert(more[i] == lead[i + 1]);
        }
        lemma_trimmed_number(more, n, trail);
        assert(s[0] == lead[0]);
        assert(s.drop_first() =~= more + n + trail);
    } else {
        assert(s =~= n + trail);
        assert(s[0] == n[0]);
        assert(trim_start(s) == s);
        lemma_trimmed_end(n, trail);
    }
}

proof fn lemma_trimmed_end(n: Seq<char>, trail: Seq<char>)
    requires
        forall|i: int| 0 <= i < trail.len() ==> is_blank(#[trigger] trail[i]),
        n.len() > 0,
        !is_blank(n.last()),
    ensures
        trim_end(n + trail) == n,
    decreases trail.len(),
{
    if trail.len() > 0 {
        assert((n + trail).last() == trail.last());
        assert((n + trail).drop_last() =~= n + trail.drop_last());
        assert(trail[trail.len() - 1] == trail.last());
        lemma_trimmed_end(n, trail.drop_last());
    } else {
        assert(n + trail =~= n);
    }
}

proof fn lemma_digits_are_plain(n: nat, base: nat)
    requires
        2 <= base <= 16,
    ensures
        digits(n, base).len() > 0,
        forall|i: int|
            0 <= i < digits(n, base).len() ==> {
                let c = #[trigger] digits(n, base)[i];
                !is_blank(c) && c != '-' && c != '+' && c != 'x' && c != 'X'
            },
{
    law_number_reads_back(n, base);
    assert forall|i: int| 0 <= i < digits(n, base).len() implies {
        let c = #[trigger] digits(n, base)[i];
        !is_blank(c) && c != '-' && c != '+' && c != 'x' && c != 'X'
    } by {
        assert(digit_value(digits(n, base)[i], base) is Some);
    }
}

/// A process number reads back from its decimal notation, whatever blanks are
/// around it.
pub proof fn law_process_number_reads_back(pid: i32, lead: Seq<char>, trail: Seq<char>)
    requires
        forall|i: int| 0 <= i < lead.len() ==> is_blank(#[trigger] lead[i]),
        forall|i: int| 0 <= i < trail.len() ==> is_blank(#[trigger] trail[i]),
    ensures
        pid_value(lead + decimal(pid as int) + trail) == Some(pid),
{
    let n = decimal(pid as int);
    let m = if pid < 0 {
        (-(pid as int)) as nat
    } else {
        pid as nat
    };
    let d = digits(m, 10);
    lemma_digits_are_plain(m, 10);
    law_number_reads_back(m, 10);
    assert(n.last() == d.last());
    assert(d.last() == d[d.len() - 1]);
    lemma_trimmed_number(lead, n, trail);
    if pid < 0 {
        assert(n.skip(1) =~= d);
    }
    assert(d[0] != '0' || m == 0);
    if m == 0 {
        assert(d.len() == 1);
    }
}

/// A number behind `0x` is hexadecimal, and one behind a zero is octal, with or
/// without a minus in front.
pub proof fn law_prefixes_set_the_base(n: nat)
    requires
        n <= i32::MAX,
    ensures
        pid_value(seq!['0', 'x'] + digits(n, 16)) == Some(n as i32),
        pid_value(seq!['0', 'X'] + digits(n, 16)) == Some(n as i32),
        pid_value(seq!['-', '0', 'x'] + digits(n, 16)) == Some((-n) as i32),
        pid_value(seq!['0'] + digits(n, 8)) == Some(n as i32),
        pid_value(seq!['-', '0'] + digits(n, 8)) == Some((-n) as i32),
{
    let h = digits(n, 16);
    let o = digits(n, 8);
    let none = Seq::<char>::empty();
    lemma_digits_are_plain(n, 16);
    lemma_digits_are_plain(n, 8);
    law_number_reads_back(n, 16);
    law_number_reads_back(n, 8);
    assert(!is_blank(h[h.len() - 1]) && !is_blank(o[o.len() - 1]));
    let a = seq!['0', 'x'] + h;
    lemma_trimmed_number(none, a, none);
    assert(none + a + none =~= a);
    assert(a.skip(2) =~= h);
    let b = seq!['0', 'X'] + h;
    lemma_trimmed_number(none, b, none);
    assert(none + b + none =~= b);
    assert(b.skip(2) =~= h);
    let c = seq!['-', '0', 'x'] + h;
    lemma_trimmed_number(none, c, none);
    assert(none + c + none =~= c);
    assert(c.skip(1) =~= a);
    let d = seq!['0'] + o;
    lemma_trimmed_number(none, d, none);
    assert(none + d + none =~= d);
    assert(d.skip(1) =~= o);
    assert(d[1] == o[0]);
    let e = seq!['-', '0'] + o;
    lemma_trimmed_number(none, e, none);
    assert(none + e + none =~= e);
    assert(e.skip(1) =~= d);
}

/// A sign alone, or nothing at all, is no process number.
pub proof fn law_no_digits_are_no_number()
    ensures
        pid_value(seq![]) is None,
        pid_value(seq!['-']) is None,
        pid_value(seq!['+']) is None,
        pid_value(seq!['0', 'x']) is None,
{
    let none = Seq::<char>::empty();
    lemma_trimmed_number(none, seq!['-'], none);
    assert(none + seq!['-'] + none =~= seq!['-']);
    assert(seq!['-'].skip(1) =~= none);
    lemma_trimmed_number(none, seq!['+'], none);
    assert(none + seq!['+'] + none =~= seq!['+']);
    assert(seq!['+'].skip(1) =~= none);
    lemma_trimmed_number(none, seq!['0', 'x'], none);
    assert(none + seq!['0', 'x'] + none =~= seq!['0', 'x']);
    assert(seq!['0', 'x'].skip(2) =~= none);
    assert(trimmed(seq![]) =~= none);
}

proof fn lemma_command_words_differ()
    ensures
        "monitor"@ != "trace"@,
        "monitor"@ != "ctl"@,
        "monitor"@ != "version"@,
        "monitor"@ != "invalidate-ns"@,
        "monitor"@ != "info"@,
        "trace"@ != "ctl"@,
        "trace"@ != "version"@,
        "trace"@ != "invalidate-ns"@,
        "trace"@ != "info"@,
        "ctl"@ != "version"@,
        "ctl"@ != "invalidate-ns"@,
        "ctl"@ != "info"@,
        "version"@ != "invalidate-ns"@,
        "version"@ != "info"@,
        "invalidate-ns"@ != "info"@,
        "start"@ != "stop"@,
        "start"@ != "exit"@,
        "stop"@ != "exit"@,
{
    reveal_strlit("monitor");
    reveal_strlit("trace");
    reveal_strlit("ctl");
    reveal_strlit("version");
    reveal_strlit("invalidate-ns");
    reveal_strlit("info");
    reveal_strlit("start");
    reveal_strlit("stop");
    reveal_strlit("exit");
    assert("monitor"@.len() == 7 && "trace"@.len() == 5 && "ctl"@.len() == 3);
    assert("version"@.len() == 7 && "invalidate-ns"@.len() == 13 && "info"@.len() == 4);
    assert("start"@.len() == 5 && "stop"@.len() == 4 && "exit"@.len() == 4);
    assert("monitor"@[0] != "version"@[0]);
    assert("stop"@[0] != "exit"@[0]);
}

/// The first word decides what the program does, each word one thing alone;
/// any other word, or none, shows the commands. A trace needs a process.
pub proof fn law_first_word_decides(args: Seq<String>)
    requires
        args.len() >= 2,
    ensures
        command_of(args) is Monitor <==> args[1]@ == "monitor"@,
        command_of(args) is Trace <==> args[1]@ == "trace"@ && args.len() >= 3,
        command_of(args) is Ctl <==> args[1]@ == "ctl"@,
        command_of(args) is Version <==> args[1]@ == "version"@,
        command_of(args) is InvalidateNs <==> args[1]@ == "invalidate-ns"@,
        command_of(args) is Info <==> args[1]@ == "info"@,
        command_of(args.take(1)) is Usage,
{
    lemma_command_words_differ();
}

/// A trace is of the process that the second word names, and its two switches
/// may stand anywhere behind, in any order.
pub proof fn law_trace_takes_its_switches(args: Seq<String>, pid: Option<i32>, tango: bool, restart: bool)
    requires
        command_of(args) == (Command::Trace { pid, tango, restart }),
    ensures
        pid == pid_value(args[2]@),
        tango <==> exists|i: int| 3 <= i < args.len() && (#[trigger] args[i])@ == "--tango"@,
        restart <==> exists|i: int| 3 <= i < args.len() && (#[trigger] args[i])@ == "--restart"@,
{
    lemma_command_words_differ();
}

/// The monitor can be sent three commands, each by its own word.
pub proof fn law_control_words(args: Seq<String>, c: Option<RezygiskdCommand>)
    requires
        command_of(args) == Command::Ctl(c),
    ensures
        c == Some(RezygiskdCommand::Start) <==> args.len() >= 3 && args[2]@ == "start"@,
        c == Some(RezygiskdCommand::Stop) <==> args.len() >= 3 && args[2]@ == "stop"@,
        c == Some(RezygiskdCommand::Exit) <==> args.len() >= 3 && args[2]@ == "exit"@,
        c matches Some(x) ==> x is Start || x is Stop || x is Exit,
{
    lemma_command_words_differ();
}

} // verus!
