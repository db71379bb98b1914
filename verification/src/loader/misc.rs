//! Numbers in text, and switching to another mount namespace.
use vstd::prelude::*;
use crate::daemon::holds_path;
use crate::text::{digit_of, digit_value, digits, digits_value, law_number_reads_back, to_chars};

verus! {

/// A number reduced to 32 bits with a sign.
pub open spec fn wrapped32(v: int) -> int {
    let low = v % 0x1_0000_0000;
    if low < 0x8000_0000 {
        low
    } else {
        low - 0x1_0000_0000
    }
}

/// The decimal number that a text denotes, reduced to 32 bits; -1 where the
/// text holds anything but digits. The empty text denotes zero.
pub fn parse_int(s: &str) -> (r: i32)
    ensures
        r == match digits_value(s@, 10) {
            Some(v) => wrapped32(v as int),
            None => -1,
        },
{
    let chars = to_chars(s);
    let mut val: u64 = 0;
    let mut i: usize = 0;
    let ghost mut exact: nat = 0;
    assert(chars@.take(0).len() == 0);
    while i < chars.len()
        invariant
            i <= chars@.len(),
            chars@ == s@,
            digits_value(chars@.take(i as int), 10) == Some(exact),
            val == exact % 0x1_0000_0000,
        decreases chars@.len() - i,
    {
        let ghost upto = chars@.take(i + 1);
        assert(upto.drop_last() =~= chars@.take(i as int));
        assert(upto.last() == chars@[i as int]);
        match digit_of(chars[i], 10) {
            Some(d) => {
                let next: u64 = (val * 10 + d) % 0x1_0000_0000;
                proof {
                    lemma_reduced_step(exact, d as nat);
                    exact = exact * 10 + d as nat;
                }
                val = next;
            },
            None => {
                proof {
                    lemma_bad_digit(chars@, i as int);
                }
                return -1;
            },
        }
        i = i + 1;
    }
    assert(chars@.take(i as int) =~= chars@);
    if val < 0x8000_0000 {
        val as i32
    } else {
        (val as i64 - 0x1_0000_0000) as i32
    }
}

/// Appending a digit to a reduced number gives the reduced number of all digits.
proof fn lemma_reduced_step(exact: nat, d: nat)
    ensures
        ((exact % 0x1_0000_0000) * 10 + d) % 0x1_0000_0000 == (exact * 10 + d) % 0x1_0000_0000,
{
    let m: int = 0x1_0000_0000;
    let q = exact as int / m;
    let low = exact as int % m;
    vstd::arithmetic::div_mod::lemma_fundamental_div_mod(exact as int, m);
    vstd::arithmetic::div_mod::lemma_mod_multiples_vanish(10 * q, low * 10 + d, m);
}

/// A text with a character that is no digit denotes no number.
proof fn lemma_bad_digit(s: Seq<char>, i: int)
    requires
        0 <= i < s.len(),
        digit_value(s[i], 10) is None,
    ensures
        digits_value(s, 10) is None,
    decreases s.len(),
{
    if i < s.len() - 1 {
        lemma_bad_digit(s.drop_last(), i);
    }
}

/// Which mount namespace a process is to see.
#[derive(Clone, Copy, Debug, PartialEq, Eq, Structural)]
pub enum MountNamespaceState {
    /// Without the modules' mounts.
    Clean,
    /// With the modules' mounts.
    Mounted,
}

/// The name of a mount namespace state.
pub fn mns_state_str(state: MountNamespaceState) -> (s: &'static str)
    ensures
        s@ == match state {
            MountNamespaceState::Clean => "clean"@,
            MountNamespaceState::Mounted => "mounted"@,
        },
{
    match state {
        MountNamespaceState::Clean => "clean",
        MountNamespaceState::Mounted => "mounted",
    }
}

/// What to do next on the way to another mount namespace.
#[derive(Clone, Copy, Debug, PartialEq, Eq, Structural)]
pub enum NamespaceStep {
    /// Close this file, if any; the outcome is known.
    Finish { ok: bool, close: Option<i32> },
    /// Open the path that the daemon named.
    Open,
    /// Enter the namespace of this file.
    Enter(i32),
}

/// A file to close, if it is one.
pub open spec fn held(fd: i32) -> Option<i32> {
    if fd >= 0 {
        Some(fd)
    } else {
        None
    }
}

fn hold(fd: i32) -> (r: Option<i32>)
    ensures
        r == held(fd),
{
    if fd >= 0 {
        Some(fd)
    } else {
        None
    }
}

/// Some byte of the path is the zero that ends it.
pub open spec fn is_terminated(path: Seq<u8>) -> bool {
    path.contains(0u8)
}

fn terminated(path: &Vec<u8>) -> (r: bool)
    ensures
        r == is_terminated(path@),
{
    let mut i: usize = 0;
    while i < path.len()
        invariant
            i <= path@.len(),
            forall|j: int| 0 <= j < i ==> #[trigger] path@[j] != 0,
        decreases path@.len() - i,
    {
        if path[i] == 0 {
            assert(path@[i as int] == 0u8);
            return true;
        }
        i = i + 1;
    }
    false
}

/// Decides how to enter the namespace that the daemon named: by the file that
/// came with its answer where there is one, else by opening the path. A dry
/// run only asks the daemon, and gives the file back.
pub fn update_mnt_ns(updated: bool, dry_run: bool, path: &Vec<u8>, ns_fd: i32) -> (r: NamespaceStep)
    ensures
        r == if !updated {
            NamespaceStep::Finish { ok: false, close: None }
        } else if dry_run {
            NamespaceStep::Finish { ok: true, close: held(ns_fd) }
        } else if !is_terminated(path@) {
            NamespaceStep::Finish { ok: false, close: held(ns_fd) }
        } else if ns_fd >= 0 {
            NamespaceStep::Enter(ns_fd)
        } else {
            NamespaceStep::Open
        },
{
    if !updated {
        return NamespaceStep::Finish { ok: false, close: None };
    }
    if dry_run {
        return NamespaceStep::Finish { ok: true, close: hold(ns_fd) };
    }
    if !terminated(path) {
        return NamespaceStep::Finish { ok: false, close: hold(ns_fd) };
    }
    if ns_fd >= 0 {
        NamespaceStep::Enter(ns_fd)
    } else {
        NamespaceStep::Open
    }
}

/// What follows an attempt to open the path; -1 stands for a failure.
pub fn namespace_opened(fd: i32) -> (r: NamespaceStep)
    ensures
        r == if fd == -1 {
            NamespaceStep::Finish { ok: false, close: None }
        } else {
            NamespaceStep::Enter(fd)
        },
{
    if fd == -1 {
        NamespaceStep::Finish { ok: false, close: None }
    } else {
        NamespaceStep::Enter(fd)
    }
}

/// What follows an attempt to enter a namespace: its file is closed either way.
pub fn namespace_entered(fd: i32, ok: bool) -> (r: NamespaceStep)
    ensures
        r == (NamespaceStep::Finish { ok, close: Some(fd) }),
{
    NamespaceStep::Finish { ok, close: Some(fd) }
}

/// The path that a daemon's answer leaves in a buffer always ends with a zero,
/// so that an answer is never given up for want of one.
pub proof fn law_answered_path_is_terminated(
    before: Seq<u8>,
    after: Seq<u8>,
    size: int,
    pid: u32,
    fd: u32,
)
    requires
        before.len() > 0,
        holds_path(before, after, size, pid, fd),
    ensures
        is_terminated(after),
{
    let path = crate::daemon::narrow(crate::daemon::namespace_path(pid, fd));
    let n = crate::daemon::fitting(path.len() as int, size, before.len() as int);
    assert(after[n] == 0u8);
}

/// A number that fits 32 bits with a sign is kept; every other one becomes the
/// one that differs from it by whole turns of the range.
pub proof fn law_numbers_wrap_at_32_bits(v: int, turns: int)
    ensures
        -0x8000_0000 <= wrapped32(v) < 0x8000_0000,
        -0x8000_0000 <= v < 0x8000_0000 ==> wrapped32(v) == v,
        wrapped32(v + turns * 0x1_0000_0000) == wrapped32(v),
{
    assert((v + turns * 0x1_0000_0000) % 0x1_0000_0000 == v % 0x1_0000_0000);
}

/// A namespace is entered by the file that came with the answer, or else by the
/// path; a dry run, an answer of no use and a path without an end enter none. A
/// file that came is entered or closed, never lost.
pub proof fn law_namespace_file_is_not_lost(
    updated: bool,
    dry: bool,
    path: &Vec<u8>,
    fd: i32,
    r: NamespaceStep,
)
    requires
        call_ensures(update_mnt_ns, (updated, dry, path, fd), r),
    ensures
        r is Enter <==> updated && !dry && fd >= 0 && path@.contains(0u8),
        r matches NamespaceStep::Enter(f) ==> f == fd,
        r is Open <==> updated && !dry && fd < 0 && path@.contains(0u8),
        updated && fd >= 0 ==> r == NamespaceStep::Enter(fd) || (
        r matches NamespaceStep::Finish { ok, close } && close == Some(fd)),
        r matches NamespaceStep::Finish { ok, close } ==> ok == (updated && dry),
        r is Finish && r->close is Some ==> r->close == Some(fd) && fd >= 0,
{
}

/// A path that could be opened is entered, and its file is closed however that
/// went; what could not be opened fails.
pub proof fn law_opened_namespace_is_entered_and_closed(
    fd: i32,
    opened: NamespaceStep,
    ok: bool,
    entered: NamespaceStep,
)
    requires
        call_ensures(namespace_opened, (fd,), opened),
        call_ensures(namespace_entered, (fd, ok), entered),
    ensures
        fd == -1 ==> opened == (NamespaceStep::Finish { ok: false, close: None }),
        fd != -1 ==> opened == NamespaceStep::Enter(fd),
        entered == (NamespaceStep::Finish { ok, close: Some(fd) }),
{
}

/// The two states of a mount namespace have different names.
pub proof fn law_states_have_their_own_names(
    a: MountNamespaceState,
    b: MountNamespaceState,
    s: &'static str,
    t: &'static str,
)
    requires
        call_ensures(mns_state_str, (a,), s),
        call_ensures(mns_state_str, (b,), t),
    ensures
        s@ == t@ <==> a == b,
        a == MountNamespaceState::Clean <==> s@[0] == 'c',
        a == MountNamespaceState::Mounted <==> s@[0] == 'm',
{
    reveal_strlit("clean");
    reveal_strlit("mounted");
    assert("clean"@[0] == 'c');
    assert("mounted"@[0] == 'm');
}

/// A number that is written in digits is read as itself, as long as it fits;
/// larger ones are reduced, and what has no value is read as less than any.
pub proof fn law_written_number_is_read(s: &str, n: nat, r: i32)
    requires
        call_ensures(parse_int, (s,), r),
    ensures
        s@ == digits(n, 10) && n < 0x8000_0000 ==> r == n,
        s@ == digits(n, 10) ==> (n - r) % 0x1_0000_0000 == 0,
        digits_value(s@, 10) is None ==> r == -1,
{
    law_number_reads_back(n, 10);
}

} // verus!
