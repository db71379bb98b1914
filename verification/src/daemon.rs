//! The client side of the daemon's socket: how often to connect, and what the
//! replies mean.
use vstd::prelude::*;
use crate::text::{
    decimal, digits, digits_value, law_number_reads_back, push_decimal, push_digits, to_chars,
};

verus! {

/// What follows an attempt to connect.
#[derive(Clone, Copy, Debug, PartialEq, Eq, Structural)]
pub enum ConnectStep {
    /// Try to connect; the argument counts the attempts that remain after it.
    Attempt(u32),
    /// Wait a second, then try to connect.
    WaitAndAttempt(u32),
    /// The connection stands.
    Connected,
    /// There is no connection.
    Failed,
}

/// How an attempt to connect ended.
#[derive(Clone, Copy, Debug, PartialEq, Eq, Structural)]
pub enum ConnectResult {
    /// No socket could be made.
    NoSocket,
    /// The daemon did not answer.
    Refused,
    /// The connection stands.
    Connected,
}

/// What follows an attempt after which `left` attempts remain.
pub open spec fn connect_next(left: u32, result: ConnectResult) -> ConnectStep {
    match result {
        ConnectResult::NoSocket => ConnectStep::Failed,
        ConnectResult::Connected => ConnectStep::Connected,
        ConnectResult::Refused => if left > 0 {
            ConnectStep::WaitAndAttempt((left - 1) as u32)
        } else {
            ConnectStep::Failed
        },
    }
}

/// The first step of a connection with `retry` attempts.
pub fn rezygiskd_connect(retry: u8) -> (r: ConnectStep)
    ensures
        r == if retry > 0 {
            ConnectStep::Attempt((retry - 1) as u32)
        } else {
            ConnectStep::Failed
        },
{
    if retry > 0 {
        ConnectStep::Attempt(retry as u32 - 1)
    } else {
        ConnectStep::Failed
    }
}

/// What follows an attempt after which `left` attempts remain. No wait comes
/// after the last one.
pub fn connect_attempted(left: u32, result: ConnectResult) -> (r: ConnectStep)
    ensures
        r == connect_next(left, result),
{
    match result {
        ConnectResult::NoSocket => ConnectStep::Failed,
        ConnectResult::Connected => ConnectStep::Connected,
        ConnectResult::Refused => if left > 0 {
            ConnectStep::WaitAndAttempt(left - 1)
        } else {
            ConnectStep::Failed
        },
    }
}

/// The number of attempts against a daemon that never answers.
pub open spec fn attempts_made(step: ConnectStep) -> nat
    decreases
            match step {
                ConnectStep::Attempt(left) => left + 1,
                ConnectStep::WaitAndAttempt(left) => left + 1,
                _ => 0,
            },
{
    match step {
        ConnectStep::Attempt(left) => 1 + attempts_made(connect_next(left, ConnectResult::Refused)),
        ConnectStep::WaitAndAttempt(left) => 1 + attempts_made(
            connect_next(left, ConnectResult::Refused),
        ),
        _ => 0,
    }
}

/// Against a daemon that never answers there are exactly as many attempts as
/// were asked for.
pub proof fn law_connect_attempts(left: u32)
    ensures
        attempts_made(ConnectStep::Attempt(left)) == left + 1,
        attempts_made(ConnectStep::WaitAndAttempt(left)) == left + 1,
    decreases left,
{
    if left > 0 {
        law_connect_attempts((left - 1) as u32);
    } else {
        assert(connect_next(left, ConnectResult::Refused) == ConnectStep::Failed);
        assert(attempts_made(ConnectStep::Failed) == 0);
    }
}

/// The root implementation that a daemon found.
#[derive(Clone, Copy, Debug, PartialEq, Eq, Structural)]
pub enum RootImpl {
    /// None.
    NoRoot,
    /// APatch.
    Apatch,
    /// KernelSU.
    KernelSU,
    /// Magisk.
    Magisk,
}

/// The flag of APatch.
pub const ROOT_IS_APATCH: u32 = 0x1000_0000;

/// The flag of KernelSU.
pub const ROOT_IS_KSU: u32 = 0x2000_0000;

/// The flag of Magisk.
pub const ROOT_IS_MAGISK: u32 = 0x4000_0000;

/// The root implementation that a daemon's flags show; the first that is set
/// counts.
pub open spec fn root_of(flags: u32) -> RootImpl {
    if flags & ROOT_IS_APATCH != 0 {
        RootImpl::Apatch
    } else if flags & ROOT_IS_KSU != 0 {
        RootImpl::KernelSU
    } else if flags & ROOT_IS_MAGISK != 0 {
        RootImpl::Magisk
    } else {
        RootImpl::NoRoot
    }
}

/// The root implementation that a daemon's flags show.
pub fn root_impl_of(flags: u32) -> (r: RootImpl)
    ensures
        r == root_of(flags),
{
    if flags & ROOT_IS_APATCH != 0 {
        RootImpl::Apatch
    } else if flags & ROOT_IS_KSU != 0 {
        RootImpl::KernelSU
    } else if flags & ROOT_IS_MAGISK != 0 {
        RootImpl::Magisk
    } else {
        RootImpl::NoRoot
    }
}

impl RootImpl {
    /// Its name.
    pub fn name(self) -> (s: &'static str)
        ensures
            s@ == match self {
                RootImpl::NoRoot => "none"@,
                RootImpl::Apatch => "APatch"@,
                RootImpl::KernelSU => "KernelSU"@,
                RootImpl::Magisk => "Magisk"@,
            },
    {
        match self {
            RootImpl::NoRoot => "none",
            RootImpl::Apatch => "APatch",
            RootImpl::KernelSU => "KernelSU",
            RootImpl::Magisk => "Magisk",
        }
    }
}

/// The length of the first line of a file: up to its line end, which counts,
/// and at most `cap` bytes.
pub open spec fn chunk_len(s: Seq<u8>, cap: nat) -> nat
    decreases s.len(),
{
    if s.len() == 0 || cap == 0 {
        0
    } else if s[0] == 0x0a {
        1
    } else {
        1 + chunk_len(s.drop_first(), (cap - 1) as nat)
    }
}

/// What a property file says of a module's name.
pub enum ModuleName {
    /// The name.
    Name(Vec<u8>),
    /// The line with the name does not end.
    Invalid,
    /// No line has a name.
    Missing,
}

/// What a property file says of a module's name, as plain bytes.
#[verifier::ext_equal]
pub enum NameView {
    /// The name.
    Name(Seq<u8>),
    /// The line with the name does not end.
    Invalid,
    /// No line has a name.
    Missing,
}

impl View for ModuleName {
    type V = NameView;

    open spec fn view(&self) -> NameView {
        match *self {
            ModuleName::Name(v) => NameView::Name(v@),
            ModuleName::Invalid => NameView::Invalid,
            ModuleName::Missing => NameView::Missing,
        }
    }
}

/// A line sets the name.
pub open spec fn sets_name(line: Seq<u8>) -> bool {
    line.len() >= 5 && line[0] == 0x6e && line[1] == 0x61 && line[2] == 0x6d && line[3] == 0x65
        && line[4] == 0x3d
}

/// The name in a property file that is read line by line, at most `cap` bytes
/// at a time: that of the first line that sets one, and only if that line has
/// an end.
pub open spec fn prop_name(s: Seq<u8>, cap: nat) -> NameView
    decreases s.len(),
{
    let n = chunk_len(s, cap);
    if s.len() == 0 || !(0 < n <= s.len()) {
        NameView::Missing
    } else {
        let line = s.take(n as int);
        if sets_name(line) {
            if line.len() > 5 && line.last() == 0x0a {
                NameView::Name(line.subrange(5, line.len() - 1))
            } else {
                NameView::Invalid
            }
        } else {
            prop_name(s.skip(n as int), cap)
        }
    }
}

/// The first line lies within the file and is not empty.
pub proof fn lemma_chunk_len(s: Seq<u8>, cap: nat)
    ensures
        chunk_len(s, cap) <= s.len(),
        s.len() > 0 && cap > 0 ==> chunk_len(s, cap) > 0,
    decreases s.len(),
{
    if s.len() > 0 && cap > 0 && s[0] != 0x0a {
        lemma_chunk_len(s.drop_first(), (cap - 1) as nat);
    }
}

/// The end of the line that starts at `from`.
pub fn chunk_end(s: &Vec<u8>, from: usize, cap: usize) -> (to: usize)
    requires
        from <= s@.len(),
    ensures
        from <= to <= s@.len(),
        to - from == chunk_len(s@.skip(from as int), cap as nat),
{
    let mut i: usize = from;
    while i < s.len() && i - from < cap
        invariant
            from <= i <= s@.len(),
            i - from <= cap,
            chunk_len(s@.skip(from as int), cap as nat) == (i - from) + chunk_len(
                s@.skip(i as int),
                (cap - (i - from)) as nat,
            ),
        decreases s@.len() - i,
    {
        assert(s@.skip(i as int)[0] == s@[i as int]);
        if s[i] == 0x0a {
            return i + 1;
        }
        assert(s@.skip(i as int).drop_first() =~= s@.skip(i + 1));
        i = i + 1;
    }
    i
}

fn sub_bytes(s: &Vec<u8>, from: usize, to: usize) -> (out: Vec<u8>)
    requires
        from <= to <= s@.len(),
    ensures
        out@ == s@.subrange(from as int, to as int),
{
    let mut out: Vec<u8> = Vec::new();
    let mut i: usize = from;
    while i < to
        invariant
            from <= i <= to <= s@.len(),
            out@ == s@.subrange(from as int, i as int),
        decreases to - i,
    {
        out.push(s[i]);
        assert(out@ =~= s@.subrange(from as int, i + 1));
        i = i + 1;
    }
    out
}

/// The name in a property file that is read line by line, at most `cap` bytes
/// at a time.
pub fn module_display_name(prop: &Vec<u8>, cap: usize) -> (r: ModuleName)
    requires
        cap > 0,
    ensures
        r@ == prop_name(prop@, cap as nat),
{
    let mut at: usize = 0;
    assert(prop@.skip(0) =~= prop@);
    while at < prop.len()
        invariant
            cap > 0,
            at <= prop@.len(),
            prop_name(prop@, cap as nat) == prop_name(prop@.skip(at as int), cap as nat),
        decreases prop@.len() - at,
    {
        let ghost here = prop@.skip(at as int);
        proof {
            lemma_chunk_len(here, cap as nat);
        }
        let to: usize = chunk_end(prop, at, cap);
        let ghost line = here.take(to - at);
        proof {
            assert(line =~= prop@.subrange(at as int, to as int));
            assert(here.skip(to - at) =~= prop@.skip(to as int));
        }
        if to - at >= 5 && prop[at] == 0x6e && prop[at + 1] == 0x61 && prop[at + 2] == 0x6d && prop[at
            + 3] == 0x65 && prop[at + 4] == 0x3d {
            assert(sets_name(line));
            if to - at > 5 && prop[to - 1] == 0x0a {
                let name = sub_bytes(prop, at + 5, to - 1);
                assert(name@ =~= line.subrange(5, line.len() - 1));
                return ModuleName::Name(name);
            }
            return ModuleName::Invalid;
        }
        assert(!sets_name(line)) by {
            if sets_name(line) {
                assert(line[0] == prop@[at as int]);
                assert(line[1] == prop@[at + 1]);
                assert(line[2] == prop@[at + 2]);
                assert(line[3] == prop@[at + 3]);
                assert(line[4] == prop@[at + 4]);
            }
        }
        at = to;
    }
    assert(prop@.skip(at as int).len() == 0);
    ModuleName::Missing
}

/// The modules that a daemon serves.
pub struct ZygiskModules {
    /// Their names or paths.
    pub modules: Vec<String>,
    /// The open files behind the paths.
    pub fds: Vec<i32>,
}

/// What a daemon says of itself.
pub struct ReZygiskInfo {
    /// The modules that it serves.
    pub modules: ZygiskModules,
    /// The root implementation that it found.
    pub root_impl: RootImpl,
    /// Its process.
    pub pid: i32,
    /// It answers.
    pub running: bool,
}

/// A daemon's answer about itself, as far as it could be read. A field that
/// could not be read ends the answer.
pub struct InfoReply {
    /// The connection stood.
    pub connected: bool,
    /// The flags.
    pub flags: Option<u32>,
    /// The daemon's process.
    pub pid: Option<u32>,
    /// The number of modules, and that memory for so many could be had.
    pub count: Option<(usize, bool)>,
    /// The display names, as far as they could be read.
    pub names: Vec<Option<String>>,
}

/// All of the first `count` names are there.
pub open spec fn all_named(names: Seq<Option<String>>, count: nat) -> bool {
    names.len() >= count && forall|i: int| 0 <= i < count ==> #[trigger] names[i] is Some
}

/// How far an answer reaches: the flags, the process and the count.
pub open spec fn reply_fields(reply: InfoReply) -> (Option<u32>, Option<u32>, Option<(usize, bool)>) {
    let flags = if reply.connected {
        reply.flags
    } else {
        None
    };
    let pid = if flags is Some {
        reply.pid
    } else {
        None
    };
    let count = if pid is Some {
        reply.count
    } else {
        None
    };
    (flags, pid, count)
}

/// Reads a 32-bit word as a process number.
pub open spec fn as_pid(v: u32) -> i32 {
    v as i32
}

/// Puts a daemon's answer into `info`. What the answer does not reach stays
/// as it was; a module whose name is not there costs the whole list.
pub fn rezygiskd_get_info(info: &mut ReZygiskInfo, reply: InfoReply)
    ensures
        final(info).running == reply.connected,
        ({
            let (flags, pid, count) = reply_fields(reply);
            &&& final(info).root_impl == match flags {
                Some(f) => root_of(f),
                None => old(info).root_impl,
            }
            &&& final(info).pid == match pid {
                Some(p) => as_pid(p),
                None => old(info).pid,
            }
            &&& final(info).modules.fds@ == if reply.connected {
                Seq::<i32>::empty()
            } else {
                old(info).modules.fds@
            }
            &&& match count {
                Some((n, room)) => if n == 0 {
                    final(info).modules.modules@.len() == 0
                } else if !room {
                    final(info).modules.modules == old(info).modules.modules
                } else if all_named(reply.names@, n as nat) {
                    &&& final(info).modules.modules@.len() == old(info).modules.modules@.len() + n
                    &&& forall|i: int|
                        0 <= i < old(info).modules.modules@.len()
                            ==> #[trigger] final(info).modules.modules@[i] == old(
                            info,
                        ).modules.modules@[i]
                    &&& forall|i: int|
                        0 <= i < n ==> (#[trigger] final(info).modules.modules@[old(
                            info,
                        ).modules.modules@.len() + i])@ == (reply.names@[i]->0)@
                } else {
                    final(info).modules.modules@.len() == 0
                },
                None => final(info).modules.modules == old(info).modules.modules,
            }
        }),
{
    if !reply.connected {
        info.running = false;
        return;
    }
    info.running = true;
    info.modules.fds.clear();
    assert(info.modules.fds@ =~= Seq::<i32>::empty());
    let flags: u32 = match reply.flags {
        Some(f) => f,
        None => {
            return;
        },
    };
    info.root_impl = root_impl_of(flags);
    let pid: u32 = match reply.pid {
        Some(p) => p,
        None => {
            return;
        },
    };
    info.pid = pid as i32;
    let (count, room): (usize, bool) = match reply.count {
        Some(c) => c,
        None => {
            return;
        },
    };
    if count == 0 {
        info.modules.modules.clear();
        return;
    }
    if !room {
        return;
    }
    let done = append_names(&mut info.modules.modules, &reply.names, count);
    if !done {
        info.modules.modules.clear();
    }
}

/// An answer says all that a daemon says of itself.
pub open spec fn is_whole(reply: InfoReply) -> bool {
    let (_, _, count) = reply_fields(reply);
    count is Some && all_named(reply.names@, (count->0).0 as nat)
}

/// What a daemon's answer says of it: its root implementation, its process and
/// its modules' display names; nothing where any of it is missing.
pub fn daemon_info(reply: InfoReply) -> (r: Option<(RootImpl, i32, Vec<String>)>)
    ensures
        r is Some == is_whole(reply),
        r matches Some((root_impl, pid, names)) ==> {
            &&& root_impl == root_of(reply.flags->0)
            &&& pid == as_pid(reply.pid->0)
            &&& names@.len() == (reply.count->0).0
            &&& forall|i: int|
                0 <= i < names@.len() ==> (#[trigger] names@[i])@ == (reply.names@[i]->0)@
        },
{
    if !reply.connected {
        return None;
    }
    match (reply.flags, reply.pid, reply.count) {
        (Some(flags), Some(pid), Some((count, _))) => {
            let mut names: Vec<String> = Vec::new();
            if append_names(&mut names, &reply.names, count) {
                assert forall|i: int| 0 <= i < names@.len() implies (#[trigger] names@[i])@ == (
                reply.names@[i]->0)@ by {
                    assert(names@[0 + i] == names@[i]);
                }
                Some((root_impl_of(flags), pid as i32, names))
            } else {
                None
            }
        },
        _ => None,
    }
}

/// Appends the first `count` names, as far as they are there.
fn append_names(out: &mut Vec<String>, names: &Vec<Option<String>>, count: usize) -> (r: bool)
    ensures
        r == all_named(names@, count as nat),
        r ==> final(out)@.len() == old(out)@.len() + count,
        forall|i: int| 0 <= i < old(out)@.len() ==> #[trigger] final(out)@[i] == old(out)@[i],
        r ==> forall|i: int|
            0 <= i < count ==> (#[trigger] final(out)@[old(out)@.len() + i])@ == (names@[i]->0)@,
{
    let mut i: usize = 0;
    let ghost n = out@.len();
    while i < count
        invariant
            i <= count,
            i <= names@.len(),
            n == old(out)@.len(),
            out@.len() == n + i,
            forall|j: int| 0 <= j < i ==> #[trigger] names@[j] is Some,
            forall|j: int| 0 <= j < n ==> #[trigger] out@[j] == old(out)@[j],
            forall|j: int| 0 <= j < i ==> (#[trigger] out@[n + j])@ == (names@[j]->0)@,
        decreases count - i,
    {
        if i >= names.len() {
            return false;
        }
        match &names[i] {
            Some(name) => out.push(String::from_str(name.as_str())),
            None => {
                assert(names@[i as int] is None);
                return false;
            },
        }
        i = i + 1;
    }
    true
}

/// Forgets the names in an answer.
pub fn free_rezygisk_info(info: &mut ReZygiskInfo)
    ensures
        final(info).modules.modules@.len() == 0,
        *final(info) == (ReZygiskInfo {
            modules: ZygiskModules {
                modules: final(info).modules.modules,
                fds: old(info).modules.fds,
            },
            ..*old(info)
        }),
{
    info.modules.modules.clear();
}

/// The open files among these: the others were never opened.
pub open spec fn open_files(fds: Seq<i32>) -> Seq<i32> {
    fds.filter(|fd: i32| fd >= 0)
}

/// Forgets the modules and returns the files to close.
pub fn free_modules(modules: &mut ZygiskModules) -> (closing: Vec<i32>)
    ensures
        final(modules).modules@.len() == 0,
        final(modules).fds@.len() == 0,
        closing@ == open_files(old(modules).fds@),
{
    modules.modules.clear();
    let mut closing: Vec<i32> = Vec::new();
    let mut i: usize = 0;
    let ghost keep = |fd: i32| fd >= 0;
    let ghost fds = modules.fds@;
    assert(fds.take(0) =~= Seq::<i32>::empty());
    reveal(Seq::filter);
    while i < modules.fds.len()
        invariant
            i <= fds.len(),
            modules.fds@ == fds,
            fds == old(modules).fds@,
            modules.modules@.len() == 0,
            keep == (|fd: i32| fd >= 0),
            closing@ == fds.take(i as int).filter(keep),
        decreases fds.len() - i,
    {
        reveal(Seq::filter);
        assert(fds.take(i + 1).drop_last() =~= fds.take(i as int));
        if modules.fds[i] >= 0 {
            closing.push(modules.fds[i]);
        }
        i = i + 1;
    }
    assert(fds.take(i as int) =~= fds);
    modules.fds.clear();
    closing
}

/// The path of an open file of this process.
pub open spec fn fd_path(fd: i32) -> Seq<char> {
    "/proc/self/fd/"@ + decimal(fd as int)
}

/// A daemon's list of modules, as far as it could be read.
pub struct ModulesReply {
    /// The connection stood and the request was sent.
    pub connected: bool,
    /// The number of modules, and that memory for so many could be had.
    pub count: Option<(usize, bool)>,
    /// For each module whether its path could be read, and its file if it is
    /// not negative.
    pub files: Vec<(bool, i32)>,
}

/// All of the first `count` modules are there.
pub open spec fn all_received(files: Seq<(bool, i32)>, count: nat) -> bool {
    files.len() >= count && forall|i: int| 0 <= i < count ==> (#[trigger] files[i]).0 && files[i].1 >= 0
}

/// The files of the modules before the first that is missing.
pub open spec fn received(files: Seq<(bool, i32)>, count: nat) -> Seq<i32>
    decreases count,
{
    if count == 0 || files.len() == 0 || !files[0].0 || files[0].1 < 0 {
        seq![]
    } else {
        seq![files[0].1] + received(files.skip(1), (count - 1) as nat)
    }
}

/// Puts a daemon's list of modules into `modules`: every module gets the path
/// of its open file. Where one is missing the list is dropped, and the files
/// that came before it are returned to be closed.
pub fn rezygiskd_read_modules(modules: &mut ZygiskModules, reply: ModulesReply) -> (r: (bool, Vec<i32>))
    ensures
        if !reply.connected {
            !r.0 && r.1@.len() == 0 && *final(modules) == *old(modules)
        } else {
            match reply.count {
                Some((n, true)) => if all_received(reply.files@, n as nat) {
                    &&& r.0
                    &&& r.1@.len() == 0
                    &&& final(modules).modules@.len() == old(modules).modules@.len() + n
                    &&& forall|i: int|
                        0 <= i < old(modules).modules@.len() ==> #[trigger] final(modules).modules@[i]
                            == old(modules).modules@[i]
                    &&& forall|i: int|
                        0 <= i < n ==> (#[trigger] final(modules).modules@[old(
                            modules,
                        ).modules@.len() + i])@ == fd_path(reply.files@[i].1)
                    &&& final(modules).fds@.len() == n
                    &&& forall|i: int|
                        0 <= i < n ==> #[trigger] final(modules).fds@[i] == reply.files@[i].1
                } else {
                    &&& !r.0
                    &&& final(modules).modules@.len() == 0
                    &&& final(modules).fds@.len() == 0
                    &&& r.1@ == received(reply.files@, n as nat)
                },
                _ => {
                    &&& !r.0
                    &&& r.1@.len() == 0
                    &&& final(modules).modules == old(modules).modules
                    &&& final(modules).fds@.len() == 0
                },
            }
        },
{
    let nothing: Vec<i32> = Vec::new();
    if !reply.connected {
        return (false, nothing);
    }
    modules.fds.clear();
    let (count, room): (usize, bool) = match reply.count {
        Some(c) => c,
        None => {
            return (false, nothing);
        },
    };
    if !room {
        return (false, nothing);
    }
    let mut i: usize = 0;
    let ghost files = reply.files@;
    let ghost n = modules.modules@.len();
    assert(files.skip(0) =~= files);
    assert(modules.fds@ + received(files, count as nat) =~= received(files, count as nat));
    while i < count
        invariant
            i <= count,
            i <= files.len(),
            files == reply.files@,
            reply.connected,
            reply.count == Some((count, true)),
            n == old(modules).modules@.len(),
            modules.modules@.len() == n + i,
            modules.fds@.len() == i,
            received(files, count as nat) == modules.fds@ + received(
                files.skip(i as int),
                (count - i) as nat,
            ),
            forall|j: int| 0 <= j < n ==> #[trigger] modules.modules@[j] == old(modules).modules@[j],
            forall|j: int| 0 <= j < i ==> (#[trigger] files[j]).0 && files[j].1 >= 0,
            forall|j: int|
                0 <= j < i ==> (#[trigger] modules.modules@[n + j])@ == fd_path(files[j].1),
            forall|j: int| 0 <= j < i ==> #[trigger] modules.fds@[j] == files[j].1,
        decreases count - i,
    {
        let ghost rest = files.skip(i as int);
        let there = i < reply.files.len() && reply.files[i].0 && reply.files[i].1 >= 0;
        if !there {
            proof {
                if i < files.len() {
                    assert(rest[0] == files[i as int]);
                }
                assert(received(rest, (count - i) as nat).len() == 0);
                assert(modules.fds@ + Seq::<i32>::empty() =~= modules.fds@);
                lemma_all_open(modules.fds@);
            }
            let closing = free_modules(modules);
            return (false, closing);
        }
        let fd: i32 = reply.files[i].1;
        let mut path = String::new();
        path.append("/proc/self/fd/");
        push_decimal(&mut path, fd as i64);
        assert(path@ =~= fd_path(fd));
        let ghost before = modules.fds@;
        modules.modules.push(path);
        modules.fds.push(fd);
        proof {
            assert(rest[0] == files[i as int]);
            assert(rest.skip(1) =~= files.skip(i + 1));
            let later = received(files.skip(i + 1), (count - i - 1) as nat);
            assert(before + (seq![fd] + later) =~= modules.fds@ + later);
        }
        i = i + 1;
    }
    (true, nothing)
}

/// A list of open files holds nothing else.
proof fn lemma_all_open(fds: Seq<i32>)
    requires
        forall|i: int| 0 <= i < fds.len() ==> #[trigger] fds[i] >= 0,
    ensures
        open_files(fds) == fds,
    decreases fds.len(),
{
    reveal(Seq::filter);
    if fds.len() > 0 {
        lemma_all_open(fds.drop_last());
        assert(fds.drop_last().push(fds.last()) =~= fds);
    }
}

/// What becomes of a connection to a companion: it is kept where the daemon
/// answers that there is one, and closed otherwise.
pub fn rezygiskd_connect_companion(fd: i32, reply: Option<u8>) -> (r: (i32, bool))
    ensures
        r == if reply == Some(1u8) {
            (fd, false)
        } else {
            (-1i32, true)
        },
{
    match reply {
        Some(answer) => if answer == 1 {
            (fd, false)
        } else {
            (-1, true)
        },
        None => (-1, true),
    }
}

/// Whether the daemon removed a module.
pub fn rezygiskd_remove_module(reply: Option<u8>) -> (r: bool)
    ensures
        r == (reply == Some(1u8)),
{
    match reply {
        Some(answer) => answer == 1,
        None => false,
    }
}

/// Keeps the first open file that comes with an answer; a later one is
/// returned to be closed.
pub fn read_u32_capture_fd(slot: &mut i32, received: Option<i32>) -> (closing: Option<i32>)
    ensures
        match received {
            Some(fd) => if *old(slot) >= 0 {
                *final(slot) == *old(slot) && closing == Some(fd)
            } else {
                *final(slot) == fd && closing is None
            },
            None => *final(slot) == *old(slot) && closing is None,
        },
{
    match received {
        Some(fd) => if *slot >= 0 {
            Some(fd)
        } else {
            *slot = fd;
            None
        },
        None => None,
    }
}

/// Gives up an open file that came with an answer of no use.
pub fn release_captured_fd(slot: &mut i32) -> (closing: Option<i32>)
    ensures
        if *old(slot) >= 0 {
            *final(slot) == -1 && closing == Some(*old(slot))
        } else {
            *final(slot) == *old(slot) && closing is None
        },
{
    if *slot >= 0 {
        let fd: i32 = *slot;
        *slot = -1;
        Some(fd)
    } else {
        None
    }
}

/// The path of a namespace.
pub open spec fn namespace_path(pid: u32, fd: u32) -> Seq<char> {
    "/proc/"@ + digits(pid as nat, 10) + "/fd/"@ + digits(fd as nat, 10)
}

/// A text as bytes, one for each character.
pub open spec fn narrow(s: Seq<char>) -> Seq<u8> {
    Seq::new(s.len(), |i: int| (s[i] as u32) as u8)
}

/// The smaller of two numbers.
pub open spec fn least(a: int, b: int) -> int {
    if a < b {
        a
    } else {
        b
    }
}

/// How much of a path fits into a buffer with a zero behind it.
pub open spec fn fitting(len: int, size: int, room: int) -> int {
    least(
        len,
        least(
            if size > 0 {
                size - 1
            } else {
                0
            },
            if room > 0 {
                room - 1
            } else {
                0
            },
        ),
    )
}

/// A buffer that holds a path, cut to what fits, and a zero behind it.
pub open spec fn holds_path(
    before: Seq<u8>,
    after: Seq<u8>,
    size: int,
    pid: u32,
    fd: u32,
) -> bool {
    let path = narrow(namespace_path(pid, fd));
    let n = fitting(path.len() as int, size, before.len() as int);
    &&& after.len() == before.len()
    &&& forall|i: int|
        0 <= i < after.len() ==> #[trigger] after[i] == if i < n {
            path[i]
        } else if i == n {
            0
        } else {
            before[i]
        }
}

fn put_path(buf: &mut Vec<u8>, size: usize, pid: u32, fd: u32)
    ensures
        holds_path(old(buf)@, final(buf)@, size as int, pid, fd),
{
    let mut text = String::new();
    text.append("/proc/");
    push_digits(&mut text, pid as u64, 10);
    text.append("/fd/");
    push_digits(&mut text, fd as u64, 10);
    let ghost path = namespace_path(pid, fd);
    assert(text@ =~= path);
    let chars = to_chars(text.as_str());
    let by_size: usize = if size > 0 {
        size - 1
    } else {
        0
    };
    let by_room: usize = if buf.len() > 0 {
        buf.len() - 1
    } else {
        0
    };
    let mut n: usize = chars.len();
    if by_size < n {
        n = by_size;
    }
    if by_room < n {
        n = by_room;
    }
    let mut i: usize = 0;
    while i < n
        invariant
            i <= n,
            chars@ == path,
            n <= chars@.len(),
            n < old(buf)@.len() || n == 0,
            buf@.len() == old(buf)@.len(),
            forall|j: int| 0 <= j < i ==> #[trigger] buf@[j] == narrow(path)[j],
            forall|j: int| i <= j < buf@.len() ==> #[trigger] buf@[j] == old(buf)@[j],
        decreases n - i,
    {
        buf.set(i, chars[i] as u32 as u8);
        i = i + 1;
    }
    if n < buf.len() {
        buf.set(n, 0);
    }
}

/// One word of an answer about a namespace, and the file that came with it.
pub struct NamespaceWord {
    /// The word.
    pub value: u32,
    /// The file that came with it.
    pub file: Option<i32>,
}

/// The answer to a request for a namespace.
pub struct NamespaceReply {
    /// The process, if it could be read.
    pub pid: Option<NamespaceWord>,
    /// The number of the file in that process, if it could be read too.
    pub fd: Option<NamespaceWord>,
}

/// The answer names a namespace.
pub open spec fn names_namespace(reply: NamespaceReply) -> bool {
    reply.pid is Some && reply.fd is Some && reply.fd->0.value != 0
}

/// The file that came with the first word of an answer, or -1.
pub open spec fn word_file(word: Option<NamespaceWord>) -> i32 {
    match word {
        Some(w) => match w.file {
            Some(f) => f,
            None => (-1) as i32,
        },
        None => (-1) as i32,
    }
}

/// Evaluates the answer to a request for a namespace: its path goes into
/// `buf`, and the file that came with the answer into `ns_fd_out`, -1 if none
/// did. An answer that names no namespace leaves the buffer alone and gives
/// its file back to be closed, among the files of the second result.
pub fn rezygiskd_update_mns(
    reply: NamespaceReply,
    buf: &mut Vec<u8>,
    buf_size: usize,
    ns_fd_out: &mut i32,
) -> (r: (bool, Vec<i32>))
    ensures
        r.0 == names_namespace(reply),
        r.0 ==> holds_path(
            old(buf)@,
            final(buf)@,
            buf_size as int,
            reply.pid->0.value,
            reply.fd->0.value,
        ),
        !r.0 ==> final(buf)@ == old(buf)@,
        ({
            let first = word_file(reply.pid);
            let second = if reply.pid is Some {
                word_file(reply.fd)
            } else {
                (-1) as i32
            };
            let kept = if first >= 0 || reply.pid is None || reply.fd is None || reply.fd->0.file is None {
                first
            } else {
                second
            };
            let spare = if first >= 0 && reply.fd is Some && reply.fd->0.file is Some {
                seq![second]
            } else {
                Seq::<i32>::empty()
            };
            if r.0 {
                *final(ns_fd_out) == kept && r.1@ == spare
            } else if kept >= 0 {
                *final(ns_fd_out) == -1 && r.1@ == spare.push(kept)
            } else {
                *final(ns_fd_out) == kept && r.1@ == spare
            }
        }),
{
    let mut closing: Vec<i32> = Vec::new();
    *ns_fd_out = -1;
    let pid = match reply.pid {
        Some(word) => word,
        None => {
            return (false, closing);
        },
    };
    let _ = read_u32_capture_fd(ns_fd_out, pid.file);
    let fd = match reply.fd {
        Some(word) => word,
        None => {
            match release_captured_fd(ns_fd_out) {
                Some(f) => closing.push(f),
                None => {},
            }
            return (false, closing);
        },
    };
    match read_u32_capture_fd(ns_fd_out, fd.file) {
        Some(f) => closing.push(f),
        None => {},
    }
    if fd.value == 0 {
        match release_captured_fd(ns_fd_out) {
            Some(f) => closing.push(f),
            None => {},
        }
        return (false, closing);
    }
    put_path(buf, buf_size, pid.value, fd.value);
    (true, closing)
}

/// A connection is tried just as often as was asked for: never where no attempt
/// was, and not again once it stands or no socket can be had.
pub proof fn law_connection_is_tried_as_asked(retry: u8, r: ConnectStep, left: u32)
    requires
        call_ensures(rezygiskd_connect, (retry,), r),
    ensures
        attempts_made(r) == retry,
        retry > 0 ==> r is Attempt,
        retry == 0 ==> r is Failed,
        connect_next(left, ConnectResult::Connected) is Connected,
        connect_next(left, ConnectResult::NoSocket) is Failed,
        !(connect_next(left, ConnectResult::Refused) is Connected),
        !(connect_next(left, ConnectResult::Refused) is Attempt),
{
    if retry > 0 {
        law_connect_attempts((retry - 1) as u32);
    }
}

/// The root implementation is told by three flags, of which the lowest goes
/// first; no other flag counts.
pub proof fn law_root_is_told_by_its_flag(flags: u32)
    ensures
        root_of(flags) is Apatch <==> flags & 0x1000_0000 != 0,
        root_of(flags) is KernelSU <==> flags & 0x1000_0000 == 0 && flags & 0x2000_0000 != 0,
        root_of(flags) is Magisk <==> flags & 0x1000_0000 == 0 && flags & 0x2000_0000 == 0 && flags
            & 0x4000_0000 != 0,
{
}

proof fn lemma_chunk_at(s: Seq<u8>, cap: nat, i: int)
    requires
        0 <= i < s.len(),
        i < cap,
        s[i] == 0x0a,
        forall|j: int| 0 <= j < i ==> #[trigger] s[j] != 0x0a,
    ensures
        chunk_len(s, cap) == i + 1,
    decreases i,
{
    if i > 0 {
        let rest = s.drop_first();
        assert(s[0] != 0x0a);
        assert forall|j: int| 0 <= j < i - 1 implies #[trigger] rest[j] != 0x0a by {
            assert(rest[j] == s[j + 1]);
        }
        lemma_chunk_at(rest, (cap - 1) as nat, i - 1);
    }
}

proof fn lemma_chunk_without_end(s: Seq<u8>, cap: nat)
    requires
        forall|j: int| 0 <= j < s.len() && j < cap ==> #[trigger] s[j] != 0x0a,
    ensures
        chunk_len(s, cap) == if s.len() < cap {
            s.len()
        } else {
            cap
        },
    decreases s.len(),
{
    if s.len() > 0 && cap > 0 {
        let rest = s.drop_first();
        assert(s[0] != 0x0a);
        assert forall|j: int| 0 <= j < rest.len() && j < cap - 1 implies #[trigger] rest[j]
            != 0x0a by {
            assert(rest[j] == s[j + 1]);
        }
        lemma_chunk_without_end(rest, (cap - 1) as nat);
    }
}

/// The name of a module is what stands behind the key on the first line that has
/// it, up to the end of that line.
pub proof fn law_name_is_read(name: Seq<u8>, rest: Seq<u8>, cap: nat)
    requires
        !name.contains(0x0a),
        name.len() + 6 <= cap,
    ensures
        prop_name(seq![0x6eu8, 0x61u8, 0x6du8, 0x65u8, 0x3du8] + name + seq![0x0au8] + rest, cap)
            == NameView::Name(name),
{
    let key = seq![0x6eu8, 0x61u8, 0x6du8, 0x65u8, 0x3du8];
    let s = key + name + seq![0x0au8] + rest;
    let end = 5 + name.len() as int;
    assert(s[end] == 0x0a);
    assert forall|j: int| 0 <= j < end implies #[trigger] s[j] != 0x0a by {
        if j >= 5 {
            assert(s[j] == name[j - 5]);
        } else {
            assert(s[j] == key[j]);
        }
    }
    lemma_chunk_at(s, cap, end);
    let line = s.take(end + 1);
    assert(line[0] == key[0] && line[1] == key[1] && line[2] == key[2] && line[3] == key[3]
        && line[4] == key[4]);
    assert(line.subrange(5, line.len() - 1) =~= name);
}

/// A line without the key is passed over, and so is the part of a long line that
/// is read at a time.
pub proof fn law_other_lines_are_passed_over(line: Seq<u8>, rest: Seq<u8>, cap: nat)
    requires
        0 < line.len() <= cap,
        line.last() == 0x0a || line.len() == cap,
        forall|j: int| 0 <= j < line.len() - 1 ==> #[trigger] line[j] != 0x0a,
        line.len() < 5 || line.take(5) != seq![0x6eu8, 0x61u8, 0x6du8, 0x65u8, 0x3du8],
    ensures
        prop_name(line + rest, cap) == prop_name(rest, cap),
{
    let s = line + rest;
    let n = line.len() as int;
    assert forall|j: int| 0 <= j < n implies #[trigger] s[j] == line[j] by {}
    if line.last() == 0x0a {
        assert(s[n - 1] == 0x0a);
        lemma_chunk_at(s, cap, n - 1);
    } else {
        assert forall|j: int| 0 <= j < s.len() && j < cap implies #[trigger] s[j] != 0x0a by {}
        lemma_chunk_without_end(s, cap);
    }
    assert(s.take(n) =~= line);
    assert(s.skip(n) =~= rest);
    if sets_name(line) {
        assert(line.take(5) =~= seq![0x6eu8, 0x61u8, 0x6du8, 0x65u8, 0x3du8]);
    }
}

/// A line with the key but without an end gives no name, and an empty file has
/// none.
pub proof fn law_unended_name_is_invalid(name: Seq<u8>, cap: nat)
    requires
        !name.contains(0x0a),
        name.len() + 5 <= cap,
    ensures
        prop_name(seq![0x6eu8, 0x61u8, 0x6du8, 0x65u8, 0x3du8] + name, cap) == NameView::Invalid,
        prop_name(seq![], cap) == NameView::Missing,
{
    let key = seq![0x6eu8, 0x61u8, 0x6du8, 0x65u8, 0x3du8];
    let s = key + name;
    assert forall|j: int| 0 <= j < s.len() && j < cap implies #[trigger] s[j] != 0x0a by {
        if j >= 5 {
            assert(s[j] == name[j - 5]);
        } else {
            assert(s[j] == key[j]);
        }
    }
    lemma_chunk_without_end(s, cap);
    let line = s.take(s.len() as int);
    assert(line[0] == key[0] && line[1] == key[1] && line[2] == key[2] && line[3] == key[3]
        && line[4] == key[4]);
    assert(line.last() == s[s.len() - 1]);
}

/// An answer is whole exactly where each of its parts could be read, the names
/// of all modules among them.
pub proof fn law_whole_answer_has_all_parts(reply: InfoReply)
    ensures
        is_whole(reply) <==> reply.connected && reply.flags is Some && reply.pid is Some
            && reply.count is Some && reply.names@.len() >= (reply.count->0).0 && forall|i: int|
            0 <= i < (reply.count->0).0 ==> #[trigger] reply.names@[i] is Some,
{
}

/// What is known of a daemon is replaced as far as its answer reaches: a part
/// that could not be read leaves it and all behind it as they were. A process
/// number keeps its 32 bits.
pub proof fn law_answer_reaches_as_far_as_it_was_read(info: &mut ReZygiskInfo, reply: InfoReply)
    requires
        call_ensures(rezygiskd_get_info, (info, reply), ()),
    ensures
        final(info).running == reply.connected,
        !reply.connected ==> final(info).root_impl == old(info).root_impl && final(info).pid == old(
            info,
        ).pid && final(info).modules.modules == old(info).modules.modules,
        reply.connected && reply.flags is None ==> final(info).root_impl == old(info).root_impl
            && final(info).pid == old(info).pid,
        reply.connected && reply.flags is Some ==> final(info).root_impl == root_of(
            reply.flags->0,
        ),
        reply.connected && reply.flags is Some && reply.pid is Some ==> final(info).pid
            == reply.pid->0 as i32,
        reply.connected && reply.flags is Some && reply.pid is None ==> final(info).pid == old(
            info,
        ).pid,
        is_whole(reply) && (reply.count->0).1 && (reply.count->0).0 > 0 ==> final(info).modules.modules@.len() == old(info).modules.modules@.len() + (reply.count->0).0,
        reply.connected && reply.flags is Some && reply.pid is Some && reply.count is Some
            && !is_whole(reply) && (reply.count->0).1 && (reply.count->0).0 > 0 ==> final(info).modules.modules@.len() == 0,
{
}

/// The files that came before the first module that is missing are just those:
/// each of them came, and the next one did not.
pub proof fn law_received_is_the_longest_start(files: Seq<(bool, i32)>, count: nat)
    ensures
        ({
            let got = received(files, count);
            let n = got.len() as int;
            &&& n <= count
            &&& n <= files.len()
            &&& forall|i: int|
                0 <= i < n ==> #[trigger] files[i].0 && files[i].1 >= 0 && got[i] == files[i].1
            &&& n < count && n < files.len() ==> !files[n].0 || files[n].1 < 0
        }),
    decreases count,
{
    if count > 0 && files.len() > 0 && files[0].0 && files[0].1 >= 0 {
        let rest = files.skip(1);
        law_received_is_the_longest_start(rest, (count - 1) as nat);
        let got = received(files, count);
        assert forall|i: int| 0 <= i < got.len() implies #[trigger] files[i].0 && files[i].1 >= 0
            && got[i] == files[i].1 by {
            if i > 0 {
                assert(rest[i - 1] == files[i]);
            }
        }
        let n = got.len() as int;
        if n < count && n < files.len() {
            assert(rest[n - 1] == files[n]);
        }
    }
}

/// The modules that a daemon lists are taken all or not at all: where they are,
/// every one has its file and the path of that file; where not, the files that
/// had come are closed and none is kept.
pub proof fn law_modules_are_taken_all_or_not(
    modules: &mut ZygiskModules,
    reply: ModulesReply,
    r: (bool, Vec<i32>),
)
    requires
        call_ensures(rezygiskd_read_modules, (modules, reply), r),
    ensures
        r.0 <==> reply.connected && reply.count is Some && (reply.count->0).1 && all_received(
            reply.files@,
            (reply.count->0).0 as nat,
        ),
        r.0 ==> final(modules).fds@.len() == (reply.count->0).0 && r.1@.len() == 0,
        r.0 ==> forall|i: int|
            0 <= i < (reply.count->0).0 ==> #[trigger] final(modules).fds@[i] == reply.files@[i].1,
        !r.0 && reply.connected ==> final(modules).fds@.len() == 0,
        reply.connected && reply.count is Some && (reply.count->0).1 && !r.0 ==> r.1@ == received(
            reply.files@,
            (reply.count->0).0 as nat,
        ) && final(modules).modules@.len() == 0,
{
}

/// All modules are there exactly where every one that was announced came with
/// its path and an open file.
pub proof fn law_all_received(files: Seq<(bool, i32)>, count: nat)
    ensures
        all_received(files, count) <==> received(files, count).len() == count,
{
    law_received_is_the_longest_start(files, count);
    let n = received(files, count).len() as int;
    if all_received(files, count) && n < count {
        assert(files[n].0 && files[n].1 >= 0);
    }
    if n == count {
        assert forall|i: int| 0 <= i < count implies (#[trigger] files[i]).0 && files[i].1 >= 0 by {
            assert(files[i].0);
        }
    }
}

/// A module's path is that of its open file in this process: behind the
/// directory of the open files stands the number of the file.
pub proof fn law_module_path_names_its_file(fd: i32)
    requires
        fd >= 0,
    ensures
        fd_path(fd).take(14) == "/proc/self/fd/"@,
        digits_value(fd_path(fd).skip(14), 10) == Some(fd as nat),
{
    reveal_strlit("/proc/self/fd/");
    law_number_reads_back(fd as nat, 10);
    assert(fd_path(fd).take(14) =~= "/proc/self/fd/"@);
    assert(fd_path(fd).skip(14) =~= digits(fd as nat, 10));
}

/// Forgetting the modules closes every file that was open, once and in order,
/// and nothing else.
pub proof fn law_open_files_are_closed(modules: &mut ZygiskModules, closing: Vec<i32>)
    requires
        call_ensures(free_modules, (modules,), closing),
    ensures
        closing@ == old(modules).fds@.filter(|fd: i32| fd >= 0),
        final(modules).fds@.len() == 0,
        final(modules).modules@.len() == 0,
{
}

/// A connection to a companion is kept or closed, never both: kept exactly where
/// the daemon answered with a one. The same answer confirms a removal.
pub proof fn law_only_a_one_confirms(fd: i32, reply: Option<u8>, r: (i32, bool), removed: bool)
    requires
        call_ensures(rezygiskd_connect_companion, (fd, reply), r),
        call_ensures(rezygiskd_remove_module, (reply,), removed),
    ensures
        reply == Some(1u8) ==> r.0 == fd && !r.1 && removed,
        reply != Some(1u8) ==> r.0 == -1 && r.1 && !removed,
{
}

/// No file that comes with an answer is lost: it is kept, or it is given back to
/// be closed, and the one that was kept before stays.
pub proof fn law_no_captured_file_is_lost(
    a: &mut i32,
    came: Option<i32>,
    closing: Option<i32>,
    b: &mut i32,
    released: Option<i32>,
)
    requires
        call_ensures(read_u32_capture_fd, (a, came), closing),
        call_ensures(release_captured_fd, (b,), released),
        *old(b) == *final(a),
    ensures
        *old(a) >= 0 ==> *final(a) == *old(a) && closing == came,
        *old(a) < 0 && came is Some ==> *final(a) == came->0 && closing is None,
        came is None ==> *final(a) == *old(a) && closing is None,
        *final(a) >= 0 ==> released == Some(*final(a)) && *final(b) == -1,
        *final(a) < 0 ==> released is None && *final(b) == *final(a),
{
}

/// A namespace's path names the process and its file, in decimal numbers: the
/// part behind `/proc/` reads as the process, and the last one as the file.
pub proof fn law_namespace_path_names_both(pid: u32, fd: u32)
    ensures
        ({
            let s = namespace_path(pid, fd);
            let k = digits(pid as nat, 10).len() as int;
            &&& s.take(6) == "/proc/"@
            &&& digits_value(s.subrange(6, 6 + k), 10) == Some(pid as nat)
            &&& s.subrange(6 + k, 10 + k) == "/fd/"@
            &&& digits_value(s.skip(10 + k), 10) == Some(fd as nat)
        }),
{
    reveal_strlit("/proc/");
    reveal_strlit("/fd/");
    law_number_reads_back(pid as nat, 10);
    law_number_reads_back(fd as nat, 10);
    let s = namespace_path(pid, fd);
    let k = digits(pid as nat, 10).len() as int;
    assert(s.take(6) =~= "/proc/"@);
    assert(s.subrange(6, 6 + k) =~= digits(pid as nat, 10));
    assert(s.subrange(6 + k, 10 + k) =~= "/fd/"@);
    assert(s.skip(10 + k) =~= digits(fd as nat, 10));
}

/// A path that is put into a buffer stays within what the caller said and within
/// the buffer, with room for the zero behind it, and is cut only where it must
/// be.
pub proof fn law_path_fits_its_buffer(len: int, size: int, room: int)
    requires
        0 <= len,
        0 <= size,
        0 <= room,
    ensures
        0 <= fitting(len, size, room) <= len,
        size > 0 ==> fitting(len, size, room) < size,
        room > 0 ==> fitting(len, size, room) < room,
        size == 0 || room == 0 ==> fitting(len, size, room) == 0,
        len < size && len < room ==> fitting(len, size, room) == len,
        fitting(len, size, room) < len && size > 0 && room > 0 ==> fitting(len, size, room) + 1
            == size || fitting(len, size, room) + 1 == room,
{
}

/// An answer about a namespace is of use exactly where both words came and the
/// file's number is not zero; its path then goes into the buffer, which is left
/// alone otherwise. The first open file that came is kept for it, and given back
/// where the answer is of no use.
pub proof fn law_namespace_answer(
    reply: NamespaceReply,
    buf: &mut Vec<u8>,
    size: usize,
    out: &mut i32,
    r: (bool, Vec<i32>),
)
    requires
        call_ensures(rezygiskd_update_mns, (reply, buf, size, out), r),
    ensures
        r.0 <==> reply.pid is Some && reply.fd is Some && reply.fd->0.value != 0,
        !r.0 ==> final(buf)@ == old(buf)@,
        r.0 ==> final(buf)@.len() == old(buf)@.len(),
        !r.0 ==> *final(out) < 0,
        word_file(reply.pid) >= 0 ==> if r.0 {
            *final(out) == word_file(reply.pid)
        } else {
            r.1@.contains(word_file(reply.pid))
        },
        reply.pid is Some && reply.pid->0.file is None && reply.fd is Some && reply.fd->0.file
            is Some && reply.fd->0.file->0 >= 0 ==> if r.0 {
            *final(out) == reply.fd->0.file->0
        } else {
            r.1@.contains(reply.fd->0.file->0)
        },
{
    if !r.0 && r.1@.len() > 0 {
        assert(r.1@.contains(r.1@.last()));
    }
}

/// A whole answer is told as it was given, name by name; of an answer that
/// lacks anything nothing is told.
pub proof fn law_info_is_told_as_given(
    reply: InfoReply,
    r: Option<(RootImpl, i32, Vec<String>)>,
)
    requires
        call_ensures(daemon_info, (reply,), r),
    ensures
        reply.flags is None || reply.pid is None || reply.count is None ==> r is None,
        r is Some ==> {
            &&& (r->0).2@.len() == (reply.count->0).0
            &&& forall|i: int|
                0 <= i < (r->0).2@.len() ==> reply.names@[i] is Some && (
                #[trigger] (r->0).2@[i])@ == (reply.names@[i]->0)@
        },
{
}

/// Forgetting an answer forgets the names of the modules and nothing else.
pub proof fn law_names_are_forgotten_alone(info: &mut ReZygiskInfo)
    requires
        call_ensures(free_rezygisk_info, (info,), ()),
    ensures
        final(info).modules.modules@.len() == 0,
        final(info).modules.fds == old(info).modules.fds,
        final(info).root_impl == old(info).root_impl,
        final(info).pid == old(info).pid,
        final(info).running == old(info).running,
{
}

/// The file of an answer is the one that came with it; none is less than any.
pub proof fn law_file_comes_with_its_word(word: Option<NamespaceWord>)
    ensures
        word is Some && word->0.file is Some ==> word_file(word) == word->0.file->0,
        word is None || word->0.file is None ==> word_file(word) == -1,
{
}

} // verus!
