//! Which open files a new process keeps.
use vstd::prelude::*;
use crate::loader::context::{
    flag_get, flag_set, has_flag, with_flag, ZygiskContext, APP_FORK_AND_SPECIALIZE,
    MAX_EXEMPTED_FDS, MAX_FD_SIZE, POST_SPECIALIZE, SKIP_FD_SANITIZATION,
};
use crate::loader::misc::{parse_int, wrapped32};
use crate::text::digits_value;

verus! {

/// The number of the file that a directory entry stands for; -1 for none.
pub open spec fn entry_fd(name: Seq<char>) -> int {
    match digits_value(name, 10) {
        Some(v) => wrapped32(v as int),
        None => -1,
    }
}

/// Some entry stands for the file.
pub open spec fn is_listed(names: Seq<String>, fd: int) -> bool {
    exists|i: int| 0 <= i < names.len() && entry_fd((#[trigger] names[i])@) == fd
}

/// An entry stands for a file with a number out of range.
pub open spec fn is_beyond(fd: int) -> bool {
    fd != -1 && !(0 <= fd < MAX_FD_SIZE)
}

/// The files among the entries whose number is out of range, in order.
pub open spec fn beyond(names: Seq<String>) -> Seq<i32>
    decreases names.len(),
{
    if names.len() == 0 {
        seq![]
    } else {
        let fd = entry_fd(names.last()@);
        if is_beyond(fd) {
            beyond(names.drop_last()).push(fd as i32)
        } else {
            beyond(names.drop_last())
        }
    }
}

/// A listed file stays allowed, except for the directory that was read.
pub open spec fn allowed_after(allowed: Seq<bool>, names: Seq<String>, dirfd: int) -> Seq<bool> {
    Seq::new(allowed.len(), |k: int| k != dirfd && (allowed[k] || is_listed(names, k)))
}

/// Notes the fork of a process, and says whether its open files are to be
/// recorded: only in the child, and not where they are left to the zygote.
pub fn rz_fork_pre(ctx: &mut ZygiskContext, pid: i32) -> (record: bool)
    ensures
        *final(ctx) == (ZygiskContext { pid, ..*old(ctx) }),
        record == (pid == 0 && !has_flag(old(ctx).flags, SKIP_FD_SANITIZATION)),
{
    ctx.pid = pid;
    ctx.pid == 0 && !flag_get(ctx, SKIP_FD_SANITIZATION)
}

/// Records the files that are open now, given the entries of their directory
/// and the file through which it was read: they stay open later, that file
/// excepted. The result lists the files to close because their numbers are
/// out of range.
pub fn record_fds(ctx: &mut ZygiskContext, names: &Vec<String>, dirfd: i32) -> (closing: Vec<i32>)
    requires
        old(ctx).wf(),
    ensures
        final(ctx).wf(),
        final(ctx).allowed_fds@ == allowed_after(old(ctx).allowed_fds@, names@, dirfd as int),
        *final(ctx) == (ZygiskContext { allowed_fds: final(ctx).allowed_fds, ..*old(ctx) }),
        closing@ == beyond(names@),
{
    let mut closing: Vec<i32> = Vec::new();
    let mut i: usize = 0;
    let ghost first = ctx.allowed_fds@;
    assert(names@.take(0).len() == 0);
    while i < names.len()
        invariant
            i <= names@.len(),
            first == old(ctx).allowed_fds@,
            first.len() == MAX_FD_SIZE,
            ctx.allowed_fds@.len() == MAX_FD_SIZE,
            *ctx == (ZygiskContext { allowed_fds: ctx.allowed_fds, ..*old(ctx) }),
            forall|k: int|
                0 <= k < MAX_FD_SIZE ==> #[trigger] ctx.allowed_fds@[k] == (first[k] || is_listed(
                    names@.take(i as int),
                    k,
                )),
            closing@ == beyond(names@.take(i as int)),
        decreases names@.len() - i,
    {
        let ghost done = names@.take(i as int);
        let ghost more = names@.take(i + 1);
        let fd: i32 = parse_int(names[i].as_str());
        proof {
            assert(more.drop_last() =~= done);
            assert(more.last() == names@[i as int]);
            assert forall|k: int| #[trigger] is_listed(more, k) == (is_listed(done, k) || fd == k) by {
                if is_listed(done, k) {
                    let j = choose|j: int| 0 <= j < done.len() && entry_fd((#[trigger] done[j])@) == k;
                    assert(more[j] == done[j]);
                }
                if fd == k {
                    assert(entry_fd(more[i as int]@) == k);
                }
                if is_listed(more, k) {
                    let j = choose|j: int| 0 <= j < more.len() && entry_fd((#[trigger] more[j])@) == k;
                    if j < i {
                        assert(done[j] == more[j]);
                    }
                }
            }
        }
        if fd != -1 {
            if fd < 0 || fd as usize >= MAX_FD_SIZE {
                closing.push(fd);
            } else {
                ctx.allowed_fds.set(fd as usize, true);
            }
        }
        i = i + 1;
    }
    assert(names@.take(i as int) =~= names@);
    if dirfd >= 0 && (dirfd as usize) < MAX_FD_SIZE {
        ctx.allowed_fds.set(dirfd as usize, false);
    }
    assert(ctx.allowed_fds@ =~= allowed_after(first, names@, dirfd as int));
    closing
}

/// The files with these numbers are allowed too.
pub open spec fn marked(allowed: Seq<bool>, fds: Seq<i32>) -> Seq<bool> {
    Seq::new(allowed.len(), |k: int| allowed[k] || fds.contains(k as i32))
}

/// Allows the files of a list.
pub fn mark_fds_allowed(allowed: &mut Vec<bool>, fds: &Vec<i32>)
    requires
        old(allowed)@.len() == MAX_FD_SIZE,
    ensures
        final(allowed)@ == marked(old(allowed)@, fds@),
{
    let mut i: usize = 0;
    let ghost first = allowed@;
    while i < fds.len()
        invariant
            i <= fds@.len(),
            first.len() == MAX_FD_SIZE,
            allowed@.len() == MAX_FD_SIZE,
            forall|k: int|
                0 <= k < MAX_FD_SIZE ==> #[trigger] allowed@[k] == (first[k] || fds@.take(
                    i as int,
                ).contains(k as i32)),
        decreases fds@.len() - i,
    {
        let fd: i32 = fds[i];
        proof {
            let done = fds@.take(i as int);
            let more = fds@.take(i + 1);
            assert(more =~= done.push(fd));
            assert forall|k: int| 0 <= k < MAX_FD_SIZE implies #[trigger] more.contains(k as i32) == (
            done.contains(k as i32) || fd == k) by {
                if done.contains(k as i32) {
                    let j = choose|j: int| 0 <= j < done.len() && done[j] == k as i32;
                    assert(more[j] == k as i32);
                }
                if fd == k {
                    assert(more[i as int] == k as i32);
                }
            }
        }
        if fd >= 0 && (fd as usize) < MAX_FD_SIZE {
            allowed.set(fd as usize, true);
        }
        i = i + 1;
    }
    assert(fds@.take(i as int) =~= fds@);
    assert(allowed@ =~= marked(first, fds@));
}

/// What closing superfluous files takes.
pub struct SanitizePlan {
    /// The list that the zygote is to leave open in place of its own.
    pub new_list: Option<Vec<i32>>,
    /// The open files are to be looked through.
    pub scan: bool,
}

/// The files that the zygote leaves open.
pub open spec fn ignored_files(ignored: Option<Vec<i32>>) -> Seq<i32> {
    match ignored {
        Some(v) => v@,
        None => seq![],
    }
}

fn joined(a: &Vec<i32>, b: &Vec<i32>) -> (out: Vec<i32>)
    ensures
        out@ == a@ + b@,
{
    let mut out: Vec<i32> = Vec::new();
    let mut i: usize = 0;
    while i < a.len()
        invariant
            i <= a@.len(),
            out@ == a@.take(i as int),
        decreases a@.len() - i,
    {
        out.push(a[i]);
        assert(out@ =~= a@.take(i + 1));
        i = i + 1;
    }
    let mut j: usize = 0;
    assert(out@ =~= a@ + b@.take(0));
    while j < b.len()
        invariant
            j <= b@.len(),
            out@ == a@ + b@.take(j as int),
        decreases b@.len() - j,
    {
        out.push(b[j]);
        assert(out@ =~= a@ + b@.take(j + 1));
        j = j + 1;
    }
    assert(b@.take(j as int) =~= b@);
    out
}

/// Modules asked for files to be kept, and a list for them could be made.
pub open spec fn hands_list_over(ctx: ZygiskContext, list_made: bool) -> bool {
    ctx.exempted_fds@.len() > 0 && list_made
}

/// Decides what closing superfluous files takes. `ignored` is the list that
/// the zygote leaves open by itself. Where modules asked for more, both
/// together become that list, if one could be made, and the zygote is left to
/// do the rest.
pub fn sanitize_fds(ctx: &mut ZygiskContext, ignored: Option<Vec<i32>>, list_made: bool) -> (plan:
    SanitizePlan)
    requires
        old(ctx).wf(),
    ensures
        final(ctx).wf(),
        if has_flag(old(ctx).flags, SKIP_FD_SANITIZATION) {
            plan.new_list is None && !plan.scan && *final(ctx) == *old(ctx)
        } else if !has_flag(old(ctx).flags, APP_FORK_AND_SPECIALIZE) {
            plan.new_list is None && plan.scan == (old(ctx).pid == 0) && *final(ctx) == *old(ctx)
        } else {
            let files = ignored_files(ignored);
            &&& plan.scan == (old(ctx).pid == 0)
            &&& if hands_list_over(*old(ctx), list_made) {
                &&& plan.new_list matches Some(list)
                &&& list@ == files + old(ctx).exempted_fds@
                &&& final(ctx).flags == with_flag(old(ctx).flags, SKIP_FD_SANITIZATION)
                &&& final(ctx).allowed_fds@ == marked(
                    marked(old(ctx).allowed_fds@, files),
                    old(ctx).exempted_fds@,
                )
            } else {
                &&& plan.new_list is None
                &&& final(ctx).flags == old(ctx).flags
                &&& final(ctx).allowed_fds@ == marked(old(ctx).allowed_fds@, files)
            }
            &&& *final(ctx) == (ZygiskContext {
                flags: final(ctx).flags,
                allowed_fds: final(ctx).allowed_fds,
                ..*old(ctx)
            })
        },
{
    if flag_get(ctx, SKIP_FD_SANITIZATION) {
        return SanitizePlan { new_list: None, scan: false };
    }
    let scan = ctx.pid == 0;
    if !flag_get(ctx, APP_FORK_AND_SPECIALIZE) {
        return SanitizePlan { new_list: None, scan };
    }
    let files: Vec<i32> = match ignored {
        Some(v) => v,
        None => Vec::new(),
    };
    assert(files@ =~= ignored_files(ignored));
    mark_fds_allowed(&mut ctx.allowed_fds, &files);
    if ctx.exempted_fds.len() > 0 && list_made {
        let list = joined(&files, &ctx.exempted_fds);
        mark_fds_allowed(&mut ctx.allowed_fds, &ctx.exempted_fds);
        flag_set(ctx, SKIP_FD_SANITIZATION);
        return SanitizePlan { new_list: Some(list), scan };
    }
    SanitizePlan { new_list: None, scan }
}

/// An entry stands for a file that is to be closed.
pub open spec fn is_leaked(allowed: Seq<bool>, fd: int, dirfd: int) -> bool {
    0 <= fd < MAX_FD_SIZE && fd != dirfd && !allowed[fd]
}

/// The files to close, in the order of the entries.
pub open spec fn leaked(allowed: Seq<bool>, names: Seq<String>, dirfd: int) -> Seq<i32>
    decreases names.len(),
{
    if names.len() == 0 {
        seq![]
    } else {
        let before = leaked(allowed, names.drop_last(), dirfd);
        let fd = entry_fd(names.last()@);
        if is_leaked(allowed, fd, dirfd) {
            before.push(fd as i32)
        } else {
            before
        }
    }
}

/// The open files that a new process must not keep, given the entries of
/// their directory and the file through which it is read.
pub fn leaked_fds(ctx: &ZygiskContext, names: &Vec<String>, dirfd: i32) -> (closing: Vec<i32>)
    requires
        ctx.wf(),
    ensures
        closing@ == leaked(ctx.allowed_fds@, names@, dirfd as int),
{
    let mut closing: Vec<i32> = Vec::new();
    let mut i: usize = 0;
    assert(names@.take(0).len() == 0);
    while i < names.len()
        invariant
            i <= names@.len(),
            ctx.wf(),
            closing@ == leaked(ctx.allowed_fds@, names@.take(i as int), dirfd as int),
        decreases names@.len() - i,
    {
        assert(names@.take(i + 1).drop_last() =~= names@.take(i as int));
        assert(names@.take(i + 1).last() == names@[i as int]);
        let fd: i32 = parse_int(names[i].as_str());
        if fd >= 0 && (fd as usize) < MAX_FD_SIZE && fd != dirfd && !ctx.allowed_fds[fd as usize] {
            closing.push(fd);
        }
        i = i + 1;
    }
    assert(names@.take(i as int) =~= names@);
    closing
}

/// A file that is allowed is never closed as superfluous.
pub proof fn law_allowed_files_stay_open(
    allowed: Seq<bool>,
    names: Seq<String>,
    dirfd: int,
    fd: i32,
)
    requires
        allowed.len() == MAX_FD_SIZE,
        0 <= fd < MAX_FD_SIZE,
        allowed[fd as int],
    ensures
        !leaked(allowed, names, dirfd).contains(fd),
    decreases names.len(),
{
    if names.len() > 0 {
        law_allowed_files_stay_open(allowed, names.drop_last(), dirfd, fd);
        let before = leaked(allowed, names.drop_last(), dirfd);
        let all = leaked(allowed, names, dirfd);
        if all.contains(fd) {
            let j = choose|j: int| 0 <= j < all.len() && all[j] == fd;
            if j < before.len() {
                assert(before[j] == fd);
                assert(before.contains(fd));
            }
        }
    }
}

/// What was open right after the fork stays open: a file that was recorded
/// then is not closed later, whatever else was allowed in between.
pub proof fn law_recorded_files_survive(
    allowed: Seq<bool>,
    recorded: Seq<String>,
    recorded_through: int,
    kept: Seq<i32>,
    names: Seq<String>,
    dirfd: int,
    fd: i32,
)
    requires
        allowed.len() == MAX_FD_SIZE,
        0 <= fd < MAX_FD_SIZE,
        fd != recorded_through,
        is_listed(recorded, fd as int),
    ensures
        !leaked(marked(allowed_after(allowed, recorded, recorded_through), kept), names, dirfd).contains(
            fd,
        ),
{
    let now = marked(allowed_after(allowed, recorded, recorded_through), kept);
    assert(now[fd as int]);
    law_allowed_files_stay_open(now, names, dirfd, fd);
}

/// A file that a module wants kept is noted: only while an app is forked,
/// before it has started, while the zygote has not taken over, and up to the
/// limit.
pub fn api_exempt_fd(ctx: &mut ZygiskContext, fd: i32)
    requires
        old(ctx).wf(),
    ensures
        final(ctx).wf(),
        final(ctx).exempted_fds@ == if !has_flag(old(ctx).flags, POST_SPECIALIZE) && !has_flag(
            old(ctx).flags,
            SKIP_FD_SANITIZATION,
        ) && has_flag(old(ctx).flags, APP_FORK_AND_SPECIALIZE) && old(ctx).exempted_fds@.len()
            < MAX_EXEMPTED_FDS {
            old(ctx).exempted_fds@.push(fd)
        } else {
            old(ctx).exempted_fds@
        },
        *final(ctx) == (ZygiskContext { exempted_fds: final(ctx).exempted_fds, ..*old(ctx) }),
{
    if flag_get(ctx, POST_SPECIALIZE) || flag_get(ctx, SKIP_FD_SANITIZATION) {
        return;
    }
    if !flag_get(ctx, APP_FORK_AND_SPECIALIZE) {
        return;
    }
    if ctx.exempted_fds.len() >= MAX_EXEMPTED_FDS {
        return;
    }
    ctx.exempted_fds.push(fd);
}

/// The entry of an open file stands for that file; a name that is no number
/// stands for none.
pub proof fn law_entry_is_its_number(fd: i32, name: Seq<char>)
    requires
        fd >= 0,
    ensures
        entry_fd(crate::text::digits(fd as nat, 10)) == fd,
        digits_value(name, 10) is None ==> entry_fd(name) == -1,
{
    crate::text::law_number_reads_back(fd as nat, 10);
}

/// What is closed for its number is every listed file outside of the range, in
/// order, and nothing else.
pub proof fn law_files_beyond_the_range_are_closed(names: Seq<String>)
    ensures
        beyond(names) == names.filter(
            |n: String| entry_fd(n@) != -1 && !(0 <= entry_fd(n@) < 1024),
        ).map_values(|n: String| entry_fd(n@) as i32),
    decreases names.len(),
{
    reveal(Seq::filter);
    if names.len() > 0 {
        law_files_beyond_the_range_are_closed(names.drop_last());
    }
    assert(beyond(names) =~= names.filter(
        |n: String| entry_fd(n@) != -1 && !(0 <= entry_fd(n@) < 1024),
    ).map_values(|n: String| entry_fd(n@) as i32));
}

/// What is closed as superfluous is every listed file that is not allowed, but
/// for the directory that was read, in order, and nothing else.
pub proof fn law_every_other_file_is_closed(allowed: Seq<bool>, names: Seq<String>, dirfd: int)
    ensures
        leaked(allowed, names, dirfd) == names.filter(
            |n: String|
                0 <= entry_fd(n@) < 1024 && entry_fd(n@) != dirfd && !allowed[entry_fd(n@)],
        ).map_values(|n: String| entry_fd(n@) as i32),
    decreases names.len(),
{
    reveal(Seq::filter);
    if names.len() > 0 {
        law_every_other_file_is_closed(allowed, names.drop_last(), dirfd);
    }
    assert(leaked(allowed, names, dirfd) =~= names.filter(
        |n: String| 0 <= entry_fd(n@) < 1024 && entry_fd(n@) != dirfd && !allowed[entry_fd(n@)],
    ).map_values(|n: String| entry_fd(n@) as i32));
}

/// Recording allows what is listed, takes nothing back but the directory itself,
/// and allows nothing else; a list of files allows just those more.
pub proof fn law_recording_allows_what_is_open(
    allowed: Seq<bool>,
    names: Seq<String>,
    dirfd: int,
    fds: Seq<i32>,
    k: int,
)
    requires
        0 <= k < allowed.len(),
        allowed.len() <= 1024,
    ensures
        allowed_after(allowed, names, dirfd).len() == allowed.len(),
        allowed_after(allowed, names, dirfd)[k] <==> k != dirfd && (allowed[k] || exists|i: int|
            0 <= i < names.len() && entry_fd((#[trigger] names[i])@) == k),
        marked(allowed, fds).len() == allowed.len(),
        marked(allowed, fds)[k] <==> allowed[k] || fds.contains(k as i32),
{
}

/// Open files are recorded exactly in a child whose files are not left to the
/// zygote.
pub proof fn law_files_are_recorded_in_the_child(ctx: &mut ZygiskContext, pid: i32, record: bool)
    requires
        call_ensures(rz_fork_pre, (ctx, pid), record),
    ensures
        final(ctx).pid == pid,
        final(ctx).flags == old(ctx).flags,
        record <==> pid == 0 && !has_flag(old(ctx).flags, SKIP_FD_SANITIZATION),
{
}

/// Superfluous files are looked for exactly in a child whose files are not left
/// to the zygote. Where an app is forked and modules want files kept, the zygote
/// gets a list of those and its own, and is left the rest from then on; what is
/// on that list stays open.
pub proof fn law_sanitizing(
    ctx: &mut ZygiskContext,
    ignored: Option<Vec<i32>>,
    list_made: bool,
    plan: SanitizePlan,
)
    requires
        old(ctx).wf(),
        call_ensures(sanitize_fds, (ctx, ignored, list_made), plan),
    ensures
        ({
            let skip = has_flag(old(ctx).flags, SKIP_FD_SANITIZATION);
            let app = has_flag(old(ctx).flags, APP_FORK_AND_SPECIALIZE);
            let files = match ignored {
                Some(v) => v@,
                None => seq![],
            };
            let extra = old(ctx).exempted_fds@;
            &&& plan.scan <==> !skip && old(ctx).pid == 0
            &&& plan.new_list is Some <==> !skip && app && extra.len() > 0 && list_made
            &&& plan.new_list matches Some(list) ==> list@ == files + extra
            &&& plan.new_list is Some ==> has_flag(final(ctx).flags, SKIP_FD_SANITIZATION)
            &&& plan.new_list is None ==> final(ctx).flags == old(ctx).flags
            &&& skip || !app ==> *final(ctx) == *old(ctx)
            &&& !skip && app ==> forall|k: int|
                0 <= k < 1024 ==> #[trigger] final(ctx).allowed_fds@[k] == (
                old(ctx).allowed_fds@[k] || files.contains(k as i32) || (list_made && extra.contains(
                    k as i32,
                )))
            &&& final(ctx).exempted_fds == old(ctx).exempted_fds
            &&& final(ctx).pid == old(ctx).pid
        }),
{
    crate::loader::context::law_flags_are_independent(
        old(ctx).flags,
        SKIP_FD_SANITIZATION,
        SKIP_FD_SANITIZATION,
    );
}

/// A module's file is kept only while an app is forked and before it started,
/// while the zygote has not taken over, and up to 128 files; else nothing
/// changes.
pub proof fn law_module_files_are_kept_up_to_the_limit(ctx: &mut ZygiskContext, fd: i32)
    requires
        old(ctx).wf(),
        call_ensures(api_exempt_fd, (ctx, fd), ()),
    ensures
        ({
            let open = has_flag(old(ctx).flags, APP_FORK_AND_SPECIALIZE) && !has_flag(
                old(ctx).flags,
                POST_SPECIALIZE,
            ) && !has_flag(old(ctx).flags, SKIP_FD_SANITIZATION) && old(ctx).exempted_fds@.len()
                < 128;
            &&& open ==> final(ctx).exempted_fds@ == old(ctx).exempted_fds@.push(fd)
            &&& !open ==> final(ctx).exempted_fds@ == old(ctx).exempted_fds@
            &&& final(ctx).flags == old(ctx).flags
            &&& final(ctx).allowed_fds == old(ctx).allowed_fds
        }),
{
}

} // verus!
