//! The order of things while a process is started.
use vstd::prelude::*;
use crate::loader::context::{
    flag_get, flag_set, has_flag, law_flags_are_independent, with_flag, ZygiskContext,
    APP_FORK_AND_SPECIALIZE, APP_SPECIALIZE, DO_REVERT_UNMOUNT, SERVER_FORK_AND_SPECIALIZE,
    SKIP_FD_SANITIZATION,
};

verus! {

/// The user under which the daemon knows an app. An isolated service runs
/// under a user of its own; the owner of its data directory stands for it,
/// and where that cannot be found out there is none.
pub fn daemon_uid(
    uid: u32,
    isolated: bool,
    has_data_dir: bool,
    data_dir_owner: Option<u32>,
) -> (r: Option<u32>)
    ensures
        r == if isolated && has_data_dir {
            data_dir_owner
        } else {
            Some(uid)
        },
{
    if isolated && has_data_dir {
        data_dir_owner
    } else {
        Some(uid)
    }
}

/// What the daemon says of a process, as far as it matters for its mounts.
#[derive(Clone, Copy, Debug, PartialEq, Eq, Structural)]
pub struct ProcessInfo {
    /// It is the first of its kind.
    pub first_started: bool,
    /// It is on the denylist.
    pub on_denylist: bool,
    /// It is the manager.
    pub is_manager: bool,
}

/// What is to be done before the modules run.
#[derive(Clone, Copy, Debug, PartialEq, Eq, Structural)]
pub struct BeforeModules {
    /// Ask the daemon for the clean namespace without entering it.
    pub prepare_clean: bool,
    /// Tell the manager that all is well.
    pub announce: bool,
    /// Enter the clean namespace.
    pub enter_clean: bool,
}

/// Marks the start of an app. Without a user for the daemon nothing more
/// happens.
pub fn app_specialize_begin(ctx: &mut ZygiskContext)
    ensures
        *final(ctx) == (ZygiskContext {
            flags: with_flag(old(ctx).flags, APP_SPECIALIZE),
            ..*old(ctx)
        }),
{
    flag_set(ctx, APP_SPECIALIZE);
}

/// Notes what the daemon says of an app, and says what is to be done before
/// the modules run.
pub fn app_specialize_pre(ctx: &mut ZygiskContext, info_flags: u32, info: ProcessInfo) -> (r:
    BeforeModules)
    ensures
        r == (BeforeModules {
            prepare_clean: info.first_started && !info.on_denylist && !info.is_manager,
            announce: info.is_manager,
            enter_clean: info.on_denylist,
        }),
        *final(ctx) == (ZygiskContext {
            info_flags,
            flags: if info.on_denylist {
                with_flag(old(ctx).flags, DO_REVERT_UNMOUNT)
            } else {
                old(ctx).flags
            },
            ..*old(ctx)
        }),
{
    ctx.info_flags = info_flags;
    if info.on_denylist {
        flag_set(ctx, DO_REVERT_UNMOUNT);
    }
    BeforeModules {
        prepare_clean: info.first_started && !info.on_denylist && !info.is_manager,
        announce: info.is_manager,
        enter_clean: info.on_denylist,
    }
}

/// Whether the clean namespace is to be entered after the modules ran: some
/// module asked for it and the process is not there yet.
pub fn app_specialize_after_modules(ctx: &ZygiskContext, info: ProcessInfo) -> (enter_clean: bool)
    ensures
        enter_clean == (!info.on_denylist && has_flag(ctx.flags, DO_REVERT_UNMOUNT)),
{
    !info.on_denylist && flag_get(ctx, DO_REVERT_UNMOUNT)
}

/// The clean namespace is entered at most once, and it is entered whenever
/// the process is on the denylist or some module asked for it.
pub proof fn law_clean_namespace_once(on_denylist: bool, flags_after_modules: u32)
    ensures
        ({
            let before = on_denylist;
            let after = !on_denylist && has_flag(flags_after_modules, DO_REVERT_UNMOUNT);
            &&& !(before && after)
            &&& (before || after) == (on_denylist || has_flag(flags_after_modules, DO_REVERT_UNMOUNT))
        }),
{
}

/// The ways in which the zygote starts a process.
#[derive(Clone, Copy, Debug, PartialEq, Eq, Structural)]
pub enum StartKind {
    /// An app takes over a process that waits for one.
    SpecializeApp,
    /// The system server is forked.
    ForkServer,
    /// An app is forked.
    ForkApp,
}

/// A step of starting a process.
#[derive(Clone, Copy, Debug, PartialEq, Eq, Structural)]
pub enum StartStep {
    /// Prepare an app.
    AppPre,
    /// Run the modules before the start.
    ModulesPre,
    /// Close superfluous files.
    Sanitize,
    /// Finish an app.
    AppPost,
    /// Run the modules after the start.
    ModulesPost,
    /// Finish the fork.
    ForkPost,
}

/// The flag that stands for a way of starting a process.
pub open spec fn kind_flag(kind: StartKind) -> u32 {
    match kind {
        StartKind::SpecializeApp => SKIP_FD_SANITIZATION,
        StartKind::ForkServer => SERVER_FORK_AND_SPECIALIZE,
        StartKind::ForkApp => APP_FORK_AND_SPECIALIZE,
    }
}

/// The process is forked by the library.
pub open spec fn forks(kind: StartKind) -> bool {
    kind != StartKind::SpecializeApp
}

/// Begins the start of a process: an app's name is noted, empty where it
/// could not be read. The result says whether the process is to be forked
/// first.
pub fn start_pre(ctx: &mut ZygiskContext, kind: StartKind, name: Option<String>) -> (fork: bool)
    ensures
        fork == forks(kind),
        final(ctx).process@ == if kind == StartKind::ForkServer {
            old(ctx).process@
        } else {
            match name {
                Some(s) => s@,
                None => Seq::<char>::empty(),
            }
        },
        *final(ctx) == (ZygiskContext {
            process: final(ctx).process,
            flags: with_flag(old(ctx).flags, kind_flag(kind)),
            ..*old(ctx)
        }),
{
    match kind {
        StartKind::SpecializeApp => {
            set_process(ctx, name);
            flag_set(ctx, SKIP_FD_SANITIZATION);
            false
        },
        StartKind::ForkServer => {
            flag_set(ctx, SERVER_FORK_AND_SPECIALIZE);
            true
        },
        StartKind::ForkApp => {
            set_process(ctx, name);
            flag_set(ctx, APP_FORK_AND_SPECIALIZE);
            true
        },
    }
}

fn set_process(ctx: &mut ZygiskContext, name: Option<String>)
    ensures
        final(ctx).process@ == match name {
            Some(s) => s@,
            None => Seq::<char>::empty(),
        },
        *final(ctx) == (ZygiskContext { process: final(ctx).process, ..*old(ctx) }),
{
    match name {
        Some(s) => {
            ctx.process = s;
        },
        None => {
            ctx.process = String::new();
        },
    }
}

/// The steps before the zygote's own work, once any fork is done. The zygote
/// itself does nothing.
pub open spec fn steps_before(kind: StartKind, pid: i32) -> Seq<StartStep> {
    match kind {
        StartKind::SpecializeApp => seq![StartStep::AppPre],
        StartKind::ForkServer => if pid <= 0 {
            seq![StartStep::ModulesPre, StartStep::Sanitize]
        } else {
            seq![]
        },
        StartKind::ForkApp => if pid <= 0 {
            seq![StartStep::AppPre, StartStep::Sanitize]
        } else {
            seq![]
        },
    }
}

/// The steps after the zygote's own work.
pub open spec fn steps_after(kind: StartKind, pid: i32) -> Seq<StartStep> {
    match kind {
        StartKind::SpecializeApp => seq![StartStep::AppPost],
        StartKind::ForkServer => if pid == 0 {
            seq![StartStep::ModulesPost, StartStep::ForkPost]
        } else {
            seq![StartStep::ForkPost]
        },
        StartKind::ForkApp => if pid == 0 {
            seq![StartStep::AppPost, StartStep::ForkPost]
        } else {
            seq![StartStep::ForkPost]
        },
    }
}

/// The steps before the zygote's own work, in their order.
pub fn start_steps(ctx: &ZygiskContext, kind: StartKind) -> (steps: Vec<StartStep>)
    ensures
        steps@ == steps_before(kind, ctx.pid),
{
    let mut steps: Vec<StartStep> = Vec::new();
    match kind {
        StartKind::SpecializeApp => {
            steps.push(StartStep::AppPre);
        },
        StartKind::ForkServer => {
            if ctx.pid <= 0 {
                steps.push(StartStep::ModulesPre);
                steps.push(StartStep::Sanitize);
            }
        },
        StartKind::ForkApp => {
            if ctx.pid <= 0 {
                steps.push(StartStep::AppPre);
                steps.push(StartStep::Sanitize);
            }
        },
    }
    assert(steps@ =~= steps_before(kind, ctx.pid));
    steps
}

/// The steps after the zygote's own work, in their order.
pub fn finish_steps(ctx: &ZygiskContext, kind: StartKind) -> (steps: Vec<StartStep>)
    ensures
        steps@ == steps_after(kind, ctx.pid),
{
    let mut steps: Vec<StartStep> = Vec::new();
    match kind {
        StartKind::SpecializeApp => {
            steps.push(StartStep::AppPost);
        },
        StartKind::ForkServer => {
            if ctx.pid == 0 {
                steps.push(StartStep::ModulesPost);
            }
            steps.push(StartStep::ForkPost);
        },
        StartKind::ForkApp => {
            if ctx.pid == 0 {
                steps.push(StartStep::AppPost);
            }
            steps.push(StartStep::ForkPost);
        },
    }
    assert(steps@ =~= steps_after(kind, ctx.pid));
    steps
}

/// In the zygote itself no module runs, neither before nor after a fork.
pub proof fn law_no_module_runs_in_the_zygote(kind: StartKind, pid: i32)
    requires
        forks(kind),
        pid > 0,
    ensures
        steps_before(kind, pid).len() == 0,
        steps_after(kind, pid) == seq![StartStep::ForkPost],
{
}

/// How often a step is among some steps.
pub open spec fn times(steps: Seq<StartStep>, step: StartStep) -> nat
    decreases steps.len(),
{
    if steps.len() == 0 {
        0
    } else {
        times(steps.drop_last(), step) + if steps.last() == step {
            1nat
        } else {
            0
        }
    }
}

/// In the process that is started, the modules run exactly once before the
/// zygote's own work and exactly once after it, in the way that is meant for
/// what is started: with all that belongs to an app where it is one, else by
/// themselves. They run first. What a fork brought along is closed right after
/// them, and the fork is finished last, each just where there was a fork.
pub proof fn law_modules_run_once_before_and_after(kind: StartKind)
    ensures
        ({
            let before = steps_before(kind, 0);
            let after = steps_after(kind, 0);
            let app = kind != StartKind::ForkServer;
            let forked: nat = if kind == StartKind::SpecializeApp {
                0
            } else {
                1
            };
            &&& before.first() == if app {
                StartStep::AppPre
            } else {
                StartStep::ModulesPre
            }
            &&& after.first() == if app {
                StartStep::AppPost
            } else {
                StartStep::ModulesPost
            }
            &&& times(before, StartStep::AppPre) + times(before, StartStep::ModulesPre) == 1
            &&& times(after, StartStep::AppPost) + times(after, StartStep::ModulesPost) == 1
            &&& times(before, StartStep::Sanitize) == forked
            &&& times(after, StartStep::ForkPost) == forked
            &&& before.len() == 1 + forked
            &&& after.len() == 1 + forked
        }),
{
    reveal_with_fuel(times, 4);
    let before = steps_before(kind, 0);
    let after = steps_after(kind, 0);
    if kind != StartKind::SpecializeApp {
        assert(before.drop_last() =~= seq![before[0]]);
        assert(after.drop_last() =~= seq![after[0]]);
        assert(seq![before[0]].drop_last() =~= seq![]);
        assert(seq![after[0]].drop_last() =~= seq![]);
    } else {
        assert(before.drop_last() =~= seq![]);
        assert(after.drop_last() =~= seq![]);
    }
}

/// A process that takes over for an app is treated alike whatever its number.
/// A fork that failed is prepared like a child, but nothing ran in it that would
/// have to be finished.
pub proof fn law_start_depends_on_the_fork_alone(kind: StartKind, pid: i32)
    ensures
        kind == StartKind::SpecializeApp ==> steps_before(kind, pid) == steps_before(kind, 0)
            && steps_after(kind, pid) == steps_after(kind, 0),
        pid < 0 ==> steps_before(kind, pid) == steps_before(kind, 0),
        pid < 0 && kind != StartKind::SpecializeApp ==> steps_after(kind, pid)
            == seq![StartStep::ForkPost],
{
}

/// The three ways of starting a process have flags of their own, and just two of
/// them fork; the open files are left to the zygote where there is no fork.
pub proof fn law_ways_are_told_apart(a: StartKind, b: StartKind)
    ensures
        kind_flag(a) == kind_flag(b) ==> a == b,
        forks(a) <==> a == StartKind::ForkServer || a == StartKind::ForkApp,
        kind_flag(a) == APP_FORK_AND_SPECIALIZE <==> a == StartKind::ForkApp,
        kind_flag(a) == SERVER_FORK_AND_SPECIALIZE <==> a == StartKind::ForkServer,
        kind_flag(a) == SKIP_FD_SANITIZATION <==> !forks(a),
{
}

/// An isolated service with a data directory is known by that directory's
/// owner, if there is one; everything else by its own user.
pub proof fn law_isolated_service_is_known_by_its_directory(
    uid: u32,
    isolated: bool,
    has_data_dir: bool,
    owner: Option<u32>,
    r: Option<u32>,
)
    requires
        call_ensures(daemon_uid, (uid, isolated, has_data_dir, owner), r),
    ensures
        !isolated || !has_data_dir ==> r == Some(uid),
        isolated && has_data_dir ==> r == owner,
{
}

/// After the modules, the clean namespace is entered just where some module
/// asked for it and the process is not there already.
pub proof fn law_clean_namespace_after_modules(
    ctx: &ZygiskContext,
    info: ProcessInfo,
    enter: bool,
)
    requires
        call_ensures(app_specialize_after_modules, (ctx, info), enter),
    ensures
        info.on_denylist ==> !enter,
        !info.on_denylist ==> enter == has_flag(ctx.flags, DO_REVERT_UNMOUNT),
{
}

/// Every start is marked by its own way and by no other, an app's name is
/// noted, and a fork is asked for wherever a process is not turned into an app
/// as it is; nothing else changes.
pub proof fn law_start_is_marked(
    ctx: &mut ZygiskContext,
    kind: StartKind,
    name: Option<String>,
    fork: bool,
    flag: u32,
)
    requires
        call_ensures(start_pre, (ctx, kind, name), fork),
        flag < 32,
    ensures
        fork <==> kind == StartKind::ForkApp || kind == StartKind::ForkServer,
        has_flag(final(ctx).flags, flag) <==> has_flag(old(ctx).flags, flag) || (kind
            == StartKind::ForkApp && flag == 1) || (kind == StartKind::ForkServer && flag == 3) || (
        kind == StartKind::SpecializeApp && flag == 5),
        kind != StartKind::ForkServer && name is Some ==> final(ctx).process@ == name->0@,
        kind != StartKind::ForkServer && name is None ==> final(ctx).process@.len() == 0,
        kind == StartKind::ForkServer ==> final(ctx).process@ == old(ctx).process@,
        final(ctx).pid == old(ctx).pid,
        final(ctx).info_flags == old(ctx).info_flags,
        final(ctx).allowed_fds == old(ctx).allowed_fds,
        final(ctx).exempted_fds == old(ctx).exempted_fds,
        final(ctx).queue == old(ctx).queue,
{
    law_flags_are_independent(old(ctx).flags, 1, flag);
    law_flags_are_independent(old(ctx).flags, 3, flag);
    law_flags_are_independent(old(ctx).flags, 5, flag);
}

/// An app on the denylist, and no other, gets a clean namespace and is marked
/// for it; a manager is announced; and the clean namespace is prepared for the
/// first start of an app that is neither.
pub proof fn law_denylist_decides(
    ctx: &mut ZygiskContext,
    info_flags: u32,
    info: ProcessInfo,
    r: BeforeModules,
    flag: u32,
)
    requires
        call_ensures(app_specialize_pre, (ctx, info_flags, info), r),
        flag < 32,
    ensures
        r.enter_clean <==> info.on_denylist,
        r.announce <==> info.is_manager,
        r.prepare_clean ==> info.first_started && !r.enter_clean && !r.announce,
        info.first_started ==> r.prepare_clean || r.enter_clean || r.announce,
        has_flag(final(ctx).flags, flag) <==> has_flag(old(ctx).flags, flag) || (info.on_denylist
            && flag == 4),
        final(ctx).info_flags == info_flags,
        final(ctx).process == old(ctx).process,
        final(ctx).pid == old(ctx).pid,
        final(ctx).allowed_fds == old(ctx).allowed_fds,
        final(ctx).exempted_fds == old(ctx).exempted_fds,
{
    law_flags_are_independent(old(ctx).flags, 4, flag);
}

/// The start of an app is marked, and nothing else changes.
pub proof fn law_app_start_is_marked(ctx: &mut ZygiskContext, flag: u32)
    requires
        call_ensures(app_specialize_begin, (ctx,), ()),
        flag < 32,
    ensures
        has_flag(final(ctx).flags, flag) <==> has_flag(old(ctx).flags, flag) || flag == 2,
        final(ctx).process == old(ctx).process,
        final(ctx).pid == old(ctx).pid,
        final(ctx).info_flags == old(ctx).info_flags,
        final(ctx).allowed_fds == old(ctx).allowed_fds,
{
    law_flags_are_independent(old(ctx).flags, 2, flag);
}

} // verus!
