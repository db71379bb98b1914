//! The library's own hooks: what they do, which there are, and how the
//! library leaves.
use vstd::prelude::*;
use crate::loader::context::{LoaderState, ModuleTable};
use crate::plti::hooks::Plti;

verus! {

/// How much of the library's code runs at the moment.
#[derive(Clone, Copy, Debug, PartialEq, Eq, Structural)]
pub struct Residency {
    /// So many calls are inside the library.
    pub in_loader: usize,
    /// The library is leaving.
    pub unloading: bool,
}

impl Residency {
    /// No call is inside.
    pub fn new() -> (r: Self)
        ensures
            r == (Residency { in_loader: 0, unloading: false }),
    {
        Residency { in_loader: 0, unloading: false }
    }

    /// A call comes in.
    pub fn enter(&mut self)
        requires
            old(self).in_loader < usize::MAX,
        ensures
            *final(self) == (Residency {
                in_loader: (old(self).in_loader + 1) as usize,
                ..*old(self)
            }),
    {
        self.in_loader = self.in_loader + 1;
    }

    /// A call goes out.
    pub fn leave(&mut self)
        requires
            old(self).in_loader > 0,
        ensures
            *final(self) == (Residency {
                in_loader: (old(self).in_loader - 1) as usize,
                ..*old(self)
            }),
    {
        self.in_loader = self.in_loader - 1;
    }

    /// A fork returned. In the child only the call that forked is inside.
    pub fn forked(&mut self, pid: i32)
        ensures
            *final(self) == if pid == 0 {
                Residency { in_loader: 1, unloading: false }
            } else {
                *old(self)
            },
    {
        if pid == 0 {
            self.in_loader = 1;
            self.unloading = false;
        }
    }
}

/// What the hook of `fork` returns without forking: the result of the fork
/// that was done for the process that is being started. `pid` is that of the
/// process, where one is being started.
pub fn fork(pid: Option<i32>) -> (r: Option<i32>)
    ensures
        r == match pid {
            Some(p) => if p >= 0 {
                Some(p)
            } else {
                None
            },
            None => None,
        },
{
    match pid {
        Some(p) => if p >= 0 {
            Some(p)
        } else {
            None
        },
        None => None,
    }
}

/// What the hook on reopening a file does.
#[derive(Clone, Copy, Debug, PartialEq, Eq, Structural)]
pub enum ReopenStep {
    /// Go on as usual.
    CallOriginal,
    /// Close the file.
    Detach,
}

/// The path of the runtime's own shared methods.
pub open spec fn boot_image_head() -> Seq<u8> {
    seq![
        0x2fu8, 0x6d, 0x65, 0x6d, 0x66, 0x64, 0x3a, 0x2f, 0x62, 0x6f, 0x6f, 0x74, 0x2d, 0x69, 0x6d, 0x61,
        0x67, 0x65, 0x2d, 0x6d, 0x65, 0x74, 0x68, 0x6f, 0x64, 0x73, 0x2e, 0x61, 0x72, 0x74,
    ]
}

/// A path starts like that of the runtime's own shared methods.
pub open spec fn is_boot_image(path: Seq<u8>) -> bool {
    path.len() >= 30 && path.take(30) == boot_image_head()
}

/// Whether a path starts like that of the runtime's own shared methods.
pub fn boot_image(path: &Vec<u8>) -> (r: bool)
    ensures
        r == is_boot_image(path@),
{
    let head: [u8; 30] = [
        0x2f, 0x6d, 0x65, 0x6d, 0x66, 0x64, 0x3a, 0x2f, 0x62, 0x6f, 0x6f, 0x74, 0x2d, 0x69, 0x6d, 0x61,
        0x67, 0x65, 0x2d, 0x6d, 0x65, 0x74, 0x68, 0x6f, 0x64, 0x73, 0x2e, 0x61, 0x72, 0x74,
    ];
    assert(head@ =~= boot_image_head());
    if path.len() < 30 {
        return false;
    }
    let mut i: usize = 0;
    while i < 30
        invariant
            i <= 30,
            head@ == boot_image_head(),
            head@.len() == 30,
            path@.len() >= 30,
            forall|j: int| 0 <= j < i ==> #[trigger] path@[j] == head@[j],
        decreases 30 - i,
    {
        if path[i] != head[i] {
            assert(path@.take(30)[i as int] != head@[i as int]);
            return false;
        }
        i = i + 1;
    }
    assert(path@.take(30) =~= boot_image_head());
    true
}

/// What the hook on reopening a file does: a file that is neither a socket
/// nor one of the runtime's own and that has gone is closed instead.
pub fn reopen_or_detach(is_sock: bool, path: &Vec<u8>, there: bool) -> (r: ReopenStep)
    ensures
        r == if is_sock || is_boot_image(path@) || there {
            ReopenStep::CallOriginal
        } else {
            ReopenStep::Detach
        },
{
    if is_sock || boot_image(path) || there {
        ReopenStep::CallOriginal
    } else {
        ReopenStep::Detach
    }
}

/// What leaving takes at this moment.
#[derive(Clone, Copy, Debug, PartialEq, Eq, Structural)]
pub enum LeaveStep {
    /// Nothing.
    Stay,
    /// Take all hooks back, then ask again.
    Unhook,
}

/// What becomes of the library.
pub struct LeavePlan {
    /// The hooks whose memory is to be given back.
    pub plti: Option<Plti>,
    /// The memory to unmap: the library itself.
    pub unmap: Option<(usize, usize)>,
}

/// The library may be removed from memory: all hooks were taken back, the
/// machine allows it, and no other call is inside.
pub open spec fn may_unmap(all_unhooked: bool, self_unmap: bool, residency: Residency) -> bool {
    all_unhooked && self_unmap && residency.in_loader == 1
}

impl LoaderState {
    /// Whether the library leaves now: it may, it wants to, and the call is
    /// on the main thread.
    pub fn leave_begin(&self, main_thread: bool) -> (r: LeaveStep)
        ensures
            r == if self.enable_unloader && main_thread && self.should_unmap_zygisk {
                LeaveStep::Unhook
            } else {
                LeaveStep::Stay
            },
    {
        if self.enable_unloader && main_thread && self.should_unmap_zygisk {
            LeaveStep::Unhook
        } else {
            LeaveStep::Stay
        }
    }

    /// Leaves, once the hooks were taken back: the modules and the hooks are
    /// forgotten, and the library's memory is unmapped if that is safe. Where
    /// it is not, the library stays for good.
    pub fn pthread_attr_setstacksize_inner(
        &mut self,
        residency: &mut Residency,
        all_unhooked: bool,
        self_unmap: bool,
    ) -> (plan: LeavePlan)
        requires
            old(self).should_unmap_zygisk,
        ensures
            plan.plti == old(self).plti,
            plan.unmap == if may_unmap(all_unhooked, self_unmap, *old(residency)) {
                Some((old(self).start_addr, old(self).block_size))
            } else {
                None
            },
            final(self).modules.data is None,
            *final(self) == (LoaderState {
                plti: None,
                modules: ModuleTable { data: None },
                should_unmap_zygisk: all_unhooked,
                enable_unloader: old(self).enable_unloader && plan.unmap is Some,
                ..*old(self)
            }),
            *final(residency) == if all_unhooked && plan.unmap is None {
                Residency { unloading: false, ..*old(residency) }
            } else {
                *old(residency)
            },
    {
        if !all_unhooked {
            self.should_unmap_zygisk = false;
            self.enable_unloader = false;
            self.modules.clear_zygisk_modules();
            let plti = self.take_plti();
            return LeavePlan { plti, unmap: None };
        }
        self.modules.clear_zygisk_modules();
        let plti = self.take_plti();
        if self_unmap && residency.in_loader == 1 {
            return LeavePlan { plti, unmap: Some((self.start_addr, self.block_size)) };
        }
        residency.unloading = false;
        self.enable_unloader = false;
        LeavePlan { plti, unmap: None }
    }
}

/// The library's memory goes only when no hook points into it any more and
/// no other call runs in it.
pub proof fn law_unmapped_only_when_safe(all_unhooked: bool, self_unmap: bool, residency: Residency)
    requires
        may_unmap(all_unhooked, self_unmap, residency),
    ensures
        all_unhooked,
        residency.in_loader == 1,
{
}

/// The name by which the runtime starts the zygote's first class.
pub open spec fn zygote_init_name() -> Seq<char> {
    "com.android.internal.os.ZygoteInit"@
}

/// Whether a text that is copied is the name of the zygote's first class: the
/// moment to hook native methods.
pub fn strdup(text: &str) -> (r: bool)
    ensures
        r == (text@ == zygote_init_name()),
{
    crate::text::same_text(text, "com.android.internal.os.ZygoteInit")
}

/// One of the library's own hooks.
#[derive(Clone, Copy, Debug, PartialEq, Eq, Structural)]
pub enum CoreHook {
    /// On `fork`.
    Fork,
    /// On `strdup`.
    Strdup,
    /// On `property_get`.
    PropertyGet,
    /// On reopening a file.
    ReopenOrDetach,
    /// On `pthread_attr_setstacksize`.
    SetStackSize,
}

impl CoreHook {
    /// The library in which it stands.
    pub fn library(self) -> (s: &'static str)
        ensures
            s@ == if self is SetStackSize {
                "libart.so"@
            } else {
                "libandroid_runtime.so"@
            },
    {
        match self {
            CoreHook::SetStackSize => "libart.so",
            _ => "libandroid_runtime.so",
        }
    }

    /// The symbol, or the start of its name.
    pub fn symbol(self) -> (s: &'static str)
        ensures
            s@ == match self {
                CoreHook::Fork => "fork"@,
                CoreHook::Strdup => "strdup"@,
                CoreHook::PropertyGet => "property_get"@,
                CoreHook::ReopenOrDetach => "_ZNK18FileDescriptorInfo14ReopenOrDetach"@,
                CoreHook::SetStackSize => "pthread_attr_setstacksize"@,
            },
    {
        match self {
            CoreHook::Fork => "fork",
            CoreHook::Strdup => "strdup",
            CoreHook::PropertyGet => "property_get",
            CoreHook::ReopenOrDetach => "_ZNK18FileDescriptorInfo14ReopenOrDetach",
            CoreHook::SetStackSize => "pthread_attr_setstacksize",
        }
    }

    /// Whether the symbol is only the start of the name.
    pub fn is_prefix(self) -> (r: bool)
        ensures
            r == self is ReopenOrDetach,
    {
        match self {
            CoreHook::ReopenOrDetach => true,
            _ => false,
        }
    }
}

/// The hooks that are set when the library comes in, in their order.
pub open spec fn first_hooks() -> Seq<CoreHook> {
    seq![CoreHook::Fork, CoreHook::Strdup, CoreHook::PropertyGet, CoreHook::ReopenOrDetach]
}

/// The hooks that are taken back when the library leaves, in their order.
pub open spec fn last_hooks() -> Seq<CoreHook> {
    seq![CoreHook::Fork, CoreHook::Strdup, CoreHook::ReopenOrDetach, CoreHook::SetStackSize]
}

/// The hooks that are set when the library comes in, in their order.
pub fn hook_functions() -> (hooks: Vec<CoreHook>)
    ensures
        hooks@ == first_hooks(),
{
    let mut hooks: Vec<CoreHook> = Vec::new();
    hooks.push(CoreHook::Fork);
    hooks.push(CoreHook::Strdup);
    hooks.push(CoreHook::PropertyGet);
    hooks.push(CoreHook::ReopenOrDetach);
    assert(hooks@ =~= first_hooks());
    hooks
}

/// The bits of what failed: one for the library that could not be found, one
/// for each hook that could not be set.
pub open spec fn failure_bits(lib_ok: bool, fork: bool, strdup: bool, property_get: bool, reopen: bool)
    -> int {
    (if lib_ok {
        0int
    } else {
        1
    }) + (if fork {
        0int
    } else {
        2
    }) + (if strdup {
        0int
    } else {
        4
    }) + (if property_get {
        0int
    } else {
        8
    }) + (if reopen {
        0int
    } else {
        16
    })
}

/// The status after the first hooks were set; zero if nothing failed.
pub fn hook_status(lib_ok: bool, fork: bool, strdup: bool, property_get: bool, reopen: bool) -> (s: u32)
    ensures
        s == failure_bits(lib_ok, fork, strdup, property_get, reopen),
{
    let mut status: u32 = 0;
    if !lib_ok {
        status = status + 0x1;
    }
    if !fork {
        status = status + 0x2;
    }
    if !strdup {
        status = status + 0x4;
    }
    if !property_get {
        status = status + 0x8;
    }
    if !reopen {
        status = status + 0x10;
    }
    status
}

/// What is done once the runtime is there: the hook that is set then and the
/// one that is taken back. Without the runtime's library nothing happens.
pub fn hook_unloader(libart_added: bool) -> (r: Option<(CoreHook, CoreHook)>)
    ensures
        r == if libart_added {
            Some((CoreHook::SetStackSize, CoreHook::PropertyGet))
        } else {
            None
        },
{
    if libart_added {
        Some((CoreHook::SetStackSize, CoreHook::PropertyGet))
    } else {
        None
    }
}

/// The hooks that are taken back when the library leaves, in their order.
pub fn unhook_functions() -> (hooks: Vec<CoreHook>)
    ensures
        hooks@ == last_hooks(),
{
    let mut hooks: Vec<CoreHook> = Vec::new();
    hooks.push(CoreHook::Fork);
    hooks.push(CoreHook::Strdup);
    hooks.push(CoreHook::ReopenOrDetach);
    hooks.push(CoreHook::SetStackSize);
    assert(hooks@ =~= last_hooks());
    hooks
}

/// Every hook that is set is taken back: those of the start and the later
/// one, once the hook on properties has been taken back on the way.
pub proof fn law_every_hook_is_taken_back(hook: CoreHook)
    requires
        first_hooks().contains(hook) || hook == CoreHook::SetStackSize,
    ensures
        last_hooks().contains(hook) || hook == CoreHook::PropertyGet,
{
    assert(last_hooks()[0] == CoreHook::Fork);
    assert(last_hooks()[1] == CoreHook::Strdup);
    assert(last_hooks()[2] == CoreHook::ReopenOrDetach);
    assert(last_hooks()[3] == CoreHook::SetStackSize);
}

/// Whether the kernel can be asked for a seccomp event.
pub fn supports_seccomp_event(major: u32, minor: u32) -> (r: bool)
    ensures
        r == (major > 3 || major == 3 && minor >= 8),
{
    major > 3 || (major == 3 && minor >= 8)
}

/// What the library's entry point returns: the status of its hooks, or zero
/// where the daemon could not be told.
pub fn entry_result(status: u32, daemon_told: bool) -> (r: usize)
    ensures
        r == if daemon_told {
            status as int
        } else {
            0
        },
{
    if daemon_told {
        status as usize
    } else {
        0
    }
}

/// Calls that come in and go out again leave the count as it was, and the mark
/// of leaving is not touched by them.
pub proof fn law_calls_balance(a: &mut Residency, b: &mut Residency)
    requires
        old(a).in_loader < usize::MAX,
        call_ensures(Residency::enter, (a,), ()),
        *old(b) == *final(a),
        call_ensures(Residency::leave, (b,), ()),
    ensures
        *final(b) == *old(a),
        final(a).in_loader == old(a).in_loader + 1,
{
}

/// In the child of a fork only the call that forked is inside, and the library
/// is not leaving; in the parent nothing changes.
pub proof fn law_fork_leaves_one_call(r: &mut Residency, pid: i32)
    requires
        call_ensures(Residency::forked, (r, pid), ()),
    ensures
        pid == 0 ==> final(r).in_loader == 1 && !final(r).unloading,
        pid != 0 ==> *final(r) == *old(r),
{
}

/// The runtime's fork returns what the fork that was already done returned,
/// where it was done and did not fail; else it forks.
pub proof fn law_fork_is_not_done_twice(pid: Option<i32>, r: Option<i32>)
    requires
        call_ensures(fork, (pid,), r),
    ensures
        r is Some <==> pid is Some && pid->0 >= 0,
        r is Some ==> r == pid,
{
}

/// Only a file that has gone is closed, and never a socket or a file of the
/// runtime's own.
pub proof fn law_only_gone_files_are_detached(
    is_sock: bool,
    path: &Vec<u8>,
    there: bool,
    r: ReopenStep,
)
    requires
        call_ensures(reopen_or_detach, (is_sock, path, there), r),
    ensures
        r is Detach <==> !is_sock && !there && !(path@.len() >= 30 && path@.take(30)
            == boot_image_head()),
{
}

/// The start of the runtime's own path, letter by letter.
pub proof fn law_boot_image_path()
    ensures
        boot_image_head().len() == 30,
        forall|i: int|
            0 <= i < 30 ==> #[trigger] boot_image_head()[i]
                == ("/memfd:/boot-image-methods.art"@[i] as u32) as u8,
{
    reveal_strlit("/memfd:/boot-image-methods.art");
}

/// The library leaves only where it may, wants to, and is on the main thread.
pub proof fn law_leaving_needs_all_three(s: &LoaderState, main: bool, r: LeaveStep)
    requires
        call_ensures(LoaderState::leave_begin, (s, main), r),
    ensures
        r is Unhook <==> s.enable_unloader && s.should_unmap_zygisk && main,
{
}

/// Leaving hands out the hooks and forgets the modules. The memory that is
/// unmapped is the library's own, and only where every hook was taken back, the
/// machine allows it, and the call is the only one inside; else the library
/// stays, and does not try again.
pub proof fn law_leaving(
    s: &mut LoaderState,
    r: &mut Residency,
    unhooked: bool,
    allowed: bool,
    plan: LeavePlan,
)
    requires
        old(s).should_unmap_zygisk,
        call_ensures(
            LoaderState::pthread_attr_setstacksize_inner,
            (s, r, unhooked, allowed),
            plan,
        ),
    ensures
        plan.unmap is Some <==> unhooked && allowed && old(r).in_loader == 1,
        plan.unmap matches Some(m) ==> m.0 == old(s).start_addr && m.1 == old(s).block_size,
        plan.plti == old(s).plti,
        final(s).plti is None,
        final(s).modules.modules().len() == 0,
        plan.unmap is None ==> !final(s).enable_unloader,
        plan.unmap is None && unhooked ==> !final(r).unloading,
        final(r).in_loader == old(r).in_loader,
        !unhooked ==> !final(s).should_unmap_zygisk && *final(r) == *old(r),
{
}

/// Each of the library's hooks stands where its function is called: the one on
/// stack sizes in the runtime, all others in the zygote's own library.
pub proof fn law_hooks_stand_in_their_libraries(a: CoreHook, lib: &'static str, prefix: bool)
    requires
        call_ensures(CoreHook::library, (a,), lib),
        call_ensures(CoreHook::is_prefix, (a,), prefix),
    ensures
        lib@ == "libart.so"@ <==> a == CoreHook::SetStackSize,
        a != CoreHook::SetStackSize ==> lib@ == "libandroid_runtime.so"@,
        prefix <==> a == CoreHook::ReopenOrDetach,
{
    reveal_strlit("libart.so");
    reveal_strlit("libandroid_runtime.so");
    assert("libart.so"@.len() != "libandroid_runtime.so"@.len());
}

/// The status tells what failed, each thing by a bit of its own, and is zero
/// exactly where nothing did.
pub proof fn law_failures_have_bits(lib: bool, fork: bool, strdup: bool, prop: bool, reopen: bool)
    ensures
        ({
            let s = failure_bits(lib, fork, strdup, prop, reopen);
            &&& s == 0 <==> lib && fork && strdup && prop && reopen
            &&& (s % 2 == 1) == !lib
            &&& (s / 2 % 2 == 1) == !fork
            &&& (s / 4 % 2 == 1) == !strdup
            &&& (s / 8 % 2 == 1) == !prop
            &&& (s / 16 == 1) == !reopen
        }),
{
}

/// Once the runtime is there the hook on stack sizes is set and the one on
/// properties is taken back; before, neither. No hook is set or taken back
/// twice.
pub proof fn law_hooks_are_set_and_taken_back_once(
    there: bool,
    r: Option<(CoreHook, CoreHook)>,
)
    requires
        call_ensures(hook_unloader, (there,), r),
    ensures
        r is Some == there,
        r matches Some(p) ==> !first_hooks().contains(p.0) && last_hooks().contains(p.0)
            && first_hooks().contains(p.1) && !last_hooks().contains(p.1),
        first_hooks().no_duplicates(),
        last_hooks().no_duplicates(),
        first_hooks().len() == 4,
        last_hooks().len() == 4,
{
    if let Some(p) = r {
        assert(last_hooks()[3] == p.0);
        assert(first_hooks()[2] == p.1);
    }
}

/// A status is returned only where the daemon was told.
pub proof fn law_entry_returns_its_status(status: u32, told: bool, r: usize)
    requires
        call_ensures(entry_result, (status, told), r),
    ensures
        told ==> r == status,
        !told ==> r == 0,
{
}

/// A path is that of the runtime's shared methods by how it begins: whatever
/// follows makes no difference, and each of the first bytes counts.
pub proof fn law_shared_methods_are_known_by_their_start(path: Seq<u8>, behind: Seq<u8>, i: int)
    requires
        is_boot_image(path),
    ensures
        is_boot_image(path + behind),
        path.len() >= 30,
        path[0] == 0x2f && path[7] == 0x2f && path[26] == 0x2e && path[29] == 0x74,
        0 <= i < 30 ==> !is_boot_image(path.take(i)),
        0 <= i < 30 ==> !is_boot_image(path.update(i, (path[i] / 2) as u8)),
{
    let h = boot_image_head();
    assert((path + behind).take(30) =~= path.take(30));
    assert(path[0] == path.take(30)[0] && path[7] == path.take(30)[7] && path[26] == path.take(
        30,
    )[26] && path[29] == path.take(30)[29]);
    if 0 <= i < 30 {
        assert(path[i] == path.take(30)[i]);
        assert(h[i] > 0);
        assert(path.update(i, (path[i] / 2) as u8).take(30)[i] == path[i] / 2);
    }
}

/// A seccomp event can be asked for from version 3.8 on.
pub proof fn law_newer_kernels_have_the_event(
    major: u32,
    minor: u32,
    later_major: u32,
    later_minor: u32,
    r: bool,
    later: bool,
)
    requires
        call_ensures(supports_seccomp_event, (major, minor), r),
        call_ensures(supports_seccomp_event, (later_major, later_minor), later),
        major < later_major || (major == later_major && minor <= later_minor),
    ensures
        r ==> later,
        later_major < 3 ==> !later,
        major == 3 && minor == 8 ==> r,
        later_major == 3 && later_minor < 8 ==> !later,
{
}

} // verus!
