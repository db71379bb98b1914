//! The state that the hooks share: the process that is being started, and the
//! modules.
use vstd::prelude::*;
use crate::loader::abi::{blank_module, ReZygiskModule};
use crate::loader::plt_commit::{HookQueue, PltHookList};
use crate::plti::hooks::Plti;

verus! {

/// The modules have been told that the process has started.
pub const POST_SPECIALIZE: u32 = 0;

/// An app is forked and started.
pub const APP_FORK_AND_SPECIALIZE: u32 = 1;

/// An app is started.
pub const APP_SPECIALIZE: u32 = 2;

/// The system server is forked and started.
pub const SERVER_FORK_AND_SPECIALIZE: u32 = 3;

/// The modules' mounts are to be taken away from the process.
pub const DO_REVERT_UNMOUNT: u32 = 4;

/// Open files are left to the zygote.
pub const SKIP_FD_SANITIZATION: u32 = 5;

/// The number of flags.
pub const FLAG_MAX: u32 = 6;

/// Files with a number below this can be kept open.
pub const MAX_FD_SIZE: usize = 1024;

/// The most files that modules can keep open.
pub const MAX_EXEMPTED_FDS: usize = 128;

/// How often an empty list of modules is asked for again.
pub const MODULE_TABLE_MAX_RETRIES: u32 = 3;

/// The flag number `flag` is set.
pub open spec fn has_flag(flags: u32, flag: u32) -> bool {
    flags & (1u32 << flag) != 0
}

/// The flags with number `flag` set.
pub open spec fn with_flag(flags: u32, flag: u32) -> u32 {
    flags | (1u32 << flag)
}

/// Setting a flag sets it and no other.
pub proof fn law_flags_are_independent(flags: u32, set: u32, other: u32)
    requires
        set < 32,
        other < 32,
    ensures
        has_flag(with_flag(flags, set), other) == (set == other || has_flag(flags, other)),
{
    assert((((flags | (1u32 << set)) & (1u32 << other)) != 0) == (set == other || (flags & (1u32
        << other)) != 0)) by (bit_vector)
        requires
            set < 32,
            other < 32,
    ;
}

/// The process that is being started.
pub struct ZygiskContext {
    /// Its name.
    pub process: String,
    /// What forking it returned: zero in the child, -1 before the fork.
    pub pid: i32,
    /// How it is started.
    pub flags: u32,
    /// What the daemon says of it.
    pub info_flags: u32,
    /// For each file whether it stays open.
    pub allowed_fds: Vec<bool>,
    /// The files that modules keep open.
    pub exempted_fds: Vec<i32>,
    /// The hooks that modules queued.
    pub queue: HookQueue,
}

impl ZygiskContext {
    /// The lists are within their limits.
    pub open spec fn wf(self) -> bool {
        &&& self.allowed_fds@.len() == MAX_FD_SIZE
        &&& self.exempted_fds@.len() <= MAX_EXEMPTED_FDS
        &&& self.queue.wf()
    }

    /// A process of which nothing is known yet.
    pub fn init() -> (ctx: Self)
        ensures
            ctx.wf(),
            ctx.process@.len() == 0,
            ctx.pid == -1,
            ctx.flags == 0,
            ctx.info_flags == 0,
            forall|k: int| 0 <= k < MAX_FD_SIZE ==> !#[trigger] ctx.allowed_fds@[k],
            ctx.exempted_fds@.len() == 0,
            ctx.queue.register_info@.len() == 0,
            ctx.queue.ignore_info@.len() == 0,
    {
        let mut allowed: Vec<bool> = Vec::new();
        let mut i: usize = 0;
        while i < MAX_FD_SIZE
            invariant
                i <= MAX_FD_SIZE,
                allowed@.len() == i,
                forall|k: int| 0 <= k < i ==> !#[trigger] allowed@[k],
            decreases MAX_FD_SIZE - i,
        {
            allowed.push(false);
            i = i + 1;
        }
        ZygiskContext {
            process: String::new(),
            pid: -1,
            flags: 0,
            info_flags: 0,
            allowed_fds: allowed,
            exempted_fds: Vec::new(),
            queue: HookQueue::new(),
        }
    }
}

/// Sets a flag.
pub fn flag_set(ctx: &mut ZygiskContext, flag: u32)
    requires
        flag < 32,
    ensures
        *final(ctx) == (ZygiskContext { flags: with_flag(old(ctx).flags, flag), ..*old(ctx) }),
{
    ctx.flags = ctx.flags | (1u32 << flag);
}

/// Whether a flag is set.
pub fn flag_get(ctx: &ZygiskContext, flag: u32) -> (r: bool)
    requires
        flag < 32,
    ensures
        r == has_flag(ctx.flags, flag),
{
    (ctx.flags & (1u32 << flag)) != 0
}

/// Whether this is not the zygote after its fork: the child, or no fork yet.
pub fn is_zygote_child(ctx: &ZygiskContext) -> (r: bool)
    ensures
        r == (ctx.pid <= 0),
{
    ctx.pid <= 0
}

/// A native method: its name, its signature and its function; zero stands for
/// no function.
pub struct NativeMethod {
    /// The name.
    pub name: Option<String>,
    /// The signature.
    pub signature: Option<String>,
    /// The function.
    pub fn_ptr: usize,
}

impl NativeMethod {
    /// The name as text.
    pub open spec fn name_text(self) -> Option<Seq<char>> {
        match self.name {
            Some(s) => Some(s@),
            None => None,
        }
    }

    /// The signature as text.
    pub open spec fn signature_text(self) -> Option<Seq<char>> {
        match self.signature {
            Some(s) => Some(s@),
            None => None,
        }
    }
}

/// The methods of one class.
pub struct JniHookEntry {
    /// The class.
    pub class_name: String,
    /// The methods.
    pub methods: Vec<NativeMethod>,
}

/// A view of the loaded modules at one moment.
pub struct ModuleSnapshot<'a> {
    /// The modules; nothing before the first was loaded.
    pub base: Option<&'a Vec<ReZygiskModule>>,
    /// Their number.
    pub len: usize,
}

impl<'a> ModuleSnapshot<'a> {
    /// The modules that it shows: those that are there, as far as its number
    /// reaches. Without modules it shows none, whatever the number is.
    pub open spec fn modules(self) -> Seq<ReZygiskModule> {
        match self.base {
            Some(v) => if self.len <= v@.len() {
                v@.take(self.len as int)
            } else {
                v@
            },
            None => seq![],
        }
    }

    /// The number is that of the modules.
    pub open spec fn wf(self) -> bool {
        match self.base {
            Some(v) => self.len == v@.len(),
            None => self.len == 0,
        }
    }

    /// A module.
    pub fn get(&self, i: usize) -> (r: Option<&ReZygiskModule>)
        ensures
            match r {
                Some(m) => i < self.modules().len() && *m == self.modules()[i as int],
                None => i >= self.modules().len(),
            },
    {
        match self.base {
            Some(v) => if i < self.len && i < v.len() {
                Some(&v[i])
            } else {
                None
            },
            None => None,
        }
    }

    /// All modules, in their order.
    pub fn iter(&self) -> (out: Vec<&ReZygiskModule>)
        ensures
            out@.len() == self.modules().len(),
            forall|i: int|
                0 <= i < out@.len() ==> *(#[trigger] out@[i]) == self.modules()[i],
    {
        let mut out: Vec<&ReZygiskModule> = Vec::new();
        let mut i: usize = 0;
        let mut more = true;
        while more
            invariant
                i <= self.modules().len(),
                !more ==> i == self.modules().len(),
                out@.len() == i,
                forall|j: int| 0 <= j < i ==> *(#[trigger] out@[j]) == self.modules()[j],
            decreases
                self.modules().len() - i + if more {
                    1int
                } else {
                    0
                },
        {
            match self.get(i) {
                Some(m) => {
                    out.push(m);
                    i = i + 1;
                },
                None => {
                    more = false;
                },
            }
        }
        out
    }

    /// Whether it is empty, or invalid because it has a number without modules.
    pub fn is_empty(&self) -> (r: bool)
        ensures
            r == (self.len == 0 || self.base is None),
            r ==> self.modules().len() == 0,
            self.wf() ==> r == (self.modules().len() == 0),
    {
        self.len == 0 || self.base.is_none()
    }
}

/// The loaded modules.
pub struct ModuleTable {
    /// The modules; nothing before the first was loaded.
    pub data: Option<Vec<ReZygiskModule>>,
}

impl ModuleTable {
    /// The modules.
    pub open spec fn modules(self) -> Seq<ReZygiskModule> {
        match self.data {
            Some(v) => v@,
            None => seq![],
        }
    }

    /// A table without modules.
    pub fn new() -> (t: Self)
        ensures
            t.data is None,
            t.modules() == Seq::<ReZygiskModule>::empty(),
    {
        ModuleTable { data: None }
    }

    /// The modules at this moment.
    pub fn module_snapshot(&self) -> (s: ModuleSnapshot<'_>)
        ensures
            s.wf(),
            s.modules() == self.modules(),
            s.base is Some == self.data is Some,
    {
        match &self.data {
            Some(v) => ModuleSnapshot { base: Some(v), len: v.len() },
            None => ModuleSnapshot { base: None, len: 0 },
        }
    }

    /// A module to be changed.
    pub fn with_module(&mut self, idx: usize) -> (r: Option<&mut ReZygiskModule>)
        ensures
            match r {
                Some(m) => {
                    &&& idx < old(self).modules().len()
                    &&& *m == old(self).modules()[idx as int]
                    &&& final(self).modules() == old(self).modules().update(idx as int, *final(m))
                },
                None => idx >= old(self).modules().len() && final(self).modules() == old(
                    self,
                ).modules(),
            },
    {
        match &mut self.data {
            Some(v) => if idx < v.len() {
                Some(&mut v[idx])
            } else {
                None
            },
            None => None,
        }
    }

    /// Adds a module at the end.
    pub fn push_module(&mut self, module: ReZygiskModule)
        ensures
            final(self).modules() == old(self).modules().push(module),
    {
        if self.data.is_none() {
            self.data = Some(Vec::new());
        }
        match &mut self.data {
            Some(v) => v.push(module),
            None => {},
        }
    }

    /// Forgets every module.
    pub fn clear_zygisk_modules(&mut self)
        ensures
            final(self).data is None,
            final(self).modules() == Seq::<ReZygiskModule>::empty(),
    {
        self.data = None;
    }

    /// The number of modules.
    pub fn zygisk_module_length(&self) -> (n: usize)
        ensures
            n == self.modules().len(),
    {
        let snapshot = self.module_snapshot();
        snapshot.len
    }

    /// Leaves the places of the modules and nothing in them.
    pub fn blank_modules(&mut self)
        ensures
            final(self).modules().len() == old(self).modules().len(),
            forall|i: int|
                0 <= i < final(self).modules().len() ==> #[trigger] final(self).modules()[i]
                    == blank_module(),
    {
        let n: usize = self.zygisk_module_length();
        let mut i: usize = 0;
        while i < n
            invariant
                i <= n,
                n == self.modules().len(),
                n == old(self).modules().len(),
                forall|j: int| 0 <= j < i ==> #[trigger] self.modules()[j] == blank_module(),
            decreases n - i,
        {
            self.set_module(i, ReZygiskModule::default());
            i = i + 1;
        }
    }

    fn set_module(&mut self, i: usize, module: ReZygiskModule)
        requires
            i < old(self).modules().len(),
        ensures
            final(self).modules() == old(self).modules().update(i as int, module),
    {
        match self.with_module(i) {
            Some(slot) => {
                *slot = module;
            },
            None => {},
        }
    }
}

/// What the library keeps between the starts of processes.
pub struct LoaderState {
    /// Where the library lies.
    pub start_addr: usize,
    /// How long it is.
    pub block_size: usize,
    /// It is to remove itself from memory.
    pub should_unmap_zygisk: bool,
    /// It may be unloaded.
    pub enable_unloader: bool,
    /// The daemon's list of modules was empty.
    pub module_table_empty: bool,
    /// How often the list was asked for again.
    pub module_table_retries: u32,
    /// The hooks that stand.
    pub plti: Option<Plti>,
    /// The hooks that modules queued by device and inode.
    pub plt_hook_list: PltHookList,
    /// The native methods that stood before they were hooked.
    pub jni_hook_list: Vec<JniHookEntry>,
    /// The modules.
    pub modules: ModuleTable,
}

/// What a use of the interceptor sees: the one that is there, or a fresh one.
pub open spec fn is_seen(there: Option<Plti>, plti: Plti) -> bool {
    match there {
        Some(p) => plti == p,
        None => plti.elf_infos@.len() == 0 && plti.hooks@.len() == 0,
    }
}

/// The interceptor after some uses, each of which saw the first of a pair and
/// left the second behind.
pub open spec fn left_by(there: Option<Plti>, uses: Seq<(Plti, Plti)>) -> Option<Plti> {
    if uses.len() == 0 {
        there
    } else {
        Some(uses.last().1)
    }
}

/// Such uses can follow each other.
pub open spec fn are_uses(there: Option<Plti>, uses: Seq<(Plti, Plti)>) -> bool
    decreases uses.len(),
{
    uses.len() == 0 || (are_uses(there, uses.drop_last()) && is_seen(
        left_by(there, uses.drop_last()),
        uses.last().0,
    ))
}

/// Every use of the interceptor sees it as the use before left it; the first
/// one sees what is there, and an empty interceptor where none is, as at the
/// start and after it was taken away.
pub proof fn law_interceptor_is_kept(there: Option<Plti>, uses: Seq<(Plti, Plti)>, i: int)
    requires
        are_uses(there, uses),
        0 <= i < uses.len(),
    ensures
        i > 0 ==> uses[i].0 == uses[i - 1].1,
        i == 0 && there is Some ==> uses[i].0 == there->0,
        i == 0 && there is None ==> uses[i].0.elf_infos@.len() == 0 && uses[i].0.hooks@.len() == 0,
    decreases uses.len(),
{
    if i < uses.len() - 1 {
        law_interceptor_is_kept(there, uses.drop_last(), i);
    }
}

impl LoaderState {
    /// Nothing has happened yet.
    pub fn new() -> (s: Self)
        ensures
            s.start_addr == 0,
            s.block_size == 0,
            !s.should_unmap_zygisk,
            !s.enable_unloader,
            !s.module_table_empty,
            s.module_table_retries == 0,
            s.plti is None,
            s.plt_hook_list.entries@.len() == 0,
            s.jni_hook_list@.len() == 0,
            s.modules.data is None,
    {
        LoaderState {
            start_addr: 0,
            block_size: 0,
            should_unmap_zygisk: false,
            enable_unloader: false,
            module_table_empty: false,
            module_table_retries: 0,
            plti: None,
            plt_hook_list: PltHookList::new(),
            jni_hook_list: Vec::new(),
            modules: ModuleTable::new(),
        }
    }

    /// The interceptor, to be used: a fresh one on the first use and on the
    /// first after it was taken away, else as the last use left it.
    pub fn with_plti(&mut self) -> (plti: &mut Plti)
        ensures
            is_seen(old(self).plti, *plti),
            *final(self) == (LoaderState { plti: Some(*final(plti)), ..*old(self) }),
    {
        if self.plti.is_none() {
            self.plti = Some(Plti::new());
        }
        self.plti.as_mut().unwrap()
    }

    /// Takes the list of hooks away.
    pub fn take_plti(&mut self) -> (r: Option<Plti>)
        ensures
            r == old(self).plti,
            *final(self) == (LoaderState { plti: None, ..*old(self) }),
    {
        self.plti.take()
    }

    /// Ends the start of a process. In the zygote itself everything stays for
    /// the next process. In a child, what modules queued and their places'
    /// contents go, and the library may leave; it removes itself from memory
    /// only if every hooked method could be put back: `restored` says so for
    /// each class that was found.
    pub fn cleanup(&mut self, ctx: &mut ZygiskContext, restored: &Vec<bool>)
        requires
            old(ctx).wf(),
        ensures
            final(ctx).wf(),
            if old(ctx).pid > 0 {
                *final(self) == *old(self) && *final(ctx) == *old(ctx)
            } else {
                &&& final(self).should_unmap_zygisk == !restored@.contains(false)
                &&& final(self).enable_unloader
                &&& final(self).jni_hook_list@.len() == 0
                &&& final(self).plt_hook_list.entries@.len() == 0
                &&& final(self).modules.modules().len() == old(self).modules.modules().len()
                &&& forall|i: int|
                    0 <= i < final(self).modules.modules().len() ==> #[trigger] final(self).modules.modules()[i] == blank_module()
                &&& *final(self) == (LoaderState {
                    should_unmap_zygisk: final(self).should_unmap_zygisk,
                    enable_unloader: true,
                    jni_hook_list: final(self).jni_hook_list,
                    plt_hook_list: final(self).plt_hook_list,
                    modules: final(self).modules,
                    ..*old(self)
                })
                &&& final(ctx).queue.register_info@.len() == 0
                &&& final(ctx).queue.ignore_info@.len() == 0
                &&& *final(ctx) == (ZygiskContext { queue: final(ctx).queue, ..*old(ctx) })
            },
    {
        if !is_zygote_child(ctx) {
            return;
        }
        self.should_unmap_zygisk = crate::loader::plt_commit::all_installed(restored);
        self.jni_hook_list.clear();
        ctx.queue.register_info.clear();
        ctx.queue.ignore_info.clear();
        self.plt_hook_list.entries.clear();
        self.modules.blank_modules();
        self.enable_unloader = true;
    }
}

/// The zygote itself is told from its child, and from the time before the fork,
/// by the number that forking returned.
pub proof fn law_zygote_has_a_child(ctx: &ZygiskContext, r: bool)
    requires
        call_ensures(is_zygote_child, (ctx,), r),
    ensures
        r <==> !(ctx.pid > 0),
{
}

/// A module that is added is the last one, and changes no other; its place can
/// be read back.
pub proof fn law_added_module_is_the_last(t: &mut ModuleTable, m: ReZygiskModule, n: usize)
    requires
        call_ensures(ModuleTable::push_module, (t, m), ()),
        call_ensures(ModuleTable::zygisk_module_length, (&*final(t),), n),
    ensures
        n == old(t).modules().len() + 1,
        final(t).modules().last() == m,
        final(t).modules().drop_last() == old(t).modules(),
{
    assert(final(t).modules().drop_last() =~= old(t).modules());
}

/// A snapshot shows the modules of the moment, each at its place.
pub proof fn law_snapshot_shows_the_modules(
    t: &ModuleTable,
    s: ModuleSnapshot<'_>,
    i: usize,
    m: Option<&ReZygiskModule>,
    empty: bool,
)
    requires
        call_ensures(ModuleTable::module_snapshot, (t,), s),
        call_ensures(ModuleSnapshot::get, (&s, i), m),
        call_ensures(ModuleSnapshot::is_empty, (&s,), empty),
    ensures
        m is Some <==> i < t.modules().len(),
        m matches Some(x) ==> *x == t.modules()[i as int],
        empty <==> t.modules().len() == 0,
{
}

/// Blanking keeps the places and forgets what was in them; clearing forgets the
/// places too.
pub proof fn law_blanking_keeps_the_places(a: &mut ModuleTable, b: &mut ModuleTable, i: int)
    requires
        call_ensures(ModuleTable::blank_modules, (a,), ()),
        call_ensures(ModuleTable::clear_zygisk_modules, (b,), ()),
        0 <= i < old(a).modules().len(),
    ensures
        final(a).modules().len() == old(a).modules().len(),
        final(a).modules()[i].lib == 0,
        final(a).modules()[i].zygisk_module_entry is None,
        final(a).modules()[i].abi.pre_app_specialize is None,
        !final(a).modules()[i].unload,
        final(b).modules().len() == 0,
{
}

/// The end of a start changes nothing in the zygote. In a child the queues are
/// emptied, the modules' places are blank, and the library may leave, but goes
/// from memory only where every hooked method was put back.
pub proof fn law_end_of_a_start(s: &mut LoaderState, ctx: &mut ZygiskContext, restored: &Vec<bool>)
    requires
        old(ctx).wf(),
        call_ensures(LoaderState::cleanup, (s, ctx, restored), ()),
    ensures
        old(ctx).pid > 0 ==> *final(s) == *old(s) && *final(ctx) == *old(ctx),
        old(ctx).pid <= 0 ==> {
            &&& final(s).enable_unloader
            &&& final(s).should_unmap_zygisk <==> forall|i: int|
                0 <= i < restored@.len() ==> #[trigger] restored@[i]
            &&& final(s).jni_hook_list@.len() == 0
            &&& final(s).plt_hook_list.entries@.len() == 0
            &&& final(ctx).queue.register_info@.len() == 0
            &&& final(ctx).queue.ignore_info@.len() == 0
            &&& final(s).modules.modules().len() == old(s).modules.modules().len()
            &&& final(s).plti == old(s).plti
            &&& final(ctx).flags == old(ctx).flags
            &&& final(ctx).pid == old(ctx).pid
        },
{
    if old(ctx).pid <= 0 {
        if restored@.contains(false) {
            let i = choose|i: int| 0 <= i < restored@.len() && restored@[i] == false;
            assert(!restored@[i]);
        } else {
            assert forall|i: int| 0 <= i < restored@.len() implies #[trigger] restored@[i] by {
                if !restored@[i] {
                    assert(restored@[i] == false);
                    assert(restored@.contains(false));
                }
            }
        }
    }
}

/// The flags are bits, each of its own number.
pub proof fn law_flags_have_numbers()
    ensures
        with_flag(0, 0) == 1,
        with_flag(0, 1) == 2,
        with_flag(0, 2) == 4,
        with_flag(0, 3) == 8,
        with_flag(0, 4) == 16,
        with_flag(0, 5) == 32,
{
    assert((0u32 | (1u32 << 0u32)) == 1 && (0u32 | (1u32 << 1u32)) == 2 && (0u32 | (1u32 << 2u32))
        == 4 && (0u32 | (1u32 << 3u32)) == 8 && (0u32 | (1u32 << 4u32)) == 16 && (0u32 | (1u32
        << 5u32)) == 32) by (bit_vector);
}

/// The interceptor that is taken away is gone, and nothing else is: the next
/// use starts with a fresh one.
pub proof fn law_taken_interceptor_is_gone(state: &mut LoaderState, r: Option<Plti>)
    requires
        call_ensures(LoaderState::take_plti, (state,), r),
    ensures
        r == old(state).plti,
        final(state).plti is None,
        final(state).start_addr == old(state).start_addr,
        final(state).block_size == old(state).block_size,
        final(state).should_unmap_zygisk == old(state).should_unmap_zygisk,
        final(state).enable_unloader == old(state).enable_unloader,
        final(state).module_table_empty == old(state).module_table_empty,
        final(state).module_table_retries == old(state).module_table_retries,
        final(state).plt_hook_list == old(state).plt_hook_list,
        final(state).jni_hook_list == old(state).jni_hook_list,
        final(state).modules == old(state).modules,
{
}

/// A flag that is set is there, and no other changes.
pub proof fn law_flag_is_set(ctx: &mut ZygiskContext, flag: u32, other: u32)
    requires
        flag < 32,
        other < 32,
        call_ensures(flag_set, (ctx, flag), ()),
    ensures
        has_flag(final(ctx).flags, other) <==> other == flag || has_flag(old(ctx).flags, other),
        final(ctx).process == old(ctx).process,
        final(ctx).pid == old(ctx).pid,
        final(ctx).info_flags == old(ctx).info_flags,
        final(ctx).allowed_fds == old(ctx).allowed_fds,
        final(ctx).exempted_fds == old(ctx).exempted_fds,
{
    law_flags_are_independent(old(ctx).flags, flag, other);
}

} // verus!
