//! Loading the modules, and what they can ask the library for.
use vstd::prelude::*;
use crate::loader::abi::{
    blank_module, decode_id, encode_id, fill, filled, number_of, ReZygiskAbi, ReZygiskApi,
    ReZygiskModule, REZYGISK_API_VERSION, RZID_MAGIC,
};
use crate::loader::context::{
    flag_get, flag_set, has_flag, with_flag, LoaderState, ModuleTable, ZygiskContext,
    APP_SPECIALIZE, DO_REVERT_UNMOUNT, MODULE_TABLE_MAX_RETRIES, POST_SPECIALIZE,
    SERVER_FORK_AND_SPECIALIZE,
};
use crate::text::text_contains;

verus! {

/// A handle is that of one of so many modules.
pub open spec fn is_handle(handle: usize, modules: nat) -> bool {
    RZID_MAGIC <= handle < RZID_MAGIC + modules
}

/// The module that a handle stands for.
pub fn module_of(handle: usize, modules: usize) -> (r: Option<usize>)
    ensures
        r == if is_handle(handle, modules as nat) {
            Some((handle - RZID_MAGIC) as usize)
        } else {
            None
        },
{
    if handle < RZID_MAGIC || handle - RZID_MAGIC >= modules {
        None
    } else {
        Some(decode_id(handle))
    }
}

/// Zero is never a module's handle, however many modules there are, so that a
/// handle that was never set cannot pass for the first module's.
pub proof fn law_zero_is_no_handle(modules: nat)
    ensures
        !is_handle(0, modules),
{
}

/// The module whose companion is to be connected to.
pub fn api_connect_companion(table: &ModuleTable, handle: usize) -> (r: Option<usize>)
    ensures
        r == if is_handle(handle, table.modules().len()) {
            Some((handle - RZID_MAGIC) as usize)
        } else {
            None
        },
{
    module_of(handle, table.zygisk_module_length())
}

/// The module whose directory is to be opened.
pub fn api_get_module_dir(table: &ModuleTable, handle: usize) -> (r: Option<usize>)
    ensures
        r == if is_handle(handle, table.modules().len()) {
            Some((handle - RZID_MAGIC) as usize)
        } else {
            None
        },
{
    module_of(handle, table.zygisk_module_length())
}

/// Sets an option for a module: taking the mounts away is for the process,
/// unloading for the module. An unknown module or option changes nothing.
pub fn api_set_option(ctx: &mut ZygiskContext, table: &mut ModuleTable, handle: usize, opt: i32)
    ensures
        if !is_handle(handle, old(table).modules().len()) {
            *final(ctx) == *old(ctx) && final(table).modules() == old(table).modules()
        } else if opt == 0 {
            &&& *final(ctx) == (ZygiskContext {
                flags: with_flag(old(ctx).flags, DO_REVERT_UNMOUNT),
                ..*old(ctx)
            })
            &&& final(table).modules() == old(table).modules()
        } else if opt == 1 {
            let i = handle - RZID_MAGIC;
            &&& *final(ctx) == *old(ctx)
            &&& final(table).modules() == old(table).modules().update(
                i,
                ReZygiskModule { unload: true, ..old(table).modules()[i] },
            )
        } else {
            *final(ctx) == *old(ctx) && final(table).modules() == old(table).modules()
        },
{
    let idx: usize = match module_of(handle, table.zygisk_module_length()) {
        Some(i) => i,
        None => {
            return;
        },
    };
    if opt == 0 {
        flag_set(ctx, DO_REVERT_UNMOUNT);
    } else if opt == 1 {
        match table.with_module(idx) {
            Some(m) => {
                m.unload = true;
            },
            None => {},
        }
    }
}

/// The flag that says that a process is the first of its kind.
pub const PRIVATE_MASK: u32 = 0x8000_0000;

/// The flags of the process as modules see them: without the private one.
pub fn api_get_flags(ctx: &ZygiskContext) -> (r: u32)
    ensures
        r == ctx.info_flags as int % 0x8000_0000,
{
    let flags: u32 = ctx.info_flags;
    assert(flags & !0x8000_0000u32 == flags % 0x8000_0000u32) by (bit_vector);
    flags & !PRIVATE_MASK
}

/// Registers a module: its interface gets the functions of its version, and its
/// callbacks and that interface go into its place, which is where a module has
/// its interface from. A version that is too new, or a handle without a module,
/// is refused.
pub fn rezygisk_module_register(table: &mut ModuleTable, api: &mut ReZygiskApi, abi: &ReZygiskAbi)
    -> (r: bool)
    ensures
        r == (abi.api_version <= REZYGISK_API_VERSION && number_of(old(api).impl_) < old(
            table,
        ).modules().len()),
        if r {
            let i = number_of(old(api).impl_);
            &&& *final(api) == filled(*old(api), abi.api_version)
            &&& final(table).modules() == old(table).modules().update(
                i,
                ReZygiskModule { abi: *abi, api: *final(api), ..old(table).modules()[i] },
            )
        } else {
            *final(api) == *old(api) && final(table).modules() == old(table).modules()
        },
{
    if abi.api_version > REZYGISK_API_VERSION {
        return false;
    }
    let idx: usize = decode_id(api.impl_);
    match table.with_module(idx) {
        Some(m) => {
            fill(api, abi.api_version);
            m.abi = *abi;
            m.api = *api;
            true
        },
        None => false,
    }
}

/// How loading a module's library ended.
#[derive(Clone, Copy, Debug, PartialEq, Eq, Structural)]
pub enum LoadOutcome {
    /// It could not be loaded.
    Failed,
    /// It has no entry point.
    NoEntry,
    /// It was loaded: its number and its entry point.
    Loaded { lib: usize, entry: usize },
}

/// What follows loading a module's library.
#[derive(Clone, Copy, Debug, PartialEq, Eq, Structural)]
pub enum LoadStep {
    /// The module has its place.
    Added,
    /// Tell the daemon to remove the module with this number from its list;
    /// unload the library first if `unload`.
    Remove { index: usize, unload: bool },
}

/// How far loading the modules has come.
pub struct LoadProgress {
    /// So many modules have left the daemon's list.
    pub removed: usize,
}

impl LoadProgress {
    /// Nothing has been loaded.
    pub fn new() -> (p: Self)
        ensures
            p.removed == 0,
    {
        LoadProgress { removed: 0 }
    }

    /// Gives a module that was loaded its place, or says which one the daemon
    /// is to remove: its list has become shorter by those removed before.
    pub fn load_modules_only(&self, table: &mut ModuleTable, i: usize, outcome: LoadOutcome) -> (r:
        LoadStep)
        requires
            self.removed <= i,
            old(table).modules().len() + RZID_MAGIC <= usize::MAX,
        ensures
            match outcome {
                LoadOutcome::Loaded { lib, entry } => {
                    let place = old(table).modules().len();
                    &&& r is Added
                    &&& final(table).modules() == old(table).modules().push(
                        ReZygiskModule {
                            api: ReZygiskApi {
                                impl_: (place + RZID_MAGIC) as usize,
                                register_module: true,
                                ..blank_module().api
                            },
                            lib,
                            zygisk_module_entry: Some(entry),
                            ..blank_module()
                        },
                    )
                },
                _ => {
                    &&& r == (LoadStep::Remove {
                        index: (i - self.removed) as usize,
                        unload: outcome is NoEntry,
                    })
                    &&& final(table).modules() == old(table).modules()
                },
            },
    {
        match outcome {
            LoadOutcome::Loaded { lib, entry } => {
                let mut m = ReZygiskModule::default();
                m.lib = lib;
                m.zygisk_module_entry = Some(entry);
                m.api.register_module = true;
                m.api.impl_ = encode_id(table.zygisk_module_length());
                table.push_module(m);
                LoadStep::Added
            },
            LoadOutcome::NoEntry => LoadStep::Remove { index: i - self.removed, unload: true },
            LoadOutcome::Failed => LoadStep::Remove { index: i - self.removed, unload: false },
        }
    }

    /// Notes whether the daemon removed a module.
    pub fn module_removed(&mut self, removed: bool)
        requires
            old(self).removed < usize::MAX,
        ensures
            final(self).removed == if removed {
                old(self).removed + 1
            } else {
                old(self).removed as int
            },
    {
        if removed {
            self.removed = self.removed + 1;
        }
    }
}

/// The handle that a loaded module gets leads back to its own place.
pub proof fn law_loaded_module_finds_itself(place: usize)
    requires
        place + RZID_MAGIC <= usize::MAX,
    ensures
        number_of((place + RZID_MAGIC) as usize) == place,
        is_handle((place + RZID_MAGIC) as usize, (place + 1) as nat),
{
}

/// The daemon's list after the first `upto` of `total` modules were tried:
/// `kept` says which of those stayed in it. The list holds the modules'
/// first numbers.
pub open spec fn daemon_list(kept: Seq<bool>, upto: nat, total: nat) -> Seq<int>
    decreases upto,
{
    if upto == 0 {
        Seq::new(total, |k: int| k)
    } else {
        let before = daemon_list(kept, (upto - 1) as nat, total);
        let at = (upto - 1) - gone(kept, (upto - 1) as nat);
        if kept[upto - 1] || !(0 <= at < before.len()) {
            before
        } else {
            before.remove(at)
        }
    }
}

/// How many of the first `upto` modules left the list.
pub open spec fn gone(kept: Seq<bool>, upto: nat) -> nat
    decreases upto,
{
    if upto == 0 {
        0
    } else {
        gone(kept, (upto - 1) as nat) + (if kept[upto - 1] {
            0nat
        } else {
            1nat
        })
    }
}

/// A module that has not been tried yet stands in the daemon's list at its
/// first number less the number of those removed before: removing by that
/// number removes the right module.
pub proof fn law_removal_hits_the_module(kept: Seq<bool>, upto: nat, total: nat, i: int)
    requires
        upto <= i < total,
        kept.len() == total,
    ensures
        gone(kept, upto) <= upto,
        daemon_list(kept, upto, total).len() == total - gone(kept, upto),
        daemon_list(kept, upto, total)[i - gone(kept, upto)] == i,
    decreases upto,
{
    if upto > 0 {
        let u = (upto - 1) as nat;
        law_removal_hits_the_module(kept, u, total, i);
        law_removal_hits_the_module(kept, u, total, u as int);
    }
}

/// The daemon's list is read again on a fork: it was empty, and it has not been
/// read again too often.
pub open spec fn reads_again(empty: bool, retries: u32) -> bool {
    empty && retries < MODULE_TABLE_MAX_RETRIES
}

impl LoaderState {
    /// Notes how many modules the daemon listed. An empty list may only mean
    /// that the daemon is not done reading its own.
    pub fn modules_read(&mut self, count: usize)
        ensures
            *final(self) == (LoaderState { module_table_empty: count == 0, ..*old(self) }),
    {
        self.module_table_empty = count == 0;
    }

    /// Whether the fork that is about to happen reads the daemon's list again
    /// first.
    pub fn read_modules_again(&mut self) -> (again: bool)
        ensures
            again == reads_again(old(self).module_table_empty, old(self).module_table_retries),
            *final(self) == (LoaderState {
                module_table_retries: if again {
                    (old(self).module_table_retries + 1) as u32
                } else {
                    old(self).module_table_retries
                },
                ..*old(self)
            }),
    {
        if self.module_table_empty && self.module_table_retries < MODULE_TABLE_MAX_RETRIES {
            self.module_table_retries = self.module_table_retries + 1;
            true
        } else {
            false
        }
    }
}

/// How often the list is read again over some forks; each answer says whether
/// the list is empty by then.
pub open spec fn times_read_again(empty: bool, retries: u32, answers: Seq<bool>) -> nat
    decreases answers.len(),
{
    if answers.len() == 0 {
        0
    } else if reads_again(empty, retries) {
        1 + times_read_again(answers[0], (retries + 1) as u32, answers.drop_first())
    } else {
        times_read_again(empty, retries, answers.drop_first())
    }
}

/// However many processes are forked, the daemon's list is read again no more
/// often than the limit allows, and never again once it was not empty.
pub proof fn law_list_is_read_again_boundedly(empty: bool, retries: u32, answers: Seq<bool>)
    ensures
        retries <= MODULE_TABLE_MAX_RETRIES ==> times_read_again(empty, retries, answers)
            <= MODULE_TABLE_MAX_RETRIES - retries,
        !empty ==> times_read_again(empty, retries, answers) == 0,
    decreases answers.len(),
{
    if answers.len() > 0 {
        if reads_again(empty, retries) {
            law_list_is_read_again_boundedly(
                answers[0],
                (retries + 1) as u32,
                answers.drop_first(),
            );
        } else {
            law_list_is_read_again_boundedly(empty, retries, answers.drop_first());
        }
    }
}

/// Which callback of a module is due.
#[derive(Clone, Copy, Debug, PartialEq, Eq, Structural)]
pub enum Stage {
    /// The one for apps.
    App,
    /// The one for the system server.
    Server,
    /// None.
    Nothing,
}

/// The callback that is due in a process.
pub open spec fn stage_of(flags: u32) -> Stage {
    if has_flag(flags, APP_SPECIALIZE) {
        Stage::App
    } else if has_flag(flags, SERVER_FORK_AND_SPECIALIZE) {
        Stage::Server
    } else {
        Stage::Nothing
    }
}

/// The callback that each module gets after it was loaded.
pub fn run_modules_pre(ctx: &ZygiskContext) -> (r: Stage)
    ensures
        r == stage_of(ctx.flags),
{
    if flag_get(ctx, APP_SPECIALIZE) {
        Stage::App
    } else if flag_get(ctx, SERVER_FORK_AND_SPECIALIZE) {
        Stage::Server
    } else {
        Stage::Nothing
    }
}

/// Notes that the process has started, and returns the callback that each
/// module gets then.
pub fn run_modules_post(ctx: &mut ZygiskContext) -> (r: Stage)
    ensures
        *final(ctx) == (ZygiskContext {
            flags: with_flag(old(ctx).flags, POST_SPECIALIZE),
            ..*old(ctx)
        }),
        r == stage_of(final(ctx).flags),
{
    flag_set(ctx, POST_SPECIALIZE);
    run_modules_pre(ctx)
}

/// What happens to a module's library once the process has started.
#[derive(Clone, Copy, Debug, PartialEq, Eq, Structural)]
pub enum LibraryFate {
    /// It stays mapped and is forgotten.
    Abandon,
    /// It is unloaded.
    Unload,
}

/// What happens to a module's library: it stays unless the module asked to be
/// unloaded.
pub fn library_fate(module: &ReZygiskModule) -> (r: LibraryFate)
    ensures
        r == if module.unload {
            LibraryFate::Unload
        } else {
            LibraryFate::Abandon
        },
{
    if module.unload {
        LibraryFate::Unload
    } else {
        LibraryFate::Abandon
    }
}

/// A mapping's path names the library.
pub open spec fn still_mapped(paths: Seq<String>, lib: Seq<char>) -> bool {
    lib.len() > 0 && exists|i: int|
        0 <= i < paths.len() && crate::text::has_part((#[trigger] paths[i])@, lib)
}

/// Whether a library that was unloaded still shows among the paths of the
/// mappings.
pub fn library_still_mapped(paths: &Vec<String>, lib: &str) -> (r: bool)
    ensures
        r == still_mapped(paths@, lib@),
{
    if lib.unicode_len() == 0 {
        return false;
    }
    let mut i: usize = 0;
    while i < paths.len()
        invariant
            i <= paths@.len(),
            lib@.len() > 0,
            forall|j: int|
                0 <= j < i ==> !crate::text::has_part((#[trigger] paths@[j])@, lib@),
        decreases paths@.len() - i,
    {
        if text_contains(paths[i].as_str(), lib) {
            assert(crate::text::has_part(paths@[i as int]@, lib@));
            return true;
        }
        i = i + 1;
    }
    false
}

/// Whether an exception that is pending after a callback is the module's own,
/// to be described and cleared: one that was pending before is not touched.
pub fn check_module_exception(pending_before: bool, pending_after: bool) -> (clear: bool)
    ensures
        clear == (!pending_before && pending_after),
{
    !pending_before && pending_after
}

/// A handle stands for a module exactly where it was given to one: the module's
/// place and the handle lead to each other.
pub proof fn law_handles_stand_for_modules(handle: usize, modules: usize, place: Option<usize>)
    requires
        call_ensures(module_of, (handle, modules), place),
    ensures
        place matches Some(i) ==> i < modules && i + 313 == handle,
        forall|i: usize| i < modules && #[trigger] (i + 313) == handle ==> place == Some(i),
{
}

/// The two requests that take a handle answer with the same module, and only
/// where there is one.
pub proof fn law_requests_find_the_module(
    table: &ModuleTable,
    handle: usize,
    companion: Option<usize>,
    dir: Option<usize>,
)
    requires
        call_ensures(api_connect_companion, (table, handle), companion),
        call_ensures(api_get_module_dir, (table, handle), dir),
    ensures
        companion == dir,
        companion is Some <==> 313 <= handle < 313 + table.modules().len(),
        companion matches Some(i) ==> i == handle - 313,
{
}

/// An option changes one thing: taking the mounts away marks the process,
/// unloading marks the module that asked, and no other; a handle without a
/// module, or another option, changes nothing.
pub proof fn law_options_change_one_thing(
    ctx: &mut ZygiskContext,
    table: &mut ModuleTable,
    handle: usize,
    opt: i32,
    k: int,
)
    requires
        call_ensures(api_set_option, (ctx, table, handle, opt), ()),
        0 <= k < old(table).modules().len(),
    ensures
        ({
            let known = 313 <= handle < 313 + old(table).modules().len();
            let was = old(table).modules()[k];
            let is = final(table).modules()[k];
            &&& final(table).modules().len() == old(table).modules().len()
            &&& has_flag(final(ctx).flags, DO_REVERT_UNMOUNT) == (has_flag(
                old(ctx).flags,
                DO_REVERT_UNMOUNT,
            ) || (known && opt == 0))
            &&& is.unload == (was.unload || (known && opt == 1 && k == handle - 313))
            &&& is.abi == was.abi
            &&& is.api == was.api
            &&& is.lib == was.lib
            &&& !(known && opt == 0) ==> *final(ctx) == *old(ctx)
        }),
{
    crate::loader::context::law_flags_are_independent(
        old(ctx).flags,
        DO_REVERT_UNMOUNT,
        DO_REVERT_UNMOUNT,
    );
}

/// Modules see the flags of the process without the highest one, which is the
/// library's own.
pub proof fn law_private_flag_is_not_shown(ctx: &ZygiskContext, r: u32)
    requires
        call_ensures(api_get_flags, (ctx,), r),
    ensures
        r < 0x8000_0000,
        ctx.info_flags < 0x8000_0000 ==> r == ctx.info_flags,
        ctx.info_flags >= 0x8000_0000 ==> r == ctx.info_flags - 0x8000_0000,
{
}

/// A module registers exactly where its version is known and its handle is that
/// of a module. Its own place, and no other, then holds its callbacks and its
/// interface as it was filled.
pub proof fn law_registration_fills_the_place(
    table: &mut ModuleTable,
    api: &mut ReZygiskApi,
    abi: &ReZygiskAbi,
    r: bool,
    place: usize,
    k: int,
)
    requires
        call_ensures(rezygisk_module_register, (table, api, abi), r),
        old(api).impl_ == place + 313,
        0 <= k < old(table).modules().len(),
    ensures
        r <==> abi.api_version <= 5 && place < old(table).modules().len(),
        final(table).modules().len() == old(table).modules().len(),
        !r ==> *final(api) == *old(api) && final(table).modules() == old(table).modules(),
        r && k == place ==> final(table).modules()[k].abi == *abi && final(table).modules()[k].api
            == *final(api) && final(table).modules()[k].lib == old(table).modules()[k].lib && final(
            table).modules()[k].zygisk_module_entry == old(table).modules()[k].zygisk_module_entry,
        r && k != place ==> final(table).modules()[k] == old(table).modules()[k],
        r ==> final(api).impl_ == old(api).impl_,
{
}

/// A module that was loaded gets the next place, with its library, its entry and
/// the handle of that place, and nothing registered yet; one that was not is to
/// be removed from the daemon's list, and its library unloaded just where it has
/// one.
pub proof fn law_loaded_modules_get_places(
    p: &LoadProgress,
    table: &mut ModuleTable,
    i: usize,
    outcome: LoadOutcome,
    r: LoadStep,
)
    requires
        p.removed <= i,
        old(table).modules().len() + RZID_MAGIC <= usize::MAX,
        call_ensures(LoadProgress::load_modules_only, (p, table, i, outcome), r),
    ensures
        r is Added <==> outcome is Loaded,
        outcome matches LoadOutcome::Loaded { lib, entry } ==> {
            let m = final(table).modules().last();
            &&& final(table).modules().len() == old(table).modules().len() + 1
            &&& final(table).modules().drop_last() == old(table).modules()
            &&& m.lib == lib
            &&& m.zygisk_module_entry == Some(entry)
            &&& m.api.impl_ == old(table).modules().len() + 313
            &&& m.api.register_module
            &&& !m.unload
            &&& m.abi.pre_app_specialize is None
        },
        r matches LoadStep::Remove { index, unload } ==> index + p.removed == i && unload == (
        outcome is NoEntry) && final(table).modules() == old(table).modules(),
{
    if outcome is Loaded {
        assert(final(table).modules().drop_last() =~= old(table).modules());
    }
}

/// The daemon's list is shorter by each module that it removed, and by no other.
pub proof fn law_removals_are_counted(p: &mut LoadProgress, removed: bool)
    requires
        old(p).removed < usize::MAX,
        call_ensures(LoadProgress::module_removed, (p, removed), ()),
    ensures
        removed ==> final(p).removed == old(p).removed + 1,
        !removed ==> final(p).removed == old(p).removed,
{
}

/// The callback that is due is the one for apps where an app is started, else
/// the one for the system server where that is; the same before as after.
pub proof fn law_callbacks_fit_the_process(
    ctx: &mut ZygiskContext,
    pre: Stage,
    post: Stage,
)
    requires
        call_ensures(run_modules_pre, (&*old(ctx),), pre),
        call_ensures(run_modules_post, (ctx,), post),
    ensures
        pre is App <==> has_flag(old(ctx).flags, APP_SPECIALIZE),
        pre is Server <==> !has_flag(old(ctx).flags, APP_SPECIALIZE) && has_flag(
            old(ctx).flags,
            SERVER_FORK_AND_SPECIALIZE,
        ),
        pre == post,
        has_flag(final(ctx).flags, POST_SPECIALIZE),
{
    let flags = old(ctx).flags;
    crate::loader::context::law_flags_are_independent(flags, POST_SPECIALIZE, POST_SPECIALIZE);
    crate::loader::context::law_flags_are_independent(flags, POST_SPECIALIZE, APP_SPECIALIZE);
    crate::loader::context::law_flags_are_independent(
        flags,
        POST_SPECIALIZE,
        SERVER_FORK_AND_SPECIALIZE,
    );
}

/// The list of modules is read again only while it was empty, at most three
/// times, and every time is counted.
pub proof fn law_empty_list_is_read_again(
    a: &mut LoaderState,
    count: usize,
    b: &mut LoaderState,
    again: bool,
)
    requires
        call_ensures(LoaderState::modules_read, (a, count), ()),
        *old(b) == *final(a),
        call_ensures(LoaderState::read_modules_again, (b,), again),
    ensures
        again <==> count == 0 && old(a).module_table_retries < 3,
        again ==> final(b).module_table_retries == old(a).module_table_retries + 1,
        !again ==> final(b).module_table_retries == old(a).module_table_retries,
        final(b).modules == old(a).modules,
{
}

/// A library is unloaded exactly where its module asked for that; an exception
/// is a module's own exactly where there was none before its callback.
pub proof fn law_library_stays_unless_asked(
    m: &ReZygiskModule,
    fate: LibraryFate,
    before: bool,
    after: bool,
    clear: bool,
)
    requires
        call_ensures(library_fate, (m,), fate),
        call_ensures(check_module_exception, (before, after), clear),
    ensures
        fate is Unload <==> m.unload,
        clear <==> after && !before,
{
}

/// A library still shows exactly where some mapping's path has its name in it.
pub proof fn law_library_shows_in_the_map(paths: Seq<String>, lib: Seq<char>, i: int)
    requires
        0 <= i < paths.len(),
        lib.len() > 0,
        crate::text::has_part(paths[i]@, lib),
    ensures
        still_mapped(paths, lib),
        !still_mapped(paths, seq![]),
        !still_mapped(seq![], lib),
{
}

} // verus!
