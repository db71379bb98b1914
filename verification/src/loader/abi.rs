//! What modules see of the library: their numbers, their options, and the
//! arguments that their callbacks get.
use vstd::prelude::*;

verus! {

/// The newest version of the interface.
pub const REZYGISK_API_VERSION: i64 = 5;

/// What is added to a module's number so that no module is known by zero.
pub const RZID_MAGIC: usize = 313;

/// The handle of a module.
pub fn encode_id(id: usize) -> (handle: usize)
    requires
        id + RZID_MAGIC <= usize::MAX,
    ensures
        handle == id + RZID_MAGIC,
{
    id + RZID_MAGIC
}

/// The number behind a handle; it wraps around below the first one.
pub open spec fn number_of(handle: usize) -> int {
    if handle >= RZID_MAGIC {
        handle - RZID_MAGIC
    } else {
        handle + (usize::MAX + 1 - RZID_MAGIC)
    }
}

/// The number behind a handle.
pub fn decode_id(handle: usize) -> (id: usize)
    ensures
        id == number_of(handle),
{
    if handle >= RZID_MAGIC {
        handle - RZID_MAGIC
    } else {
        handle + (usize::MAX - RZID_MAGIC) + 1
    }
}

/// A handle gives the number back that it was made of, and never is zero.
pub proof fn law_handles_round_trip(id: usize)
    requires
        id + RZID_MAGIC <= usize::MAX,
    ensures
        number_of((id + RZID_MAGIC) as usize) == id,
        id + RZID_MAGIC != 0,
{
}

/// What a module can ask for.
#[derive(Clone, Copy, Debug, PartialEq, Eq, Structural)]
pub enum ReZygiskOptions {
    /// Take the modules' mounts away from the process.
    ForceDenylistUnmount,
    /// Unload the module's library.
    DlcloseModuleLibrary,
}

impl ReZygiskOptions {
    /// The number of the option.
    pub fn value(self) -> (v: i32)
        ensures
            v == match self {
                ReZygiskOptions::ForceDenylistUnmount => 0i32,
                ReZygiskOptions::DlcloseModuleLibrary => 1i32,
            },
    {
        match self {
            ReZygiskOptions::ForceDenylistUnmount => 0,
            ReZygiskOptions::DlcloseModuleLibrary => 1,
        }
    }
}

/// The arguments of an app's start in the first form: each is the address of
/// the value.
#[derive(Clone, Copy, Debug, PartialEq, Eq, Structural)]
pub struct AppSpecializeArgsV1 {
    pub uid: usize,
    pub gid: usize,
    pub gids: usize,
    pub runtime_flags: usize,
    pub mount_external: usize,
    pub se_info: usize,
    pub nice_name: usize,
    pub instruction_set: usize,
    pub app_data_dir: usize,
    pub is_child_zygote: usize,
    pub is_top_app: usize,
    pub pkg_data_info_list: usize,
    pub whitelisted_data_info_list: usize,
    pub mount_data_dirs: usize,
    pub mount_storage_dirs: usize,
}

/// The arguments of an app's start in the second form.
#[derive(Clone, Copy, Debug, PartialEq, Eq, Structural)]
pub struct AppSpecializeArgsV4 {
    pub uid: usize,
    pub gid: usize,
    pub gids: usize,
    pub runtime_flags: usize,
    pub rlimits: usize,
    pub mount_external: usize,
    pub se_info: usize,
    pub nice_name: usize,
    pub instruction_set: usize,
    pub app_data_dir: usize,
    pub fds_to_ignore: usize,
    pub is_child_zygote: usize,
    pub is_top_app: usize,
    pub pkg_data_info_list: usize,
    pub whitelisted_data_info_list: usize,
    pub mount_data_dirs: usize,
    pub mount_storage_dirs: usize,
}

/// The arguments of an app's start in the third form.
#[derive(Clone, Copy, Debug, PartialEq, Eq, Structural)]
pub struct AppSpecializeArgsV5 {
    pub uid: usize,
    pub gid: usize,
    pub gids: usize,
    pub runtime_flags: usize,
    pub rlimits: usize,
    pub mount_external: usize,
    pub se_info: usize,
    pub nice_name: usize,
    pub instruction_set: usize,
    pub app_data_dir: usize,
    pub fds_to_ignore: usize,
    pub is_child_zygote: usize,
    pub is_top_app: usize,
    pub pkg_data_info_list: usize,
    pub whitelisted_data_info_list: usize,
    pub mount_data_dirs: usize,
    pub mount_storage_dirs: usize,
    pub mount_sysprop_overrides: usize,
}

/// The arguments of the system server's start.
#[derive(Clone, Copy, Debug, PartialEq, Eq, Structural)]
pub struct ServerSpecializeArgsV1 {
    pub uid: usize,
    pub gid: usize,
    pub gids: usize,
    pub runtime_flags: usize,
    pub permitted_capabilities: usize,
    pub effective_capabilities: usize,
}

/// The form of the arguments that a module gets.
#[derive(Clone, Copy, Debug, PartialEq, Eq, Structural)]
pub enum AppArgs {
    /// The first form.
    V1(AppSpecializeArgsV1),
    /// The second form.
    V4(AppSpecializeArgsV4),
    /// The third form, in place.
    V5,
    /// The module is not called.
    Skip,
}

/// The first form of the arguments.
pub open spec fn first_form(a: AppSpecializeArgsV5) -> AppSpecializeArgsV1 {
    AppSpecializeArgsV1 {
        uid: a.uid,
        gid: a.gid,
        gids: a.gids,
        runtime_flags: a.runtime_flags,
        mount_external: a.mount_external,
        se_info: a.se_info,
        nice_name: a.nice_name,
        instruction_set: a.instruction_set,
        app_data_dir: a.app_data_dir,
        is_child_zygote: a.is_child_zygote,
        is_top_app: a.is_top_app,
        pkg_data_info_list: a.pkg_data_info_list,
        whitelisted_data_info_list: a.whitelisted_data_info_list,
        mount_data_dirs: a.mount_data_dirs,
        mount_storage_dirs: a.mount_storage_dirs,
    }
}

/// The second form of the arguments.
pub open spec fn second_form(a: AppSpecializeArgsV5) -> AppSpecializeArgsV4 {
    AppSpecializeArgsV4 {
        uid: a.uid,
        gid: a.gid,
        gids: a.gids,
        runtime_flags: a.runtime_flags,
        rlimits: a.rlimits,
        mount_external: a.mount_external,
        se_info: a.se_info,
        nice_name: a.nice_name,
        instruction_set: a.instruction_set,
        app_data_dir: a.app_data_dir,
        fds_to_ignore: a.fds_to_ignore,
        is_child_zygote: a.is_child_zygote,
        is_top_app: a.is_top_app,
        pkg_data_info_list: a.pkg_data_info_list,
        whitelisted_data_info_list: a.whitelisted_data_info_list,
        mount_data_dirs: a.mount_data_dirs,
        mount_storage_dirs: a.mount_storage_dirs,
    }
}

/// The arguments for a module of a given version, if it has the callback.
pub open spec fn app_args(has_callback: bool, version: i64, a: AppSpecializeArgsV5) -> AppArgs {
    if !has_callback {
        AppArgs::Skip
    } else if version == 1 || version == 2 {
        AppArgs::V1(first_form(a))
    } else if version == 3 || version == 4 {
        AppArgs::V4(second_form(a))
    } else if version == REZYGISK_API_VERSION {
        AppArgs::V5
    } else {
        AppArgs::Skip
    }
}

fn select_args(has_callback: bool, version: i64, a: &AppSpecializeArgsV5) -> (r: AppArgs)
    ensures
        r == app_args(has_callback, version, *a),
{
    if !has_callback {
        return AppArgs::Skip;
    }
    if version == 1 || version == 2 {
        AppArgs::V1(
            AppSpecializeArgsV1 {
                uid: a.uid,
                gid: a.gid,
                gids: a.gids,
                runtime_flags: a.runtime_flags,
                mount_external: a.mount_external,
                se_info: a.se_info,
                nice_name: a.nice_name,
                instruction_set: a.instruction_set,
                app_data_dir: a.app_data_dir,
                is_child_zygote: a.is_child_zygote,
                is_top_app: a.is_top_app,
                pkg_data_info_list: a.pkg_data_info_list,
                whitelisted_data_info_list: a.whitelisted_data_info_list,
                mount_data_dirs: a.mount_data_dirs,
                mount_storage_dirs: a.mount_storage_dirs,
            },
        )
    } else if version == 3 || version == 4 {
        AppArgs::V4(
            AppSpecializeArgsV4 {
                uid: a.uid,
                gid: a.gid,
                gids: a.gids,
                runtime_flags: a.runtime_flags,
                rlimits: a.rlimits,
                mount_external: a.mount_external,
                se_info: a.se_info,
                nice_name: a.nice_name,
                instruction_set: a.instruction_set,
                app_data_dir: a.app_data_dir,
                fds_to_ignore: a.fds_to_ignore,
                is_child_zygote: a.is_child_zygote,
                is_top_app: a.is_top_app,
                pkg_data_info_list: a.pkg_data_info_list,
                whitelisted_data_info_list: a.whitelisted_data_info_list,
                mount_data_dirs: a.mount_data_dirs,
                mount_storage_dirs: a.mount_storage_dirs,
            },
        )
    } else if version == REZYGISK_API_VERSION {
        AppArgs::V5
    } else {
        AppArgs::Skip
    }
}

/// The callbacks of a module and the version that it was written for.
#[derive(Clone, Copy, Debug, PartialEq, Eq, Structural)]
pub struct ReZygiskAbi {
    /// The version.
    pub api_version: i64,
    /// The module's own data.
    pub impl_: usize,
    /// Called before an app starts.
    pub pre_app_specialize: Option<usize>,
    /// Called after an app started.
    pub post_app_specialize: Option<usize>,
    /// Called before the system server starts.
    pub pre_server_specialize: Option<usize>,
    /// Called after the system server started.
    pub post_server_specialize: Option<usize>,
}

impl Default for ReZygiskAbi {
    fn default() -> (a: Self)
        ensures
            a.api_version == 0,
            a.impl_ == 0,
            a.pre_app_specialize is None,
            a.post_app_specialize is None,
            a.pre_server_specialize is None,
            a.post_server_specialize is None,
    {
        ReZygiskAbi {
            api_version: 0,
            impl_: 0,
            pre_app_specialize: None,
            post_app_specialize: None,
            pre_server_specialize: None,
            post_server_specialize: None,
        }
    }
}

/// What a module of this version gets before an app starts.
pub fn module_pre_app_specialize(abi: &ReZygiskAbi, args: &AppSpecializeArgsV5) -> (r: AppArgs)
    ensures
        r == app_args(abi.pre_app_specialize is Some, abi.api_version, *args),
{
    select_args(abi.pre_app_specialize.is_some(), abi.api_version, args)
}

/// What a module of this version gets after an app started.
pub fn module_post_app_specialize(abi: &ReZygiskAbi, args: &AppSpecializeArgsV5) -> (r: AppArgs)
    ensures
        r == app_args(abi.post_app_specialize is Some, abi.api_version, *args),
{
    select_args(abi.post_app_specialize.is_some(), abi.api_version, args)
}

/// The callback before the system server starts, whatever the version.
pub fn module_pre_server_specialize(abi: &ReZygiskAbi) -> (r: Option<usize>)
    ensures
        r == abi.pre_server_specialize,
{
    abi.pre_server_specialize
}

/// The callback after the system server started, whatever the version.
pub fn module_post_server_specialize(abi: &ReZygiskAbi) -> (r: Option<usize>)
    ensures
        r == abi.post_server_specialize,
{
    abi.post_server_specialize
}

/// What a slot of the interface holds that registers hooks.
#[derive(Clone, Copy, Debug, PartialEq, Eq, Structural)]
pub enum PltRegisterSlot {
    /// Nothing of the library.
    Unset,
    /// Hooks by pattern.
    V3,
    /// Hooks by device and inode.
    V4,
}

/// What a slot of the interface holds that excludes hooks or keeps files.
#[derive(Clone, Copy, Debug, PartialEq, Eq, Structural)]
pub enum PltExcludeSlot {
    /// Nothing of the library.
    Unset,
    /// Exceptions by pattern.
    PltHookExclude,
    /// Files to keep.
    ExemptFd,
}

/// The interface that a module gets: which of the library's functions its
/// slots hold.
#[derive(Clone, Copy, Debug, PartialEq, Eq, Structural)]
pub struct ReZygiskApi {
    /// The module's handle.
    pub impl_: usize,
    /// Registers the module.
    pub register_module: bool,
    /// Hooks native methods.
    pub hook_jni_native_methods: bool,
    /// Registers hooks.
    pub plt_hook_register: PltRegisterSlot,
    /// Excludes hooks or keeps files.
    pub plt_hook_exclude: PltExcludeSlot,
    /// Installs hooks.
    pub plt_hook_commit: PltRegisterSlot,
    /// Connects to the module's companion.
    pub connect_companion: bool,
    /// Sets an option.
    pub set_option: bool,
    /// Opens the module's directory.
    pub get_module_dir: bool,
    /// Reads the process's flags.
    pub get_flags: bool,
}

impl Default for ReZygiskApi {
    fn default() -> (a: Self)
        ensures
            a == (ReZygiskApi {
                impl_: 0,
                register_module: false,
                hook_jni_native_methods: false,
                plt_hook_register: PltRegisterSlot::Unset,
                plt_hook_exclude: PltExcludeSlot::Unset,
                plt_hook_commit: PltRegisterSlot::Unset,
                connect_companion: false,
                set_option: false,
                get_module_dir: false,
                get_flags: false,
            }),
    {
        ReZygiskApi {
            impl_: 0,
            register_module: false,
            hook_jni_native_methods: false,
            plt_hook_register: PltRegisterSlot::Unset,
            plt_hook_exclude: PltExcludeSlot::Unset,
            plt_hook_commit: PltRegisterSlot::Unset,
            connect_companion: false,
            set_option: false,
            get_module_dir: false,
            get_flags: false,
        }
    }
}

/// The interface with the functions for a version in its slots.
pub open spec fn filled(api: ReZygiskApi, version: i64) -> ReZygiskApi {
    ReZygiskApi {
        hook_jni_native_methods: true,
        plt_hook_register: if version >= 4 {
            PltRegisterSlot::V4
        } else {
            PltRegisterSlot::V3
        },
        plt_hook_exclude: if version >= 4 {
            PltExcludeSlot::ExemptFd
        } else {
            PltExcludeSlot::PltHookExclude
        },
        plt_hook_commit: if version >= 4 {
            PltRegisterSlot::V4
        } else {
            PltRegisterSlot::V3
        },
        connect_companion: true,
        set_option: true,
        get_module_dir: api.get_module_dir || version >= 2,
        get_flags: api.get_flags || version >= 2,
        ..api
    }
}

/// Puts the functions for a version into the slots of the interface.
pub fn fill(api: &mut ReZygiskApi, version: i64)
    ensures
        *final(api) == filled(*old(api), version),
{
    api.hook_jni_native_methods = true;
    if version >= 4 {
        api.plt_hook_register = PltRegisterSlot::V4;
        api.plt_hook_exclude = PltExcludeSlot::ExemptFd;
        api.plt_hook_commit = PltRegisterSlot::V4;
    } else {
        api.plt_hook_register = PltRegisterSlot::V3;
        api.plt_hook_exclude = PltExcludeSlot::PltHookExclude;
        api.plt_hook_commit = PltRegisterSlot::V3;
    }
    api.connect_companion = true;
    api.set_option = true;
    if version >= 2 {
        api.get_module_dir = true;
        api.get_flags = true;
    }
}

/// A module.
#[derive(Clone, Copy, Debug, PartialEq, Eq, Structural)]
pub struct ReZygiskModule {
    /// Its callbacks.
    pub abi: ReZygiskAbi,
    /// Its interface.
    pub api: ReZygiskApi,
    /// Its library: a number that the owner of the libraries gave it.
    pub lib: usize,
    /// Its entry point.
    pub zygisk_module_entry: Option<usize>,
    /// It is to be unloaded once the process has started.
    pub unload: bool,
}

/// A module of which nothing is left.
pub open spec fn blank_module() -> ReZygiskModule {
    ReZygiskModule {
        abi: ReZygiskAbi {
            api_version: 0,
            impl_: 0,
            pre_app_specialize: None,
            post_app_specialize: None,
            pre_server_specialize: None,
            post_server_specialize: None,
        },
        api: ReZygiskApi {
            impl_: 0,
            register_module: false,
            hook_jni_native_methods: false,
            plt_hook_register: PltRegisterSlot::Unset,
            plt_hook_exclude: PltExcludeSlot::Unset,
            plt_hook_commit: PltRegisterSlot::Unset,
            connect_companion: false,
            set_option: false,
            get_module_dir: false,
            get_flags: false,
        },
        lib: 0,
        zygisk_module_entry: None,
        unload: false,
    }
}

impl Default for ReZygiskModule {
    fn default() -> (m: Self)
        ensures
            m == blank_module(),
    {
        ReZygiskModule {
            abi: ReZygiskAbi::default(),
            api: ReZygiskApi::default(),
            lib: 0,
            zygisk_module_entry: None,
            unload: false,
        }
    }
}

/// A module that has the callback gets its arguments in the form of its version,
/// of which there are five; without the callback, or in another version, it is
/// not called.
pub proof fn law_arguments_have_the_form_of_the_version(
    there: bool,
    version: i64,
    a: AppSpecializeArgsV5,
)
    ensures
        app_args(there, version, a) is V1 <==> there && 1 <= version <= 2,
        app_args(there, version, a) is V4 <==> there && 3 <= version <= 4,
        app_args(there, version, a) is V5 <==> there && version == 5,
        app_args(there, version, a) is Skip <==> !there || version < 1 || version > 5,
{
}

/// Each form holds the same values under the same names; the older ones leave
/// out what came later.
pub proof fn law_forms_hold_the_same_values(a: AppSpecializeArgsV5)
    ensures
        ({
            let v = second_form(a);
            a == (AppSpecializeArgsV5 {
                uid: v.uid,
                gid: v.gid,
                gids: v.gids,
                runtime_flags: v.runtime_flags,
                rlimits: v.rlimits,
                mount_external: v.mount_external,
                se_info: v.se_info,
                nice_name: v.nice_name,
                instruction_set: v.instruction_set,
                app_data_dir: v.app_data_dir,
                fds_to_ignore: v.fds_to_ignore,
                is_child_zygote: v.is_child_zygote,
                is_top_app: v.is_top_app,
                pkg_data_info_list: v.pkg_data_info_list,
                whitelisted_data_info_list: v.whitelisted_data_info_list,
                mount_data_dirs: v.mount_data_dirs,
                mount_storage_dirs: v.mount_storage_dirs,
                mount_sysprop_overrides: a.mount_sysprop_overrides,
            })
        }),
        ({
            let v = first_form(a);
            second_form(a) == (AppSpecializeArgsV4 {
                uid: v.uid,
                gid: v.gid,
                gids: v.gids,
                runtime_flags: v.runtime_flags,
                rlimits: a.rlimits,
                mount_external: v.mount_external,
                se_info: v.se_info,
                nice_name: v.nice_name,
                instruction_set: v.instruction_set,
                app_data_dir: v.app_data_dir,
                fds_to_ignore: a.fds_to_ignore,
                is_child_zygote: v.is_child_zygote,
                is_top_app: v.is_top_app,
                pkg_data_info_list: v.pkg_data_info_list,
                whitelisted_data_info_list: v.whitelisted_data_info_list,
                mount_data_dirs: v.mount_data_dirs,
                mount_storage_dirs: v.mount_storage_dirs,
            })
        }),
{
}

/// The callbacks before and after an app's start are asked for apart, and so are
/// those of the system server, which do not depend on the version.
pub proof fn law_callbacks_are_asked_for_apart(
    abi: &ReZygiskAbi,
    args: &AppSpecializeArgsV5,
    pre: AppArgs,
    post: AppArgs,
    server_pre: Option<usize>,
    server_post: Option<usize>,
)
    requires
        call_ensures(module_pre_app_specialize, (abi, args), pre),
        call_ensures(module_post_app_specialize, (abi, args), post),
        call_ensures(module_pre_server_specialize, (abi,), server_pre),
        call_ensures(module_post_server_specialize, (abi,), server_post),
    ensures
        !(pre is Skip) <==> abi.pre_app_specialize is Some && 1 <= abi.api_version <= 5,
        !(post is Skip) <==> abi.post_app_specialize is Some && 1 <= abi.api_version <= 5,
        !(pre is Skip) && !(post is Skip) ==> pre == post,
        server_pre == abi.pre_server_specialize,
        server_post == abi.post_server_specialize,
{
}

/// What a module finds in its interface depends on its version: hooks by device
/// and inode, and files to keep, from the fourth on, hooks and exceptions by
/// pattern before; its directory and the flags of the process from the second
/// on. The rest every module finds, and its own handle stays.
pub proof fn law_interface_follows_the_version(api: ReZygiskApi, version: i64)
    ensures
        ({
            let f = filled(api, version);
            &&& f.plt_hook_register is V4 <==> version >= 4
            &&& f.plt_hook_register is V3 <==> version < 4
            &&& f.plt_hook_commit == f.plt_hook_register
            &&& f.plt_hook_exclude is ExemptFd <==> version >= 4
            &&& f.plt_hook_exclude is PltHookExclude <==> version < 4
            &&& version >= 2 ==> f.get_module_dir && f.get_flags
            &&& version < 2 ==> f.get_module_dir == api.get_module_dir && f.get_flags
                == api.get_flags
            &&& f.connect_companion && f.set_option && f.hook_jni_native_methods
            &&& f.impl_ == api.impl_
            &&& f.register_module == api.register_module
        }),
{
}

/// A handle is as far from its module's number as any other, and leads back.
pub proof fn law_handles_are_made_and_read(id: usize, handle: usize, back: usize)
    requires
        id + 313 <= usize::MAX,
        call_ensures(encode_id, (id,), handle),
        call_ensures(decode_id, (handle,), back),
    ensures
        handle == id + 313,
        back == id,
{
}

/// The two options have different numbers, from zero on.
pub proof fn law_options_have_numbers(a: ReZygiskOptions, b: ReZygiskOptions, x: i32, y: i32)
    requires
        call_ensures(ReZygiskOptions::value, (a,), x),
        call_ensures(ReZygiskOptions::value, (b,), y),
    ensures
        x == y <==> a == b,
        0 <= x < 2,
        a is ForceDenylistUnmount <==> x == 0,
{
}

/// Nothing of a blank module can be called or asked for: it has no callback,
/// no slot of its interface is filled, and it is not to be unloaded.
pub proof fn law_blank_module_has_nothing(m: ReZygiskModule)
    requires
        m == blank_module(),
    ensures
        m.abi.pre_app_specialize is None,
        m.abi.post_app_specialize is None,
        m.abi.pre_server_specialize is None,
        m.abi.post_server_specialize is None,
        m.abi.api_version == 0,
        m.abi.impl_ == 0,
        m.api.plt_hook_register is Unset,
        m.api.plt_hook_exclude is Unset,
        m.api.plt_hook_commit is Unset,
        !m.api.register_module,
        !m.api.hook_jni_native_methods,
        !m.api.connect_companion,
        !m.api.set_option,
        !m.api.get_module_dir,
        !m.api.get_flags,
        m.api.impl_ == 0,
        m.lib == 0,
        m.zygisk_module_entry is None,
        !m.unload,
{
}

} // verus!
