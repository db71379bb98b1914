//! What the library decides inside the zygote.

use rezygisk::loader::abi::{
    decode_id, encode_id, module_post_app_specialize, module_post_server_specialize,
    module_pre_app_specialize, module_pre_server_specialize, AppArgs, AppSpecializeArgsV5,
    PltExcludeSlot, PltRegisterSlot, ReZygiskAbi, ReZygiskApi, ReZygiskModule, ReZygiskOptions,
    REZYGISK_API_VERSION,
};
use rezygisk::loader::art_method::{
    derive_offsets, max_assumed_art_method_size, measured_methods, ArtMethodLayout, ReflectedBy,
};
use rezygisk::loader::context::{
    flag_get, flag_set, is_zygote_child, JniHookEntry, LoaderState, ModuleSnapshot, ModuleTable,
    NativeMethod, ZygiskContext, APP_FORK_AND_SPECIALIZE, APP_SPECIALIZE, DO_REVERT_UNMOUNT, POST_SPECIALIZE,
    SERVER_FORK_AND_SPECIALIZE, SKIP_FD_SANITIZATION,
};
use rezygisk::loader::cpp_strings::{get_std_string_length, read_std_string, StringData};
use rezygisk::loader::fds::{
    api_exempt_fd, leaked_fds, record_fds, rz_fork_pre, sanitize_fds,
};
use rezygisk::loader::hooks::{
    entry_result, fork, hook_functions, hook_status, hook_unloader, reopen_or_detach, strdup,
    supports_seccomp_event, unhook_functions, CoreHook, LeaveStep, ReopenStep, Residency,
};
use rezygisk::loader::ifunc_shim::{
    memcmp_impl, memcpy_impl, memmove_impl, memset_chk_impl, strcmp_impl, strcpy_impl,
    strncmp_impl, strstr_impl,
};
use rezygisk::loader::jni::{
    do_hook_zygote, find_native_helper, hook_jni_methods, hook_zygote_methods_str,
    initialize_jni_hook, jni_hooks, knows_native_methods, registration_failed, unhook_entry,
    JniHookPhase, MethodProbe, Originals, Overload,
};
use rezygisk::loader::misc::{
    mns_state_str, namespace_entered, namespace_opened, parse_int, update_mnt_ns,
    MountNamespaceState, NamespaceStep,
};
use rezygisk::loader::modules::{
    api_connect_companion, api_get_flags, api_get_module_dir, api_set_option,
    check_module_exception, library_fate, library_still_mapped, module_of,
    rezygisk_module_register,
    run_modules_post, run_modules_pre, LibraryFate, LoadOutcome, LoadProgress, LoadStep, Stage,
};
use rezygisk::loader::plt_commit::{
    all_installed, makedev, Commit, HookQueue, PltHookList,
};
use rezygisk::loader::seccomp::{
    perform_ptrace_message_clear, seccomp_filters_visible, SECCOMP_RET_ALLOW, SECCOMP_RET_TRACE,
};
use rezygisk::loader::specialize::{
    app_specialize_after_modules, app_specialize_begin, app_specialize_pre, daemon_uid,
    finish_steps, start_pre, start_steps, ProcessInfo, StartKind, StartStep,
};
use rezygisk::maps::MapEntry;
use rezygisk::plti::hooks::Hook;

fn strings(words: &[&str]) -> Vec<String> {
    words.iter().map(|w| w.to_string()).collect()
}

fn cstr(s: &[u8]) -> Vec<u8> {
    let mut v = s.to_vec();
    v.push(0);
    v
}

#[test]
fn parse_int_plain() {
    assert_eq!(parse_int("123"), 123);
    assert_eq!(parse_int("0"), 0);
    assert_eq!(parse_int("007"), 7);
}

#[test]
fn parse_int_empty_is_zero_like_c() {
    assert_eq!(parse_int(""), 0);
}

#[test]
fn parse_int_non_digit_is_minus_one() {
    assert_eq!(parse_int("12a"), -1);
    assert_eq!(parse_int("abc"), -1);
    assert_eq!(parse_int("-5"), -1);
    assert_eq!(parse_int("1.5"), -1);
}

#[test]
fn parse_int_wraps_like_c() {
    assert_eq!(parse_int("2147483648"), i32::MIN);
    assert_eq!(parse_int("4294967296"), 0);
    assert_eq!(parse_int("9999999999"), 1_410_065_407);
}

#[test]
fn mns_state_str_matches_c() {
    assert_eq!(mns_state_str(MountNamespaceState::Clean), "clean");
    assert_eq!(mns_state_str(MountNamespaceState::Mounted), "mounted");
}

#[test]
fn makedev_matches_bionic_formula() {
    assert_eq!(makedev(0xfe, 0x1), 0xfe01);
    assert_eq!(makedev(0x103, 0xab), 0x103ab);
    assert_eq!(makedev(0xabcd, 0xef), 0x0000_a000_000b_cdef);
    // A narrow device number has no room for the highest part.
    assert_eq!(makedev(0xabcd, 0xef) % 0x1_0000_0000, 0x0000_bcdef);
}

#[test]
fn makedev_encodes_minor_high_bits_at_bit_12() {
    assert_eq!(makedev(0xfe, 0x100), 0x10fe00);
    assert_eq!(makedev(0xfe, 0x2ff), 0x20feff);
}

#[test]
fn namespace_steps() {
    let path = b"/proc/1/fd/2\0".to_vec();
    assert_eq!(
        update_mnt_ns(false, false, &path, 5),
        NamespaceStep::Finish { ok: false, close: None }
    );
    assert_eq!(
        update_mnt_ns(true, true, &path, 5),
        NamespaceStep::Finish { ok: true, close: Some(5) }
    );
    assert_eq!(update_mnt_ns(true, false, &path, 5), NamespaceStep::Enter(5));
    assert_eq!(update_mnt_ns(true, false, &path, -1), NamespaceStep::Open);
    assert_eq!(
        update_mnt_ns(true, false, &vec![1, 2], 5),
        NamespaceStep::Finish { ok: false, close: Some(5) }
    );
    assert_eq!(namespace_opened(-1), NamespaceStep::Finish { ok: false, close: None });
    assert_eq!(namespace_opened(7), NamespaceStep::Enter(7));
    assert_eq!(namespace_entered(7, false), NamespaceStep::Finish { ok: false, close: Some(7) });
}

#[test]
fn null_string() {
    assert_eq!(get_std_string_length(None, true), 0);
    assert_eq!(read_std_string(None, true), StringData::Absent);
}

#[test]
fn empty_short_string() {
    let obj = vec![0u8; 24];
    assert_eq!(get_std_string_length(Some(&obj[..]), true), 0);
    assert_eq!(read_std_string(Some(&obj[..]), true), StringData::Inline(0));
}

#[test]
fn short_string_with_data() {
    let data = b"hello";
    let mut obj = vec![0u8; 24];
    obj[0] = (data.len() << 1) as u8;
    obj[1..1 + data.len()].copy_from_slice(data);
    assert_eq!(get_std_string_length(Some(&obj[..]), true), data.len() as u64);
    match read_std_string(Some(&obj[..]), true) {
        StringData::Inline(n) => assert_eq!(&obj[1..1 + n], data),
        _ => panic!("a short string"),
    }
}

#[test]
fn long_string_layout() {
    let data = b"this is a long-mode std::string";
    let addr = data.as_ptr() as u64;
    let mut obj = vec![0u8; 24];
    obj[0] = 1;
    obj[8..16].copy_from_slice(&(data.len() as u64).to_le_bytes());
    obj[16..24].copy_from_slice(&addr.to_le_bytes());
    assert_eq!(get_std_string_length(Some(&obj[..]), true), data.len() as u64);
    assert_eq!(
        read_std_string(Some(&obj[..]), true),
        StringData::At(addr, data.len() as u64)
    );
    let narrow = [1u8, 0, 0, 0, 9, 0, 0, 0, 0, 1, 0, 0];
    assert_eq!(read_std_string(Some(&narrow[..]), false), StringData::At(0x100, 9));
}

#[test]
fn memcpy_basic() {
    let src = cstr(b"hello world");
    let mut mem = vec![0u8; src.len()];
    mem.extend_from_slice(&src);
    assert_eq!(memcpy_impl(&mut mem, 0, src.len(), src.len()), 0);
    assert_eq!(&mem[..src.len() - 1], b"hello world");
    assert_eq!(&mem[src.len() - 1..src.len()], &[0]);
}

#[test]
fn memcpy_zero_len() {
    let mut mem = vec![9u8, 9, 9, 1, 2, 3];
    memcpy_impl(&mut mem, 0, 3, 0);
    assert_eq!(&mem[..3], [9, 9, 9]);
}

#[test]
fn memmove_overlap_forward() {
    let mut buf = vec![1u8, 2, 3, 4, 5];
    memmove_impl(&mut buf, 0, 1, 4);
    assert_eq!(buf, [2, 3, 4, 5, 5]);
}

#[test]
fn memmove_overlap_backward() {
    let mut buf = vec![1u8, 2, 3, 4, 5];
    memmove_impl(&mut buf, 1, 0, 4);
    assert_eq!(buf, [1, 1, 2, 3, 4]);
}

#[test]
fn strcpy_full() {
    let src = cstr(b"zygisk");
    let mut mem = vec![0u8; src.len() + 4];
    mem.extend_from_slice(&src);
    strcpy_impl(&mut mem, 0, src.len() + 4);
    assert_eq!(&mem[..7], b"zygisk\0");
}

#[test]
fn strcpy_empty() {
    let mut mem = vec![b'x', b'x', 0];
    strcpy_impl(&mut mem, 0, 2);
    assert_eq!(mem[0], 0);
    assert_eq!(mem[1], b'x');
}

#[test]
fn memset_chk_ignores_dst_len() {
    let mut buf = vec![1u8; 5];
    memset_chk_impl(&mut buf, 0, 0xab, 3);
    assert_eq!(buf, [0xab, 0xab, 0xab, 1, 1]);
}

#[test]
fn strcmp_ordering() {
    let a = cstr(b"abc");
    let b = cstr(b"abd");
    let c = cstr(b"abc");
    assert!(strcmp_impl(&a, &b) < 0);
    assert!(strcmp_impl(&b, &a) > 0);
    assert_eq!(strcmp_impl(&a, &c), 0);
    assert_eq!(strcmp_impl(&a, &b), -strcmp_impl(&b, &a));
}

#[test]
fn strcmp_prefix_is_less() {
    let a = cstr(b"ab");
    let b = cstr(b"abc");
    assert!(strcmp_impl(&a, &b) < 0);
}

#[test]
fn strncmp_limits_and_early_nul() {
    let a = cstr(b"abz");
    let b = cstr(b"aby");
    assert_eq!(strncmp_impl(&a, &b, 2), 0);
    assert!(strncmp_impl(&a, &b, 3) > 0);
    let c = cstr(b"ab");
    assert_eq!(strncmp_impl(&c, &c, 5), 0);
    let d = cstr(b"aby");
    assert_eq!(strncmp_impl(&c, &d, 5), -(b'y' as i32));
}

#[test]
fn memcmp_vectors() {
    let a = vec![1u8, 2, 3];
    let b = vec![1u8, 2, 4];
    assert!(memcmp_impl(&a, &b, 3) < 0);
    assert!(memcmp_impl(&b, &a, 3) > 0);
    assert_eq!(memcmp_impl(&a, &a, 3), 0);
    assert_eq!(memcmp_impl(&a, &b, 2), 0);
}

#[test]
fn strstr_finds_and_empties() {
    let h = cstr(b"the zygisk module");
    let n = cstr(b"zygisk");
    assert_eq!(strstr_impl(&h, &n), Some(4));
    let miss = cstr(b"zygote");
    assert_eq!(strstr_impl(&h, &miss), None);
    let empty = vec![0u8];
    assert_eq!(strstr_impl(&h, &empty), Some(0));
}

#[test]
fn strstr_needle_longer_than_haystack() {
    let h = cstr(b"ab");
    let n = cstr(b"abcd");
    assert_eq!(strstr_impl(&h, &n), None);
}

#[test]
fn assumed_size_bound_matches_c_expression() {
    assert_eq!(max_assumed_art_method_size(), 4 * 9 + 3 * std::mem::size_of::<usize>());
}

#[test]
fn derive_offsets_places_entrypoint_and_data_at_object_tail() {
    let ptr = std::mem::size_of::<usize>();
    let size = max_assumed_art_method_size() + 4 * ptr;
    let (entry, data) = derive_offsets(size);
    assert_eq!(entry, size - ptr);
    assert_eq!(data, size - 2 * ptr);
}

#[test]
fn amethod_get_data_reads_pointer_at_data_offset() {
    let ptr = std::mem::size_of::<usize>();
    let layout = ArtMethodLayout { data_offset: 3 * ptr, ..ArtMethodLayout::new() };
    let mut buf = [0usize; 8];
    buf[3] = 0x1234_5678;
    let base = 0x10_0000;
    let at = (layout.amethod_get_data(base) - base) / ptr;
    assert_eq!(buf[at], 0x1234_5678);
}

#[test]
fn layout_of_methods() {
    let mut layout = ArtMethodLayout::new();
    assert!(!layout.amethod_init(None));
    assert!(!layout.amethod_init(Some((0x1000, 0x9000))));
    assert_eq!(layout.size, 0x8000);
    assert_eq!(layout.data_offset, 0);
    assert_eq!(layout.amethod_from_reflected_method(), ReflectedBy::Runtime);
    layout.field_probed(true, true);
    assert_eq!(layout.amethod_from_reflected_method(), ReflectedBy::Field);
    assert_eq!(measured_methods(true, true, &vec![0x1000]), None);
    assert_eq!(measured_methods(false, true, &vec![1, 2]), None);
    let measured = measured_methods(true, true, &vec![0x1000, 0x1020, 0x1040]);
    assert!(layout.amethod_init(measured));
    assert_eq!(layout.entry_point_offset, 0x20 - std::mem::size_of::<usize>());
}

#[test]
fn snapshot_callback_reentry_is_deadlock_and_alias_free() {
    let mut table = ModuleTable::new();
    table.clear_zygisk_modules();
    table.push_module(ReZygiskModule::default());
    table.push_module(ReZygiskModule::default());
    assert_eq!(table.zygisk_module_length(), 2);

    let len = {
        let snap = table.module_snapshot();
        assert_eq!(snap.len, 2);
        assert!(snap.base.is_some());
        assert!(!snap.is_empty());
        snap.len
    };
    for i in 0..len {
        let wrote = table.with_module(i).map(|slot| {
            slot.abi.api_version = REZYGISK_API_VERSION;
            slot.api.impl_ = 0;
        });
        assert!(wrote.is_some(), "with_module({i}) must be in range");
        assert!(table.with_module(i).map(|slot| slot.unload = true).is_some());
        let snap = table.module_snapshot();
        let m = snap.get(i).unwrap();
        assert_eq!(m.abi.api_version, REZYGISK_API_VERSION);
        assert!(m.unload);
    }
    assert!(table.with_module(2).is_none());
    assert_eq!(table.module_snapshot().iter().iter().filter(|m| m.unload).count(), 2);

    table.blank_modules();
    assert_eq!(table.zygisk_module_length(), 2);
    assert!(!table.module_snapshot().get(0).unwrap().unload);

    table.clear_zygisk_modules();
    assert_eq!(table.zygisk_module_length(), 0);
    assert!(table.module_snapshot().base.is_none());
}

#[test]
fn snapshot_shows_no_more_than_there_is() {
    let nothing = ModuleSnapshot { base: None, len: 3 };
    assert!(nothing.is_empty() && nothing.get(0).is_none() && nothing.iter().is_empty());

    let modules = vec![ReZygiskModule::default(), ReZygiskModule::default()];
    let one = ModuleSnapshot { base: Some(&modules), len: 1 };
    assert!(!one.is_empty() && one.get(0).is_some() && one.get(1).is_none());
    assert_eq!(one.iter().len(), 1);
    assert!(ModuleSnapshot { base: Some(&modules), len: 0 }.is_empty());
}

#[test]
fn interceptor_is_made_once_and_kept() {
    let mut s = LoaderState::new();
    assert!(s.with_plti().hooks.is_empty());
    s.with_plti().hooks.push(Hook {
        lib_name: "libart.so".to_string(),
        name: "fork".to_string(),
        address: 0x1000,
        original: 0x2000,
    });
    assert_eq!(s.with_plti().hooks.len(), 1);
    assert_eq!(s.take_plti().unwrap().hooks[0].original, 0x2000);
    assert!(s.with_plti().hooks.is_empty());
}

#[test]
fn handles_and_options() {
    assert_eq!(decode_id(encode_id(7)), 7);
    assert_eq!(encode_id(0), 313);
    assert_eq!(ReZygiskOptions::ForceDenylistUnmount.value(), 0);
    assert_eq!(ReZygiskOptions::DlcloseModuleLibrary.value(), 1);

    let mut ctx = ZygiskContext::init();
    let mut table = ModuleTable::new();
    table.push_module(ReZygiskModule::default());
    assert_eq!(api_connect_companion(&table, 313), Some(0));
    assert_eq!(api_connect_companion(&table, 314), None);
    assert_eq!(api_get_module_dir(&table, 0), None);
    api_set_option(&mut ctx, &mut table, 313, 1);
    assert!(table.module_snapshot().get(0).unwrap().unload);
    assert!(!flag_get(&ctx, DO_REVERT_UNMOUNT));
    api_set_option(&mut ctx, &mut table, 313, 0);
    assert!(flag_get(&ctx, DO_REVERT_UNMOUNT));
    ctx.info_flags = 0x8000_0003;
    assert_eq!(api_get_flags(&ctx), 3);
}

#[test]
fn flags_are_independent() {
    let mut ctx = ZygiskContext::init();
    for set in 0..6 {
        flag_set(&mut ctx, set);
        for other in 0..6 {
            assert_eq!(flag_get(&ctx, other), other <= set);
        }
    }
    assert!(is_zygote_child(&ctx));
    ctx.pid = 12;
    assert!(!is_zygote_child(&ctx));
}

#[test]
fn registration_fills_the_interface() {
    let mut table = ModuleTable::new();
    table.push_module(ReZygiskModule::default());
    let mut api = ReZygiskApi { impl_: encode_id(0), ..ReZygiskApi::default() };
    let mut abi = ReZygiskAbi { api_version: 4, impl_: 9, ..ReZygiskAbi::default() };
    assert!(rezygisk_module_register(&mut table, &mut api, &abi));
    assert_eq!(api.plt_hook_register, PltRegisterSlot::V4);
    assert_eq!(api.plt_hook_exclude, PltExcludeSlot::ExemptFd);
    assert!(api.get_flags && api.connect_companion && api.hook_jni_native_methods);
    let stored = *table.module_snapshot().get(0).unwrap();
    assert_eq!(stored.abi.impl_, 9);
    assert_eq!(stored.api, api);

    let mut old = ReZygiskApi { impl_: encode_id(0), ..ReZygiskApi::default() };
    abi.api_version = 1;
    assert!(rezygisk_module_register(&mut table, &mut old, &abi));
    assert_eq!(old.plt_hook_commit, PltRegisterSlot::V3);
    assert!(!old.get_module_dir);
    abi.api_version = 6;
    assert!(!rezygisk_module_register(&mut table, &mut old, &abi));
    abi.api_version = 5;
    old.impl_ = 0;
    assert!(!rezygisk_module_register(&mut table, &mut old, &abi));
}

fn addresses() -> AppSpecializeArgsV5 {
    AppSpecializeArgsV5 {
        uid: 1,
        gid: 2,
        gids: 3,
        runtime_flags: 4,
        rlimits: 5,
        mount_external: 6,
        se_info: 7,
        nice_name: 8,
        instruction_set: 9,
        app_data_dir: 10,
        fds_to_ignore: 11,
        is_child_zygote: 12,
        is_top_app: 13,
        pkg_data_info_list: 14,
        whitelisted_data_info_list: 15,
        mount_data_dirs: 16,
        mount_storage_dirs: 17,
        mount_sysprop_overrides: 18,
    }
}

#[test]
fn arguments_by_version() {
    let mut abi = ReZygiskAbi { pre_app_specialize: Some(1), ..ReZygiskAbi::default() };
    abi.api_version = 2;
    match module_pre_app_specialize(&abi, &addresses()) {
        AppArgs::V1(a) => assert_eq!((a.mount_external, a.mount_storage_dirs), (6, 17)),
        _ => panic!("the first form"),
    }
    abi.api_version = 3;
    match module_pre_app_specialize(&abi, &addresses()) {
        AppArgs::V4(a) => assert_eq!((a.rlimits, a.fds_to_ignore), (5, 11)),
        _ => panic!("the second form"),
    }
    abi.api_version = 5;
    assert_eq!(module_pre_app_specialize(&abi, &addresses()), AppArgs::V5);
    abi.api_version = 0;
    assert_eq!(module_pre_app_specialize(&abi, &addresses()), AppArgs::Skip);
    abi.api_version = 5;
    assert_eq!(module_post_app_specialize(&abi, &addresses()), AppArgs::Skip);
    assert_eq!(module_pre_server_specialize(&abi), None);
    abi.post_server_specialize = Some(3);
    assert_eq!(module_post_server_specialize(&abi), Some(3));
}

#[test]
fn modules_are_loaded_and_removed() {
    let mut table = ModuleTable::new();
    let mut progress = LoadProgress::new();
    // The daemon's list, as numbers of the modules.
    let mut daemon = vec![0usize, 1, 2, 3];
    let outcomes = [
        LoadOutcome::Failed,
        LoadOutcome::Loaded { lib: 5, entry: 50 },
        LoadOutcome::NoEntry,
        LoadOutcome::Loaded { lib: 7, entry: 70 },
    ];
    for (i, outcome) in outcomes.iter().enumerate() {
        match progress.load_modules_only(&mut table, i, *outcome) {
            LoadStep::Added => {}
            LoadStep::Remove { index, unload } => {
                assert_eq!(daemon[index], i);
                assert_eq!(unload, i == 2);
                daemon.remove(index);
                progress.module_removed(true);
            }
        }
    }
    assert_eq!(daemon, vec![1, 3]);
    assert_eq!(table.zygisk_module_length(), 2);
    let second = *table.module_snapshot().get(1).unwrap();
    assert_eq!(second.api.impl_, encode_id(1));
    assert_eq!(second.zygisk_module_entry, Some(70));
    assert_eq!(library_fate(&second), LibraryFate::Abandon);
    assert!(library_still_mapped(&strings(&["/x", "/data/adb/m.so (deleted)"]), "/data/adb/m.so"));
    assert!(!library_still_mapped(&strings(&["/x"]), "/data/adb/m.so"));
    assert!(!library_still_mapped(&strings(&["/x"]), ""));
}

#[test]
fn stages_and_exceptions() {
    let mut ctx = ZygiskContext::init();
    assert_eq!(run_modules_pre(&ctx), Stage::Nothing);
    flag_set(&mut ctx, SERVER_FORK_AND_SPECIALIZE);
    assert_eq!(run_modules_pre(&ctx), Stage::Server);
    flag_set(&mut ctx, APP_SPECIALIZE);
    assert_eq!(run_modules_post(&mut ctx), Stage::App);
    assert!(flag_get(&ctx, POST_SPECIALIZE));
    assert!(check_module_exception(false, true));
    assert!(!check_module_exception(true, true));
    assert!(!check_module_exception(false, false));
}

#[test]
fn files_of_a_new_process() {
    let mut ctx = ZygiskContext::init();
    assert!(!rz_fork_pre(&mut ctx, 55));
    assert!(rz_fork_pre(&mut ctx, 0));
    let closing = record_fds(&mut ctx, &strings(&[".", "..", "0", "5", "9", "2000"]), 9);
    assert_eq!(closing, vec![2000]);
    let now = strings(&["0", "5", "9", "10", "11", "3000"]);
    assert_eq!(leaked_fds(&ctx, &now, 11), vec![9, 10]);
    // What was open at the fork stays open.
    assert!(!leaked_fds(&ctx, &now, 11).contains(&5));
}

#[test]
fn files_that_modules_keep() {
    let mut ctx = ZygiskContext::init();
    api_exempt_fd(&mut ctx, 7);
    assert!(ctx.exempted_fds.is_empty());
    flag_set(&mut ctx, APP_FORK_AND_SPECIALIZE);
    api_exempt_fd(&mut ctx, 7);
    api_exempt_fd(&mut ctx, 8);
    ctx.pid = 0;
    let plan = sanitize_fds(&mut ctx, Some(vec![3]), true);
    assert_eq!(plan.new_list, Some(vec![3, 7, 8]));
    assert!(plan.scan);
    assert!(ctx.allowed_fds[3] && ctx.allowed_fds[7] && !ctx.allowed_fds[9]);
    assert!(flag_get(&ctx, SKIP_FD_SANITIZATION));
    let again = sanitize_fds(&mut ctx, Some(vec![3]), true);
    assert!(again.new_list.is_none() && !again.scan);
}

fn map(path: &str, dev_minor: u32, inode: u64) -> MapEntry {
    MapEntry {
        start: 0x1000,
        end: 0x2000,
        readable: true,
        writable: false,
        executable: false,
        is_private: true,
        offset: 0,
        dev_major: 0xfe,
        dev_minor,
        inode,
        path: path.to_string(),
    }
}

#[test]
fn hooks_by_pattern() {
    let maps = vec![
        map("/system/lib64/libc.so", 1, 1),
        map("/system/lib64/libart.so", 1, 2),
        MapEntry { offset: 0x1000, ..map("/system/lib64/libc.so", 1, 1) },
        MapEntry { is_private: false, ..map("/system/lib64/libcutils.so", 1, 3) },
    ];
    let mut queue = HookQueue::new();
    assert!(matches!(queue.api_plt_hook_commit(Some(&maps)), Commit::Failed));
    queue.api_plt_hook_register("(", "open", 1, 0);
    queue.api_plt_hook_register(".*", "open", 0, 0);
    assert!(queue.register_info.is_empty());
    queue.api_plt_hook_register(r"lib(c|art)\.so$", "open", 0x10, 0x20);
    queue.api_plt_hook_register("libc", "read", 0x30, 0);
    queue.api_plt_hook_exclude("libart", Some("open".to_string()));
    queue.api_plt_hook_exclude("[", None);
    assert_eq!(queue.register_info.len(), 2);
    assert_eq!(queue.ignore_info.len(), 1);
    assert!(matches!(queue.api_plt_hook_commit(None), Commit::Failed));
    assert_eq!(queue.register_info.len(), 2);
    match queue.api_plt_hook_commit(Some(&maps)) {
        Commit::Install(requests) => {
            let got: Vec<(&str, &str, usize, usize)> = requests
                .iter()
                .map(|r| (r.path.as_str(), r.symbol.as_str(), r.callback, r.backup))
                .collect();
            assert_eq!(
                got,
                vec![
                    ("/system/lib64/libc.so", "open", 0x10, 0x20),
                    ("/system/lib64/libc.so", "read", 0x30, 0),
                ]
            );
        }
        Commit::Failed => panic!("hooks were queued"),
    }
    assert!(queue.register_info.is_empty() && queue.ignore_info.is_empty());
    assert!(all_installed(&vec![true, true]));
    assert!(!all_installed(&vec![true, false]));
}

#[test]
fn full_exception_blocks_a_library() {
    let maps = vec![map("/data/app/libgame.so", 1, 1)];
    let mut queue = HookQueue::new();
    queue.api_plt_hook_register("game", "a", 1, 0);
    queue.api_plt_hook_register("game", "b", 2, 0);
    queue.api_plt_hook_exclude("libgame", None);
    match queue.api_plt_hook_commit(Some(&maps)) {
        Commit::Install(requests) => assert!(requests.is_empty()),
        Commit::Failed => panic!("hooks were queued"),
    }
}

#[test]
fn queue_has_a_limit() {
    let mut queue = HookQueue::new();
    for _ in 0..70 {
        queue.api_plt_hook_register("x", "s", 1, 0);
        queue.api_plt_hook_exclude("x", None);
    }
    assert_eq!(queue.register_info.len(), 64);
    assert_eq!(queue.ignore_info.len(), 64);
}

#[test]
fn hooks_by_file() {
    let maps = vec![map("/a.so", 1, 10), map("/b.so", 0x100, 11), map("/c.so", 0x100, 11)];
    let dev = makedev(0xfe, 0x100);
    let found = PltHookList::api_plt_hook_register_v4(&maps, dev, 11, true, 5);
    assert_eq!(found, Some((0x1000, "/b.so".to_string())));
    assert_eq!(PltHookList::api_plt_hook_register_v4(&maps, dev, 12, true, 5), None);
    assert_eq!(PltHookList::api_plt_hook_register_v4(&maps, dev, 11, true, 0), None);
    let wide = vec![map("/w.so", 1, 0x1_0000_000a)];
    assert_eq!(
        PltHookList::api_plt_hook_register_v4(&wide, makedev(0xfe, 1), 10, false, 5),
        Some((0x1000, "/w.so".to_string()))
    );
    let mut list = PltHookList::new();
    list.library_added(false, "/b.so".to_string(), "open", 5, 6);
    list.library_added(true, "/b.so".to_string(), "open", 5, 6);
    let requests = list.api_plt_hook_commit_v4();
    assert_eq!(requests.len(), 1);
    assert_eq!(requests[0].symbol, "open");
    assert!(list.entries.is_empty());
}

#[test]
fn filter_shows_only_the_marked_call() {
    let (prog, args) =
        perform_ptrace_message_clear(false, Some([1, 2, 3, 4]), 94).expect("a filter");
    assert_eq!(args, vec![0x10001, 2, 3, 4]);
    assert_eq!(prog.len(), 12);
    // Run the filter on a call.
    let run = |nr: u32, call: &[u32]| -> u32 {
        let mut pc = 0usize;
        let mut acc = 0u32;
        loop {
            let i = prog[pc];
            match i.code {
                0x06 => return i.k,
                0x20 => {
                    acc = if i.k == 0 { nr } else { call[(i.k as usize - 16) / 8] };
                    pc += 1;
                }
                _ => pc += 1 + if acc == i.k { i.jt } else { i.jf } as usize,
            }
        }
    };
    assert_eq!(run(94, &[0x10001, 2, 3, 4]), SECCOMP_RET_TRACE);
    assert_eq!(run(93, &[0x10001, 2, 3, 4]), SECCOMP_RET_ALLOW);
    for wrong in 0..4 {
        let mut call = [0x10001, 2, 3, 4];
        call[wrong] += 1;
        assert_eq!(run(94, &call), SECCOMP_RET_ALLOW);
    }
    assert!(perform_ptrace_message_clear(true, Some([1, 2, 3, 4]), 94).is_none());
    assert!(perform_ptrace_message_clear(false, None, 94).is_none());
    assert!(seccomp_filters_visible(None));
    assert!(seccomp_filters_visible(Some(&b"Name:\tx\nSeccomp_filters:\t0\n".to_vec())));
    assert!(!seccomp_filters_visible(Some(&b"Name:\tx\nSeccomp:\t0\n".to_vec())));
}

#[test]
fn hooks_of_the_library() {
    assert_eq!(fork(Some(0)), Some(0));
    assert_eq!(fork(Some(-1)), None);
    assert_eq!(fork(None), None);
    let gone = b"/data/gone".to_vec();
    let methods = b"/memfd:/boot-image-methods.art (deleted)".to_vec();
    assert_eq!(reopen_or_detach(false, &gone, false), ReopenStep::Detach);
    assert_eq!(reopen_or_detach(true, &gone, false), ReopenStep::CallOriginal);
    assert_eq!(reopen_or_detach(false, &methods, false), ReopenStep::CallOriginal);
    assert_eq!(reopen_or_detach(false, &gone, true), ReopenStep::CallOriginal);
    assert!(strdup("com.android.internal.os.ZygoteInit"));
    assert!(!strdup("com.android.internal.os.RuntimeInit"));
    assert_eq!(hook_status(true, true, true, true, true), 0);
    assert_eq!(hook_status(false, true, false, true, false), 0x15);
    let mut standing = hook_functions();
    let (set, taken) = hook_unloader(true).expect("hooks");
    standing.push(set);
    standing.retain(|h| *h != taken);
    for hook in unhook_functions() {
        assert!(standing.contains(&hook));
        standing.retain(|h| *h != hook);
    }
    assert!(standing.is_empty());
    assert!(hook_unloader(false).is_none());
    assert_eq!(CoreHook::SetStackSize.library(), "libart.so");
    assert_eq!(CoreHook::Fork.symbol(), "fork");
    assert!(CoreHook::ReopenOrDetach.is_prefix());
    assert!(supports_seccomp_event(3, 8) && !supports_seccomp_event(3, 7));
    assert_eq!(entry_result(0x15, true), 0x15);
    assert_eq!(entry_result(0x15, false), 0);
}

#[test]
fn library_leaves_only_when_safe() {
    let ready = || {
        let mut s = LoaderState::new();
        s.start_addr = 0x1000;
        s.block_size = 0x2000;
        s.should_unmap_zygisk = true;
        s.enable_unloader = true;
        s.with_plti();
        s
    };
    let alone = Residency { in_loader: 1, unloading: true };
    assert_eq!(ready().leave_begin(true), LeaveStep::Unhook);
    assert_eq!(ready().leave_begin(false), LeaveStep::Stay);

    let mut s = ready();
    let mut r = alone;
    let plan = s.pthread_attr_setstacksize_inner(&mut r, true, true);
    assert_eq!(plan.unmap, Some((0x1000, 0x2000)));
    assert!(plan.plti.is_some() && s.plti.is_none());

    let mut s = ready();
    let mut busy = Residency { in_loader: 2, unloading: true };
    assert_eq!(s.pthread_attr_setstacksize_inner(&mut busy, true, true).unmap, None);
    assert!(!s.enable_unloader && !busy.unloading);

    let mut s = ready();
    assert_eq!(s.pthread_attr_setstacksize_inner(&mut r, false, true).unmap, None);
    assert!(!s.should_unmap_zygisk && !s.enable_unloader);

    let mut res = Residency::new();
    res.enter();
    res.enter();
    res.leave();
    assert_eq!(res.in_loader, 1);
    res.in_loader = 4;
    res.forked(0);
    assert_eq!(res, Residency { in_loader: 1, unloading: false });
}

#[test]
fn cleanup_only_in_the_child() {
    let mut s = LoaderState::new();
    s.modules.push_module(ReZygiskModule { unload: true, ..ReZygiskModule::default() });
    s.jni_hook_list.push(JniHookEntry { class_name: "c".to_string(), methods: vec![] });
    let mut ctx = ZygiskContext::init();
    ctx.queue.api_plt_hook_register("x", "s", 1, 0);
    ctx.pid = 9;
    s.cleanup(&mut ctx, &vec![true]);
    assert!(!s.enable_unloader && s.jni_hook_list.len() == 1);
    ctx.pid = 0;
    s.cleanup(&mut ctx, &vec![true, false]);
    assert!(s.enable_unloader && !s.should_unmap_zygisk);
    assert!(s.jni_hook_list.is_empty() && ctx.queue.register_info.is_empty());
    assert!(!s.modules.module_snapshot().get(0).unwrap().unload);
    s.cleanup(&mut ctx, &vec![true]);
    assert!(s.should_unmap_zygisk);
}

#[test]
fn starting_a_process() {
    assert_eq!(daemon_uid(99000, true, true, Some(10001)), Some(10001));
    assert_eq!(daemon_uid(99000, true, true, None), None);
    assert_eq!(daemon_uid(99000, true, false, None), Some(99000));
    assert_eq!(daemon_uid(10001, false, true, None), Some(10001));

    let mut ctx = ZygiskContext::init();
    assert!(start_pre(&mut ctx, StartKind::ForkApp, Some("com.app".to_string())));
    assert_eq!(ctx.process, "com.app");
    assert!(flag_get(&ctx, APP_FORK_AND_SPECIALIZE));
    ctx.pid = 0;
    assert_eq!(
        start_steps(&ctx, StartKind::ForkApp),
        vec![StartStep::AppPre, StartStep::Sanitize]
    );
    assert_eq!(
        finish_steps(&ctx, StartKind::ForkApp),
        vec![StartStep::AppPost, StartStep::ForkPost]
    );
    // The zygote itself does nothing.
    ctx.pid = 77;
    assert!(start_steps(&ctx, StartKind::ForkApp).is_empty());
    assert_eq!(finish_steps(&ctx, StartKind::ForkServer), vec![StartStep::ForkPost]);

    let mut ctx = ZygiskContext::init();
    assert!(!start_pre(&mut ctx, StartKind::SpecializeApp, None));
    assert_eq!(ctx.process, "");
    app_specialize_begin(&mut ctx);
    assert!(flag_get(&ctx, APP_SPECIALIZE));
    let info = ProcessInfo { first_started: true, on_denylist: false, is_manager: false };
    let before = app_specialize_pre(&mut ctx, 1 << 31, info);
    assert!(before.prepare_clean && !before.announce && !before.enter_clean);
    assert!(!app_specialize_after_modules(&ctx, info));
    flag_set(&mut ctx, DO_REVERT_UNMOUNT);
    assert!(app_specialize_after_modules(&ctx, info));
    let denied = ProcessInfo { on_denylist: true, ..info };
    let before = app_specialize_pre(&mut ctx, 0, denied);
    assert!(!before.prepare_clean && before.enter_clean);
    assert!(!app_specialize_after_modules(&ctx, denied));
}

#[test]
fn native_methods() {
    let hooks = jni_hooks();
    assert_eq!(hooks.len(), 21);
    assert_eq!(hooks[0].class_name, "com/android/internal/os/Zygote");
    assert_eq!(hooks[19].name, "nativeForkSystemServer");
    assert_eq!(hooks[19].signature, "(II[II[[IJJ)I");
    assert_eq!(hooks[13].overload, Overload::SpecializeQ);
    let groups = do_hook_zygote(jni_hooks());
    assert_eq!(groups.len(), 1);
    assert_eq!(groups[0].hooks.len(), 21);
    assert_eq!(groups[0].hooks[20].overload, Overload::ServerSamsungQ);

    let args = Overload::ForkL.app_args(addresses());
    assert_eq!((args.app_data_dir, args.fds_to_ignore, args.is_child_zygote), (10, 0, 0));
    let args = Overload::SpecializeR.app_args(addresses());
    assert_eq!((args.fds_to_ignore, args.mount_storage_dirs, args.mount_sysprop_overrides), (0, 17, 0));
    assert_eq!(Overload::ForkU.app_args(addresses()), addresses());
}

#[test]
fn methods_of_the_zygote() {
    let hooks = do_hook_zygote(jni_hooks()).remove(0).hooks;
    let none = MethodProbe { found: false, modifier: None, original: 0 };
    let mut probes = vec![none; hooks.len()];
    probes[4] = MethodProbe { found: true, modifier: Some(0x100), original: 0x44 };
    probes[5] = MethodProbe { found: true, modifier: Some(0x100), original: 0x55 };
    probes[6] = MethodProbe { found: true, modifier: Some(1), original: 0x66 };
    probes[19] = MethodProbe { found: true, modifier: Some(0x101), original: 0x99 };
    let mut known = Originals { fork_app: 0, specialize_app: 0, fork_server: 0 };
    let places = hook_zygote_methods_str(&mut known, &hooks, &probes, 0x100);
    assert_eq!(places, vec![4, 5, 19]);
    assert_eq!(known, Originals { fork_app: 0x44, specialize_app: 0, fork_server: 0x99 });
    let entry = unhook_entry("com/android/internal/os/Zygote", &hooks, &probes, &places);
    assert_eq!(entry.methods.len(), 3);
    assert_eq!(entry.methods[1].fn_ptr, 0x55);
    assert_eq!(entry.methods[2].name.as_deref(), Some("nativeForkSystemServer"));
    assert!(knows_native_methods(true, 0x100));
    assert!(!knows_native_methods(true, 0));
    assert!(!knows_native_methods(false, 0x100));
    assert_eq!(
        find_native_helper(&strings(&["/system/lib64/libc.so", "/apex/lib64/libnativehelper.so"])),
        Some(1)
    );
    assert_eq!(find_native_helper(&strings(&["/system/lib64/libc.so"])), None);
}

#[test]
fn methods_of_a_module() {
    let method = |name: Option<&str>, fn_ptr: usize| NativeMethod {
        name: name.map(|n| n.to_string()),
        signature: Some("()V".to_string()),
        fn_ptr,
    };
    let native = MethodProbe { found: true, modifier: Some(0x100), original: 0x99 };
    let plain = MethodProbe { modifier: Some(1), ..native };
    let make = || vec![method(Some("a"), 1), method(Some("b"), 2), method(None, 3)];
    let probes = vec![native, plain, native];

    let mut methods = make();
    assert!(hook_jni_methods(false, true, &mut methods, &probes, 0x100).is_empty());
    assert_eq!(methods[0].fn_ptr, 1);

    let places = hook_jni_methods(true, true, &mut methods, &probes, 0x100);
    assert_eq!(places, vec![0]);
    assert_eq!(methods.iter().map(|m| m.fn_ptr).collect::<Vec<_>>(), vec![0x99, 0, 0]);
    registration_failed(&mut methods);
    assert_eq!(methods[0].fn_ptr, 0);
    assert_eq!(methods[0].name.as_deref(), Some("a"));

    let mut methods = make();
    assert!(hook_jni_methods(true, false, &mut methods, &probes, 0x100).is_empty());
    assert!(methods[0].name.is_none() && methods[0].fn_ptr == 0);
}

#[test]
fn methods_are_hooked_last() {
    let mut phase = JniHookPhase::FindFunction;
    let mut steps = 0;
    // The function is found in the helper library only.
    for ok in [false, true, true, true, true, true, true, true, true] {
        phase = initialize_jni_hook(phase, ok);
        steps += 1;
    }
    assert_eq!(phase, JniHookPhase::Over(true));
    assert_eq!(steps, 9);
    for failing in [
        JniHookPhase::ScanMaps,
        JniHookPhase::OpenHelper,
        JniHookPhase::FindInHelper,
        JniHookPhase::GetVm,
        JniHookPhase::GetEnv,
        JniHookPhase::ReadModifiers,
        JniHookPhase::LearnLayout,
    ] {
        assert_eq!(initialize_jni_hook(failing, false), JniHookPhase::Over(false));
    }
}

#[test]
fn zero_is_no_handle() {
    assert_eq!(module_of(0, 5), None);
    assert_eq!(module_of(encode_id(0), 5), Some(0));
    assert_eq!(module_of(encode_id(4), 5), Some(4));
    assert_eq!(module_of(encode_id(5), 5), None);
}

#[test]
fn empty_list_is_read_again_three_times() {
    let mut state = LoaderState::new();
    assert!(!state.read_modules_again());
    state.modules_read(0);
    for _ in 0..3 {
        assert!(state.read_modules_again());
        state.modules_read(0);
    }
    assert!(!state.read_modules_again());

    let mut state = LoaderState::new();
    state.modules_read(0);
    assert!(state.read_modules_again());
    state.modules_read(2);
    assert!(!state.read_modules_again());
}
