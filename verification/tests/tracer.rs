//! Waiting for processes, their registers and memory, and the injection.

use rezygisk::csoloader::{
    apply_rel_reloc, apply_rela_reloc, apply_relocations, check_reservation, compute_load_layout,
    find_dynsym_value, find_remote_module_path, load_result, page_end, plan_segments,
    relocation_kind, remote_csoloader_load_and_resolve_entry, reserve_args, resolve_symbol_addr,
    segment_args, segment_bytes, DynSym, LoadPhase, LoadReloc, RelocStep, Reservation,
    SegPlan, SymbolPlan, ValueKind,
};
use rezygisk::elf::{Reloc, RelocKind, Segment};
use rezygisk::maps::{
    find_func_addr, find_module_base, find_module_return_addr, get_addr_mem_region,
    position_after, translate_resolved, FuncLookup, FuncSymbol, MapEntry,
};
use rezygisk::regs::{get_regs, set_regs, try_get_regs};
use rezygisk::remote::{
    find_arm32_ret_gadget, find_jump_slot_got_offset_elf32, find_syscall_gadget,
    find_tramp_padding, gadget_in_region, gadget_regions, poke_addr, ptrace_poke_u32, remote_call, remote_syscall,
    ret_gadget_regions, tango_candidates, tango_wait_linker_ready, CallStep, Isa, LinkerPhase,
    Region, SyscallPhase, TangoLinkerWatch,
};
use rezygisk::trace::{
    break_address, find_entry, inject_on_main, inject_tango, seize_options, tango_supported,
    tango_tail_stub, tango_trampoline, trace_zygote, trampoline_candidates, waits_first,
    InjectError, MainEvent, MainPhase, TangoPhase, TracePhase,
};
use rezygisk::wait::{
    fork_dont_care, parse_ptrace_event, parse_status, sigabbrev_np, stopped_with,
    wait_for_event_stop, wait_for_ptrace_syscall_stop, wait_for_ptrace_syscall_stop_deadline,
    wait_for_trace, wait_for_trace_deadline,
    wexitstatus, wifexited, wifsignaled, wifstopped, wptevent, wstopsig, wtermsig, ChildStep,
    DrainStep, SyscallStep, TraceStep, WaitResult,
};

fn entry(start: usize, end: usize, perms: &str, offset: u64, path: &str) -> MapEntry {
    MapEntry {
        start,
        end,
        readable: perms.contains('r'),
        writable: perms.contains('w'),
        executable: perms.contains('x'),
        is_private: perms.contains('p'),
        offset,
        dev_major: 0,
        dev_minor: 0,
        inode: 0,
        path: path.to_string(),
    }
}

#[test]
fn wait_status_helpers() {
    let syscall_stop = 0x7f | ((libc::SIGTRAP | 0x80) << 8);
    assert!(wifstopped(syscall_stop));
    assert_eq!(wstopsig(syscall_stop), libc::SIGTRAP | 0x80);
    assert_eq!(wptevent(syscall_stop), 0);
    assert!(!stopped_with(syscall_stop, libc::SIGTRAP, libc::PTRACE_EVENT_STOP));

    let exec_stop = 0x7f | (libc::SIGTRAP << 8) | (4 << 16);
    assert_eq!(wptevent(exec_stop), libc::PTRACE_EVENT_EXEC);
    assert!(stopped_with(exec_stop, libc::SIGTRAP, libc::PTRACE_EVENT_EXEC));

    let group_stop = 0x7f | (libc::SIGSTOP << 8);
    assert!(stopped_with(group_stop, libc::SIGSTOP, 0));
    assert!(!stopped_with(group_stop, libc::SIGSTOP, 0x8000));
    assert!(!stopped_with(0x7f | (libc::SIGSTOP << 8) | i32::MIN, libc::SIGSTOP, 0x8000));

    assert_eq!(sigabbrev_np(libc::SIGSEGV), "SEGV");

    let s = parse_status(group_stop);
    assert!(s.contains("stopped by signal=STOP(19)"), "{s}");
}

#[test]
fn ended_processes() {
    assert!(wifexited(0x0300));
    assert_eq!(wexitstatus(0x0300), 3);
    assert!(wifsignaled(9));
    assert_eq!(wtermsig(9), 9);
    assert!(!wifstopped(9));
    assert_eq!(parse_ptrace_event(0x4057f), "PTRACE_EVENT_EXEC");
}

#[test]
fn waits_for_a_stop() {
    assert_eq!(
        wait_for_trace(WaitResult::Changed(0x137f)),
        TraceStep::Over { status: 0x137f, ok: true }
    );
    assert_eq!(wait_for_trace(WaitResult::Changed(0x117f)), TraceStep::Resume);
    assert_eq!(wait_for_trace(WaitResult::Changed(0x7057f)), TraceStep::SkipSyscall);
    assert_eq!(wait_for_trace(WaitResult::Error { interrupted: true }), TraceStep::Retry);
    assert_eq!(wait_for_trace_deadline(WaitResult::Nothing, false), TraceStep::Sleep);
    assert!(matches!(
        wait_for_trace_deadline(WaitResult::Nothing, true),
        TraceStep::Over { ok: false, .. }
    ));
    assert_eq!(wait_for_event_stop(0x80057f), DrainStep::Reached);
    assert_eq!(wait_for_event_stop(0x0b7f), DrainStep::Continue(11));
    assert_eq!(wait_for_event_stop(0x4057f), DrainStep::Continue(0));
    assert_eq!(wait_for_event_stop(0), DrainStep::Lost);
    let mut retries = 0;
    assert_eq!(
        wait_for_ptrace_syscall_stop(WaitResult::Changed(0x857f), &mut retries),
        SyscallStep::Reached
    );
    assert_eq!(fork_dont_care(WaitResult::Changed(0), false), ChildStep::Done);
    assert_eq!(fork_dont_care(WaitResult::Changed(0x0100), false), ChildStep::Failed);
    assert_eq!(fork_dont_care(WaitResult::Nothing, false), ChildStep::Sleep);
    assert_eq!(fork_dont_care(WaitResult::Nothing, true), ChildStep::Kill);
}

#[test]
fn modules_in_a_map() {
    let map = vec![
        entry(0x1000, 0x2000, "r-xp", 0, "/system/lib64/libc.so"),
        entry(0x2000, 0x3000, "rw-p", 0x1000, "/system/lib64/libc.so"),
        entry(0x5000, 0x6000, "rw-p", 0, ""),
    ];
    assert_eq!(find_module_base(&map, "/system/lib64/libc.so"), 0x1000);
    assert_eq!(find_module_base(&map, "/system/lib64/libm.so"), 0);
    assert_eq!(find_module_return_addr(&map, "libc.so"), 0x2000);
    assert_eq!(find_module_return_addr(&map, "libm.so"), 0);
    assert_eq!(position_after("/a/b/libc.so", '/'), "libc.so");
    assert_eq!(position_after("libc.so", '/'), "libc.so");
    assert_eq!(get_addr_mem_region(&map, 0x1800), "/system/lib64/libc.so r-x");
    assert_eq!(get_addr_mem_region(&map, 0x5800), "<anonymous> rw-");
    assert_eq!(get_addr_mem_region(&map, 0x9000), "<unknown>");
    assert_eq!(find_remote_module_path(&map, "libc.so"), Some("/system/lib64/libc.so"));
    assert_eq!(find_remote_module_path(&map, "libx.so"), None);
}

#[test]
fn functions_of_another_process() {
    let local = vec![entry(0x1000, 0x2000, "r-xp", 0, "/lib/libc.so")];
    let remote = vec![entry(0x9000, 0xa000, "r-xp", 0, "/lib/libc.so")];
    let plain = FuncSymbol { value: 0x110, bias: 0x10, indirect: false };
    assert_eq!(
        find_func_addr(&local, &remote, "/lib/libc.so", Some(plain)),
        FuncLookup::At(0x9100)
    );
    let indirect = FuncSymbol { indirect: true, ..plain };
    assert_eq!(
        find_func_addr(&local, &remote, "/lib/libc.so", Some(indirect)),
        FuncLookup::Resolve { resolver: 0x1100, local_base: 0x1000, remote_base: 0x9000 }
    );
    // What the resolver picked locally has its place in the other process.
    assert_eq!(translate_resolved(0x1234, 0x1000, 0x9000), 0x9234);
    assert_eq!(translate_resolved(0, 0x1000, 0x9000), 0);
    assert_eq!(find_func_addr(&local, &vec![], "/lib/libc.so", Some(plain)), FuncLookup::Missing);
}

#[test]
fn registers_of_each_machine() {
    assert!(get_regs(true, None));
    assert!(get_regs(false, Some(true)));
    assert!(!get_regs(false, Some(false)));
    assert!(!set_regs(false, None));
    assert!(try_get_regs(false, None).is_err());
}

#[test]
fn system_call_instructions() {
    let map = vec![
        entry(0x1000, 0x3000, "r-xp", 0, "/bin/x"),
        entry(0x9000, 0xa000, "r-xp", 0, "[vdso]"),
        entry(0xb000, 0xc000, "rw-p", 0, "/bin/x"),
    ];
    assert_eq!(
        gadget_regions(&map),
        vec![Region { start: 0x9000, len: 0x1000 }, Region { start: 0x1000, len: 0x2000 }]
    );
    assert_eq!(gadget_in_region(Isa::X86_64, 0x1000, &[0x90, 0x90, 0x0f, 0x05]), Some(0x1002));
    assert_eq!(gadget_in_region(Isa::X86_64, 0x1000, &[0x90, 0x0f, 0x05, 0x90]), None);
    assert_eq!(
        gadget_in_region(Isa::Aarch64, 0x1000, &[0, 0, 0, 0, 1, 0, 0, 0xd4]),
        Some(0x1004)
    );
    assert_eq!(find_arm32_ret_gadget(0x1000, &[0, 0, 0x70, 0x47]), Some(0x1003));
}

#[test]
fn words_are_patched() {
    assert_eq!(poke_addr(0x1005, 8), 0x1000);
    assert_eq!(
        ptrace_poke_u32(0x1111_1111_2222_2222, 0x1004, 8, 0xaaaa_aaaa),
        0xaaaa_aaaa_2222_2222
    );
    assert_eq!(
        ptrace_poke_u32(0x1111_1111_2222_2222, 0x1000, 8, 0xaaaa_aaaa),
        0x1111_1111_aaaa_aaaa
    );
    // The last bytes of the tail are zero: the padding lies there.
    let mut tail = vec![1u8; 0x1000];
    for b in tail.iter_mut().skip(0xfc0) {
        *b = 0;
    }
    let at = find_tramp_padding(0x10000, 0x11000, 48, &tail);
    assert!(at >= 0x10fc0 && at + 48 <= 0x11000 && at % 4 == 0);
    assert_eq!(find_tramp_padding(0x10000, 0x11000, 0x100, &tail), 0);
}

#[test]
fn remote_calls_end() {
    assert_eq!(remote_call(CallStep::SetRegs, true, 0, 0, 0, 8), CallStep::Run);
    assert_eq!(remote_call(CallStep::SetRegs, false, 0, 0, 0, 8), CallStep::Return(0));
    let stopped = remote_call(CallStep::Run, true, 0x0b7f, 0, 0, 8);
    assert_eq!(stopped, CallStep::GetRegs { status: 0x0b7f });
    assert_eq!(remote_call(stopped, true, 0, 8, 42, 8), CallStep::Return(42));
    assert_eq!(remote_call(stopped, true, 0, 16, 42, 8), CallStep::Return(0));

    let mut phase = SyscallPhase::Save;
    let mut restored = false;
    for _ in 0..8 {
        if let SyscallPhase::Restore(_) = phase {
            restored = true;
        }
        phase = remote_syscall(phase, true, 7);
    }
    assert_eq!(phase, SyscallPhase::Return(7));
    assert!(restored);
    assert_eq!(remote_syscall(SyscallPhase::Enter, false, 7), SyscallPhase::Restore(-1));
    assert_eq!(remote_syscall(SyscallPhase::Save, false, 7), SyscallPhase::Return(-1));
}

#[test]
fn linker_of_a_translated_process() {
    let mut watch =
        TangoLinkerWatch { libc_init_got_slot: 0, libc_init_initial: 0, libc_init_resolved: 0 };
    watch.watch_slot(0x1000, 0x100, 0x20);
    assert_eq!(watch.libc_init_got_slot, 0xf20);
    watch.first_seen(Some(5));
    assert!(!watch.slot_read(Some(5)));
    assert!(!watch.slot_read(Some(0)));
    assert!(!watch.slot_read(None));
    assert!(watch.slot_read(Some(6)));
    assert_eq!(watch.libc_init_resolved, 6);
    let map = vec![
        entry(0x1000, 0x2000, "r--p", 0, "/system/bin/app_process32"),
        entry(0x2000, 0x3000, "r-xp", 0x1000, "/system/bin/app_process32"),
    ];
    assert_eq!(tango_candidates(&map), vec![0]);
    assert_eq!(trampoline_candidates(&map), vec![1]);
    let relocs = vec![
        Reloc { offset: 0x10, sym_idx: 0, kind: RelocKind::GlobDat },
        Reloc { offset: 0x20, sym_idx: 1, kind: RelocKind::JumpSlot },
    ];
    let symbols = vec!["__libc_init".to_string(), "__libc_init".to_string()];
    assert_eq!(find_jump_slot_got_offset_elf32(&relocs, &symbols, "__libc_init"), Some(0x20));
    assert_eq!(find_jump_slot_got_offset_elf32(&relocs, &symbols, "main"), None);
}

#[test]
fn trace_of_a_zygote() {
    let step = |p: TracePhase, ok: bool, status: i32| trace_zygote(p, false, false, ok, status);
    let mut phase = TracePhase::Seize;
    for (ok, status) in [
        (true, 0),
        (true, 0x80137f),
        (true, 0),
        (true, 0),
        (true, 0),
        (true, 0x80057f),
        (true, 0),
        (true, 0x127f),
        (true, 0),
        (true, 0),
    ] {
        phase = step(phase, ok, status);
    }
    assert_eq!(phase, TracePhase::Detach { signal: 18, result: true });
    assert_eq!(step(phase, true, 0), TracePhase::Over(true));
    assert_eq!(step(TracePhase::Seize, false, 0), TracePhase::Over(false));
    assert_eq!(
        step(TracePhase::FirstStop, true, 0x0b7f),
        TracePhase::Detach { signal: 0, result: false }
    );
    assert_eq!(trace_zygote(TracePhase::Seize, true, false, true, 0), TracePhase::Interrupt);
    assert_eq!(seize_options(3, 7, false), 0);
    assert!(waits_first(3, 7) && waits_first(2, 9));
    assert!(!waits_first(3, 8) && !waits_first(4, 0));
    assert_eq!(seize_options(4, 0, false), 0x100080);
    assert_eq!(seize_options(4, 0, true), 0x100081);
}

#[test]
fn entry_address_of_a_process() {
    let mut block: Vec<u8> = Vec::new();
    for word in [1u64, 0x7000, 0, 0x8000, 0, 6, 4096, 9, 0x1_2345, 0, 0] {
        block.extend(word.to_le_bytes());
    }
    let slot = find_entry(&block, 0x10_0000, 8).expect("entry");
    assert_eq!(slot.entry, 0x1_2345);
    assert_eq!(slot.slot, 0x10_0000 + 8 * 8);
    assert!(find_entry(&block[..64], 0x10_0000, 8).is_none());
    assert_eq!(break_address(0x1_2345, 8), 0xffff_ffff_ffff_fff1);
    assert_eq!(break_address(0x1_2344, 4), 0xffff_fff0);
}

#[test]
fn injection_at_the_entry() {
    let good = MainEvent { ok: true, status: 0x0b7f, ip: 0x10, expected_ip: 0x10, thumb: false };
    let mut phase = MainPhase::ReadMap;
    for _ in 0..11 {
        phase = inject_on_main(phase, good);
    }
    assert_eq!(phase, MainPhase::Over(true));
    let elsewhere = MainEvent { ip: 0x20, ..good };
    assert_eq!(inject_on_main(MainPhase::Call, elsewhere), MainPhase::Restore { entered: false });
    assert_eq!(
        inject_on_main(MainPhase::Restore { entered: false }, good),
        MainPhase::Over(false)
    );
    assert_eq!(
        inject_on_main(MainPhase::Run, MainEvent { status: 0x137f, ..good }),
        MainPhase::Over(false)
    );
}

#[test]
fn injection_into_a_translated_process() {
    assert_eq!(inject_tango(TangoPhase::GetRegs, true, 0), TangoPhase::ReadMaps);
    assert_eq!(inject_tango(TangoPhase::GetRegs, false, 0), TangoPhase::Over(false));
    assert_eq!(inject_tango(TangoPhase::EraseStub, true, 0), TangoPhase::Over(true));
    assert!(tango_supported(Isa::Arm));
    assert!(!tango_supported(Isa::X86_64));
    let code = tango_trampoline(0x1000, 0x2000, 0x3001);
    assert_eq!(code.len(), 12);
    assert_eq!(&code[8..], &[0x1000, 0x2000, 0x3001, 0]);
    assert_eq!(tango_tail_stub(0x77)[3], 0x77);
}

#[test]
fn errors_in_words() {
    assert_eq!(InjectError::MapsParseFailed.message(), "failed to parse remote maps");
    assert_eq!(InjectError::GetRegsFailed.message(), "failed to get registers");
    assert_eq!(InjectError::SetRegsFailed.message(), "failed to set registers");
    assert_eq!(InjectError::AtEntryNotFound.message(), "AT_ENTRY not found in auxv");
    assert_eq!(
        InjectError::LoadLibraryFailed("x".to_string()).message(),
        "failed to load library: x"
    );
    assert_eq!(InjectError::RemoteCallFailed.message(), "remote call failed");
    assert_eq!(
        InjectError::PtraceFailed("y".to_string()).message(),
        "ptrace operation failed: y"
    );
    assert_eq!(InjectError::TraceTimeout.message(), "timeout waiting for trace event");
    assert_eq!(
        InjectError::UnexpectedStopStatus("z".to_string()).message(),
        "unexpected stop status: z"
    );
}

#[test]
fn library_layout() {
    let seg = |vaddr: u64, memsz: u64, flags: u32| Segment {
        ptype: 1,
        flags,
        offset: vaddr,
        vaddr,
        filesz: 0x10,
        memsz,
    };
    let segs = vec![seg(0x1000, 0x500, 5), seg(0x3000, 0x1800, 6)];
    assert_eq!(compute_load_layout(&segs, 4096), Some((0x1000, 0x4000)));
    assert_eq!(compute_load_layout(&vec![], 4096), None);
    assert_eq!(page_end(0x1001, 4096), 0x2000);
    let plans = plan_segments(&segs, 0x10_0000, 0x1000, 4096);
    assert_eq!(plans.len(), 2);
    assert_eq!((plans[0].page, plans[0].page_len, plans[0].prot), (0x10_0000, 0x1000, 5));
    assert_eq!((plans[1].page, plans[1].page_len, plans[1].prot), (0x10_2000, 0x2000, 3));
    assert!(segment_bytes(&vec![0; 0x1008], &plans[0]).is_none());
    let none = SegPlan { offset: 0x9000, filesz: 0, ..plans[0] };
    assert_eq!(segment_bytes(&vec![7; 8], &none).map(|b| b.len()), Some(0));
    assert_eq!(segment_bytes(&vec![7; 0x1010], &plans[0]).map(|b| b.len()), Some(0x10));
    assert_eq!(reserve_args(0x4000, true), vec![0x1_0000_0000, 0x4000, 0, 0x22, -1, 0]);
    assert_eq!(segment_args(0x1000, 0x2000), vec![0x1000, 0x2000, 3, 0x32, -1, 0]);
    assert_eq!(check_reservation(0, true), Reservation::Failed);
    assert_eq!(check_reservation(0x1000, true), Reservation::TooLow);
    assert_eq!(check_reservation(0x1000, false), Reservation::Good);
    let loaded = load_result(0x10_0000, 0x1000, 0x4000, 0x1234);
    assert_eq!((loaded.base, loaded.total_size, loaded.entry), (0x10_0000, 0x4000, 0x10_0234));
}

#[test]
fn symbols_and_relocations() {
    let sym = |name: &str, value: u64, defined: bool| DynSym {
        name: name.to_string(),
        value,
        defined,
    };
    let syms = vec![sym("", 0, false), sym("entry", 0x40, true), sym("dlopen", 0, false)];
    assert_eq!(find_dynsym_value(&syms, "entry"), Some(0x40));
    assert_eq!(find_dynsym_value(&syms, "dlopen"), None);
    assert!(matches!(
        resolve_symbol_addr(&syms, &vec![], 0x1000, 1, true),
        SymbolPlan::At(0x1040)
    ));
    assert!(matches!(resolve_symbol_addr(&syms, &vec![], 0x1000, 9, true), SymbolPlan::Fail));
    match resolve_symbol_addr(&syms, &vec![Some("/lib/libc.so".to_string()), None], 0, 2, true) {
        SymbolPlan::Search(list) => {
            assert_eq!(list.len(), 2);
            assert_eq!(list[0].module, "/lib/libc.so");
            assert_eq!(list[0].symbol, "dlopen");
            assert_eq!(list[1].module, "/system/bin/linker64");
            assert_eq!(list[1].symbol, "__dl_dlopen");
        }
        _ => panic!("to be looked up"),
    }
    assert_eq!(relocation_kind(Isa::Aarch64, true, 1027), ValueKind::Bias);
    let w = apply_rela_reloc(Isa::X86_64, 8, 0x10, 0x2000, 0x1000, None).expect("write");
    assert_eq!(w.addr, 0x2000);
    assert_eq!(w.bytes, 0x1010u64.to_le_bytes().to_vec());
    assert!(apply_rela_reloc(Isa::X86_64, 99, 0, 0, 0, None).is_none());
    let w = apply_rel_reloc(Isa::Arm, 21, 0x2000, 0x1000, Some(0x77), None).expect("write");
    assert_eq!(w.bytes[0], 0x77);
}

#[test]
fn failed_load_gives_the_pages_back() {
    let step = |p: LoadPhase, ok: bool| {
        remote_csoloader_load_and_resolve_entry(p, ok, Reservation::Good, 1)
    };
    let mut phase = LoadPhase::Prepare;
    for _ in 0..8 {
        phase = step(phase, true);
    }
    assert_eq!(phase, LoadPhase::Done);
    assert_eq!(step(LoadPhase::Relocate, false), LoadPhase::Unmap);
    assert_eq!(step(LoadPhase::Unmap, true), LoadPhase::Failed);
    assert_eq!(step(LoadPhase::Prepare, false), LoadPhase::Failed);
}

#[test]
fn relocations_are_applied_in_order() {
    let relocs = vec![
        LoadReloc { offset: 0x10, rtype: 23, sym_idx: 0, addend: 0, has_addend: false },
        LoadReloc { offset: 0x20, rtype: 99, sym_idx: 0, addend: 0, has_addend: false },
        LoadReloc { offset: 0x30, rtype: 8, sym_idx: 0, addend: 5, has_addend: true },
    ];
    match apply_relocations(Isa::Arm, &relocs, 0, true, 0x1000, None, Some(4)) {
        RelocStep::Write(w) => {
            assert_eq!(w.addr, 0x1010);
            assert_eq!(w.bytes, 0x1004u64.to_le_bytes().to_vec());
        }
        RelocStep::Over(_) => panic!("nothing to write"),
    }
    let step = apply_relocations(Isa::Arm, &relocs, 1, true, 0x1000, None, Some(4));
    assert!(matches!(step, RelocStep::Over(false)));
    let step = apply_relocations(Isa::Arm, &relocs, 1, false, 0x1000, None, Some(4));
    assert!(matches!(step, RelocStep::Over(false)));
    match apply_relocations(Isa::X86_64, &relocs, 2, true, 0x1000, None, None) {
        RelocStep::Write(w) => assert_eq!(w.bytes, 0x1005u64.to_le_bytes().to_vec()),
        RelocStep::Over(_) => panic!("nothing to write"),
    }
    let step = apply_relocations(Isa::Arm, &relocs, 3, true, 0x1000, None, None);
    assert!(matches!(step, RelocStep::Over(true)));
}

#[test]
fn boundary_wait_has_a_limit() {
    let mut retries = 0u32;
    let step = wait_for_ptrace_syscall_stop_deadline(WaitResult::Nothing, false, &mut retries);
    assert_eq!(step, SyscallStep::Sleep);
    let step = wait_for_ptrace_syscall_stop_deadline(WaitResult::Nothing, true, &mut retries);
    assert_eq!(step, SyscallStep::Fail);
    let error = WaitResult::Error { interrupted: true };
    let step = wait_for_ptrace_syscall_stop_deadline(error, true, &mut retries);
    assert_eq!(step, SyscallStep::Retry);
    // A pending stop is passed over four times.
    for _ in 0..4 {
        let pending = WaitResult::Changed(0x80_057f);
        let step = wait_for_ptrace_syscall_stop_deadline(pending, true, &mut retries);
        assert_eq!(step, SyscallStep::StepAgain);
    }
    let pending = WaitResult::Changed(0x80_057f);
    let step = wait_for_ptrace_syscall_stop_deadline(pending, false, &mut retries);
    assert_eq!(step, SyscallStep::Fail);
}

#[test]
fn return_gadgets_are_looked_for_in_guest_code() {
    let map = vec![
        entry(0x1000, 0x2000, "r-xp", 0, "/system/lib/libc.so"),
        entry(0x3000, 0x4000, "rw-p", 0, "/system/lib/libc.so"),
    ];
    let regions = ret_gadget_regions(&map);
    assert_eq!(regions.len(), 1);
    assert_eq!(regions[0].start, 0x1000);
    assert_eq!(regions[0].len, 0x1000);
}

#[test]
fn linker_is_waited_for() {
    let mut watch = TangoLinkerWatch::default();
    let step = tango_wait_linker_ready(LinkerPhase::Look, &watch, true);
    assert_eq!(step, LinkerPhase::FindSlot);
    assert_eq!(tango_wait_linker_ready(step, &watch, false), LinkerPhase::Over(false));
    assert_eq!(tango_wait_linker_ready(step, &watch, true), LinkerPhase::Step);
    watch.watch_slot(0x1000, 0, 0x20);
    assert_eq!(tango_wait_linker_ready(step, &watch, true), LinkerPhase::ReadFirst);
    let step = tango_wait_linker_ready(LinkerPhase::ReadFirst, &watch, true);
    assert_eq!(step, LinkerPhase::Step);
    assert_eq!(tango_wait_linker_ready(step, &watch, false), LinkerPhase::Over(false));
    assert_eq!(tango_wait_linker_ready(step, &watch, true), LinkerPhase::Look);
    let step = tango_wait_linker_ready(LinkerPhase::Look, &watch, true);
    assert_eq!(step, LinkerPhase::ReadSlot);
    assert_eq!(tango_wait_linker_ready(step, &watch, false), LinkerPhase::Step);
    assert_eq!(tango_wait_linker_ready(step, &watch, true), LinkerPhase::Over(true));
}

#[test]
fn segments_stay_in_the_reservation() {
    let seg = |vaddr: u64, memsz: u64| Segment {
        ptype: 1,
        flags: 5,
        offset: 0,
        vaddr,
        filesz: memsz,
        memsz,
    };
    let segs = vec![seg(0x3040, 0x123), seg(0x5ff0, 0x20), seg(0x9000, 0x1001)];
    let (lo, size) = compute_load_layout(&segs, 0x1000).expect("layout");
    assert_eq!((lo, size), (0x3000, 0x8000));
    let base = 0x7000_0000usize;
    let plans = plan_segments(&segs, base, lo, 0x1000);
    assert_eq!(plans.len(), 3);
    for (plan, seg) in plans.iter().zip(&segs) {
        assert!(base <= plan.page && plan.page <= plan.start);
        assert!(plan.start + seg.memsz as usize <= plan.page + plan.page_len);
        assert!(plan.page + plan.page_len <= base + size);
    }
    assert_eq!(plans[1].page, base + 0x2000);
    assert_eq!(plans[1].page_len, 0x2000);
}

#[test]
fn called_functions_find_an_aligned_stack() {
    for args in [vec![1i64; 3], vec![1; 7], vec![1; 8]] {
        let mut regs = rezygisk::regs::x86_64::UserRegs::default();
        regs.set_reg_sp(0x7fff_1239);
        let writes = rezygisk::regs::x86_64::prepare_call(&mut regs, 0x1000, 0x2000, &args);
        assert_eq!((regs.reg_sp() + 8) % 16, 0);
        assert_eq!(writes.last().map(|w| w.addr), Some(regs.reg_sp()));
        if writes.len() == 2 {
            assert_eq!(writes[0].addr, regs.reg_sp() + 8);
        }
        let mut regs = rezygisk::regs::x86::UserRegs::default();
        regs.set_reg_sp(0x7fff_1239);
        rezygisk::regs::x86::prepare_call(&mut regs, 0x1000, 0x2000, &args);
        assert_eq!((regs.reg_sp() + 4) % 16, 0);
        let mut regs = rezygisk::regs::aarch64::UserRegs::default();
        regs.set_reg_sp(0x7fff_1239);
        rezygisk::regs::aarch64::prepare_call(&mut regs, 0x1000, 0x2000, &args);
        assert_eq!(regs.reg_sp() % 16, 0);
        let mut regs = rezygisk::regs::arm::UserRegs::default();
        regs.set_reg_sp(0x7fff_1239);
        rezygisk::regs::arm::prepare_call(&mut regs, 0x1001, 0x2000, &args);
        assert_eq!(regs.reg_sp() % 16, 0);
        assert_eq!(regs.reg_ip(), 0x1000);
        assert_eq!(regs.uregs[16] & 0x20, 0x20);
    }
}

#[test]
fn first_readable_region_gives_the_gadget() {
    let regions = vec![
        Region { start: 0x1000, len: 4 },
        Region { start: 0x2000, len: 4 },
        Region { start: 0x3000, len: 4 },
        Region { start: 0x4000, len: 4 },
    ];
    let syscall = vec![0x90u8, 0x90, 0x0f, 0x05];
    let contents = vec![
        None,
        Some(vec![0x0fu8, 0x05]),
        Some(vec![0u8; 4]),
        Some(syscall.clone()),
    ];
    assert_eq!(find_syscall_gadget(Isa::X86_64, &regions, &contents), Some(0x4002));
    let contents = vec![Some(syscall.clone()), None, None, Some(syscall)];
    assert_eq!(find_syscall_gadget(Isa::X86_64, &regions, &contents), Some(0x1002));
    let contents = vec![None, None, None, None];
    assert_eq!(find_syscall_gadget(Isa::X86_64, &regions, &contents), None);
    // Arm code comes before Thumb code of the same region.
    let regions = vec![Region { start: 0x1000, len: 8 }];
    let both = vec![Some(vec![0x00u8, 0xdf, 0, 0, 0, 0, 0, 0xef])];
    assert_eq!(find_syscall_gadget(Isa::Arm, &regions, &both), Some(0x1004));
    let thumb = vec![Some(vec![0u8, 0, 0x00, 0xdf, 0, 0, 0, 0])];
    assert_eq!(find_syscall_gadget(Isa::Arm, &regions, &thumb), Some(0x1003));
}

#[test]
fn unread_pages_are_no_padding() {
    assert_eq!(find_tramp_padding(0x10000, 0x18000, 48, &Vec::new()), 0);
    // One page of zeros was read: the padding starts with it, not below.
    assert_eq!(find_tramp_padding(0x10000, 0x18000, 48, &vec![0; 0x1000]), 0x17000);
    assert_eq!(find_tramp_padding(0x10000, 0x18000, 0x1004, &vec![0; 0x1000]), 0);
}
