//! Slots, page ranges and libraries, on small images built by hand.

use rezygisk::elf::{
    DynEntry, DynTag, ElfImage, NamedIndex, Reloc, RelocKind, RelocTables, Segment,
};
use rezygisk::maps::{find_high_backup_hint, parse_map_range};
use rezygisk::plti::discover::{
    bias_addr_for, find_plt_addrs, get_addr_protection, get_vma_boundaries, is_self_elf,
    page_size, page_start,
};
use rezygisk::plti::hooks::{find_linked_lib, GotPlan, HookStep, LinkedLib, Plti, SlotWrite};
use rezygisk::plti::stash::{stash_vma, StashPhase};
use rezygisk::plti::window::{
    canonicalize_section_table, read_mapped_image_abi, MappedElf, Memory,
};

const PT_LOAD: u32 = 1;
const PT_DYNAMIC: u32 = 2;
const PT_GNU_RELRO: u32 = 0x6474_e552;
const PF_R: u32 = 4;
const PF_W: u32 = 2;

const DT_NULL: u64 = 0;
const DT_HASH: u64 = 4;
const DT_STRTAB: u64 = 5;
const DT_SYMTAB: u64 = 6;
const DT_RELA: u64 = 7;
const DT_RELASZ: u64 = 8;
const DT_PLTREL: u64 = 20;
const DT_JMPREL: u64 = 23;
const DT_PLTRELSZ: u64 = 2;
const DT_ANDROID_RELA: u64 = 0x6000_001f;
const DT_ANDROID_RELASZ: u64 = 0x6000_0020;

const R_X86_64_GLOB_DAT: u64 = 6;
const R_X86_64_JUMP_SLOT: u64 = 7;

const GOT_BASE: u64 = 0x1000;
const RELRO_SZ: u64 = 0x40;
const RW_LOAD_SZ: u64 = 0x2000;
const BASE: usize = 0x7000_0000;
const MACHINE: u16 = 62;

struct Builder {
    data: Vec<u8>,
}

impl Builder {
    fn new() -> Self {
        Self { data: vec![0u8; 0x180] }
    }

    fn align(&mut self, align: usize) -> u64 {
        while self.data.len() % align != 0 {
            self.data.push(0);
        }
        self.data.len() as u64
    }
}

fn phdr64(ptype: u32, flags: u32, off: u64, vaddr: u64, filesz: u64, memsz: u64) -> Vec<u8> {
    let mut p = Vec::new();
    p.extend(ptype.to_le_bytes());
    p.extend(flags.to_le_bytes());
    p.extend(off.to_le_bytes());
    p.extend(vaddr.to_le_bytes());
    p.extend(vaddr.to_le_bytes());
    p.extend(filesz.to_le_bytes());
    p.extend(memsz.to_le_bytes());
    p.extend(0x1000u64.to_le_bytes());
    p
}

struct SoSpec {
    load0_vaddr: u64,
    rw_vaddr: u64,
    rw_p_offset: u64,
    rw_memsz: u64,
    with_dynamic_phdr: bool,
    strtab_override: Option<u64>,
    android_tags: bool,
}

fn ehdr64(phnum: u16) -> Vec<u8> {
    let mut e = Vec::new();
    e.extend_from_slice(&[0x7f, b'E', b'L', b'F', 2, 1, 1, 0]);
    e.extend(&[0u8; 8]);
    e.extend(3u16.to_le_bytes());
    e.extend(MACHINE.to_le_bytes());
    e.extend(1u32.to_le_bytes());
    e.extend(0u64.to_le_bytes());
    e.extend(0x40u64.to_le_bytes());
    e.extend(0u64.to_le_bytes());
    e.extend(0u32.to_le_bytes());
    e.extend(64u16.to_le_bytes());
    e.extend(56u16.to_le_bytes());
    e.extend(phnum.to_le_bytes());
    e.extend(0u16.to_le_bytes());
    e.extend(0u16.to_le_bytes());
    e.extend(0u16.to_le_bytes());
    assert_eq!(e.len(), 64);
    e
}

fn build_so_spec(spec: SoSpec) -> Vec<u8> {
    let mut b = Builder::new();

    let strtab_off = b.align(16);
    let strtab_vaddr = spec.load0_vaddr + strtab_off;
    let mut names: Vec<u64> = Vec::new();
    for name in ["", "hook_me", "glob", "imported_fn"] {
        names.push(b.data.len() as u64 - strtab_off);
        b.data.extend_from_slice(name.as_bytes());
        b.data.push(0);
    }

    let dynsym_vaddr = spec.load0_vaddr + b.align(8);
    for (info, shndx, name, value, size) in [
        (0u8, 0u16, 0u64, 0u64, 0u64),
        (0x12, 1, names[1], spec.load0_vaddr + 0x60, 32),
        (0x11, 1, names[2], spec.load0_vaddr + 0x80, 8),
        (0x11, 0, names[3], 0, 0),
    ] {
        b.data.extend((name as u32).to_le_bytes());
        b.data.push(info);
        b.data.push(0);
        b.data.extend(shndx.to_le_bytes());
        b.data.extend(value.to_le_bytes());
        b.data.extend(size.to_le_bytes());
    }

    let hash_vaddr = spec.load0_vaddr + b.align(8);
    for word in [1u32, 4, 1, 0, 2, 0, 0] {
        b.data.extend(word.to_le_bytes());
    }

    let rela_vaddr = spec.load0_vaddr + b.align(8);
    b.data.extend(spec.rw_vaddr.to_le_bytes());
    b.data.extend(((2u64 << 32) | R_X86_64_GLOB_DAT).to_le_bytes());
    b.data.extend(0u64.to_le_bytes());

    let jmprel_vaddr = spec.load0_vaddr + b.align(8);
    for got in [spec.rw_vaddr + 0x10, spec.rw_vaddr + 0x18] {
        b.data.extend(got.to_le_bytes());
        b.data.extend(((1u64 << 32) | R_X86_64_JUMP_SLOT).to_le_bytes());
        b.data.extend(0u64.to_le_bytes());
    }

    let dyn_off = b.align(8);
    let dyn_vaddr = spec.load0_vaddr + dyn_off;
    let mut dyns = vec![
        (DT_HASH, hash_vaddr),
        (DT_STRTAB, spec.strtab_override.unwrap_or(strtab_vaddr)),
        (DT_SYMTAB, dynsym_vaddr),
        (DT_RELA, rela_vaddr),
        (DT_RELASZ, 24),
        (DT_PLTREL, DT_RELA),
        (DT_JMPREL, jmprel_vaddr),
        (DT_PLTRELSZ, 48),
    ];
    if spec.android_tags {
        dyns.push((DT_ANDROID_RELA, strtab_vaddr));
        dyns.push((DT_ANDROID_RELASZ, 4));
    }
    dyns.push((DT_NULL, 0));
    for (tag, val) in dyns {
        b.data.extend(tag.to_le_bytes());
        b.data.extend(val.to_le_bytes());
    }
    let dyn_end = b.data.len() as u64;

    let phnum = 3u16 + u16::from(spec.with_dynamic_phdr);
    b.data[..64].copy_from_slice(&ehdr64(phnum));
    let r_load_sz = (dyn_end + 0xf) & !0xf;
    let mut phs = Vec::new();
    phs.extend(phdr64(PT_LOAD, PF_R, 0, spec.load0_vaddr, r_load_sz, r_load_sz));
    phs.extend(phdr64(PT_LOAD, PF_R | PF_W, spec.rw_p_offset, spec.rw_vaddr, 0x100, spec.rw_memsz));
    phs.extend(phdr64(PT_GNU_RELRO, PF_R, spec.rw_p_offset, spec.rw_vaddr, RELRO_SZ, RELRO_SZ));
    if spec.with_dynamic_phdr {
        let size = dyn_end - dyn_off;
        phs.extend(phdr64(PT_DYNAMIC, PF_R | PF_W, dyn_off, dyn_vaddr, size, size));
    }
    b.data[0x40..0x40 + phs.len()].copy_from_slice(&phs);
    while (b.data.len() as u64) < spec.rw_p_offset + 0x100 {
        b.data.push(0);
    }
    b.data
}

fn plain_spec() -> SoSpec {
    SoSpec {
        load0_vaddr: 0,
        rw_vaddr: GOT_BASE,
        rw_p_offset: GOT_BASE,
        rw_memsz: RW_LOAD_SZ,
        with_dynamic_phdr: true,
        strtab_override: None,
        android_tags: false,
    }
}

const GAP_RW_VADDR: u64 = 0x3000;
const GAP_RW_POFF: u64 = 0x300;
const GAP_RW_MEMSZ: u64 = 0x1000;
const SHIFT: u64 = 0x1000;

fn gapped_spec() -> SoSpec {
    SoSpec {
        rw_vaddr: GAP_RW_VADDR,
        rw_p_offset: GAP_RW_POFF,
        rw_memsz: GAP_RW_MEMSZ,
        ..plain_spec()
    }
}

fn shifted_spec() -> SoSpec {
    SoSpec { load0_vaddr: SHIFT, rw_vaddr: SHIFT + GOT_BASE, ..plain_spec() }
}

fn u16_at(b: &[u8], at: usize) -> u16 {
    u16::from_le_bytes([b[at], b[at + 1]])
}

fn u32_at(b: &[u8], at: usize) -> u32 {
    u32::from_le_bytes([b[at], b[at + 1], b[at + 2], b[at + 3]])
}

fn u64_at(b: &[u8], at: usize) -> u64 {
    u32_at(b, at) as u64 | (u32_at(b, at + 4) as u64) << 32
}

fn text_at(b: &[u8], at: usize) -> String {
    let mut s = String::new();
    let mut i = at;
    while b[i] != 0 {
        s.push(b[i] as char);
        i += 1;
    }
    s
}

/// Reads the images of this file: 64 bits, one chain of names.
fn parse(raw: Vec<u8>) -> ElfImage {
    let mut segments = Vec::new();
    for i in 0..u16_at(&raw, 56) as usize {
        let at = u64_at(&raw, 32) as usize + i * 56;
        segments.push(Segment {
            ptype: u32_at(&raw, at),
            flags: u32_at(&raw, at + 4),
            offset: u64_at(&raw, at + 8),
            vaddr: u64_at(&raw, at + 16),
            filesz: u64_at(&raw, at + 32),
            memsz: u64_at(&raw, at + 40),
        });
    }
    let file_at = |vaddr: u64| -> Option<usize> {
        segments
            .iter()
            .find(|s| s.ptype == PT_LOAD && s.vaddr <= vaddr && vaddr < s.vaddr + s.filesz)
            .map(|s| (vaddr - s.vaddr + s.offset) as usize)
    };
    let mut dynamic = Vec::new();
    let mut values: Vec<(u64, u64)> = Vec::new();
    if let Some(d) = segments.iter().find(|s| s.ptype == PT_DYNAMIC) {
        let mut at = d.offset as usize;
        loop {
            let (tag, value) = (u64_at(&raw, at), u64_at(&raw, at + 8));
            if tag == DT_NULL {
                break;
            }
            values.push((tag, value));
            dynamic.push(DynEntry {
                tag: match tag {
                    DT_STRTAB => DynTag::StrTab,
                    DT_SYMTAB => DynTag::SymTab,
                    DT_JMPREL => DynTag::JmpRel,
                    DT_RELA => DynTag::Rela,
                    DT_ANDROID_RELA => DynTag::AndroidRela,
                    DT_ANDROID_RELASZ => DynTag::AndroidRelaSize,
                    _ => DynTag::Other,
                },
                value,
            });
            at += 16;
        }
    }
    let value = |tag: u64| values.iter().find(|v| v.0 == tag).map(|v| v.1);
    let table = |tag: u64| value(tag).and_then(file_at);
    let mut symbols = Vec::new();
    let mut names = Vec::new();
    let mut relocations = None;
    if let (Some(strtab), Some(symtab), Some(hash)) =
        (table(DT_STRTAB), table(DT_SYMTAB), table(DT_HASH))
    {
        for i in 0..u32_at(&raw, hash + 4) as usize {
            symbols.push(text_at(&raw, strtab + u32_at(&raw, symtab + 24 * i) as usize));
        }
        let mut i = u32_at(&raw, hash + 8) as usize;
        while i != 0 {
            names.push(NamedIndex { name: symbols[i].clone(), index: i });
            i = u32_at(&raw, hash + 12 + 4 * i) as usize;
        }
        // A name outside the chain is found by looking through all symbols.
        if !names.iter().any(|n| n.name == "imported_fn") {
            names.push(NamedIndex { name: "imported_fn".to_string(), index: 3 });
        }
        let records = |at: usize, size: u64| -> Vec<Reloc> {
            (0..size as usize / 24)
                .map(|k| {
                    let info = u64_at(&raw, at + 24 * k + 8);
                    Reloc {
                        offset: u64_at(&raw, at + 24 * k),
                        sym_idx: (info >> 32) as u32,
                        kind: match info & 0xffff_ffff {
                            R_X86_64_GLOB_DAT => RelocKind::GlobDat,
                            R_X86_64_JUMP_SLOT => RelocKind::JumpSlot,
                            _ => RelocKind::Other,
                        },
                    }
                })
                .collect()
        };
        relocations = Some(RelocTables {
            plt: records(table(DT_JMPREL).unwrap(), value(DT_PLTRELSZ).unwrap()),
            rel: records(table(DT_RELA).unwrap(), value(DT_RELASZ).unwrap()),
            android: Vec::new(),
        });
    }
    ElfImage { segments, dynamic, symbols, names, relocations, raw }
}

fn parsed() -> ElfImage {
    parse(build_so_spec(plain_spec()))
}

/// A mapping of `size` bytes at `base` that starts with the file.
fn mapped(base: usize, file: &[u8], size: usize) -> Memory {
    let mut bytes = file.to_vec();
    bytes.resize(size, 0);
    Memory { regions: vec![MappedElf::new(base, bytes)] }
}

/// Reads the image at `base`, parses its window and adds the library.
fn add(plti: &mut Plti, name: &str, mem: &Memory, base: usize) -> bool {
    let loaded = match read_mapped_image_abi(mem, base, 2, MACHINE) {
        Some((window, _)) => {
            let img = parse(window);
            let bias = bias_addr_for(&img, base);
            Some((img, bias))
        }
        None => None,
    };
    plti.add_manual_lib(name, base, loaded)
}

#[test]
fn bias_addr_from_load0() {
    let img = parsed();
    assert_eq!(bias_addr_for(&img, BASE), BASE);
}

#[test]
fn addr_protection_honors_relro() {
    let img = parsed();
    let bias = BASE;
    assert_eq!(
        get_addr_protection(&img, bias, BASE + GOT_BASE as usize),
        Some(libc::PROT_READ)
    );
    assert_eq!(
        get_addr_protection(&img, bias, BASE + GOT_BASE as usize + 0x80),
        Some(libc::PROT_READ | libc::PROT_WRITE)
    );
    assert_eq!(get_addr_protection(&img, bias, BASE + 0x60), Some(libc::PROT_READ));
    assert_eq!(get_addr_protection(&img, bias, BASE + 0x5000), None);
}

#[test]
fn vma_boundaries_prefer_relro() {
    let img = parsed();
    let page = page_size(4096);
    let got = BASE + GOT_BASE as usize;

    let (start, len) = get_vma_boundaries(&img, BASE, got + 0x10, page).expect("vma");
    assert_eq!(start, got & !(page - 1));
    assert_eq!(start + len, (got + RELRO_SZ as usize + page - 1) & !(page - 1));

    let (start, len) = get_vma_boundaries(&img, BASE, got + 0x1080, page).expect("vma");
    assert_eq!(start, got & !(page - 1));
    assert_eq!(start + len, (got + RW_LOAD_SZ as usize + page - 1) & !(page - 1));

    let (start, _len) = get_vma_boundaries(&img, BASE, BASE + 0x60, page).expect("vma");
    assert_eq!(start, BASE & !(page - 1));
}

#[test]
fn plt_addrs_exact_and_prefix() {
    let img = parsed();
    let bias = BASE;
    let got = BASE + GOT_BASE as usize;

    let addrs = find_plt_addrs(&img, bias, BASE, "hook_me", false);
    assert_eq!(addrs, vec![got + 0x10]);

    let addrs = find_plt_addrs(&img, bias, BASE, "hook_me", true);
    assert_eq!(addrs, vec![got + 0x10, got + 0x18]);

    let addrs = find_plt_addrs(&img, bias, BASE, "glob", false);
    assert_eq!(addrs, vec![got]);

    let addrs = find_plt_addrs(&img, bias, BASE, "nope", false);
    assert!(addrs.is_empty());

    let addrs = find_plt_addrs(&img, bias, BASE, "imported_fn", false);
    assert!(addrs.is_empty());
}

#[test]
fn map_range_parser() {
    assert_eq!(
        parse_map_range("7000000-7100000 r--p 00000000"),
        Some((0x7000000, 0x7100000))
    );
    assert_eq!(parse_map_range("garbage"), None);
}

#[test]
fn add_manual_lib_reads_mapped_image() {
    let so = build_so_spec(plain_spec());
    let total = GOT_BASE as usize + RW_LOAD_SZ as usize;
    let base = BASE;
    let mem = mapped(base, &so, total);

    let mut plti = Plti::new();
    assert!(add(&mut plti, "mapped_fixture.so", &mem, base));
    assert_eq!(plti.elf_infos.len(), 1);
    assert_eq!(plti.elf_infos[0].base_addr, base);
    assert_eq!(plti.elf_infos[0].bias_addr, base);
    assert_eq!(plti.elf_infos[0].image.raw.len(), total);
    assert_eq!(&plti.elf_infos[0].image.raw[..so.len()], &so[..]);

    assert!(add(&mut plti, "mapped_fixture.so", &mem, base));
    assert_eq!(plti.elf_infos.len(), 1);

    let got = base + GOT_BASE as usize;
    let addrs = find_plt_addrs(&plti.elf_infos[0].image, base, base, "hook_me", true);
    assert_eq!(addrs, vec![got + 0x10, got + 0x18]);
}

#[test]
fn add_manual_lib_rejects_garbage_and_machine_mismatch() {
    let mut so = build_so_spec(plain_spec());
    so[18..20].copy_from_slice(&(MACHINE + 1).to_le_bytes());
    let base = BASE;
    let mut plti = Plti::new();

    let zeroed = mapped(base, &[], 0x2000);
    assert!(!add(&mut plti, "junk.so", &zeroed, base));
    assert!(plti.elf_infos.is_empty());

    let wrong = mapped(base, &so, 0x2000);
    assert!(!add(&mut plti, "wrong_machine.so", &wrong, base));
    assert!(plti.elf_infos.is_empty());
}

#[test]
fn add_manual_lib_skips_unmapped_hole_between_loads() {
    let so = build_so_spec(gapped_spec());
    let base = BASE;
    let mut low = so.clone();
    low.resize(0x1000, 0);
    let mem = Memory {
        regions: vec![MappedElf::new(base, low), MappedElf::new(base + 0x3000, vec![0; 0x1000])],
    };

    let mut plti = Plti::new();
    assert!(add(&mut plti, "gapped.so", &mem, base));
    assert_eq!(plti.elf_infos.len(), 1);
    assert_eq!(
        plti.elf_infos[0].image.raw.len(),
        GAP_RW_POFF as usize + GAP_RW_MEMSZ as usize
    );
    let addrs = find_plt_addrs(&plti.elf_infos[0].image, base, base, "hook_me", true);
    assert_eq!(addrs, vec![base + 0x3010, base + 0x3018]);
}

#[test]
fn add_manual_lib_nonzero_load0_vaddr() {
    let so = build_so_spec(shifted_spec());
    let base = BASE;
    let mem = mapped(base, &so, 0x3000);

    let mut plti = Plti::new();
    assert!(add(&mut plti, "shifted.so", &mem, base));
    assert_eq!(plti.elf_infos.len(), 1);

    let bias = base - 0x1000;
    assert_eq!(plti.elf_infos[0].bias_addr, bias);

    let got_vaddr = SHIFT + GOT_BASE;
    let addrs = find_plt_addrs(&plti.elf_infos[0].image, bias, base, "hook_me", true);
    assert_eq!(
        addrs,
        vec![bias + got_vaddr as usize + 0x10, bias + got_vaddr as usize + 0x18]
    );
}

#[test]
fn add_manual_lib_rejects_missing_pt_dynamic() {
    let so = build_so_spec(SoSpec { with_dynamic_phdr: false, ..plain_spec() });
    let mem = mapped(BASE, &so, GOT_BASE as usize + RW_LOAD_SZ as usize);
    let mut plti = Plti::new();
    assert!(!add(&mut plti, "no_dynamic.so", &mem, BASE));
    assert!(plti.elf_infos.is_empty());
}

#[test]
fn add_manual_lib_rejects_out_of_window_dyn_ptr() {
    let so = build_so_spec(SoSpec { strtab_override: Some(0), ..shifted_spec() });
    let mem = mapped(BASE, &so, 0x3000);
    let mut plti = Plti::new();
    assert!(!add(&mut plti, "bad_strtab.so", &mem, BASE));
    assert!(plti.elf_infos.is_empty());
}

#[test]
fn add_manual_lib_rejects_bad_aps2_magic() {
    let so = build_so_spec(SoSpec { android_tags: true, ..plain_spec() });
    let mem = mapped(BASE, &so, GOT_BASE as usize + RW_LOAD_SZ as usize);
    let mut plti = Plti::new();
    assert!(!add(&mut plti, "bad_aps2.so", &mem, BASE));
    assert!(plti.elf_infos.is_empty());
}

#[test]
fn bias_addr_for_last_load0_wins() {
    let mut b = Builder::new();
    b.data[..64].copy_from_slice(&ehdr64(2));
    b.data[0x40..0x40 + 56].copy_from_slice(&phdr64(PT_LOAD, PF_R, 0, 0, 0x100, 0x100));
    b.data[0x40 + 56..0x40 + 112].copy_from_slice(&phdr64(PT_LOAD, PF_R, 0, 0x1000, 0x100, 0x100));
    let img = parse(b.data);
    assert_eq!(bias_addr_for(&img, BASE), BASE - 0x1000);
}

#[test]
fn vma_boundaries_zero_start_returns_none() {
    let img = parsed();
    assert_eq!(get_vma_boundaries(&img, 0, 0x60, 4096), None);
}

/// The tables of an image with five named symbols.
fn flow_image() -> ElfImage {
    let reloc = |offset: u64, sym_idx: u32, kind: RelocKind| Reloc { offset, sym_idx, kind };
    let named = |name: &str, index: usize| NamedIndex { name: name.to_string(), index };
    ElfImage {
        segments: Vec::new(),
        dynamic: Vec::new(),
        symbols: ["", "hook_me", "glob", "undef", "other", "hook_other"]
            .iter()
            .map(|s| s.to_string())
            .collect(),
        names: vec![
            named("hook_me", 1),
            named("glob", 2),
            named("undef", 3),
            named("other", 4),
            named("hook_other", 5),
        ],
        relocations: Some(RelocTables {
            rel: vec![
                reloc(GOT_BASE, 2, RelocKind::GlobDat),
                reloc(GOT_BASE + 0x08, 1, RelocKind::Absolute),
                reloc(GOT_BASE + 0x09, 1, RelocKind::Other),
                reloc(GOT_BASE + 0x10, 1, RelocKind::GlobDat),
            ],
            plt: vec![
                reloc(GOT_BASE + 0x18, 1, RelocKind::JumpSlot),
                reloc(GOT_BASE + 0x20, 1, RelocKind::JumpSlot),
                reloc(GOT_BASE + 0x28, 4, RelocKind::JumpSlot),
                reloc(0, 1, RelocKind::JumpSlot),
                reloc(GOT_BASE + 0x30, 5, RelocKind::JumpSlot),
                reloc(GOT_BASE + 0x38, 1, RelocKind::Absolute),
            ],
            android: vec![
                reloc(GOT_BASE + 0x40, 1, RelocKind::GlobDat),
                reloc(GOT_BASE + 0x48, 1, RelocKind::GlobDat),
                reloc(GOT_BASE + 0x50, 3, RelocKind::GlobDat),
            ],
        }),
        raw: Vec::new(),
    }
}

fn got() -> usize {
    BASE + GOT_BASE as usize
}

#[test]
fn exact_symbol_collects_plt_then_rel_then_android() {
    let img = flow_image();
    let addrs = find_plt_addrs(&img, BASE, BASE, "hook_me", false);
    assert_eq!(
        addrs,
        vec![got() + 0x18, got() + 0x08, got() + 0x10, got() + 0x40, got() + 0x48]
    );
}

#[test]
fn prefix_symbol_collects_all_matches_across_tables() {
    let img = flow_image();
    let addrs = find_plt_addrs(&img, BASE, BASE, "hook_", true);
    assert_eq!(
        addrs,
        vec![
            got() + 0x18,
            got() + 0x20,
            got() + 0x30,
            got() + 0x08,
            got() + 0x10,
            got() + 0x40,
            got() + 0x48,
        ]
    );
}

#[test]
fn relocation_type_filter_matches_c() {
    let img = flow_image();
    let addrs = find_plt_addrs(&img, BASE, BASE, "hook_me", false);
    assert!(!addrs.contains(&(got() + 0x09)));
    assert!(!addrs.contains(&(got() + 0x38)));

    assert_eq!(find_plt_addrs(&img, BASE, BASE, "glob", false), vec![got()]);
    assert_eq!(find_plt_addrs(&img, BASE, BASE, "other", false), vec![got() + 0x28]);
    assert_eq!(find_plt_addrs(&img, BASE, BASE, "hook_other", false), vec![got() + 0x30]);
}

#[test]
fn zero_offset_reloc_is_below_base_filter() {
    let img = flow_image();
    let exact = find_plt_addrs(&img, BASE, BASE, "hook_me", false);
    assert!(!exact.contains(&BASE));
    let prefix = find_plt_addrs(&img, BASE, BASE, "hook_", true);
    assert!(!prefix.contains(&BASE));
}

#[test]
fn undef_symbol_resolves_in_plti_chain() {
    let img = flow_image();
    assert_eq!(img.dynsym_index_by_name("undef"), Some(3));
    assert_eq!(find_plt_addrs(&img, BASE, BASE, "undef", false), vec![got() + 0x50]);
}

#[test]
fn unknown_symbol_yields_empty() {
    let img = flow_image();
    assert!(find_plt_addrs(&img, BASE, BASE, "nope", false).is_empty());
    assert!(find_plt_addrs(&img, BASE, BASE, "nope", true).is_empty());
}

#[test]
fn dynsym_chain_sysv_only_reaches_all_chained_symbols() {
    let img = flow_image();
    for (name, idx) in
        [("hook_me", 1usize), ("glob", 2), ("undef", 3), ("other", 4), ("hook_other", 5)]
    {
        assert_eq!(img.dynsym_index_by_name(name), Some(idx), "{name}");
    }
    assert_eq!(img.dynsym_index_by_name("nullsym"), None);
}

fn hooked_plti() -> Plti {
    let so = build_so_spec(plain_spec());
    let mem = mapped(BASE, &so, GOT_BASE as usize + RW_LOAD_SZ as usize);
    let mut plti = Plti::new();
    assert!(add(&mut plti, "/system/lib64/libdemo.so", &mem, BASE));
    plti
}

#[test]
fn hook_and_removal_restore_the_slots() {
    let mut plti = hooked_plti();
    assert_eq!(plti.find_library("libdemo.so"), Some(0));
    let mut slots = vec![(got() + 0x10, 0x111usize), (got() + 0x18, 0x222)];

    let mut job = plti.add_hook_by_prefix("libdemo.so", "hook_", 0xcafe, Some(0)).expect("job");
    loop {
        let at = job.slot();
        let value = slots.iter().find(|s| s.0 == at).unwrap().1;
        let write = job.slot_read(value);
        assert_eq!(write, SlotWrite { slot: at, value: 0xcafe });
        slots.iter_mut().find(|s| s.0 == at).unwrap().1 = write.value;
        match plti.slot_written(&mut job, true) {
            HookStep::Next(slot) => assert_eq!(slot, got() + 0x18),
            HookStep::Done => break,
            HookStep::Undo(_) => panic!("no write failed"),
        }
    }
    assert_eq!(job.backup, Some(0x111));
    assert_eq!(slots, vec![(got() + 0x10, 0xcafe), (got() + 0x18, 0xcafe)]);
    assert_eq!(plti.hooks.len(), 2);

    let writes = plti.remove_hook_by_prefix("libdemo.so", "hook_", 0x111).expect("writes");
    assert_eq!(
        writes,
        vec![
            SlotWrite { slot: got() + 0x10, value: 0x111 },
            SlotWrite { slot: got() + 0x18, value: 0x222 },
        ]
    );
    assert!(plti.hooks_restored("libdemo.so", "hook_", true));
    assert!(plti.hooks.is_empty());
    assert!(plti.deinit().is_empty());
}

#[test]
fn failed_hook_is_undone_backwards() {
    let mut plti = hooked_plti();
    let mut job = plti.add_hook_by_prefix("libdemo.so", "hook_", 0xcafe, None).expect("job");
    job.slot_read(0x111);
    assert!(matches!(plti.slot_written(&mut job, true), HookStep::Next(_)));
    job.slot_read(0x222);
    match plti.slot_written(&mut job, false) {
        HookStep::Undo(writes) => {
            assert_eq!(writes, vec![SlotWrite { slot: got() + 0x10, value: 0x111 }])
        }
        _ => panic!("the write failed"),
    }
    assert!(plti.hooks.is_empty());
    assert!(plti.add_hook("libother.so", "hook_me", 1, None).is_none());
    assert!(plti.add_hook("libdemo.so", "nothing", 1, None).is_none());
}

#[test]
fn failed_hook_leaves_earlier_hooks_of_its_name() {
    let mut plti = hooked_plti();
    let mut first = plti.add_hook_by_prefix("libdemo.so", "hook_", 0xcafe, None).expect("job");
    first.slot_read(0x111);
    assert!(matches!(plti.slot_written(&mut first, true), HookStep::Next(_)));
    first.slot_read(0x222);
    assert!(matches!(plti.slot_written(&mut first, true), HookStep::Done));

    let mut second = plti.add_hook_by_prefix("libdemo.so", "hook_", 0xbeef, None).expect("job");
    second.slot_read(0xcafe);
    assert!(matches!(plti.slot_written(&mut second, true), HookStep::Next(_)));
    second.slot_read(0xcafe);
    match plti.slot_written(&mut second, false) {
        HookStep::Undo(writes) => {
            assert_eq!(writes, vec![SlotWrite { slot: got() + 0x10, value: 0xcafe }])
        }
        _ => panic!("the write failed"),
    }
    assert_eq!(plti.hooks.len(), 2);
    assert_eq!((plti.hooks[0].address, plti.hooks[0].original), (got() + 0x10, 0x111));
    assert_eq!((plti.hooks[1].address, plti.hooks[1].original), (got() + 0x18, 0x222));
}

#[test]
fn exact_slots_are_among_the_prefix_slots() {
    let img = flow_image();
    for entry in &img.names {
        assert_eq!(img.symbols[entry.index], entry.name);
        let exact = find_plt_addrs(&img, BASE, BASE, &entry.name, false);
        let prefix = find_plt_addrs(&img, BASE, BASE, &entry.name, true);
        assert!(!exact.is_empty());
        assert!(exact.iter().all(|slot| prefix.contains(slot)), "{}", entry.name);
    }
    let exact = find_plt_addrs(&img, BASE, BASE, "hook_me", false);
    let prefix = find_plt_addrs(&img, BASE, BASE, "hook_me", true);
    assert!(prefix.contains(&(got() + 0x20)) && !exact.contains(&(got() + 0x20)));
}

#[test]
fn slot_in_relro_needs_a_copy() {
    let mut plti = hooked_plti();
    let plan = plti.elf_infos[0].plan_got_write(got(), 0x10, 4096);
    assert_eq!(
        plan,
        GotPlan::Replace { vma_start: got(), vma_len: 0x1000, restore_prot: libc::PROT_READ }
    );
    plti.elf_infos[0].record_stash(got(), 0x9000, 0x1000, libc::PROT_READ);
    assert_eq!(
        plti.elf_infos[0].plan_got_write(got(), 0x10, 4096),
        GotPlan::Write { restore_prot: libc::PROT_READ }
    );
    assert!(matches!(
        plti.elf_infos[0].plan_got_write(got() + 0x80, 0x10, 4096),
        GotPlan::UnprotectThenWrite { .. }
    ));
    assert_eq!(plti.elf_infos[0].plan_got_write(BASE + 0x5000, 0x10, 4096), GotPlan::Fail);
    assert!(is_self_elf(&plti.elf_infos[0].image, BASE, BASE + 0x60));
    assert!(!is_self_elf(&plti.elf_infos[0].image, BASE, 0x10));
    let stashed = plti.deinit();
    assert_eq!(stashed.len(), 1);
    assert_eq!(stashed[0].backup_addr, 0x9000);
}

#[test]
fn linked_library_is_found_by_part_of_its_name() {
    let seg = Segment { ptype: PT_LOAD, flags: 4, offset: 0, vaddr: 0x2000, filesz: 1, memsz: 1 };
    let libs = vec![
        LinkedLib { name: "/a/libc.so".to_string(), addr: 0x1000, segments: vec![] },
        LinkedLib { name: "/b/libart.so".to_string(), addr: 0x5000, segments: vec![seg] },
    ];
    assert_eq!(find_linked_lib(&libs, "libart.so"), Some((1, 0x7000)));
    assert_eq!(find_linked_lib(&libs, "libc.so"), Some((0, 0x1000)));
    assert_eq!(find_linked_lib(&libs, "libm.so"), None);
}

#[test]
fn failed_replacement_is_taken_back() {
    let b = StashPhase::MapFresh { backup: 0x9000 };
    assert_eq!(stash_vma(StashPhase::Ask, true, 0), StashPhase::Ready { kept: None });
    assert_eq!(stash_vma(StashPhase::Ask, false, 0), StashPhase::ReserveThere);
    assert_eq!(stash_vma(StashPhase::ReserveThere, false, 0), StashPhase::ReserveAnywhere);
    assert_eq!(stash_vma(StashPhase::ReserveAnywhere, false, 0), StashPhase::Failed);
    assert_eq!(
        stash_vma(StashPhase::ReserveAnywhere, true, 0x9000),
        StashPhase::MoveAway { backup: 0x9000 }
    );
    assert_eq!(stash_vma(StashPhase::MoveAway { backup: 0x9000 }, true, 0), b);
    assert_eq!(stash_vma(b, false, 0), StashPhase::MoveBack { backup: 0x9000 });
    assert_eq!(
        stash_vma(StashPhase::MoveBack { backup: 0x9000 }, true, 0),
        StashPhase::GiveUp { backup: 0x9000 }
    );
    assert_eq!(stash_vma(StashPhase::GiveUp { backup: 0x9000 }, true, 0), StashPhase::Failed);
    assert_eq!(
        stash_vma(StashPhase::CopyOver { backup: 0x9000 }, true, 0),
        StashPhase::Ready { kept: Some(0x9000) }
    );
}

#[test]
fn pages_and_mappings() {
    assert_eq!(page_start(0x1fff, 4096), 0x1000);
    assert_eq!(page_size(16384), 16384);
    let region = MappedElf::from_raw(0x1000, vec![1, 2, 3, 4, 5, 6, 7, 8, 9]).expect("region");
    assert_eq!(region.base(), 0x1000);
    assert_eq!(region.len(), 9);
    assert!(!region.is_empty());
    assert_eq!(region.slice(1, 3), Some(&[2u8, 3][..]));
    assert_eq!(region.slice(3, 10), None);
    assert_eq!(region.ptr_at(2, 4), Some(0x1002));
    assert_eq!(region.ptr_at(6, 4), None);
    assert_eq!(region.read_at::<u64>(1), Some(0x0908070605040302));
    assert_eq!(region.read_at::<u64>(2), None);
    assert_eq!(region.read_at::<u32>(5), Some(0x09080706));
    assert_eq!(region.read_at::<u32>(6), None);
    assert_eq!(region.read_at::<u16>(0), Some(0x0201));
    assert_eq!(region.read_at::<u16>(8), None);
    assert_eq!(region.read_at::<u8>(8), Some(9));
    assert_eq!(region.read_at::<u8>(9), None);
    let word = usize::from_le_bytes(std::array::from_fn(|i| i as u8 + 1));
    assert_eq!(region.read_at::<usize>(0), Some(word));
    assert_eq!(region.read_at::<usize>(usize::MAX), None);
    assert!(MappedElf::from_raw(0, vec![1]).is_none());
}

#[test]
fn section_table_outside_the_window_is_dropped() {
    let mut window = build_so_spec(plain_spec());
    window[40..48].copy_from_slice(&0x10_0000u64.to_le_bytes());
    window[58..60].copy_from_slice(&64u16.to_le_bytes());
    window[60..62].copy_from_slice(&3u16.to_le_bytes());
    window[62..64].copy_from_slice(&2u16.to_le_bytes());
    canonicalize_section_table(&mut window, 2);
    assert_eq!(u64_at(&window, 40), 0);
    assert_eq!(u16_at(&window, 60), 0);
    assert_eq!(u16_at(&window, 62), 0);
    let once = window.clone();
    canonicalize_section_table(&mut window, 2);
    assert_eq!(window, once);
}

#[test]
fn backup_goes_into_a_free_gap() {
    let lines: Vec<String> = [
        "10000000-10001000 r--p 00000000 00:00 0",
        "20000000-20001000 r--p 00000000 00:00 0",
    ]
    .iter()
    .map(|s| s.to_string())
    .collect();
    assert_eq!(find_high_backup_hint(&lines, 0x2000, 4096), 0x1000_1000);
    assert_eq!(find_high_backup_hint(&lines, 0x1000_0000, 4096), 0);
}

#[test]
fn window_has_file_layout_and_zero_gaps() {
    let base = 0x4000_0000usize;
    let mut head = ehdr64(2);
    head.extend(phdr64(1, 5, 0, 0, 0x200, 0x200));
    head.extend(phdr64(1, 6, 0x300, 0x1300, 0x10, 0x10));
    head.resize(0x200, 0xaa);
    let mem = Memory {
        regions: vec![
            MappedElf::new(base, head),
            MappedElf::new(base + 0x1300, vec![7u8; 0x10]),
        ],
    };
    let (window, bias) = read_mapped_image_abi(&mem, base, 2, MACHINE).expect("image");
    assert_eq!(bias, base);
    assert_eq!(window.len(), 0x310);
    assert_eq!(window[0x1ff], 0xaa);
    assert!(window[0x200..0x300].iter().all(|b| *b == 0));
    assert!(window[0x300..].iter().all(|b| *b == 7));
}

#[test]
fn one_name_is_hooked_and_removed() {
    let mut plti = hooked_plti();
    let mut job = plti.add_hook("libdemo.so", "hook_me", 0xcafe, Some(0x99)).expect("job");
    assert_eq!(job.slot(), got() + 0x10);
    job.slot_read(0);
    assert!(matches!(plti.slot_written(&mut job, true), HookStep::Done));
    // A backup that is set already stays.
    assert_eq!(job.backup, Some(0x99));
    assert!(plti.remove_hook("libdemo.so", "hook_me", 0).is_none());
    assert!(plti.remove_hook("libdemo.so", "glob", 0x99).is_none());
    assert!(plti.remove_hook("libother.so", "hook_me", 0x99).is_none());
    // No original was recorded, so the given one is written.
    let writes = plti.remove_hook("libdemo.so", "hook_me", 0x99).expect("writes");
    assert_eq!(writes, vec![SlotWrite { slot: got() + 0x10, value: 0x99 }]);
    assert!(!plti.hooks_restored("libdemo.so", "hook_me", false));
    assert_eq!(plti.hooks.len(), 1);
    assert!(plti.hooks_restored("libdemo.so", "hook_me", true));
    assert!(plti.hooks.is_empty());
}

#[test]
fn replaced_range_holds_the_page_of_the_slot() {
    let img = parsed();
    let page = page_size(4096);
    let slot = BASE + GOT_BASE as usize + 0x10;
    let (start, len) = get_vma_boundaries(&img, BASE, slot, page).expect("vma");
    assert_eq!(start % page, 0);
    assert_eq!(len % page, 0);
    let at = slot - slot % page;
    assert!(start <= at && at + page <= start + len);
}
