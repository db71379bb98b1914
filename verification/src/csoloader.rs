//! Mapping a library into another process: its layout, its relocations and the
//! order of the remote system calls.
use vstd::prelude::*;

use crate::elf::{Segment, PF_R, PF_W, PF_X, PT_LOAD};
use crate::maps::{after_last, position_after, MapEntry};
use crate::plti::discover::{
    is_page_size, lemma_page_floor, lemma_page_floor_order, lemma_page_floor_shift,
    lemma_page_floor_twice, page_floor, page_start, prot_of, PROT_EXEC, PROT_READ, PROT_WRITE,
};
use crate::regs::{le_bytes, RemoteWrite};
use crate::remote::Isa;
use crate::text::same_text;

verus! {

/// A library that was mapped.
#[derive(Clone, Copy, Debug, PartialEq, Eq, Structural)]
pub struct RemoteLoadResult {
    pub base: usize,
    pub total_size: usize,
    pub entry: usize,
}

/// An address raised to a page boundary; sums wrap.
pub open spec fn page_ceil(addr: usize, page: usize) -> usize {
    page_floor(addr.wrapping_add((page - 1) as usize), page)
}

/// An address raised to a page boundary.
pub fn page_end(addr: usize, page: usize) -> (r: usize)
    requires
        page >= 1,
    ensures
        r == page_ceil(addr, page),
{
    page_start(addr.wrapping_add(page - 1), page)
}

/// The lowest address of the loaded segments, or the greatest number.
pub open spec fn lowest(segs: Seq<Segment>) -> u64
    decreases segs.len(),
{
    if segs.len() == 0 {
        u64::MAX
    } else {
        let rest = lowest(segs.drop_last());
        if segs.last().ptype == PT_LOAD && segs.last().vaddr < rest {
            segs.last().vaddr
        } else {
            rest
        }
    }
}

/// The highest end of the loaded segments, or zero; sums wrap.
pub open spec fn highest(segs: Seq<Segment>) -> u64
    decreases segs.len(),
{
    if segs.len() == 0 {
        0
    } else {
        let rest = highest(segs.drop_last());
        let end = segs.last().vaddr.wrapping_add(segs.last().memsz);
        if segs.last().ptype == PT_LOAD && end > rest {
            end
        } else {
            rest
        }
    }
}

/// The first page of the loaded segments and the length of all their pages;
/// `None` where they occupy nothing.
pub open spec fn load_layout(segs: Seq<Segment>, page: usize) -> Option<(usize, usize)> {
    if highest(segs) <= lowest(segs) {
        None
    } else {
        let lo = page_floor(lowest(segs) as usize, page);
        let hi = page_ceil(highest(segs) as usize, page);
        Some((lo, hi.wrapping_sub(lo)))
    }
}

/// The pages that a library occupies.
pub fn compute_load_layout(segs: &Vec<Segment>, page_size: usize) -> (r: Option<(usize, usize)>)
    requires
        page_size >= 1,
    ensures
        r == load_layout(segs@, page_size),
{
    let mut lo: u64 = u64::MAX;
    let mut hi: u64 = 0;
    let mut i: usize = 0;
    while i < segs.len()
        invariant
            i <= segs@.len(),
            lo == lowest(segs@.take(i as int)),
            hi == highest(segs@.take(i as int)),
        decreases segs@.len() - i,
    {
        assert(segs@.take(i + 1).drop_last() =~= segs@.take(i as int));
        let seg = segs[i];
        if seg.ptype == PT_LOAD {
            if seg.vaddr < lo {
                lo = seg.vaddr;
            }
            let end: u64 = seg.vaddr.wrapping_add(seg.memsz);
            if end > hi {
                hi = end;
            }
        }
        i = i + 1;
    }
    assert(segs@.take(i as int) =~= segs@);
    if hi <= lo {
        return None;
    }
    let first: usize = page_start(lo as usize, page_size);
    let end: usize = page_end(hi as usize, page_size);
    Some((first, end.wrapping_sub(first)))
}

/// The path of the first mapping of the beginning of a file with this name.
pub open spec fn loaded_path(map: Seq<MapEntry>, soname: Seq<char>) -> Option<Seq<char>>
    decreases map.len(),
{
    if map.len() == 0 {
        None
    } else if map[0].path@.len() > 0 && map[0].offset == 0 && after_last(map[0].path@, '/')
        == soname {
        Some(map[0].path@)
    } else {
        loaded_path(map.drop_first(), soname)
    }
}

/// The path of a loaded module, by its file name.
pub fn find_remote_module_path<'a>(remote_map: &'a Vec<MapEntry>, soname: &str) -> (r: Option<
    &'a str,
>)
    ensures
        match r {
            Some(path) => loaded_path(remote_map@, soname@) == Some(path@),
            None => loaded_path(remote_map@, soname@) is None,
        },
{
    let mut i: usize = 0;
    assert(remote_map@.skip(0) =~= remote_map@);
    while i < remote_map.len()
        invariant
            i <= remote_map@.len(),
            loaded_path(remote_map@, soname@) == loaded_path(remote_map@.skip(i as int), soname@),
        decreases remote_map@.len() - i,
    {
        assert(remote_map@.skip(i as int).drop_first() =~= remote_map@.skip(i + 1));
        let m = &remote_map[i];
        if !m.path.as_str().is_empty() && m.offset == 0 && same_text(
            position_after(m.path.as_str(), '/'),
            soname,
        ) {
            return Some(m.path.as_str());
        }
        i = i + 1;
    }
    None
}

/// A dynamic symbol.
#[derive(Debug)]
pub struct DynSym {
    pub name: String,
    pub value: u64,
    /// The library has a definition of it.
    pub defined: bool,
}

/// The value of the first definition with this name.
pub open spec fn defined_value(syms: Seq<DynSym>, name: Seq<char>) -> Option<u64>
    decreases syms.len(),
{
    if syms.len() == 0 {
        None
    } else if syms[0].defined && syms[0].name@ == name {
        Some(syms[0].value)
    } else {
        defined_value(syms.drop_first(), name)
    }
}

/// The value of a symbol that the library defines.
pub fn find_dynsym_value(syms: &Vec<DynSym>, sym_name: &str) -> (r: Option<u64>)
    ensures
        r == defined_value(syms@, sym_name@),
{
    let mut i: usize = 0;
    assert(syms@.skip(0) =~= syms@);
    while i < syms.len()
        invariant
            i <= syms@.len(),
            defined_value(syms@, sym_name@) == defined_value(syms@.skip(i as int), sym_name@),
        decreases syms@.len() - i,
    {
        assert(syms@.skip(i as int).drop_first() =~= syms@.skip(i + 1));
        if syms[i].defined && same_text(syms[i].name.as_str(), sym_name) {
            return Some(syms[i].value);
        }
        i = i + 1;
    }
    None
}

/// A function to be looked up in a module of the process.
#[derive(Debug)]
pub struct Lookup {
    pub module: String,
    pub symbol: String,
}

/// How a symbol gets its address.
#[derive(Debug)]
pub enum SymbolPlan {
    /// It has none.
    Fail,
    /// It is this; zero where the symbol may be missing.
    At(usize),
    /// That of the first of these functions that is found.
    Search(Vec<Lookup>),
}

/// The name under which the linker has one of its own functions.
pub open spec fn linker_name(name: Seq<char>) -> Option<Seq<char>> {
    if name == "dlopen"@ {
        Some("__dl_dlopen"@)
    } else if name == "dlsym"@ {
        Some("__dl_dlsym"@)
    } else if name == "dlerror"@ {
        Some("__dl_dlerror"@)
    } else if name == "dl_iterate_phdr"@ {
        Some("__dl_dl_iterate_phdr"@)
    } else if name == "dlclose"@ {
        Some("__dl_dlclose"@)
    } else {
        None
    }
}

/// The path of the linker.
pub open spec fn linker_path(is_64: bool) -> Seq<char> {
    if is_64 {
        "/system/bin/linker64"@
    } else {
        "/system/bin/linker"@
    }
}

/// The views of the lookups of a name in the modules that are found.
pub open spec fn module_lookups(paths: Seq<Option<String>>, name: Seq<char>) -> Seq<
    (Seq<char>, Seq<char>),
>
    decreases paths.len(),
{
    if paths.len() == 0 {
        seq![]
    } else {
        let rest = module_lookups(paths.drop_last(), name);
        match paths.last() {
            Some(path) => rest.push((path@, name)),
            None => rest,
        }
    }
}

/// Where a symbol that the library does not define is looked for, in order: in
/// the modules that it needs, and for the linker's own functions in the linker.
pub open spec fn symbol_lookups(paths: Seq<Option<String>>, name: Seq<char>, is_64: bool) -> Seq<
    (Seq<char>, Seq<char>),
> {
    match linker_name(name) {
        Some(own) => module_lookups(paths, name).push((linker_path(is_64), own)),
        None => module_lookups(paths, name),
    }
}

/// The views of some lookups.
pub open spec fn lookup_views(v: Seq<Lookup>) -> Seq<(Seq<char>, Seq<char>)> {
    Seq::new(v.len(), |i: int| (v[i].module@, v[i].symbol@))
}

/// A name that unwinding code registers itself under; it may be missing.
pub open spec fn is_frame_hook(name: Seq<char>) -> bool {
    name == "__register_frame"@ || name == "__deregister_frame"@
}

fn linker_symbol(name: &str) -> (r: Option<&'static str>)
    ensures
        match r {
            Some(own) => linker_name(name@) == Some(own@),
            None => linker_name(name@) is None,
        },
{
    if same_text(name, "dlopen") {
        Some("__dl_dlopen")
    } else if same_text(name, "dlsym") {
        Some("__dl_dlsym")
    } else if same_text(name, "dlerror") {
        Some("__dl_dlerror")
    } else if same_text(name, "dl_iterate_phdr") {
        Some("__dl_dl_iterate_phdr")
    } else if same_text(name, "dlclose") {
        Some("__dl_dlclose")
    } else {
        None
    }
}

/// How the symbol of a relocation gets its address. `needed_paths` holds the
/// paths of the modules that the library needs, where they are loaded.
pub fn resolve_symbol_addr(
    syms: &Vec<DynSym>,
    needed_paths: &Vec<Option<String>>,
    load_bias: usize,
    sym_idx: u32,
    is_64: bool,
) -> (r: SymbolPlan)
    ensures
        if sym_idx >= syms@.len() {
            r is Fail
        } else {
            let sym = syms@[sym_idx as int];
            if sym.defined {
                r matches SymbolPlan::At(addr) && addr == load_bias.wrapping_add(
                    sym.value as usize,
                )
            } else if sym.name@.len() == 0 {
                r is Fail
            } else if is_frame_hook(sym.name@) {
                r matches SymbolPlan::At(addr) && addr == 0
            } else {
                r matches SymbolPlan::Search(list) && lookup_views(list@) == symbol_lookups(
                    needed_paths@,
                    sym.name@,
                    is_64,
                )
            }
        },
{
    let at: usize = sym_idx as usize;
    if at >= syms.len() {
        return SymbolPlan::Fail;
    }
    let sym = &syms[at];
    if sym.defined {
        return SymbolPlan::At(load_bias.wrapping_add(sym.value as usize));
    }
    let name = sym.name.as_str();
    if name.is_empty() {
        return SymbolPlan::Fail;
    }
    if same_text(name, "__register_frame") || same_text(name, "__deregister_frame") {
        return SymbolPlan::At(0);
    }
    let mut list: Vec<Lookup> = Vec::new();
    let mut i: usize = 0;
    while i < needed_paths.len()
        invariant
            i <= needed_paths@.len(),
            lookup_views(list@) =~= module_lookups(needed_paths@.take(i as int), name@),
        decreases needed_paths@.len() - i,
    {
        assert(needed_paths@.take(i + 1).drop_last() =~= needed_paths@.take(i as int));
        if let Some(path) = &needed_paths[i] {
            list.push(
                Lookup {
                    module: String::from_str(path.as_str()),
                    symbol: String::from_str(name),
                },
            );
        }
        i = i + 1;
    }
    assert(needed_paths@.take(i as int) =~= needed_paths@);
    if let Some(own) = linker_symbol(name) {
        list.push(
            Lookup {
                module: String::from_str(
                    if is_64 {
                        "/system/bin/linker64"
                    } else {
                        "/system/bin/linker"
                    },
                ),
                symbol: String::from_str(own),
            },
        );
    }
    assert(lookup_views(list@) =~= symbol_lookups(needed_paths@, name@, is_64));
    SymbolPlan::Search(list)
}

/// What kind of value a relocation asks for.
#[derive(Clone, Copy, Debug, PartialEq, Eq, Structural)]
pub enum ValueKind {
    /// The load bias plus the addend.
    Bias,
    /// The address of the symbol plus the addend, or zero where it is missing.
    SymbolPlus,
    /// The address of the symbol.
    Symbol,
    /// Nothing that is supported.
    Unsupported,
}

/// What a relocation of a type asks for. On 64-bit architectures the addend is
/// part of the record; on 32-bit ones it stands in the relocated word.
pub open spec fn value_kind(isa: Isa, has_addend: bool, rtype: u32) -> ValueKind {
    if has_addend {
        match isa {
            Isa::Aarch64 => if rtype == 1027 {
                ValueKind::Bias
            } else if rtype == 257 || rtype == 1025 || rtype == 1026 {
                ValueKind::SymbolPlus
            } else {
                ValueKind::Unsupported
            },
            Isa::X86_64 => if rtype == 8 {
                ValueKind::Bias
            } else if rtype == 1 || rtype == 6 || rtype == 7 {
                ValueKind::SymbolPlus
            } else {
                ValueKind::Unsupported
            },
            _ => if rtype == 0 {
                ValueKind::Bias
            } else {
                ValueKind::Unsupported
            },
        }
    } else {
        match isa {
            Isa::Arm => if rtype == 23 {
                ValueKind::Bias
            } else if rtype == 2 {
                ValueKind::SymbolPlus
            } else if rtype == 21 || rtype == 22 {
                ValueKind::Symbol
            } else {
                ValueKind::Unsupported
            },
            Isa::X86 => if rtype == 8 {
                ValueKind::Bias
            } else if rtype == 1 {
                ValueKind::SymbolPlus
            } else if rtype == 6 || rtype == 7 {
                ValueKind::Symbol
            } else {
                ValueKind::Unsupported
            },
            _ => ValueKind::Unsupported,
        }
    }
}

/// What a relocation of a type asks for.
pub fn relocation_kind(isa: Isa, has_addend: bool, rtype: u32) -> (r: ValueKind)
    ensures
        r == value_kind(isa, has_addend, rtype),
{
    if has_addend {
        match isa {
            Isa::Aarch64 => match rtype {
                1027 => ValueKind::Bias,
                257 | 1025 | 1026 => ValueKind::SymbolPlus,
                _ => ValueKind::Unsupported,
            },
            Isa::X86_64 => match rtype {
                8 => ValueKind::Bias,
                1 | 6 | 7 => ValueKind::SymbolPlus,
                _ => ValueKind::Unsupported,
            },
            _ => if rtype == 0 {
                ValueKind::Bias
            } else {
                ValueKind::Unsupported
            },
        }
    } else {
        match isa {
            Isa::Arm => match rtype {
                23 => ValueKind::Bias,
                2 => ValueKind::SymbolPlus,
                21 | 22 => ValueKind::Symbol,
                _ => ValueKind::Unsupported,
            },
            Isa::X86 => match rtype {
                8 => ValueKind::Bias,
                1 => ValueKind::SymbolPlus,
                6 | 7 => ValueKind::Symbol,
                _ => ValueKind::Unsupported,
            },
            _ => ValueKind::Unsupported,
        }
    }
}

/// The value of a relocation; sums wrap. `None` where the type is not
/// supported, or the symbol or the addend that it needs is missing.
pub open spec fn relocated(
    kind: ValueKind,
    load_bias: usize,
    sym: Option<usize>,
    addend: Option<u64>,
) -> Option<u64> {
    match kind {
        ValueKind::Bias => match addend {
            Some(a) => Some((load_bias as u64).wrapping_add(a)),
            None => None,
        },
        ValueKind::SymbolPlus => match sym {
            None => None,
            Some(0) => Some(0),
            Some(s) => match addend {
                Some(a) => Some((s as u64).wrapping_add(a)),
                None => None,
            },
        },
        ValueKind::Symbol => match sym {
            Some(s) => Some(s as u64),
            None => None,
        },
        ValueKind::Unsupported => None,
    }
}

fn relocation_value(
    kind: ValueKind,
    load_bias: usize,
    sym: Option<usize>,
    addend: Option<u64>,
) -> (r: Option<u64>)
    ensures
        r == relocated(kind, load_bias, sym, addend),
{
    match kind {
        ValueKind::Bias => match addend {
            Some(a) => Some((load_bias as u64).wrapping_add(a)),
            None => None,
        },
        ValueKind::SymbolPlus => match sym {
            None => None,
            Some(s) => if s == 0 {
                Some(0)
            } else {
                match addend {
                    Some(a) => Some((s as u64).wrapping_add(a)),
                    None => None,
                }
            },
        },
        ValueKind::Symbol => match sym {
            Some(s) => Some(s as u64),
            None => None,
        },
        ValueKind::Unsupported => None,
    }
}

fn value_bytes(value: u64) -> (out: Vec<u8>)
    ensures
        out@ == le_bytes(value as int, 8),
{
    let mut out: Vec<u8> = Vec::new();
    let mut v: u64 = value;
    let mut i: usize = 0;
    while i < 8
        invariant
            i <= 8,
            le_bytes(value as int, 8) == out@ + le_bytes(v as int, (8 - i) as nat),
        decreases 8 - i,
    {
        let ghost before = out@;
        out.push((v % 256) as u8);
        assert(before + (seq![(v % 256) as u8] + le_bytes((v / 256) as int, (8 - i - 1) as nat))
            =~= out@ + le_bytes((v / 256) as int, (8 - i - 1) as nat));
        v = v / 256;
        i = i + 1;
    }
    assert(out@ + le_bytes(v as int, 0) =~= out@);
    out
}

/// `w` writes the value, as eight bytes, to `target`.
pub open spec fn writes_value(w: RemoteWrite, target: usize, value: u64) -> bool {
    w.addr == target && w.bytes@ == le_bytes(value as int, 8)
}

/// What a relocation with an addend of its own writes, once its symbol is
/// resolved. `None` where it cannot be applied.
pub fn apply_rela_reloc(
    isa: Isa,
    rtype: u32,
    addend: u64,
    target: usize,
    load_bias: usize,
    sym: Option<usize>,
) -> (r: Option<RemoteWrite>)
    ensures
        match relocated(value_kind(isa, true, rtype), load_bias, sym, Some(addend)) {
            Some(value) => r matches Some(w) && writes_value(w, target, value),
            None => r is None,
        },
{
    match relocation_value(relocation_kind(isa, true, rtype), load_bias, sym, Some(addend)) {
        Some(value) => Some(RemoteWrite { addr: target as u64, bytes: value_bytes(value) }),
        None => None,
    }
}

/// What a relocation whose addend stands in the relocated word writes, once its
/// symbol is resolved and, where it is needed, the word was read.
pub fn apply_rel_reloc(
    isa: Isa,
    rtype: u32,
    target: usize,
    load_bias: usize,
    sym: Option<usize>,
    word: Option<u32>,
) -> (r: Option<RemoteWrite>)
    ensures
        match relocated(
            value_kind(isa, false, rtype),
            load_bias,
            sym,
            match word {
                Some(w) => Some(w as u64),
                None => None,
            },
        ) {
            Some(value) => r matches Some(w) && writes_value(w, target, value),
            None => r is None,
        },
{
    let addend: Option<u64> = match word {
        Some(w) => Some(w as u64),
        None => None,
    };
    match relocation_value(relocation_kind(isa, false, rtype), load_bias, sym, addend) {
        Some(value) => Some(RemoteWrite { addr: target as u64, bytes: value_bytes(value) }),
        None => None,
    }
}

/// Where a relocation is applied.
pub fn relocation_target(load_bias: usize, offset: u64) -> (r: usize)
    ensures
        r == load_bias.wrapping_add(offset as usize),
{
    load_bias.wrapping_add(offset as usize)
}

/// A relocation of the library.
#[derive(Clone, Copy, Debug, PartialEq, Eq, Structural)]
pub struct LoadReloc {
    pub offset: u64,
    pub rtype: u32,
    pub sym_idx: u32,
    pub addend: u64,
    /// The addend is part of the record; else it stands in the relocated word.
    pub has_addend: bool,
}

/// What a relocation writes; `None` where it cannot be applied.
pub open spec fn reloc_value(
    isa: Isa,
    rel: LoadReloc,
    load_bias: usize,
    sym: Option<usize>,
    word: Option<u32>,
) -> Option<u64> {
    relocated(
        value_kind(isa, rel.has_addend, rel.rtype),
        load_bias,
        sym,
        if rel.has_addend {
            Some(rel.addend)
        } else {
            match word {
                Some(w) => Some(w as u64),
                None => None,
            }
        },
    )
}

/// The steps of relocating a library.
#[derive(Debug)]
pub enum RelocStep {
    /// Write this, then go on with the relocation after the one it is for.
    Write(RemoteWrite),
    /// All relocations are applied, or one could not be.
    Over(bool),
}

/// The step for the relocation at `next`: the relocations are applied in order
/// up to the first that cannot be. `written` says whether the last write, if
/// any, succeeded; `sym` and `word` are the address of the relocation's symbol
/// and the relocated word, where they could be had.
pub fn apply_relocations(
    isa: Isa,
    relocs: &Vec<LoadReloc>,
    next: usize,
    written: bool,
    load_bias: usize,
    sym: Option<usize>,
    word: Option<u32>,
) -> (r: RelocStep)
    ensures
        if !written {
            r matches RelocStep::Over(ok) && !ok
        } else if next >= relocs@.len() {
            r matches RelocStep::Over(ok) && ok
        } else {
            let rel = relocs@[next as int];
            match reloc_value(isa, rel, load_bias, sym, word) {
                Some(value) => r matches RelocStep::Write(w) && writes_value(
                    w,
                    load_bias.wrapping_add(rel.offset as usize),
                    value,
                ),
                None => r matches RelocStep::Over(ok) && !ok,
            }
        },
{
    if !written {
        return RelocStep::Over(false);
    }
    if next >= relocs.len() {
        return RelocStep::Over(true);
    }
    let rel = relocs[next];
    let target: usize = relocation_target(load_bias, rel.offset);
    let write = if rel.has_addend {
        apply_rela_reloc(isa, rel.rtype, rel.addend, target, load_bias, sym)
    } else {
        apply_rel_reloc(isa, rel.rtype, target, load_bias, sym, word)
    };
    match write {
        Some(w) => RelocStep::Write(w),
        None => RelocStep::Over(false),
    }
}

/// Flags of a new mapping.
pub const MAP_PRIVATE: i64 = 0x02;

pub const MAP_FIXED: i64 = 0x10;

pub const MAP_ANONYMOUS: i64 = 0x20;

/// The lowest address at which a 64-bit process may get the library.
pub const MIN_ADDR_64: u64 = 0x1_0000_0000;

/// The arguments of the system call that reserves the library's pages.
pub fn reserve_args(map_size: i64, is_64: bool) -> (args: Vec<i64>)
    ensures
        args@ == seq![
            if is_64 {
                0x1_0000_0000i64
            } else {
                0i64
            },
            map_size,
            0i64,
            0x22i64,
            -1i64,
            0i64,
        ],
{
    let min: i64 = if is_64 {
        0x1_0000_0000
    } else {
        0
    };
    let args: Vec<i64> = vec![min, map_size, 0, MAP_PRIVATE + MAP_ANONYMOUS, -1, 0];
    assert(args@ =~= seq![min, map_size, 0i64, 0x22i64, -1i64, 0i64]);
    args
}

/// The arguments of the system call that maps memory for a segment.
pub fn segment_args(page: i64, page_len: i64) -> (args: Vec<i64>)
    ensures
        args@ == seq![page, page_len, 3i64, 0x32i64, -1i64, 0i64],
{
    let args: Vec<i64> = vec![page, page_len, 3, MAP_FIXED + MAP_PRIVATE + MAP_ANONYMOUS, -1, 0];
    assert(args@ =~= seq![page, page_len, 3i64, 0x32i64, -1i64, 0i64]);
    args
}

/// What came of the reservation.
#[derive(Clone, Copy, Debug, PartialEq, Eq, Structural)]
pub enum Reservation {
    /// It failed.
    Failed,
    /// It is too low, and has to be given back.
    TooLow,
    /// It is good.
    Good,
}

/// Judges the address that a reservation returned.
pub fn check_reservation(remote_base: usize, is_64: bool) -> (r: Reservation)
    ensures
        r == if remote_base == 0 || remote_base == usize::MAX {
            Reservation::Failed
        } else if is_64 && remote_base < MIN_ADDR_64 {
            Reservation::TooLow
        } else {
            Reservation::Good
        },
{
    if remote_base == 0 || remote_base == usize::MAX {
        Reservation::Failed
    } else if is_64 && (remote_base as u64) < MIN_ADDR_64 {
        Reservation::TooLow
    } else {
        Reservation::Good
    }
}

/// What has to be done for a segment: the pages to map, where and which bytes
/// of the file to write, and the protection to end with.
#[derive(Clone, Copy, Debug, PartialEq, Eq, Structural)]
pub struct SegPlan {
    pub page: usize,
    pub page_len: usize,
    pub start: usize,
    pub offset: usize,
    pub filesz: usize,
    pub prot: i32,
}

/// What has to be done for a segment; sums wrap.
pub open spec fn seg_plan(seg: Segment, load_bias: usize, page: usize) -> SegPlan {
    let start = load_bias.wrapping_add(seg.vaddr as usize);
    let first = page_floor(start, page);
    let end = page_ceil(load_bias.wrapping_add(seg.vaddr.wrapping_add(seg.memsz) as usize), page);
    SegPlan {
        page: first,
        page_len: end.wrapping_sub(first),
        start,
        offset: seg.offset as usize,
        filesz: seg.filesz as usize,
        prot: prot_of(seg.flags) as i32,
    }
}

/// What has to be done for the loaded segments, in order.
pub open spec fn seg_plans(segs: Seq<Segment>, load_bias: usize, page: usize) -> Seq<SegPlan>
    decreases segs.len(),
{
    if segs.len() == 0 {
        seq![]
    } else {
        let rest = seg_plans(segs.drop_last(), load_bias, page);
        if segs.last().ptype == PT_LOAD {
            rest.push(seg_plan(segs.last(), load_bias, page))
        } else {
            rest
        }
    }
}

/// Plans the mapping of a library's segments, given where its lowest page was
/// reserved.
pub fn plan_segments(
    segs: &Vec<Segment>,
    remote_base: usize,
    min_vaddr: usize,
    page_size: usize,
) -> (r: Vec<SegPlan>)
    requires
        page_size >= 1,
    ensures
        r@ == seg_plans(segs@, remote_base.wrapping_sub(min_vaddr), page_size),
{
    let load_bias: usize = remote_base.wrapping_sub(min_vaddr);
    let mut out: Vec<SegPlan> = Vec::new();
    let mut i: usize = 0;
    while i < segs.len()
        invariant
            i <= segs@.len(),
            page_size >= 1,
            out@ == seg_plans(segs@.take(i as int), load_bias, page_size),
        decreases segs@.len() - i,
    {
        assert(segs@.take(i + 1).drop_last() =~= segs@.take(i as int));
        let seg = segs[i];
        if seg.ptype == PT_LOAD {
            let start: usize = load_bias.wrapping_add(seg.vaddr as usize);
            let first: usize = page_start(start, page_size);
            let end: usize = page_end(
                load_bias.wrapping_add(seg.vaddr.wrapping_add(seg.memsz) as usize),
                page_size,
            );
            let mut prot: i32 = 0;
            if seg.flags & PF_R != 0 {
                prot = prot + PROT_READ;
            }
            if seg.flags & PF_W != 0 {
                prot = prot + PROT_WRITE;
            }
            if seg.flags & PF_X != 0 {
                prot = prot + PROT_EXEC;
            }
            out.push(
                SegPlan {
                    page: first,
                    page_len: end.wrapping_sub(first),
                    start,
                    offset: seg.offset as usize,
                    filesz: seg.filesz as usize,
                    prot,
                },
            );
        }
        i = i + 1;
    }
    assert(segs@.take(i as int) =~= segs@);
    out
}

/// What a segment's part of the file is: nothing where the file has no bytes of
/// it, else these bytes, or `None` where the file is too short.
pub fn segment_bytes<'a>(raw: &'a Vec<u8>, plan: &SegPlan) -> (r: Option<&'a [u8]>)
    ensures
        match r {
            Some(bytes) => if plan.filesz == 0 {
                bytes@.len() == 0
            } else {
                plan.offset + plan.filesz <= raw@.len() && bytes@ == raw@.subrange(
                    plan.offset as int,
                    plan.offset + plan.filesz as int,
                )
            },
            None => plan.filesz > 0 && plan.offset + plan.filesz > raw@.len(),
        },
{
    let len: usize = raw.len();
    if plan.filesz == 0 {
        return Some(vstd::slice::slice_subrange(raw.as_slice(), 0, 0));
    }
    if plan.filesz > len || plan.offset > len - plan.filesz {
        return None;
    }
    Some(
        vstd::slice::slice_subrange(
            raw.as_slice(),
            plan.offset,
            plan.offset + plan.filesz,
        ),
    )
}

/// The steps of mapping a library into a process.
#[derive(Clone, Copy, Debug, PartialEq, Eq, Structural)]
pub enum LoadPhase {
    /// Read and parse the library, and lay it out.
    Prepare,
    /// Look for a system call instruction.
    FindGadget,
    /// Reserve the pages.
    Reserve,
    /// Map the memory of a segment.
    MapSegment(usize),
    /// Write the bytes of a segment.
    WriteSegment(usize),
    /// Apply the relocations.
    Relocate,
    /// Give a segment its protection.
    Protect(usize),
    /// Look the entry up.
    FindEntry,
    /// Give the reservation back.
    Unmap,
    /// The library is mapped.
    Done,
    /// It is not.
    Failed,
}

/// The step that follows; `reserved` is the judgement on the reservation.
pub open spec fn load_next(
    phase: LoadPhase,
    ok: bool,
    reserved: Reservation,
    segments: usize,
) -> LoadPhase {
    match phase {
        LoadPhase::Prepare => if ok {
            LoadPhase::FindGadget
        } else {
            LoadPhase::Failed
        },
        LoadPhase::FindGadget => if ok {
            LoadPhase::Reserve
        } else {
            LoadPhase::Failed
        },
        LoadPhase::Reserve => match reserved {
            Reservation::Failed => LoadPhase::Failed,
            Reservation::TooLow => LoadPhase::Unmap,
            Reservation::Good => if segments > 0 {
                LoadPhase::MapSegment(0)
            } else {
                LoadPhase::Relocate
            },
        },
        LoadPhase::MapSegment(i) => if ok {
            LoadPhase::WriteSegment(i)
        } else {
            LoadPhase::Unmap
        },
        LoadPhase::WriteSegment(i) => if !ok {
            LoadPhase::Unmap
        } else if i + 1 < segments {
            LoadPhase::MapSegment((i + 1) as usize)
        } else {
            LoadPhase::Relocate
        },
        LoadPhase::Relocate => if !ok {
            LoadPhase::Unmap
        } else if segments > 0 {
            LoadPhase::Protect(0)
        } else {
            LoadPhase::FindEntry
        },
        LoadPhase::Protect(i) => if !ok {
            LoadPhase::Unmap
        } else if i + 1 < segments {
            LoadPhase::Protect((i + 1) as usize)
        } else {
            LoadPhase::FindEntry
        },
        LoadPhase::FindEntry => if ok {
            LoadPhase::Done
        } else {
            LoadPhase::Unmap
        },
        LoadPhase::Unmap => LoadPhase::Failed,
        LoadPhase::Done => LoadPhase::Done,
        LoadPhase::Failed => LoadPhase::Failed,
    }
}

/// The step of mapping a library into a process that follows.
pub fn remote_csoloader_load_and_resolve_entry(
    phase: LoadPhase,
    ok: bool,
    reserved: Reservation,
    segments: usize,
) -> (r: LoadPhase)
    ensures
        r == load_next(phase, ok, reserved, segments),
{
    match phase {
        LoadPhase::Prepare => if ok {
            LoadPhase::FindGadget
        } else {
            LoadPhase::Failed
        },
        LoadPhase::FindGadget => if ok {
            LoadPhase::Reserve
        } else {
            LoadPhase::Failed
        },
        LoadPhase::Reserve => match reserved {
            Reservation::Failed => LoadPhase::Failed,
            Reservation::TooLow => LoadPhase::Unmap,
            Reservation::Good => if segments > 0 {
                LoadPhase::MapSegment(0)
            } else {
                LoadPhase::Relocate
            },
        },
        LoadPhase::MapSegment(i) => if ok {
            LoadPhase::WriteSegment(i)
        } else {
            LoadPhase::Unmap
        },
        LoadPhase::WriteSegment(i) => if !ok {
            LoadPhase::Unmap
        } else if i < segments && i + 1 < segments {
            LoadPhase::MapSegment(i + 1)
        } else {
            LoadPhase::Relocate
        },
        LoadPhase::Relocate => if !ok {
            LoadPhase::Unmap
        } else if segments > 0 {
            LoadPhase::Protect(0)
        } else {
            LoadPhase::FindEntry
        },
        LoadPhase::Protect(i) => if !ok {
            LoadPhase::Unmap
        } else if i < segments && i + 1 < segments {
            LoadPhase::Protect(i + 1)
        } else {
            LoadPhase::FindEntry
        },
        LoadPhase::FindEntry => if ok {
            LoadPhase::Done
        } else {
            LoadPhase::Unmap
        },
        LoadPhase::Unmap => LoadPhase::Failed,
        LoadPhase::Done => LoadPhase::Done,
        LoadPhase::Failed => LoadPhase::Failed,
    }
}

/// The library as its callers see it, from where it was reserved and the value
/// of its entry symbol; sums wrap.
pub fn load_result(
    remote_base: usize,
    min_vaddr: usize,
    map_size: usize,
    entry_value: u64,
) -> (r: RemoteLoadResult)
    ensures
        r == (RemoteLoadResult {
            base: remote_base,
            total_size: map_size,
            entry: remote_base.wrapping_sub(min_vaddr).wrapping_add(entry_value as usize),
        }),
{
    RemoteLoadResult {
        base: remote_base,
        total_size: map_size,
        entry: remote_base.wrapping_sub(min_vaddr).wrapping_add(entry_value as usize),
    }
}

/// Pages are reserved in this phase.
pub open spec fn holds_pages(phase: LoadPhase) -> bool {
    phase is MapSegment || phase is WriteSegment || phase is Relocate || phase is Protect
        || phase is FindEntry
}

/// Once pages are reserved, a mapping that fails gives them back first.
pub proof fn law_failed_load_unmaps(
    phase: LoadPhase,
    ok: bool,
    reserved: Reservation,
    segments: usize,
)
    requires
        holds_pages(phase),
    ensures
        load_next(phase, ok, reserved, segments) != LoadPhase::Failed,
        !ok ==> load_next(phase, ok, reserved, segments) == LoadPhase::Unmap,
{
}

/// A library is mapped only after its relocations were applied: nothing but the
/// relocation step leads from its segments to its entry.
pub proof fn law_load_relocates(
    phase: LoadPhase,
    ok: bool,
    reserved: Reservation,
    segments: usize,
)
    requires
        load_next(phase, ok, reserved, segments) is Protect || load_next(
            phase,
            ok,
            reserved,
            segments,
        ) is FindEntry,
    ensures
        (phase is Relocate && ok) || phase is Protect,
{
}

proof fn lemma_layout_bounds(segs: Seq<Segment>, k: int, limit: int)
    requires
        0 <= k < segs.len(),
        segs[k].ptype == PT_LOAD,
        forall|j: int|
            0 <= j < segs.len() && (#[trigger] segs[j]).ptype == PT_LOAD ==> segs[j].vaddr
                + segs[j].memsz <= limit,
        limit <= u64::MAX,
    ensures
        lowest(segs) <= segs[k].vaddr,
        segs[k].vaddr + segs[k].memsz <= highest(segs) <= limit,
    decreases segs.len(),
{
    let rest = segs.drop_last();
    let last = segs.last();
    assert(last == segs[segs.len() - 1]);
    assert forall|j: int| 0 <= j < rest.len() && (#[trigger] rest[j]).ptype == PT_LOAD implies rest[j].vaddr
        + rest[j].memsz <= limit by {
        assert(rest[j] == segs[j]);
    }
    lemma_highest_limit(rest, limit);
    if k < segs.len() - 1 {
        assert(rest[k] == segs[k]);
        lemma_layout_bounds(rest, k, limit);
    }
}

proof fn lemma_highest_limit(segs: Seq<Segment>, limit: int)
    requires
        forall|j: int|
            0 <= j < segs.len() && (#[trigger] segs[j]).ptype == PT_LOAD ==> segs[j].vaddr
                + segs[j].memsz <= limit,
        0 <= limit <= u64::MAX,
    ensures
        highest(segs) <= limit,
    decreases segs.len(),
{
    if segs.len() > 0 {
        let rest = segs.drop_last();
        assert(segs.last() == segs[segs.len() - 1]);
        assert forall|j: int| 0 <= j < rest.len() && (#[trigger] rest[j]).ptype == PT_LOAD implies rest[j].vaddr
            + rest[j].memsz <= limit by {
            assert(rest[j] == segs[j]);
        }
        lemma_highest_limit(rest, limit);
    }
}

/// The page of an address that was moved from one page boundary to another.
proof fn lemma_moved_page(addr: usize, from: usize, to: usize, page: usize)
    requires
        is_page_size(page),
        page_floor(from, page) == from,
        page_floor(to, page) == to,
        0 <= addr - from + to <= usize::MAX,
    ensures
        page_floor((addr - from + to) as usize, page) == page_floor(addr, page) - from + to,
{
    if to >= from {
        let by = (to - from) as usize;
        lemma_page_floor_shift(by, from, page);
        lemma_page_floor_shift(addr, by, page);
    } else {
        let by = (from - to) as usize;
        lemma_page_floor_shift(by, to, page);
        lemma_page_floor_shift((addr - by) as usize, by, page);
    }
}

/// A library is mapped inside its reservation: the pages of every segment lie
/// in the reserved ones, and the segment lies in its pages. The reservation
/// starts on a page boundary, and neither it nor the library's own addresses
/// reach the end of the address space.
pub proof fn law_segments_stay_in_the_reservation(
    segs: Seq<Segment>,
    page: usize,
    base: usize,
    k: int,
)
    requires
        is_page_size(page),
        load_layout(segs, page) is Some,
        0 <= k < segs.len(),
        segs[k].ptype == PT_LOAD,
        forall|j: int|
            0 <= j < segs.len() && (#[trigger] segs[j]).ptype == PT_LOAD ==> segs[j].vaddr
                + segs[j].memsz + page <= usize::MAX,
        page_floor(base, page) == base,
        base + (load_layout(segs, page)->0).1 + page <= usize::MAX,
    ensures
        ({
            let (lo, size) = load_layout(segs, page)->0;
            let plan = seg_plan(segs[k], base.wrapping_sub(lo), page);
            &&& base <= plan.page <= plan.start
            &&& plan.start + segs[k].memsz <= plan.page + plan.page_len
            &&& plan.page + plan.page_len <= base + size
        }),
{
    let (lo, size) = load_layout(segs, page)->0;
    let seg = segs[k];
    let limit = usize::MAX - page;
    lemma_layout_bounds(segs, k, limit);
    let low = lowest(segs) as usize;
    let high = highest(segs) as usize;
    let end = (seg.vaddr + seg.memsz) as usize;
    let vaddr = seg.vaddr as usize;
    // The reservation as numbers.
    lemma_page_floor(low, page);
    lemma_page_floor((high + page - 1) as usize, page);
    assert(page_ceil(high, page) >= high);
    assert(size == page_ceil(high, page) - lo);
    lemma_page_floor_twice(low, page);
    // The segment's pages before the move to the reservation.
    lemma_page_floor_order(low, vaddr, page);
    lemma_page_floor_order((end + page - 1) as usize, (high + page - 1) as usize, page);
    lemma_page_floor((end + page - 1) as usize, page);
    lemma_page_floor(vaddr, page);
    // The move.
    let bias = base.wrapping_sub(lo);
    assert(bias.wrapping_add(vaddr) == vaddr - lo + base);
    assert(seg.vaddr.wrapping_add(seg.memsz) == end);
    assert(bias.wrapping_add(end) == end - lo + base);
    lemma_moved_page(vaddr, lo, base, page);
    lemma_moved_page((end + page - 1) as usize, lo, base, page);
    let plan = seg_plan(seg, bias, page);
    assert(plan.page == page_floor(vaddr, page) - lo + base);
    let last = page_ceil(bias.wrapping_add(end), page);
    assert(last == page_floor((end + page - 1) as usize, page) - lo + base);
    assert(plan.page_len == last - plan.page);
}

/// The relocation types that stand for the address of a symbol.
pub open spec fn names_a_symbol(isa: Isa, has_addend: bool, rtype: u32) -> bool {
    match (isa, has_addend) {
        (Isa::Aarch64, true) => rtype == 257 || rtype == 1025 || rtype == 1026,
        (Isa::X86_64, true) => rtype == 1 || rtype == 6 || rtype == 7,
        (Isa::Arm, false) => rtype == 2 || rtype == 21 || rtype == 22,
        (Isa::X86, false) => rtype == 1 || rtype == 6 || rtype == 7,
        _ => false,
    }
}

/// The relocation types that stand for an address in the library itself.
pub open spec fn is_relative(isa: Isa, has_addend: bool, rtype: u32) -> bool {
    match (isa, has_addend) {
        (Isa::Aarch64, true) => rtype == 1027,
        (Isa::X86_64, true) => rtype == 8,
        (Isa::Arm, false) => rtype == 23,
        (Isa::X86, false) => rtype == 8,
        _ => has_addend && rtype == 0 && !(isa is Aarch64) && !(isa is X86_64),
    }
}

/// A relocation for a symbol writes the symbol's address, wherever the library
/// is: with the addend of its record, or with the word that it replaces where it
/// is the plain address of data. A symbol that may be missing leaves zero, and
/// one that has no address stops the relocation.
pub proof fn law_symbol_relocations_write_the_symbol(
    isa: Isa,
    rel: LoadReloc,
    bias: usize,
    s: usize,
    word: u32,
)
    requires
        names_a_symbol(isa, rel.has_addend, rel.rtype),
    ensures
        ({
            let plain = !rel.has_addend && rel.rtype != 1 && rel.rtype != 2;
            let addend: int = if rel.has_addend {
                rel.addend as int
            } else if plain {
                0
            } else {
                word as int
            };
            &&& s != 0 ==> (reloc_value(isa, rel, bias, Some(s), Some(word)) matches Some(v) && v
                == (s + addend) % 0x1_0000_0000_0000_0000)
            &&& reloc_value(isa, rel, bias, Some(0), Some(word)) == Some(0u64)
            &&& reloc_value(isa, rel, bias, None, Some(word)) is None
            &&& (rel.has_addend || plain) ==> reloc_value(isa, rel, bias, Some(s), None)
                == reloc_value(isa, rel, bias, Some(s), Some(word))
        }),
{
}

/// A relocation for an address in the library writes the load bias plus the
/// addend, whatever symbol it may name. One of any other type is not applied.
pub proof fn law_relative_relocations_write_the_bias(
    isa: Isa,
    rel: LoadReloc,
    bias: usize,
    sym: Option<usize>,
    word: u32,
)
    requires
        !names_a_symbol(isa, rel.has_addend, rel.rtype),
    ensures
        if is_relative(isa, rel.has_addend, rel.rtype) {
            let addend: int = if rel.has_addend {
                rel.addend as int
            } else {
                word as int
            };
            &&& reloc_value(isa, rel, bias, sym, Some(word)) matches Some(v) && v == (bias + addend)
                % 0x1_0000_0000_0000_0000
            &&& !rel.has_addend ==> reloc_value(isa, rel, bias, sym, None) is None
        } else {
            reloc_value(isa, rel, bias, sym, Some(word)) is None
        },
{
}

/// The two ways of applying a single relocation write what relocating the whole
/// library writes for it, eight bytes to where the relocation is for.
pub proof fn law_single_relocations_agree(
    isa: Isa,
    rel: LoadReloc,
    bias: usize,
    sym: Option<usize>,
    word: Option<u32>,
    target: usize,
    rela: Option<RemoteWrite>,
    plain: Option<RemoteWrite>,
)
    requires
        call_ensures(apply_rela_reloc, (isa, rel.rtype, rel.addend, target, bias, sym), rela),
        call_ensures(apply_rel_reloc, (isa, rel.rtype, target, bias, sym, word), plain),
    ensures
        ({
            let one = if rel.has_addend {
                rela
            } else {
                plain
            };
            match reloc_value(isa, rel, bias, sym, word) {
                Some(v) => one matches Some(w) && w.addr == target && w.bytes@ == le_bytes(
                    v as int,
                    8,
                ),
                None => one is None,
            }
        }),
{
}

/// Raising an address to a page boundary gives the first boundary that is not
/// below it.
pub proof fn law_page_end_is_the_next_boundary(addr: usize, page: usize)
    requires
        is_page_size(page),
        addr + page <= usize::MAX,
    ensures
        addr <= page_ceil(addr, page) < addr + page,
        page_floor(page_ceil(addr, page), page) == page_ceil(addr, page),
        page_floor(addr, page) == addr ==> page_ceil(addr, page) == addr,
{
    let up = (addr + page - 1) as usize;
    lemma_page_floor(up, page);
    lemma_page_floor_twice(up, page);
    if page_floor(addr, page) == addr {
        lemma_page_floor_shift((page - 1) as usize, addr, page);
        lemma_page_floor((page - 1) as usize, page);
        let m = (page - 1) as usize;
        assert(m & !m == 0) by (bit_vector);
    }
}

proof fn lemma_extent_attained(segs: Seq<Segment>)
    ensures
        lowest(segs) == u64::MAX || exists|k: int|
            0 <= k < segs.len() && (#[trigger] segs[k]).ptype == 1 && segs[k].vaddr == lowest(segs),
        highest(segs) == 0 || exists|k: int|
            0 <= k < segs.len() && (#[trigger] segs[k]).ptype == 1 && segs[k].vaddr.wrapping_add(
                segs[k].memsz,
            ) == highest(segs),
        forall|k: int|
            0 <= k < segs.len() && (#[trigger] segs[k]).ptype == 1 ==> lowest(segs) <= segs[k].vaddr
                && segs[k].vaddr.wrapping_add(segs[k].memsz) <= highest(segs),
    decreases segs.len(),
{
    if segs.len() > 0 {
        let rest = segs.drop_last();
        lemma_extent_attained(rest);
        assert forall|k: int| 0 <= k < rest.len() implies #[trigger] rest[k] == segs[k] by {}
        assert forall|k: int| 0 <= k < segs.len() && (#[trigger] segs[k]).ptype == 1 implies lowest(
            segs,
        ) <= segs[k].vaddr && segs[k].vaddr.wrapping_add(segs[k].memsz) <= highest(segs) by {
            if k < rest.len() {
                assert(rest[k] == segs[k]);
            }
        }
        if lowest(segs) == lowest(rest) && lowest(rest) != u64::MAX {
            let k = choose|k: int|
                0 <= k < rest.len() && (#[trigger] rest[k]).ptype == 1 && rest[k].vaddr == lowest(
                    rest,
                );
            assert(segs[k] == rest[k]);
        } else if lowest(segs) != lowest(rest) {
            assert(segs[segs.len() - 1].vaddr == lowest(segs));
        }
        if highest(segs) == highest(rest) && highest(rest) != 0 {
            let k = choose|k: int|
                0 <= k < rest.len() && (#[trigger] rest[k]).ptype == 1
                    && rest[k].vaddr.wrapping_add(rest[k].memsz) == highest(rest);
            assert(segs[k] == rest[k]);
        } else if highest(segs) != highest(rest) {
            assert(segs[segs.len() - 1].ptype == 1);
        }
    }
}

/// A library is laid out from the page of its lowest loaded byte to the end of
/// the page of its highest: `low` and `high` are the segments that they are in.
pub proof fn law_layout_is_tight(segs: Seq<Segment>, page: usize, low: int, high: int)
    requires
        0 <= low < segs.len(),
        0 <= high < segs.len(),
        segs[low].ptype == 1,
        segs[high].ptype == 1,
        forall|k: int|
            0 <= k < segs.len() && (#[trigger] segs[k]).ptype == 1 ==> segs[k].vaddr
                + segs[k].memsz <= u64::MAX && segs[low].vaddr <= segs[k].vaddr && segs[k].vaddr
                + segs[k].memsz <= segs[high].vaddr + segs[high].memsz,
    ensures
        ({
            let from = segs[low].vaddr;
            let to = (segs[high].vaddr + segs[high].memsz) as u64;
            if to <= from {
                load_layout(segs, page) is None
            } else {
                load_layout(segs, page) == Some(
                    (
                        page_floor(from as usize, page),
                        page_ceil(to as usize, page).wrapping_sub(page_floor(from as usize, page)),
                    ),
                )
            }
        }),
{
    lemma_extent_attained(segs);
    assert(segs[low].ptype == 1);
    assert(segs[high].ptype == 1);
}

/// A library of which nothing is to be loaded has no layout.
pub proof fn law_nothing_loaded_has_no_layout(segs: Seq<Segment>, page: usize)
    requires
        forall|k: int| 0 <= k < segs.len() ==> (#[trigger] segs[k]).ptype != 1,
    ensures
        load_layout(segs, page) is None,
{
    lemma_extent_attained(segs);
}

/// A loaded module is found by its file name: the path that comes back is that
/// of the first mapping of the start of such a file.
pub proof fn law_module_is_found_by_name(map: Seq<MapEntry>, soname: Seq<char>, i: int)
    requires
        0 <= i < map.len(),
        map[i].path@.len() > 0 && map[i].offset == 0 && after_last(map[i].path@, '/') == soname,
        forall|j: int|
            0 <= j < i ==> (#[trigger] map[j]).path@.len() == 0 || map[j].offset != 0
                || after_last(map[j].path@, '/') != soname,
    ensures
        loaded_path(map, soname) == Some(map[i].path@),
    decreases map.len(),
{
    if i > 0 {
        let rest = map.drop_first();
        assert(map[0].path@.len() == 0 || map[0].offset != 0 || after_last(map[0].path@, '/')
            != soname);
        assert forall|j: int| 0 <= j < i - 1 implies (#[trigger] rest[j]).path@.len() == 0
            || rest[j].offset != 0 || after_last(rest[j].path@, '/') != soname by {
            assert(rest[j] == map[j + 1]);
        }
        law_module_is_found_by_name(rest, soname, i - 1);
    }
}

/// A module that is not mapped is not found.
pub proof fn law_missing_module_is_not_found(map: Seq<MapEntry>, soname: Seq<char>)
    requires
        forall|j: int|
            0 <= j < map.len() ==> (#[trigger] map[j]).path@.len() == 0 || map[j].offset != 0
                || after_last(map[j].path@, '/') != soname,
    ensures
        loaded_path(map, soname) is None,
    decreases map.len(),
{
    if map.len() > 0 {
        let rest = map.drop_first();
        assert(map[0].path@.len() == 0 || map[0].offset != 0 || after_last(map[0].path@, '/')
            != soname);
        assert forall|j: int| 0 <= j < rest.len() implies (#[trigger] rest[j]).path@.len() == 0
            || rest[j].offset != 0 || after_last(rest[j].path@, '/') != soname by {
            assert(rest[j] == map[j + 1]);
        }
        law_missing_module_is_not_found(rest, soname);
    }
}

/// A name has the value of its first definition; without a definition it has
/// none, even where the library refers to it.
pub proof fn law_first_definition_counts(syms: Seq<DynSym>, name: Seq<char>, i: int)
    requires
        0 <= i <= syms.len(),
        i < syms.len() ==> syms[i].defined && syms[i].name@ == name,
        forall|j: int| 0 <= j < i ==> !((#[trigger] syms[j]).defined && syms[j].name@ == name),
    ensures
        defined_value(syms, name) == if i < syms.len() {
            Some(syms[i].value)
        } else {
            None
        },
    decreases syms.len(),
{
    if i > 0 {
        let rest = syms.drop_first();
        assert(!(syms[0].defined && syms[0].name@ == name));
        assert forall|j: int| 0 <= j < i - 1 implies !((#[trigger] rest[j]).defined && rest[j].name@
            == name) by {
            assert(rest[j] == syms[j + 1]);
        }
        assert(i < syms.len() ==> rest[i - 1] == syms[i]);
        law_first_definition_counts(rest, name, i - 1);
    }
}

/// A symbol is looked for under its own name in every needed module that is
/// loaded, in the order in which they are needed. The linker is asked last, for
/// its own five functions alone, under the names that it has for them.
pub proof fn law_lookups_cover_the_needed_modules(
    paths: Seq<Option<String>>,
    name: Seq<char>,
    is_64: bool,
)
    ensures
        ({
            let found = paths.filter(|p: Option<String>| p is Some).map_values(
                |p: Option<String>| (p->0@, name),
            );
            let own = name == "dlopen"@ || name == "dlsym"@ || name == "dlerror"@ || name
                == "dl_iterate_phdr"@ || name == "dlclose"@;
            let lookups = symbol_lookups(paths, name, is_64);
            if own {
                lookups == found.push(
                    (
                        if is_64 {
                            "/system/bin/linker64"@
                        } else {
                            "/system/bin/linker"@
                        },
                        "__dl_"@ + name,
                    ),
                )
            } else {
                lookups == found
            }
        }),
{
    lemma_module_lookups(paths, name);
    reveal_strlit("__dl_");
    reveal_strlit("dlopen");
    reveal_strlit("dlsym");
    reveal_strlit("dlerror");
    reveal_strlit("dl_iterate_phdr");
    reveal_strlit("dlclose");
    reveal_strlit("__dl_dlopen");
    reveal_strlit("__dl_dlsym");
    reveal_strlit("__dl_dlerror");
    reveal_strlit("__dl_dl_iterate_phdr");
    reveal_strlit("__dl_dlclose");
    match linker_name(name) {
        Some(own) => {
            assert(own =~= "__dl_"@ + name);
        },
        None => {},
    }
}

proof fn lemma_module_lookups(paths: Seq<Option<String>>, name: Seq<char>)
    ensures
        module_lookups(paths, name) == paths.filter(|p: Option<String>| p is Some).map_values(
            |p: Option<String>| (p->0@, name),
        ),
    decreases paths.len(),
{
    reveal(Seq::filter);
    if paths.len() > 0 {
        lemma_module_lookups(paths.drop_last(), name);
    }
    assert(module_lookups(paths, name) =~= paths.filter(|p: Option<String>| p is Some).map_values(
        |p: Option<String>| (p->0@, name),
    ));
}

/// Every loaded segment is planned, in order, and nothing else is.
pub proof fn law_every_loaded_segment_is_planned(
    segs: Seq<Segment>,
    load_bias: usize,
    page: usize,
)
    ensures
        seg_plans(segs, load_bias, page) == segs.filter(|s: Segment| s.ptype == 1).map_values(
            |s: Segment| seg_plan(s, load_bias, page),
        ),
    decreases segs.len(),
{
    reveal(Seq::filter);
    if segs.len() > 0 {
        law_every_loaded_segment_is_planned(segs.drop_last(), load_bias, page);
    }
    assert(seg_plans(segs, load_bias, page) =~= segs.filter(|s: Segment| s.ptype == 1).map_values(
        |s: Segment| seg_plan(s, load_bias, page),
    ));
}

/// A segment's bytes go to its own address, moved by the load bias, and its
/// pages end up readable, writable and executable just as its flags say.
pub proof fn law_plan_follows_the_segment(seg: Segment, load_bias: usize, page: usize)
    requires
        load_bias + seg.vaddr <= usize::MAX,
        seg.offset <= usize::MAX,
        seg.filesz <= usize::MAX,
    ensures
        ({
            let plan = seg_plan(seg, load_bias, page);
            &&& plan.start == load_bias + seg.vaddr
            &&& plan.offset == seg.offset
            &&& plan.filesz == seg.filesz
            &&& 0 <= plan.prot < 8
            &&& (plan.prot % 2 == 1) == (seg.flags & 4 != 0)
            &&& (plan.prot / 2 % 2 == 1) == (seg.flags & 2 != 0)
            &&& (plan.prot / 4 == 1) == (seg.flags & 1 != 0)
        }),
{
}

/// A library is mapped step by step, each step reached only from the one before
/// and only where that succeeded: every segment is mapped and written, in order,
/// then the relocations are applied, then every segment is protected, and then
/// the entry is looked up.
pub proof fn law_load_order(phase: LoadPhase, ok: bool, reserved: Reservation, segments: usize)
    ensures
        ({
            let next = load_next(phase, ok, reserved, segments);
            &&& next != LoadPhase::Prepare
            &&& next == LoadPhase::FindGadget ==> phase == LoadPhase::Prepare && ok
            &&& next == LoadPhase::Reserve ==> phase == LoadPhase::FindGadget && ok
            &&& next is MapSegment ==> {
                let i = next->MapSegment_0;
                ||| phase == LoadPhase::Reserve && reserved is Good && i == 0 && segments > 0
                ||| i > 0 && phase == LoadPhase::WriteSegment((i - 1) as usize) && ok && i
                    < segments
            }
            &&& next is WriteSegment ==> phase == LoadPhase::MapSegment(next->WriteSegment_0) && ok
            &&& next == LoadPhase::Relocate ==> {
                ||| phase == LoadPhase::Reserve && reserved is Good && segments == 0
                ||| phase is WriteSegment && ok && phase->WriteSegment_0 + 1 >= segments
            }
            &&& next is Protect ==> {
                let i = next->Protect_0;
                ||| phase == LoadPhase::Relocate && ok && i == 0 && segments > 0
                ||| i > 0 && phase == LoadPhase::Protect((i - 1) as usize) && ok && i < segments
            }
            &&& next == LoadPhase::FindEntry ==> {
                ||| phase == LoadPhase::Relocate && ok && segments == 0
                ||| phase is Protect && ok && phase->Protect_0 + 1 >= segments
            }
            &&& next == LoadPhase::Done ==> phase == LoadPhase::Done || (phase
                == LoadPhase::FindEntry && ok)
            &&& next == LoadPhase::Unmap ==> {
                ||| phase == LoadPhase::Reserve && reserved is TooLow
                ||| !ok && holds_pages(phase)
            }
            &&& next == LoadPhase::Failed ==> {
                ||| phase == LoadPhase::Failed
                ||| phase == LoadPhase::Unmap
                ||| phase == LoadPhase::Reserve && reserved is Failed
                ||| !ok && (phase == LoadPhase::Prepare || phase == LoadPhase::FindGadget)
            }
        }),
{
}

/// A library is reserved above 4 GiB in a 64-bit process; what is lower there is
/// given back. Zero and the greatest number are no addresses.
pub proof fn law_reservation_is_judged(base: usize, is_64: bool, r: Reservation)
    requires
        call_ensures(check_reservation, (base, is_64), r),
    ensures
        r is Good ==> base != 0 && base != usize::MAX && (is_64 ==> base >= 0x1_0000_0000),
        r is TooLow ==> base != 0 && is_64 && base < 0x1_0000_0000,
        r is Failed <==> base == 0 || base == usize::MAX,
{
}

/// The entry of a mapped library is as far from its lowest page as in the file.
pub proof fn law_entry_moves_with_the_library(
    base: usize,
    min: usize,
    size: usize,
    value: u64,
    r: RemoteLoadResult,
)
    requires
        call_ensures(load_result, (base, min, size, value), r),
        min <= value <= usize::MAX,
        base + (value - min) <= usize::MAX,
    ensures
        r.base == base,
        r.total_size == size,
        r.entry - r.base == value - min,
{
}

/// The pages of a library are first reserved without access, above the lower
/// four gigabytes in a 64-bit process, and a segment then takes its place
/// within them with access to read and write.
pub proof fn law_segments_replace_the_reservation(
    map_size: i64,
    is_64: bool,
    page: i64,
    page_len: i64,
    reserve: Vec<i64>,
    segment: Vec<i64>,
)
    requires
        call_ensures(reserve_args, (map_size, is_64), reserve),
        call_ensures(segment_args, (page, page_len), segment),
    ensures
        reserve@.len() == 6,
        segment@.len() == 6,
        reserve@[1] == map_size,
        is_64 <==> reserve@[0] >= 0x1_0000_0000,
        !is_64 ==> reserve@[0] == 0,
        segment@[0] == page,
        segment@[1] == page_len,
        reserve@[2] == 0,
        segment@[2] == 1 + 2,
        reserve@[3] == 0x2 + 0x20,
        segment@[3] == reserve@[3] + 0x10,
        forall|i: int| 4 <= i < 6 ==> #[trigger] segment@[i] == reserve@[i],
        reserve@[4] == -1,
        reserve@[5] == 0,
{
}

/// A relocation is applied as far behind the load bias as its offset says.
pub proof fn law_targets_move_with_the_bias(a: usize, b: usize, offset: u64, ra: usize, rb: usize)
    requires
        a <= b,
        b + offset <= usize::MAX,
        call_ensures(relocation_target, (a, offset), ra),
        call_ensures(relocation_target, (b, offset), rb),
    ensures
        rb - ra == b - a,
        ra - a == offset,
{
}

/// The relocations are applied one by one: a failed write ends them, and so
/// does one that cannot be applied, which is no success; they succeed only
/// behind the last. What is written goes as far behind the load bias as the
/// relocation says.
pub proof fn law_relocations_end_in_order(
    isa: Isa,
    relocs: &Vec<LoadReloc>,
    next: usize,
    written: bool,
    bias: usize,
    sym: Option<usize>,
    word: Option<u32>,
    r: RelocStep,
)
    requires
        call_ensures(apply_relocations, (isa, relocs, next, written, bias, sym, word), r),
    ensures
        r == RelocStep::Over(true) <==> written && next >= relocs@.len(),
        r is Write ==> written && next < relocs@.len(),
        r is Write && bias + relocs@[next as int].offset <= usize::MAX ==> r->Write_0.addr == bias
            + relocs@[next as int].offset,
        written && next < relocs@.len() && names_a_symbol(
            isa,
            relocs@[next as int].has_addend,
            relocs@[next as int].rtype,
        ) && sym is None ==> r == RelocStep::Over(false),
        written && next < relocs@.len() && is_relative(
            isa,
            relocs@[next as int].has_addend,
            relocs@[next as int].rtype,
        ) && word is Some ==> r is Write,
{
    if next < relocs@.len() {
        let rel = relocs@[next as int];
        if names_a_symbol(isa, rel.has_addend, rel.rtype) {
            law_symbol_relocations_write_the_symbol(isa, rel, bias, 0, 0);
        } else if word is Some {
            law_relative_relocations_write_the_bias(isa, rel, bias, sym, word->0);
        }
    }
}

/// A symbol that the library defines has its own address, whatever modules it
/// needs; one without a name, or beyond the table, has none; and the hooks by
/// which unwinding code is registered may be missing.
pub proof fn law_own_symbols_come_first(
    syms: &Vec<DynSym>,
    paths: &Vec<Option<String>>,
    bias: usize,
    idx: u32,
    is_64: bool,
    r: SymbolPlan,
)
    requires
        call_ensures(resolve_symbol_addr, (syms, paths, bias, idx, is_64), r),
    ensures
        idx >= syms@.len() ==> r is Fail,
        idx < syms@.len() && syms@[idx as int].defined && bias + syms@[idx as int].value
            <= usize::MAX ==> r == SymbolPlan::At((bias + syms@[idx as int].value) as usize),
        idx < syms@.len() && !syms@[idx as int].defined && syms@[idx as int].name@.len() == 0 ==> r
            is Fail,
        idx < syms@.len() && !syms@[idx as int].defined && (syms@[idx as int].name@
            == "__register_frame"@ || syms@[idx as int].name@ == "__deregister_frame"@) ==> r
            == SymbolPlan::At(0),
        r is Search ==> idx < syms@.len() && !syms@[idx as int].defined,
        r is At && !syms@[idx as int].defined ==> r == SymbolPlan::At(0),
{
    reveal_strlit("__register_frame");
    reveal_strlit("__deregister_frame");
}

/// The bytes of a segment are those of the file from its offset on, all of
/// them; only a file that is too short for them has none.
pub proof fn law_segment_bytes_are_those_of_the_file(
    raw: &Vec<u8>,
    plan: &SegPlan,
    r: Option<&[u8]>,
)
    requires
        call_ensures(segment_bytes, (raw, plan), r),
    ensures
        plan.filesz == 0 ==> r is Some && r->0@.len() == 0,
        r is None <==> plan.filesz > 0 && plan.offset + plan.filesz > raw@.len(),
        r is Some ==> r->0@.len() == plan.filesz,
        r is Some ==> forall|i: int|
            0 <= i < plan.filesz ==> #[trigger] r->0@[i] == raw@[plan.offset + i],
{
}

} // verus!
