//! Where an image's slots are, and which protection their pages have.
use vstd::prelude::*;

use crate::elf::{
    ElfImage, Reloc, RelocKind, Segment, PF_R, PF_W, PF_X, PT_GNU_RELRO, PT_LOAD,
};
use crate::text::text_starts_with;

verus! {

/// Memory protection bits.
pub const PROT_READ: i32 = 1;

pub const PROT_WRITE: i32 = 2;

pub const PROT_EXEC: i32 = 4;

/// The start of the page that holds `addr`, for a page size that is a power of
/// two.
pub open spec fn page_floor(addr: usize, page: usize) -> usize {
    addr & !((page - 1) as usize)
}

/// The start of the page that holds `addr`.
pub fn page_start(addr: usize, page: usize) -> (r: usize)
    requires
        page >= 1,
    ensures
        r == page_floor(addr, page),
{
    addr & !(page - 1)
}

/// A page size is a power of two.
pub open spec fn is_page_size(page: usize) -> bool {
    page >= 1 && ((page - 1) as usize) & page == 0
}

/// A page starts at or below its addresses, and less than a page size below.
pub proof fn lemma_page_floor(addr: usize, page: usize)
    requires
        page >= 1,
    ensures
        page_floor(addr, page) <= addr,
        addr - page_floor(addr, page) < page,
{
    let m = (page - 1) as usize;
    assert((addr & !m) <= addr && addr - (addr & !m) <= m) by (bit_vector);
}

/// A higher address lies in no lower page.
pub proof fn lemma_page_floor_order(a: usize, b: usize, page: usize)
    requires
        is_page_size(page),
        a <= b,
    ensures
        page_floor(a, page) <= page_floor(b, page),
{
    let m = (page - 1) as usize;
    assert(a & !m <= b & !m) by (bit_vector)
        requires
            m & ((m + 1) as usize) == 0,
            a <= b,
    ;
}

/// Moving an address by whole pages moves its page by as much.
pub proof fn lemma_page_floor_shift(a: usize, by: usize, page: usize)
    requires
        is_page_size(page),
        page_floor(by, page) == by,
        a + by <= usize::MAX,
    ensures
        page_floor((a + by) as usize, page) == page_floor(a, page) + by,
{
    let m = (page - 1) as usize;
    assert(by & m == 0) by (bit_vector)
        requires
            by & !m == by,
    ;
    assert(((a + by) as usize) & !m == (a & !m) + by) by (bit_vector)
        requires
            m & ((m + 1) as usize) == 0,
            by & m == 0,
            ((a + by) as usize) == a + by,
    ;
}

/// The start of a page is the start of its own page.
pub proof fn lemma_page_floor_twice(addr: usize, page: usize)
    requires
        page >= 1,
    ensures
        page_floor(page_floor(addr, page), page) == page_floor(addr, page),
{
    let m = (page - 1) as usize;
    assert((addr & !m) & !m == addr & !m) by (bit_vector);
}

/// Two page boundaries are at least a page apart.
proof fn lemma_page_gap(a: usize, b: usize, page: usize)
    requires
        is_page_size(page),
        page_floor(a, page) == a,
        page_floor(b, page) == b,
        a < b,
    ensures
        a + page <= b,
{
    let m = (page - 1) as usize;
    assert(b - a > m) by (bit_vector)
        requires
            m & ((m + 1) as usize) == 0,
            a & !m == a,
            b & !m == b,
            a < b,
    ;
}

/// The page size in use: what the system reports, or 4096 where it reports
/// none.
pub fn page_size(reported: i64) -> (r: usize)
    ensures
        r == if reported <= 0 {
            4096
        } else {
            reported as usize
        },
{
    if reported <= 0 {
        4096
    } else {
        reported as usize
    }
}

/// A loaded segment that starts the file and lies at or below `base`.
pub open spec fn starts_file(seg: Segment, base: usize) -> bool {
    seg.ptype == PT_LOAD && seg.offset == 0 && base >= seg.vaddr as usize
}

/// The load bias: that of the last segment that starts the file, or `base`
/// where none does.
pub open spec fn bias_of(segs: Seq<Segment>, base: usize) -> usize
    decreases segs.len(),
{
    if segs.len() == 0 {
        base
    } else if starts_file(segs.last(), base) {
        (base - (segs.last().vaddr as usize)) as usize
    } else {
        bias_of(segs.drop_last(), base)
    }
}

/// The load bias of an image whose ELF header stands at `base_addr`.
pub fn bias_addr_for(img: &ElfImage, base_addr: usize) -> (bias: usize)
    ensures
        bias == bias_of(img.segments@, base_addr),
{
    let mut bias: usize = base_addr;
    let mut i: usize = 0;
    while i < img.segments.len()
        invariant
            i <= img.segments@.len(),
            bias == bias_of(img.segments@.take(i as int), base_addr),
        decreases img.segments@.len() - i,
    {
        assert(img.segments@.take(i + 1).drop_last() =~= img.segments@.take(i as int));
        let seg = img.segments[i];
        if seg.ptype == PT_LOAD && seg.offset == 0 && base_addr >= seg.vaddr as usize {
            bias = base_addr - seg.vaddr as usize;
        }
        i = i + 1;
    }
    assert(img.segments@.take(i as int) =~= img.segments@);
    bias
}

/// The first address of a segment in the process.
pub open spec fn seg_start(seg: Segment, bias: usize) -> usize {
    bias.wrapping_add(seg.vaddr as usize)
}

/// The address after a segment's last byte; sums wrap.
pub open spec fn seg_end(seg: Segment, bias: usize) -> usize {
    seg_start(seg, bias).wrapping_add(seg.memsz as usize)
}

/// A segment of the given type occupies `addr`.
pub open spec fn occupies(seg: Segment, ptype: u32, bias: usize, addr: usize) -> bool {
    &&& seg.ptype == ptype
    &&& seg.memsz != 0
    &&& seg_start(seg, bias) <= addr < seg_end(seg, bias)
}

/// The first segment of the given type that occupies `addr`.
pub open spec fn first_occupying(
    segs: Seq<Segment>,
    ptype: u32,
    bias: usize,
    addr: usize,
) -> Option<Segment>
    decreases segs.len(),
{
    if segs.len() == 0 {
        None
    } else if occupies(segs[0], ptype, bias, addr) {
        Some(segs[0])
    } else {
        first_occupying(segs.drop_first(), ptype, bias, addr)
    }
}

/// The protection that a segment's permission bits ask for.
pub open spec fn prot_of(flags: u32) -> int {
    (if flags & PF_R != 0 {
        PROT_READ as int
    } else {
        0
    }) + (if flags & PF_W != 0 {
        PROT_WRITE as int
    } else {
        0
    }) + (if flags & PF_X != 0 {
        PROT_EXEC as int
    } else {
        0
    })
}

/// The protection of the page at `addr`: that of the first loaded segment that
/// occupies it, without write permission inside a read-only-after-relocation
/// segment; `None` outside of the image or where nothing is permitted.
pub open spec fn protection_at(segs: Seq<Segment>, bias: usize, addr: usize) -> Option<i32> {
    match first_occupying(segs, PT_LOAD, bias, addr) {
        None => None,
        Some(seg) => {
            let prot = prot_of(seg.flags);
            if prot == 0 {
                None
            } else if seg.flags & PF_W != 0 && first_occupying(
                segs,
                PT_GNU_RELRO,
                bias,
                addr,
            ) is Some {
                Some((prot - PROT_WRITE) as i32)
            } else {
                Some(prot as i32)
            }
        },
    }
}

/// The first segment of a type that occupies an address.
fn find_occupying(img: &ElfImage, ptype: u32, bias_addr: usize, addr: usize) -> (r: Option<Segment>)
    ensures
        r == first_occupying(img.segments@, ptype, bias_addr, addr),
{
    let mut i: usize = 0;
    assert(img.segments@.skip(0) =~= img.segments@);
    while i < img.segments.len()
        invariant
            i <= img.segments@.len(),
            first_occupying(img.segments@, ptype, bias_addr, addr) == first_occupying(
                img.segments@.skip(i as int),
                ptype,
                bias_addr,
                addr,
            ),
        decreases img.segments@.len() - i,
    {
        assert(img.segments@.skip(i as int).drop_first() =~= img.segments@.skip(i + 1));
        let seg = img.segments[i];
        if seg.ptype == ptype && seg.memsz != 0 {
            let start: usize = bias_addr.wrapping_add(seg.vaddr as usize);
            let end: usize = start.wrapping_add(seg.memsz as usize);
            if start <= addr && addr < end {
                return Some(seg);
            }
        }
        i = i + 1;
    }
    None
}

/// The protection of the page at `addr`, as the image's headers give it.
pub fn get_addr_protection(img: &ElfImage, bias_addr: usize, addr: usize) -> (r: Option<i32>)
    ensures
        r == protection_at(img.segments@, bias_addr, addr),
{
    let seg = match find_occupying(img, PT_LOAD, bias_addr, addr) {
        Some(seg) => seg,
        None => {
            return None;
        },
    };
    let mut prot: i32 = 0;
    if seg.flags & PF_R != 0 {
        prot = prot + PROT_READ;
    }
    if seg.flags & PF_W != 0 {
        prot = prot + PROT_WRITE;
    }
    if seg.flags & PF_X != 0 {
        prot = prot + PROT_EXEC;
    }
    if prot == 0 {
        return None;
    }
    if seg.flags & PF_W != 0 && find_occupying(img, PT_GNU_RELRO, bias_addr, addr).is_some() {
        prot = prot - PROT_WRITE;
    }
    Some(prot)
}

/// The first page of a segment.
pub open spec fn first_page(seg: Segment, bias: usize, page: usize) -> usize {
    page_floor(seg_start(seg, bias), page)
}

/// The page after a segment's last one; sums wrap.
pub open spec fn end_page(seg: Segment, bias: usize, page: usize) -> usize {
    page_floor(seg_end(seg, bias).wrapping_add((page - 1) as usize), page)
}

/// The pages of a segment of the given type hold `addr`.
pub open spec fn pages_hold(
    seg: Segment,
    ptype: u32,
    bias: usize,
    addr: usize,
    page: usize,
) -> bool {
    &&& seg.ptype == ptype
    &&& seg.memsz != 0
    &&& first_page(seg, bias, page) <= addr < end_page(seg, bias, page)
}

/// The first segment of a type whose pages hold `addr`.
pub open spec fn first_holding(
    segs: Seq<Segment>,
    ptype: u32,
    bias: usize,
    addr: usize,
    page: usize,
) -> Option<Segment>
    decreases segs.len(),
{
    if segs.len() == 0 {
        None
    } else if pages_hold(segs[0], ptype, bias, addr, page) {
        Some(segs[0])
    } else {
        first_holding(segs.drop_first(), ptype, bias, addr, page)
    }
}

/// The last segment of a type whose pages hold `addr`.
pub open spec fn last_holding(
    segs: Seq<Segment>,
    ptype: u32,
    bias: usize,
    addr: usize,
    page: usize,
) -> Option<Segment>
    decreases segs.len(),
{
    if segs.len() == 0 {
        None
    } else if pages_hold(segs.last(), ptype, bias, addr, page) {
        Some(segs.last())
    } else {
        last_holding(segs.drop_last(), ptype, bias, addr, page)
    }
}

/// A segment's first page and the length of its pages, or `None` where the
/// first page is the zero page.
pub open spec fn page_range(seg: Segment, bias: usize, page: usize) -> Option<(usize, usize)> {
    let s = first_page(seg, bias, page);
    let e = end_page(seg, bias, page);
    if s == 0 {
        None
    } else {
        Some((s, (e - s) as usize))
    }
}

/// The page range to replace when a slot at `addr` changes: that of the first
/// read-only-after-relocation segment that holds `addr`, else that of the last
/// loaded segment that holds it. `None` where no segment does, or where the
/// range starts at address zero.
pub open spec fn vma_bounds(
    segs: Seq<Segment>,
    bias: usize,
    addr: usize,
    page: usize,
) -> Option<(usize, usize)> {
    match first_holding(segs, PT_GNU_RELRO, bias, addr, page) {
        Some(seg) => page_range(seg, bias, page),
        None => match last_holding(segs, PT_LOAD, bias, addr, page) {
            Some(seg) => page_range(seg, bias, page),
            None => None,
        },
    }
}

/// The page range that has to be replaced when a slot at `addr` changes.
pub fn get_vma_boundaries(
    img: &ElfImage,
    bias_addr: usize,
    addr: usize,
    page_size: usize,
) -> (r: Option<(usize, usize)>)
    requires
        page_size >= 1,
    ensures
        r == vma_bounds(img.segments@, bias_addr, addr, page_size),
{
    let mut result: Option<(usize, usize)> = None;
    let mut i: usize = 0;
    assert(img.segments@.skip(0) =~= img.segments@);
    while i < img.segments.len()
        invariant
            i <= img.segments@.len(),
            page_size >= 1,
            first_holding(img.segments@, PT_GNU_RELRO, bias_addr, addr, page_size)
                == first_holding(
                img.segments@.skip(i as int),
                PT_GNU_RELRO,
                bias_addr,
                addr,
                page_size,
            ),
            match last_holding(
                img.segments@.take(i as int),
                PT_LOAD,
                bias_addr,
                addr,
                page_size,
            ) {
                None => result is None,
                Some(seg) => result == Some(
                    (
                        first_page(seg, bias_addr, page_size),
                        (end_page(seg, bias_addr, page_size) - first_page(
                            seg,
                            bias_addr,
                            page_size,
                        )) as usize,
                    ),
                ),
            },
        decreases img.segments@.len() - i,
    {
        assert(img.segments@.skip(i as int).drop_first() =~= img.segments@.skip(i + 1));
        assert(img.segments@.take(i + 1).drop_last() =~= img.segments@.take(i as int));
        let seg = img.segments[i];
        if (seg.ptype == PT_GNU_RELRO || seg.ptype == PT_LOAD) && seg.memsz != 0 {
            let start: usize = bias_addr.wrapping_add(seg.vaddr as usize);
            let s: usize = page_start(start, page_size);
            let e: usize = page_start(
                start.wrapping_add(seg.memsz as usize).wrapping_add(page_size - 1),
                page_size,
            );
            if s <= addr && addr < e {
                if seg.ptype == PT_GNU_RELRO {
                    if s == 0 {
                        return None;
                    }
                    return Some((s, e - s));
                }
                result = Some((s, e - s));
            }
        }
        i = i + 1;
    }
    assert(img.segments@.take(i as int) =~= img.segments@);
    match result {
        Some((s, n)) => if s == 0 {
            None
        } else {
            Some((s, n))
        },
        None => None,
    }
}

/// What a relocation's symbol has to be.
pub enum SymbolMatch<'a> {
    /// The dynamic symbol with this index.
    Index(u32),
    /// Any named symbol that begins with this prefix.
    Prefix(&'a str),
}

/// A relocation refers to a symbol that is asked for.
pub open spec fn symbol_matches(img: &ElfImage, want: SymbolMatch, rel: Reloc) -> bool {
    match want {
        SymbolMatch::Index(idx) => rel.sym_idx == idx,
        SymbolMatch::Prefix(prefix) => {
            &&& (rel.sym_idx as int) < img.symbols@.len()
            &&& img.symbols@[rel.sym_idx as int]@.len() > 0
            &&& crate::text::has_head(img.symbols@[rel.sym_idx as int]@, prefix@)
        },
    }
}

/// A relocation's family belongs into its table: jump slots into the PLT
/// table, absolute and global data relocations into the others.
pub open spec fn family_fits(kind: RelocKind, is_plt: bool) -> bool {
    if is_plt {
        kind == RelocKind::JumpSlot
    } else {
        kind == RelocKind::Absolute || kind == RelocKind::GlobDat
    }
}

/// The address of a relocation's slot.
pub open spec fn slot_addr(rel: Reloc, bias: usize) -> usize {
    bias.wrapping_add(rel.offset as usize)
}

/// A relocation whose slot is to be hooked: the symbol and the family fit, and
/// the slot lies above the image's base.
pub open spec fn wanted(
    img: &ElfImage,
    bias: usize,
    base: usize,
    want: SymbolMatch,
    is_plt: bool,
    rel: Reloc,
) -> bool {
    &&& symbol_matches(img, want, rel)
    &&& family_fits(rel.kind, is_plt)
    &&& slot_addr(rel, bias) > base
}

/// The slots of the wanted relocations of a table, in table order.
pub open spec fn slots_of(
    img: &ElfImage,
    bias: usize,
    base: usize,
    want: SymbolMatch,
    is_plt: bool,
    table: Seq<Reloc>,
) -> Seq<usize>
    decreases table.len(),
{
    if table.len() == 0 {
        seq![]
    } else {
        let rest = slots_of(img, bias, base, want, is_plt, table.drop_last());
        if wanted(img, bias, base, want, is_plt, table.last()) {
            rest.push(slot_addr(table.last(), bias))
        } else {
            rest
        }
    }
}

/// At most the first item.
pub open spec fn at_most_one(s: Seq<usize>) -> Seq<usize> {
    if s.len() == 0 {
        s
    } else {
        seq![s[0]]
    }
}

proof fn lemma_slots_of_prefix(
    img: &ElfImage,
    bias: usize,
    base: usize,
    want: SymbolMatch,
    is_plt: bool,
    table: Seq<Reloc>,
    n: int,
)
    requires
        0 <= n <= table.len(),
        slots_of(img, bias, base, want, is_plt, table.take(n)).len() > 0,
    ensures
        slots_of(img, bias, base, want, is_plt, table).len() > 0,
        slots_of(img, bias, base, want, is_plt, table)[0] == slots_of(
            img,
            bias,
            base,
            want,
            is_plt,
            table.take(n),
        )[0],
    decreases table.len(),
{
    if n == table.len() {
        assert(table.take(n) =~= table);
    } else {
        assert(table.drop_last().take(n) =~= table.take(n));
        lemma_slots_of_prefix(img, bias, base, want, is_plt, table.drop_last(), n);
    }
}

/// Appends the slots of a table's wanted relocations, or only the first one.
fn collect_relocs(
    img: &ElfImage,
    bias_addr: usize,
    base_addr: usize,
    want: &SymbolMatch,
    table: &Vec<Reloc>,
    is_plt: bool,
    stop_on_first_match: bool,
    out: &mut Vec<usize>,
)
    ensures
        final(out)@ == old(out)@ + if stop_on_first_match {
            at_most_one(slots_of(img, bias_addr, base_addr, *want, is_plt, table@))
        } else {
            slots_of(img, bias_addr, base_addr, *want, is_plt, table@)
        },
{
    let mut i: usize = 0;
    while i < table.len()
        invariant
            i <= table@.len(),
            out@ == old(out)@ + slots_of(
                img,
                bias_addr,
                base_addr,
                *want,
                is_plt,
                table@.take(i as int),
            ),
            stop_on_first_match ==> out@ == old(out)@,
        decreases table@.len() - i,
    {
        assert(table@.take(i + 1).drop_last() =~= table@.take(i as int));
        let rel = table[i];
        let symbol_ok = match want {
            SymbolMatch::Index(idx) => rel.sym_idx == *idx,
            SymbolMatch::Prefix(prefix) => {
                let at: usize = rel.sym_idx as usize;
                at < img.symbols.len() && !img.symbols[at].as_str().is_empty() && text_starts_with(
                    img.symbols[at].as_str(),
                    prefix,
                )
            },
        };
        let family_ok = if is_plt {
            rel.kind == RelocKind::JumpSlot
        } else {
            rel.kind == RelocKind::Absolute || rel.kind == RelocKind::GlobDat
        };
        let addr: usize = bias_addr.wrapping_add(rel.offset as usize);
        if symbol_ok && family_ok && addr > base_addr {
            out.push(addr);
            if stop_on_first_match {
                proof {
                    lemma_slots_of_prefix(
                        img,
                        bias_addr,
                        base_addr,
                        *want,
                        is_plt,
                        table@,
                        i + 1,
                    );
                    let upto = slots_of(
                        img,
                        bias_addr,
                        base_addr,
                        *want,
                        is_plt,
                        table@.take(i + 1),
                    );
                    assert(old(out)@ + slots_of(
                        img,
                        bias_addr,
                        base_addr,
                        *want,
                        is_plt,
                        table@.take(i as int),
                    ) =~= old(out)@);
                    assert(slots_of(
                        img,
                        bias_addr,
                        base_addr,
                        *want,
                        is_plt,
                        table@.take(i as int),
                    ).len() == 0);
                    assert(upto[0] == addr);
                    assert(out@ =~= old(out)@ + at_most_one(
                        slots_of(img, bias_addr, base_addr, *want, is_plt, table@),
                    ));
                }
                return;
            }
        }
        assert(out@ =~= old(out)@ + slots_of(
            img,
            bias_addr,
            base_addr,
            *want,
            is_plt,
            table@.take(i + 1),
        ));
        i = i + 1;
    }
    assert(table@.take(i as int) =~= table@);
    assert(out@ =~= old(out)@ + slots_of(img, bias_addr, base_addr, *want, is_plt, table@));
}

/// The slots of all three tables for one symbol match: at most one of the PLT
/// table where `one_plt_slot`, then those of the ordinary and of the packed
/// table.
pub open spec fn all_slots(
    img: &ElfImage,
    bias: usize,
    base: usize,
    want: SymbolMatch,
    one_plt_slot: bool,
) -> Seq<usize> {
    match img.relocations {
        None => seq![],
        Some(t) => {
            let plt = slots_of(img, bias, base, want, true, t.plt@);
            (if one_plt_slot {
                at_most_one(plt)
            } else {
                plt
            }) + slots_of(img, bias, base, want, false, t.rel@) + slots_of(
                img,
                bias,
                base,
                want,
                false,
                t.android@,
            )
        },
    }
}

/// The slots through which a function is called: for an exact name none where
/// the name does not resolve, else at most one PLT slot and every other slot;
/// for a prefix the slots of every named symbol that begins with it.
pub open spec fn plt_slots(
    img: &ElfImage,
    bias: usize,
    base: usize,
    name: &str,
    by_prefix: bool,
) -> Seq<usize> {
    if by_prefix {
        all_slots(img, bias, base, SymbolMatch::Prefix(name), false)
    } else {
        match crate::elf::named_index(img.names@, name@) {
            None => seq![],
            Some(idx) => all_slots(img, bias, base, SymbolMatch::Index(idx as u32), true),
        }
    }
}

/// The slots through which calls to `name` go.
pub fn find_plt_addrs(
    img: &ElfImage,
    bias_addr: usize,
    base_addr: usize,
    name: &str,
    by_prefix: bool,
) -> (out: Vec<usize>)
    ensures
        out@ == plt_slots(img, bias_addr, base_addr, name, by_prefix),
{
    let mut out: Vec<usize> = Vec::new();
    let tables = match &img.relocations {
        Some(t) => t,
        None => {
            return out;
        },
    };
    let want = if by_prefix {
        SymbolMatch::Prefix(name)
    } else {
        match img.dynsym_index_by_name(name) {
            Some(idx) => SymbolMatch::Index(idx as u32),
            None => {
                return out;
            },
        }
    };
    collect_relocs(img, bias_addr, base_addr, &want, &tables.plt, true, !by_prefix, &mut out);
    collect_relocs(img, bias_addr, base_addr, &want, &tables.rel, false, false, &mut out);
    collect_relocs(img, bias_addr, base_addr, &want, &tables.android, false, false, &mut out);
    assert(out@ =~= plt_slots(img, bias_addr, base_addr, name, by_prefix));
    out
}

/// Some loaded segment occupies `pc`; unlike for data, an empty one is not
/// left out, since it occupies nothing.
pub open spec fn executes_in(segs: Seq<Segment>, bias: usize, pc: usize) -> bool {
    exists|i: int|
        0 <= i < segs.len() && (#[trigger] segs[i]).ptype == PT_LOAD && seg_start(segs[i], bias)
            <= pc < seg_end(segs[i], bias)
}

/// Whether the code at `pc` belongs to the image.
pub fn is_self_elf(img: &ElfImage, bias_addr: usize, pc: usize) -> (r: bool)
    ensures
        r == executes_in(img.segments@, bias_addr, pc),
{
    let mut i: usize = 0;
    while i < img.segments.len()
        invariant
            i <= img.segments@.len(),
            forall|j: int|
                0 <= j < i ==> !((#[trigger] img.segments@[j]).ptype == PT_LOAD && seg_start(
                    img.segments@[j],
                    bias_addr,
                ) <= pc < seg_end(img.segments@[j], bias_addr)),
        decreases img.segments@.len() - i,
    {
        let seg = img.segments[i];
        let start: usize = bias_addr.wrapping_add(seg.vaddr as usize);
        let end: usize = start.wrapping_add(seg.memsz as usize);
        if seg.ptype == PT_LOAD && pc >= start && pc < end {
            assert(img.segments@[i as int].ptype == PT_LOAD);
            return true;
        }
        i = i + 1;
    }
    false
}

/// The slots of a table's wanted relocations, all of them and in table order.
pub open spec fn table_slots(
    img: &ElfImage,
    bias: usize,
    base: usize,
    want: SymbolMatch,
    is_plt: bool,
    table: Seq<Reloc>,
) -> Seq<usize> {
    table.filter(|rel: Reloc| wanted(img, bias, base, want, is_plt, rel)).map_values(
        |rel: Reloc| slot_addr(rel, bias),
    )
}

proof fn lemma_table_slots(
    img: &ElfImage,
    bias: usize,
    base: usize,
    want: SymbolMatch,
    is_plt: bool,
    table: Seq<Reloc>,
)
    ensures
        slots_of(img, bias, base, want, is_plt, table) == table_slots(
            img,
            bias,
            base,
            want,
            is_plt,
            table,
        ),
    decreases table.len(),
{
    reveal(Seq::filter);
    if table.len() > 0 {
        lemma_table_slots(img, bias, base, want, is_plt, table.drop_last());
    }
    assert(slots_of(img, bias, base, want, is_plt, table) =~= table_slots(
        img,
        bias,
        base,
        want,
        is_plt,
        table,
    ));
}

/// The slots come in the order of the tables: PLT, ordinary, packed. A prefix
/// takes the slot of every relocation that is wanted; an exact name takes at
/// most one slot of the PLT table, and none at all where it does not resolve.
pub proof fn law_slots_in_table_order(img: &ElfImage, bias: usize, base: usize, name: &str)
    requires
        img.relocations is Some,
    ensures
        ({
            let t = img.relocations->0;
            let want = SymbolMatch::Prefix(name);
            plt_slots(img, bias, base, name, true) == table_slots(img, bias, base, want, true, t.plt@)
                + table_slots(img, bias, base, want, false, t.rel@) + table_slots(
                img,
                bias,
                base,
                want,
                false,
                t.android@,
            )
        }),
        match crate::elf::named_index(img.names@, name@) {
            None => plt_slots(img, bias, base, name, false).len() == 0,
            Some(idx) => {
                let t = img.relocations->0;
                let want = SymbolMatch::Index(idx as u32);
                let plt = at_most_one(table_slots(img, bias, base, want, true, t.plt@));
                &&& plt.len() <= 1
                &&& plt_slots(img, bias, base, name, false) == plt + table_slots(
                    img,
                    bias,
                    base,
                    want,
                    false,
                    t.rel@,
                ) + table_slots(img, bias, base, want, false, t.android@)
            },
        },
{
    let t = img.relocations->0;
    let want = SymbolMatch::Prefix(name);
    lemma_table_slots(img, bias, base, want, true, t.plt@);
    lemma_table_slots(img, bias, base, want, false, t.rel@);
    lemma_table_slots(img, bias, base, want, false, t.android@);
    if let Some(idx) = crate::elf::named_index(img.names@, name@) {
        let want = SymbolMatch::Index(idx as u32);
        lemma_table_slots(img, bias, base, want, true, t.plt@);
        lemma_table_slots(img, bias, base, want, false, t.rel@);
        lemma_table_slots(img, bias, base, want, false, t.android@);
    }
}

proof fn lemma_more_slots(
    img: &ElfImage,
    bias: usize,
    base: usize,
    narrow: SymbolMatch,
    wide: SymbolMatch,
    is_plt: bool,
    table: Seq<Reloc>,
    i: int,
)
    requires
        forall|rel: Reloc| #[trigger]
            symbol_matches(img, narrow, rel) ==> symbol_matches(img, wide, rel),
        0 <= i < slots_of(img, bias, base, narrow, is_plt, table).len(),
    ensures
        slots_of(img, bias, base, wide, is_plt, table).contains(
            slots_of(img, bias, base, narrow, is_plt, table)[i],
        ),
    decreases table.len(),
{
    let rest = table.drop_last();
    let few = slots_of(img, bias, base, narrow, is_plt, rest);
    let many = slots_of(img, bias, base, wide, is_plt, rest);
    let all = slots_of(img, bias, base, wide, is_plt, table);
    if i < few.len() {
        lemma_more_slots(img, bias, base, narrow, wide, is_plt, rest, i);
        let k = choose|k: int| 0 <= k < many.len() && many[k] == few[i];
        assert(all[k] == few[i]);
    } else {
        assert(symbol_matches(img, narrow, table.last()));
        assert(all[many.len() as int] == slot_addr(table.last(), bias));
    }
}

/// What an exact name finds, the name as a prefix finds too.
pub proof fn law_exact_slots_are_prefix_slots(
    img: &ElfImage,
    bias: usize,
    base: usize,
    name: &str,
    i: int,
)
    requires
        img.wf(),
        name@.len() > 0,
        0 <= i < plt_slots(img, bias, base, name, false).len(),
    ensures
        plt_slots(img, bias, base, name, true).contains(
            plt_slots(img, bias, base, name, false)[i],
        ),
{
    let idx = crate::elf::named_index(img.names@, name@)->0;
    let narrow = SymbolMatch::Index(idx as u32);
    let wide = SymbolMatch::Prefix(name);
    crate::elf::lemma_named_index(img.names@, name@);
    assert(img.symbols@[idx as int]@ == name@);
    assert(name@.subrange(0, name@.len() as int) =~= name@);
    assert forall|rel: Reloc| #[trigger]
        symbol_matches(img, narrow, rel) implies symbol_matches(img, wide, rel) by {}
    let t = img.relocations->0;
    let (plt, rel, packed) = (
        slots_of(img, bias, base, narrow, true, t.plt@),
        slots_of(img, bias, base, narrow, false, t.rel@),
        slots_of(img, bias, base, narrow, false, t.android@),
    );
    let (plt_p, rel_p, packed_p) = (
        slots_of(img, bias, base, wide, true, t.plt@),
        slots_of(img, bias, base, wide, false, t.rel@),
        slots_of(img, bias, base, wide, false, t.android@),
    );
    let x = plt_slots(img, bias, base, name, false)[i];
    let all = plt_slots(img, bias, base, name, true);
    let n = at_most_one(plt).len();
    if i < n {
        lemma_more_slots(img, bias, base, narrow, wide, true, t.plt@, 0);
        let k = choose|k: int| 0 <= k < plt_p.len() && plt_p[k] == x;
        assert(all[k] == x);
    } else if i < n + rel.len() {
        lemma_more_slots(img, bias, base, narrow, wide, false, t.rel@, i - n);
        let k = choose|k: int| 0 <= k < rel_p.len() && rel_p[k] == x;
        assert(all[plt_p.len() + k] == x);
    } else {
        lemma_more_slots(img, bias, base, narrow, wide, false, t.android@, i - n - rel.len());
        let k = choose|k: int| 0 <= k < packed_p.len() && packed_p[k] == x;
        assert(all[plt_p.len() + rel_p.len() + k] == x);
    }
}

/// Every slot that hooking finds lies above the image's base.
pub proof fn law_slots_above_base(
    img: &ElfImage,
    bias: usize,
    base: usize,
    name: &str,
    by_prefix: bool,
    i: int,
)
    requires
        0 <= i < plt_slots(img, bias, base, name, by_prefix).len(),
    ensures
        plt_slots(img, bias, base, name, by_prefix)[i] > base,
{
    if let Some(t) = img.relocations {
        if by_prefix {
            let want = SymbolMatch::Prefix(name);
            lemma_slots_above(img, bias, base, want, true, t.plt@);
            lemma_slots_above(img, bias, base, want, false, t.rel@);
            lemma_slots_above(img, bias, base, want, false, t.android@);
        } else if let Some(idx) = crate::elf::named_index(img.names@, name@) {
            let want = SymbolMatch::Index(idx as u32);
            lemma_slots_above(img, bias, base, want, true, t.plt@);
            lemma_slots_above(img, bias, base, want, false, t.rel@);
            lemma_slots_above(img, bias, base, want, false, t.android@);
        }
    }
}

proof fn lemma_slots_above(
    img: &ElfImage,
    bias: usize,
    base: usize,
    want: SymbolMatch,
    is_plt: bool,
    table: Seq<Reloc>,
)
    ensures
        forall|i: int|
            0 <= i < slots_of(img, bias, base, want, is_plt, table).len() ==> #[trigger] slots_of(
                img,
                bias,
                base,
                want,
                is_plt,
                table,
            )[i] > base,
    decreases table.len(),
{
    if table.len() > 0 {
        lemma_slots_above(img, bias, base, want, is_plt, table.drop_last());
        let rest = slots_of(img, bias, base, want, is_plt, table.drop_last());
        let all = slots_of(img, bias, base, want, is_plt, table);
        assert forall|i: int| 0 <= i < all.len() implies #[trigger] all[i] > base by {
            if i < rest.len() {
                assert(all[i] == rest[i]);
            }
        }
    }
}

/// An address that a read-only-after-relocation segment occupies is never
/// writable.
pub proof fn law_relro_is_read_only(segs: Seq<Segment>, bias: usize, addr: usize)
    requires
        first_occupying(segs, PT_GNU_RELRO, bias, addr) is Some,
    ensures
        protection_at(segs, bias, addr) matches Some(prot) ==> prot == PROT_READ || prot
            == PROT_EXEC || prot == PROT_READ + PROT_EXEC || prot == 0,
{
}

proof fn lemma_held(segs: Seq<Segment>, ptype: u32, bias: usize, addr: usize, page: usize)
    ensures
        first_holding(segs, ptype, bias, addr, page) matches Some(seg) ==> pages_hold(
            seg,
            ptype,
            bias,
            addr,
            page,
        ),
        last_holding(segs, ptype, bias, addr, page) matches Some(seg) ==> pages_hold(
            seg,
            ptype,
            bias,
            addr,
            page,
        ),
    decreases segs.len(),
{
    if segs.len() > 0 {
        lemma_held(segs.drop_first(), ptype, bias, addr, page);
        lemma_held(segs.drop_last(), ptype, bias, addr, page);
    }
}

/// The range that is replaced for a slot consists of whole pages, and the whole
/// page of the slot is in it.
pub proof fn law_replaced_range_holds_the_slot(
    segs: Seq<Segment>,
    bias: usize,
    addr: usize,
    page: usize,
)
    requires
        is_page_size(page),
        vma_bounds(segs, bias, addr, page) is Some,
    ensures
        ({
            let (start, len) = vma_bounds(segs, bias, addr, page)->0;
            &&& page_floor(start, page) == start
            &&& start + len <= usize::MAX
            &&& page_floor((start + len) as usize, page) == start + len
            &&& start <= page_floor(addr, page)
            &&& page_floor(addr, page) + page <= start + len
        }),
{
    lemma_held(segs, PT_GNU_RELRO, bias, addr, page);
    lemma_held(segs, PT_LOAD, bias, addr, page);
    let seg = match first_holding(segs, PT_GNU_RELRO, bias, addr, page) {
        Some(seg) => seg,
        None => last_holding(segs, PT_LOAD, bias, addr, page)->0,
    };
    let start = first_page(seg, bias, page);
    let end = end_page(seg, bias, page);
    assert(start <= addr < end);
    lemma_page_floor_twice(seg_start(seg, bias), page);
    lemma_page_floor_twice(seg_end(seg, bias).wrapping_add((page - 1) as usize), page);
    lemma_page_floor_twice(addr, page);
    lemma_page_floor(addr, page);
    lemma_page_floor_order(start, addr, page);
    lemma_page_gap(page_floor(addr, page), end, page);
}

/// The load bias is how far the last loaded segment that starts the file, and is
/// not above the image, was moved; without one it is the image's own address.
pub proof fn law_bias_is_of_the_last_start(segs: Seq<Segment>, base: usize, i: int)
    requires
        -1 <= i < segs.len(),
        i >= 0 ==> segs[i].ptype == 1 && segs[i].offset == 0 && segs[i].vaddr <= usize::MAX
            && segs[i].vaddr <= base,
        forall|j: int|
            i < j < segs.len() ==> (#[trigger] segs[j]).ptype != 1 || segs[j].offset != 0
                || segs[j].vaddr as usize > base,
    ensures
        i >= 0 ==> bias_of(segs, base) + segs[i].vaddr == base,
        i < 0 ==> bias_of(segs, base) == base,
    decreases segs.len(),
{
    if segs.len() > 0 && i < segs.len() - 1 {
        let rest = segs.drop_last();
        assert(segs[segs.len() - 1].ptype != 1 || segs[segs.len() - 1].offset != 0
            || segs[segs.len() - 1].vaddr as usize > base);
        assert forall|j: int| i < j < rest.len() implies (#[trigger] rest[j]).ptype != 1
            || rest[j].offset != 0 || rest[j].vaddr as usize > base by {
            assert(rest[j] == segs[j]);
        }
        assert(i >= 0 ==> rest[i] == segs[i]);
        law_bias_is_of_the_last_start(rest, base, i);
    }
}

proof fn lemma_first_occupying(segs: Seq<Segment>, ptype: u32, bias: usize, addr: usize, i: int)
    requires
        0 <= i <= segs.len(),
        i < segs.len() ==> occupies(segs[i], ptype, bias, addr),
        forall|j: int| 0 <= j < i ==> !occupies(#[trigger] segs[j], ptype, bias, addr),
    ensures
        first_occupying(segs, ptype, bias, addr) == if i < segs.len() {
            Some(segs[i])
        } else {
            None
        },
    decreases segs.len(),
{
    if i > 0 {
        let rest = segs.drop_first();
        assert(!occupies(segs[0], ptype, bias, addr));
        assert forall|j: int| 0 <= j < i - 1 implies !occupies(
            #[trigger] rest[j],
            ptype,
            bias,
            addr,
        ) by {
            assert(rest[j] == segs[j + 1]);
        }
        assert(i < segs.len() ==> rest[i - 1] == segs[i]);
        lemma_first_occupying(rest, ptype, bias, addr, i - 1);
    }
}

/// A segment occupies the addresses from its start on, as many as its size in
/// memory.
pub proof fn law_segment_occupies_its_size(seg: Segment, ptype: u32, bias: usize, addr: usize)
    requires
        bias + seg.vaddr + seg.memsz <= usize::MAX,
    ensures
        occupies(seg, ptype, bias, addr) <==> seg.ptype == ptype && bias + seg.vaddr <= addr && addr
            < bias + seg.vaddr + seg.memsz,
{
}

/// A page is protected as the flags of the first loaded segment there say, but
/// never writable where relocations made it read-only; outside of the image, or
/// where nothing is permitted, there is no protection.
pub proof fn law_protection_follows_the_flags(
    segs: Seq<Segment>,
    bias: usize,
    addr: usize,
    i: int,
    relro: bool,
)
    requires
        0 <= i <= segs.len(),
        i < segs.len() ==> occupies(segs[i], 1, bias, addr),
        forall|j: int| 0 <= j < i ==> !occupies(#[trigger] segs[j], 1, bias, addr),
        relro <==> exists|j: int|
            0 <= j < segs.len() && occupies(#[trigger] segs[j], 0x6474_e552, bias, addr),
    ensures
        i == segs.len() ==> protection_at(segs, bias, addr) is None,
        i < segs.len() ==> {
            let r = segs[i].flags & 4 != 0;
            let w = segs[i].flags & 2 != 0;
            let x = segs[i].flags & 1 != 0;
            let prot = protection_at(segs, bias, addr);
            &&& prot is None <==> !r && !w && !x
            &&& prot matches Some(p) ==> {
                &&& 0 <= p < 8
                &&& (p % 2 == 1) == r
                &&& (p / 2 % 2 == 1) == (w && !relro)
                &&& (p / 4 == 1) == x
            }
        },
{
    lemma_first_occupying(segs, PT_LOAD, bias, addr, i);
    lemma_any_occupying(segs, PT_GNU_RELRO, bias, addr);
}

proof fn lemma_any_occupying(segs: Seq<Segment>, ptype: u32, bias: usize, addr: usize)
    ensures
        first_occupying(segs, ptype, bias, addr) is Some <==> exists|j: int|
            0 <= j < segs.len() && occupies(#[trigger] segs[j], ptype, bias, addr),
    decreases segs.len(),
{
    if segs.len() > 0 && !occupies(segs[0], ptype, bias, addr) {
        let rest = segs.drop_first();
        lemma_any_occupying(rest, ptype, bias, addr);
        if first_occupying(rest, ptype, bias, addr) is Some {
            let j = choose|j: int|
                0 <= j < rest.len() && occupies(#[trigger] rest[j], ptype, bias, addr);
            assert(occupies(segs[j + 1], ptype, bias, addr));
        }
        if exists|j: int| 0 <= j < segs.len() && occupies(#[trigger] segs[j], ptype, bias, addr) {
            let j = choose|j: int|
                0 <= j < segs.len() && occupies(#[trigger] segs[j], ptype, bias, addr);
            assert(rest[j - 1] == segs[j]);
        }
    } else if segs.len() > 0 {
        assert(occupies(segs[0], ptype, bias, addr));
    }
}

/// A relocation is wanted exactly where its symbol is asked for, it is a jump
/// slot of the PLT table or an absolute or global data one of another, and its
/// slot is above the image's base. By prefix a symbol is asked for where it has a
/// name that begins so; by index where it is that one.
pub proof fn law_wanted_relocations(
    img: &ElfImage,
    bias: usize,
    base: usize,
    prefix: &str,
    idx: u32,
    is_plt: bool,
    rel: Reloc,
)
    requires
        bias + rel.offset <= usize::MAX,
    ensures
        ({
            let fits = if is_plt {
                rel.kind is JumpSlot
            } else {
                rel.kind is Absolute || rel.kind is GlobDat
            };
            let above = bias + rel.offset > base;
            let named = rel.sym_idx < img.symbols@.len() && img.symbols@[rel.sym_idx as int]@.len()
                > 0 && prefix@.len() <= img.symbols@[rel.sym_idx as int]@.len()
                && img.symbols@[rel.sym_idx as int]@.take(prefix@.len() as int) == prefix@;
            &&& wanted(img, bias, base, SymbolMatch::Prefix(prefix), is_plt, rel) <==> fits && above
                && named
            &&& wanted(img, bias, base, SymbolMatch::Index(idx), is_plt, rel) <==> fits && above
                && rel.sym_idx == idx
            &&& slot_addr(rel, bias) == bias + rel.offset
        }),
{
    if rel.sym_idx < img.symbols@.len() {
        let s = img.symbols@[rel.sym_idx as int]@;
        if prefix@.len() <= s.len() {
            assert(s.subrange(0, prefix@.len() as int) =~= s.take(prefix@.len() as int));
        }
    }
}

/// Code belongs to an image exactly where one of its loaded segments is.
pub proof fn law_code_belongs_to_its_image(segs: Seq<Segment>, bias: usize, pc: usize)
    requires
        forall|i: int|
            0 <= i < segs.len() ==> bias + (#[trigger] segs[i]).vaddr + segs[i].memsz <= usize::MAX,
    ensures
        executes_in(segs, bias, pc) <==> exists|i: int|
            0 <= i < segs.len() && (#[trigger] segs[i]).ptype == 1 && bias + segs[i].vaddr <= pc
                && pc < bias + segs[i].vaddr + segs[i].memsz,
{
    if executes_in(segs, bias, pc) {
        let i = choose|i: int|
            0 <= i < segs.len() && (#[trigger] segs[i]).ptype == PT_LOAD && seg_start(segs[i], bias)
                <= pc < seg_end(segs[i], bias);
        assert(segs[i].ptype == 1 && bias + segs[i].vaddr <= pc);
    }
    if exists|i: int|
        0 <= i < segs.len() && (#[trigger] segs[i]).ptype == 1 && bias + segs[i].vaddr <= pc && pc
            < bias + segs[i].vaddr + segs[i].memsz {
        let i = choose|i: int|
            0 <= i < segs.len() && (#[trigger] segs[i]).ptype == 1 && bias + segs[i].vaddr <= pc
                && pc < bias + segs[i].vaddr + segs[i].memsz;
        assert(seg_start(segs[i], bias) <= pc < seg_end(segs[i], bias));
    }
}

proof fn lemma_first_holding(
    segs: Seq<Segment>,
    ptype: u32,
    bias: usize,
    addr: usize,
    page: usize,
    i: int,
)
    requires
        0 <= i <= segs.len(),
        i < segs.len() ==> pages_hold(segs[i], ptype, bias, addr, page),
        forall|j: int| 0 <= j < i ==> !pages_hold(#[trigger] segs[j], ptype, bias, addr, page),
    ensures
        first_holding(segs, ptype, bias, addr, page) == if i < segs.len() {
            Some(segs[i])
        } else {
            None
        },
    decreases segs.len(),
{
    if i > 0 {
        let rest = segs.drop_first();
        assert(!pages_hold(segs[0], ptype, bias, addr, page));
        assert forall|j: int| 0 <= j < i - 1 implies !pages_hold(
            #[trigger] rest[j],
            ptype,
            bias,
            addr,
            page,
        ) by {
            assert(rest[j] == segs[j + 1]);
        }
        assert(i < segs.len() ==> rest[i - 1] == segs[i]);
        lemma_first_holding(rest, ptype, bias, addr, page, i - 1);
    }
}

proof fn lemma_last_holding(
    segs: Seq<Segment>,
    ptype: u32,
    bias: usize,
    addr: usize,
    page: usize,
    i: int,
)
    requires
        -1 <= i < segs.len(),
        i >= 0 ==> pages_hold(segs[i], ptype, bias, addr, page),
        forall|j: int|
            i < j < segs.len() ==> !pages_hold(#[trigger] segs[j], ptype, bias, addr, page),
    ensures
        last_holding(segs, ptype, bias, addr, page) == if i >= 0 {
            Some(segs[i])
        } else {
            None
        },
    decreases segs.len(),
{
    if segs.len() > 0 && i < segs.len() - 1 {
        let rest = segs.drop_last();
        assert(!pages_hold(segs[segs.len() - 1], ptype, bias, addr, page));
        assert forall|j: int| i < j < rest.len() implies !pages_hold(
            #[trigger] rest[j],
            ptype,
            bias,
            addr,
            page,
        ) by {
            assert(rest[j] == segs[j]);
        }
        assert(i >= 0 ==> rest[i] == segs[i]);
        lemma_last_holding(rest, ptype, bias, addr, page, i);
    }
}

/// The range that is replaced for a slot is that of the read-only-after-
/// relocation segment whose pages hold it, the first one, where there is one;
/// else that of the last loaded segment whose pages do. `relro` and `load` are
/// where these are, or the length and -1.
pub proof fn law_replaced_range_prefers_relro(
    segs: Seq<Segment>,
    bias: usize,
    addr: usize,
    page: usize,
    relro: int,
    load: int,
)
    requires
        0 <= relro <= segs.len(),
        relro < segs.len() ==> pages_hold(segs[relro], 0x6474_e552, bias, addr, page),
        forall|j: int|
            0 <= j < relro ==> !pages_hold(#[trigger] segs[j], 0x6474_e552, bias, addr, page),
        -1 <= load < segs.len(),
        load >= 0 ==> pages_hold(segs[load], 1, bias, addr, page),
        forall|j: int|
            load < j < segs.len() ==> !pages_hold(#[trigger] segs[j], 1, bias, addr, page),
    ensures
        relro < segs.len() ==> vma_bounds(segs, bias, addr, page) == page_range(
            segs[relro],
            bias,
            page,
        ),
        relro == segs.len() && load >= 0 ==> vma_bounds(segs, bias, addr, page) == page_range(
            segs[load],
            bias,
            page,
        ),
        relro == segs.len() && load < 0 ==> vma_bounds(segs, bias, addr, page) is None,
{
    lemma_first_holding(segs, PT_GNU_RELRO, bias, addr, page, relro);
    lemma_last_holding(segs, PT_LOAD, bias, addr, page, load);
}

/// The pages of a segment are those from the one of its first byte to the one of
/// its last.
pub proof fn law_pages_of_a_segment(seg: Segment, bias: usize, page: usize)
    requires
        is_page_size(page),
        seg.memsz > 0,
        bias + seg.vaddr + seg.memsz + page <= usize::MAX,
    ensures
        ({
            let s = first_page(seg, bias, page);
            let e = end_page(seg, bias, page);
            &&& s <= bias + seg.vaddr < s + page
            &&& e - page < bias + seg.vaddr + seg.memsz <= e
            &&& page_floor(s, page) == s
            &&& page_floor(e, page) == e
            &&& page_range(seg, bias, page) is None <==> s == 0
            &&& page_range(seg, bias, page) matches Some((start, len)) ==> start == s && start + len
                == e
        }),
{
    let start = (bias + seg.vaddr) as usize;
    let up = (bias + seg.vaddr + seg.memsz + page - 1) as usize;
    lemma_page_floor(start, page);
    lemma_page_floor_twice(start, page);
    lemma_page_floor(up, page);
    lemma_page_floor_twice(up, page);
    lemma_page_floor_order(start, up, page);
}

/// The page size is what the system reports, or 4096 where it reports nothing of
/// use.
pub proof fn law_page_size(reported: i64, r: usize)
    requires
        call_ensures(page_size, (reported,), r),
        reported <= usize::MAX,
    ensures
        r > 0,
        reported > 0 ==> r == reported,
        reported <= 0 ==> r == 4096,
{
}

} // verus!
