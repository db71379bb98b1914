//! Running code in a traced process: finding instructions to run, and the
//! steps of a remote call and of a remote system call.
use vstd::prelude::*;

use crate::elf::{Reloc, RelocKind};
use crate::maps::MapEntry;
use crate::text::{has_part, occurs_at, same_text, text_contains};
use crate::wait::{is_stopped, second_byte, wifstopped, wstopsig, SIGSEGV};

verus! {

/// Instruction sets whose system call instruction can be looked for.
#[derive(Clone, Copy, Debug, PartialEq, Eq, Structural)]
pub enum Isa {
    Aarch64,
    Arm,
    X86,
    X86_64,
}

/// A part of a process's memory.
#[derive(Clone, Copy, Debug, PartialEq, Eq, Structural)]
pub struct Region {
    pub start: usize,
    pub len: usize,
}

/// The first bytes of a mapping, at most `cap` of them.
pub open spec fn capped(m: MapEntry, cap: usize) -> Region {
    let len = if m.end < m.start {
        0
    } else {
        m.end - m.start
    };
    Region {
        start: m.start,
        len: (if len < cap {
            len
        } else {
            cap as int
        }) as usize,
    }
}

fn cap_region(m: &MapEntry, cap: usize) -> (r: Region)
    ensures
        r == capped(*m, cap),
{
    let len: usize = if m.end < m.start {
        0
    } else {
        m.end - m.start
    };
    Region {
        start: m.start,
        len: if len < cap {
            len
        } else {
            cap
        },
    }
}

/// The mapping is the kernel's own shared object.
pub open spec fn is_vdso(m: MapEntry) -> bool {
    has_part(m.path@, "[vdso]"@)
}

/// The executable mappings that are, or are not, the kernel's shared object,
/// each up to a length.
pub open spec fn exec_regions(map: Seq<MapEntry>, vdso: bool) -> Seq<Region>
    decreases map.len(),
{
    if map.len() == 0 {
        seq![]
    } else {
        let rest = exec_regions(map.drop_last(), vdso);
        let m = map.last();
        if m.executable && is_vdso(m) == vdso {
            rest.push(
                capped(
                    m,
                    if vdso {
                        0x10000
                    } else {
                        0x100000
                    },
                ),
            )
        } else {
            rest
        }
    }
}

fn push_exec_regions(map: &Vec<MapEntry>, vdso: bool, out: &mut Vec<Region>)
    ensures
        final(out)@ == old(out)@ + exec_regions(map@, vdso),
{
    let mut i: usize = 0;
    while i < map.len()
        invariant
            i <= map@.len(),
            out@ =~= old(out)@ + exec_regions(map@.take(i as int), vdso),
        decreases map@.len() - i,
    {
        assert(map@.take(i + 1).drop_last() =~= map@.take(i as int));
        let m = &map[i];
        if m.executable && text_contains(m.path.as_str(), "[vdso]") == vdso {
            let cap: usize = if vdso {
                0x10000
            } else {
                0x100000
            };
            out.push(cap_region(m, cap));
        }
        i = i + 1;
    }
    assert(map@.take(i as int) =~= map@);
}

/// Where to look for a system call instruction, in order: the kernel's shared
/// object first. A region that cannot be read as a whole is passed over.
pub fn gadget_regions(remote_map: &Vec<MapEntry>) -> (out: Vec<Region>)
    ensures
        out@ == exec_regions(remote_map@, true) + exec_regions(remote_map@, false),
{
    let mut out: Vec<Region> = Vec::new();
    push_exec_regions(remote_map, true, &mut out);
    push_exec_regions(remote_map, false, &mut out);
    assert(out@ =~= exec_regions(remote_map@, true) + exec_regions(remote_map@, false));
    out
}

/// `pat` stands in `buf` at `j`, a multiple of `step`, and at no smaller one.
pub open spec fn first_step_match(buf: Seq<u8>, pat: Seq<u8>, step: int, j: int) -> bool {
    &&& occurs_at(buf, pat, j)
    &&& j % step == 0
    &&& forall|k: int| 0 <= k < j && k % step == 0 ==> !occurs_at(buf, pat, k)
}

/// `pat` stands in `buf` at no multiple of `step`.
pub open spec fn no_step_match(buf: Seq<u8>, pat: Seq<u8>, step: int) -> bool {
    forall|k: int| 0 <= k && k % step == 0 ==> !occurs_at(buf, pat, k)
}

fn bytes_match(buf: &[u8], pat: &Vec<u8>, j: usize) -> (r: bool)
    ensures
        r == occurs_at(buf@, pat@, j as int),
{
    if pat.len() > buf.len() || j > buf.len() - pat.len() {
        return false;
    }
    let mut k: usize = 0;
    while k < pat.len()
        invariant
            k <= pat@.len(),
            j + pat@.len() <= buf.len(),
            forall|i: int| 0 <= i < k ==> buf@[j + i] == pat@[i],
        decreases pat@.len() - k,
    {
        if buf[j + k] != pat[k] {
            assert(buf@.subrange(j as int, j + pat@.len() as int)[k as int] != pat@[k as int]);
            return false;
        }
        k = k + 1;
    }
    assert(buf@.subrange(j as int, j + pat@.len() as int) =~= pat@);
    true
}

/// The first multiple of `step` at which `pat` stands.
pub fn find_step(buf: &[u8], pat: &Vec<u8>, step: usize) -> (r: Option<usize>)
    requires
        1 <= step <= 4,
        pat@.len() >= 1,
    ensures
        match r {
            Some(j) => first_step_match(buf@, pat@, step as int, j as int),
            None => no_step_match(buf@, pat@, step as int),
        },
{
    let mut j: usize = 0;
    while j < buf.len()
        invariant
            1 <= step <= 4,
            pat@.len() >= 1,
            j % step == 0,
            forall|k: int|
                0 <= k < j && k % (step as int) == 0 ==> !occurs_at(buf@, pat@, k),
        decreases buf@.len() - j,
    {
        if bytes_match(buf, pat, j) {
            return Some(j);
        }
        let ghost was = j;
        assert forall|k: int|
            0 <= k < was + step && k % (step as int) == 0 implies !occurs_at(buf@, pat@, k) by {
            if k > was {
                assert(step == 1 || step == 2 || step == 3 || step == 4);
                assert(false);
            }
        }
        if buf.len() - j <= step {
            assert forall|k: int| 0 <= k && k % (step as int) == 0 implies !occurs_at(
                buf@,
                pat@,
                k,
            ) by {
                if k < was + step {
                    assert(!occurs_at(buf@, pat@, k));
                }
            }
            return None;
        }
        assert((was + step) % (step as int) == 0) by {
            assert(step == 1 || step == 2 || step == 3 || step == 4);
        }
        j = j + step;
    }
    None
}

/// The instruction of an instruction set that enters the kernel.
pub open spec fn syscall_insn(isa: Isa) -> Seq<u8> {
    match isa {
        Isa::Aarch64 => seq![0x01u8, 0x00u8, 0x00u8, 0xd4u8],
        Isa::Arm => seq![0x00u8, 0x00u8, 0x00u8, 0xefu8],
        Isa::X86 => seq![0xcdu8, 0x80u8],
        Isa::X86_64 => seq![0x0fu8, 0x05u8],
    }
}

/// The Thumb instruction that enters the kernel.
pub open spec fn thumb_syscall_insn() -> Seq<u8> {
    seq![0x00u8, 0xdfu8]
}

/// What a region that starts at `start` and holds `buf` offers: the address of
/// the first aligned system call instruction. On Arm a Thumb one is taken only
/// where there is no other, and its address carries the Thumb bit.
pub open spec fn is_gadget(isa: Isa, start: usize, buf: Seq<u8>, r: Option<u64>) -> bool {
    let insn = syscall_insn(isa);
    let step = insn.len() as int;
    match r {
        Some(addr) => {
            ||| exists|j: int|
                #[trigger] first_step_match(buf, insn, step, j) && addr == (
                start as u64).wrapping_add(j as u64)
            ||| isa == Isa::Arm && no_step_match(buf, insn, step) && exists|j: int|
                #[trigger] first_step_match(buf, thumb_syscall_insn(), 2, j) && addr == (
                start as u64).wrapping_add(j as u64).wrapping_add(1)
        },
        None => {
            &&& no_step_match(buf, insn, step)
            &&& isa == Isa::Arm ==> no_step_match(buf, thumb_syscall_insn(), 2)
        },
    }
}

/// Looks for a system call instruction in a region that was read.
pub fn gadget_in_region(isa: Isa, start: usize, buf: &[u8]) -> (r: Option<u64>)
    ensures
        is_gadget(isa, start, buf@, r),
{
    let insn: Vec<u8> = match isa {
        Isa::Aarch64 => vec![0x01, 0x00, 0x00, 0xd4],
        Isa::Arm => vec![0x00, 0x00, 0x00, 0xef],
        Isa::X86 => vec![0xcd, 0x80],
        Isa::X86_64 => vec![0x0f, 0x05],
    };
    assert(insn@ =~= syscall_insn(isa));
    let step: usize = insn.len();
    if let Some(j) = find_step(buf, &insn, step) {
        assert(first_step_match(buf@, syscall_insn(isa), step as int, j as int));
        return Some((start as u64).wrapping_add(j as u64));
    }
    if isa == Isa::Arm {
        let thumb: Vec<u8> = vec![0x00, 0xdf];
        assert(thumb@ =~= thumb_syscall_insn());
        if let Some(j) = find_step(buf, &thumb, 2) {
            assert(first_step_match(buf@, thumb_syscall_insn(), 2, j as int));
            return Some((start as u64).wrapping_add(j as u64).wrapping_add(1));
        }
    }
    None
}

/// A region was read as a whole.
pub open spec fn read_whole(region: Region, content: Option<Vec<u8>>) -> bool {
    content matches Some(bytes) && bytes@.len() == region.len
}

/// A region that was read as a whole has no system call instruction.
pub open spec fn passed_over(isa: Isa, region: Region, content: Option<Vec<u8>>) -> bool {
    read_whole(region, content) ==> is_gadget(isa, region.start, content->0@, None)
}

/// The first region that was read as a whole and has a system call instruction
/// gives the address.
pub open spec fn is_first_gadget(
    isa: Isa,
    regions: Seq<Region>,
    contents: Seq<Option<Vec<u8>>>,
    i: int,
    addr: u64,
) -> bool {
    &&& 0 <= i < regions.len()
    &&& read_whole(regions[i], contents[i])
    &&& is_gadget(isa, regions[i].start, contents[i]->0@, Some(addr))
    &&& forall|k: int| 0 <= k < i ==> #[trigger] passed_over(isa, regions[k], contents[k])
}

/// No region that was read as a whole has a system call instruction.
pub open spec fn all_passed_over(
    isa: Isa,
    regions: Seq<Region>,
    contents: Seq<Option<Vec<u8>>>,
) -> bool {
    forall|k: int|
        0 <= k < regions.len() ==> #[trigger] passed_over(isa, regions[k], contents[k])
}

/// Looks for a system call instruction in the regions of a process, given what
/// was read of each: a region that could not be read as a whole is passed over.
pub fn find_syscall_gadget(
    isa: Isa,
    regions: &Vec<Region>,
    contents: &Vec<Option<Vec<u8>>>,
) -> (r: Option<u64>)
    requires
        regions@.len() == contents@.len(),
    ensures
        match r {
            Some(addr) => exists|i: int| #[trigger]
                is_first_gadget(isa, regions@, contents@, i, addr),
            None => forall|k: int|
                0 <= k < regions@.len() ==> #[trigger] passed_over(isa, regions@[k], contents@[k]),
        },
        r is None ==> all_passed_over(isa, regions@, contents@),
{
    let mut i: usize = 0;
    while i < regions.len()
        invariant
            i <= regions@.len(),
            regions@.len() == contents@.len(),
            forall|k: int|
                0 <= k < i ==> #[trigger] passed_over(isa, regions@[k], contents@[k]),
        decreases regions@.len() - i,
    {
        let region = regions[i];
        if let Some(bytes) = &contents[i] {
            if bytes.len() == region.len {
                let found = gadget_in_region(isa, region.start, bytes.as_slice());
                if let Some(addr) = found {
                    assert(is_first_gadget(isa, regions@, contents@, i as int, addr));
                    return Some(addr);
                }
            }
        }
        assert(passed_over(isa, regions@[i as int], contents@[i as int]));
        i = i + 1;
    }
    None
}

/// The executable mappings of a 32-bit guest.
pub open spec fn guest_regions(map: Seq<MapEntry>) -> Seq<Region>
    decreases map.len(),
{
    if map.len() == 0 {
        seq![]
    } else {
        let rest = guest_regions(map.drop_last());
        if map.last().executable && map.last().start < 0x1_0000_0000 {
            rest.push(capped(map.last(), 0x10000))
        } else {
            rest
        }
    }
}

/// Where to look for a return instruction of a 32-bit guest, in order.
pub fn ret_gadget_regions(remote_map: &Vec<MapEntry>) -> (out: Vec<Region>)
    ensures
        out@ == guest_regions(remote_map@),
{
    let mut out: Vec<Region> = Vec::new();
    let mut i: usize = 0;
    while i < remote_map.len()
        invariant
            i <= remote_map@.len(),
            out@ == guest_regions(remote_map@.take(i as int)),
        decreases remote_map@.len() - i,
    {
        assert(remote_map@.take(i + 1).drop_last() =~= remote_map@.take(i as int));
        let m = &remote_map[i];
        if m.executable && (m.start as u64) < 0x1_0000_0000 {
            out.push(cap_region(m, 0x10000));
        }
        i = i + 1;
    }
    assert(remote_map@.take(i as int) =~= remote_map@);
    out
}

/// The Thumb instruction that returns.
pub open spec fn thumb_ret_insn() -> Seq<u8> {
    seq![0x70u8, 0x47u8]
}

/// Looks for a Thumb return instruction in a region; its address carries the
/// Thumb bit.
pub fn find_arm32_ret_gadget(start: usize, buf: &[u8]) -> (r: Option<u64>)
    ensures
        match r {
            Some(addr) => exists|j: int|
                #[trigger] first_step_match(buf@, thumb_ret_insn(), 2, j) && addr == (
                start as u64).wrapping_add(j as u64).wrapping_add(1),
            None => no_step_match(buf@, thumb_ret_insn(), 2),
        },
{
    let pat: Vec<u8> = vec![0x70, 0x47];
    assert(pat@ =~= thumb_ret_insn());
    match find_step(buf, &pat, 2) {
        Some(j) => {
            assert(first_step_match(buf@, thumb_ret_insn(), 2, j as int));
            Some((start as u64).wrapping_add(j as u64).wrapping_add(1))
        },
        None => None,
    }
}

/// The word that holds the byte at `addr`.
pub fn poke_addr(addr: u64, word_size: u64) -> (r: u64)
    requires
        word_size == 4 || word_size == 8,
    ensures
        r == addr - addr % word_size,
{
    addr - addr % word_size
}

/// A word with 32 of its bits, from the byte that `addr` selects on, replaced;
/// bits beyond the word are lost.
pub open spec fn poked(data: u64, shift: u64, value: u32) -> u64 {
    (data & !(0xffff_ffffu64 << shift)) | ((value as u64) << shift)
}

/// What to write back to the word at `poke_addr` so that the 32 bits at `addr`
/// become `value`.
pub fn ptrace_poke_u32(data: u64, addr: u64, word_size: u64, value: u32) -> (r: u64)
    requires
        word_size == 4 || word_size == 8,
    ensures
        r == poked(data, ((addr % word_size) * 8) as u64, value),
{
    let shift: u64 = (addr % word_size) * 8;
    let mask: u64 = 0xffff_ffffu64 << shift;
    (data & !mask) | ((value as u64) << shift)
}

/// A poke of an aligned half of a 64-bit word changes that half alone.
pub proof fn law_poke_changes_one_half(data: u64, value: u32)
    ensures
        poked(data, 0, value) == data - data % 0x1_0000_0000 + value,
        poked(data, 32, value) == data % 0x1_0000_0000 + value * 0x1_0000_0000,
{
    assert((data & !(0xffff_ffffu64 << 0)) | ((value as u64) << 0) == data - data % 0x1_0000_0000
        + value) by (bit_vector);
    assert((data & !(0xffff_ffffu64 << 32)) | ((value as u64) << 32) == data % 0x1_0000_0000
        + value * 0x1_0000_0000) by (bit_vector);
}

/// `addr` raised to a multiple of four.
pub open spec fn up4(addr: int) -> int {
    (addr + 3) / 4 * 4
}

/// `needed` bytes fit between `from` and `to`.
pub open spec fn fits(from: int, to: int, needed: int) -> bool {
    to >= from && to - from >= needed
}

/// Looks for zero padding from the end of `tail` (whose first byte stands at
/// `base`) downwards: `run_end` is the end of the zeros found so far. Nothing
/// below `base` counts as zero.
pub open spec fn padding(tail: Seq<u8>, base: int, run_end: int, needed: int) -> int
    decreases tail.len(),
{
    if tail.len() == 0 {
        if fits(up4(base), run_end, needed) {
            up4(base)
        } else {
            0
        }
    } else {
        let at = base + tail.len() - 1;
        if tail.last() == 0 {
            padding(tail.drop_last(), base, run_end, needed)
        } else if fits(up4(at + 1), run_end, needed) {
            up4(at + 1)
        } else {
            padding(tail.drop_last(), base, at, needed)
        }
    }
}

/// How much of the end of a code region is searched for padding: whole pages,
/// at most eight.
pub open spec fn tail_len(rx_start: u32, rx_end: u32) -> int {
    let pages = (rx_end - rx_start) / 0x1000;
    (if pages > 8 {
        8
    } else {
        pages
    }) * 0x1000
}

/// How much of the end of a code region is searched for padding.
pub fn tramp_tail_len(rx_start: u32, rx_end: u32) -> (r: u32)
    requires
        rx_start <= rx_end,
    ensures
        r == tail_len(rx_start, rx_end),
{
    let pages: u32 = (rx_end - rx_start) / 0x1000;
    if pages > 8 {
        8 * 0x1000
    } else {
        pages * 0x1000
    }
}

/// Finds `needed` bytes of zero padding at the end of a code region, on a
/// multiple of four; `tail` holds the pages at the end of the region that could
/// be read, and no other page counts as padding. Zero where there is no such
/// padding.
pub fn find_tramp_padding(rx_start: u32, rx_end: u32, needed: usize, tail: &Vec<u8>) -> (r: u32)
    requires
        rx_start <= rx_end <= u32::MAX - 3,
        tail@.len() <= tail_len(rx_start, rx_end),
    ensures
        r == padding(tail@, rx_end - tail@.len(), rx_end as int, needed as int),
{
    let base: u32 = rx_end - tail.len() as u32;
    let mut run_end: u32 = rx_end;
    let mut i: usize = tail.len();
    assert(tail@.take(i as int) =~= tail@);
    while i > 0
        invariant
            i <= tail@.len(),
            base + tail@.len() == rx_end,
            run_end <= rx_end <= u32::MAX - 3,
            padding(tail@, base as int, rx_end as int, needed as int) == padding(
                tail@.take(i as int),
                base as int,
                run_end as int,
                needed as int,
            ),
        decreases i,
    {
        assert(tail@.take(i as int).drop_last() =~= tail@.take(i - 1));
        i = i - 1;
        if tail[i] != 0 {
            let at: u32 = base + i as u32;
            let candidate: u32 = (at + 1 + 3) / 4 * 4;
            if run_end >= candidate && (run_end - candidate) as usize >= needed {
                return candidate;
            }
            run_end = at;
        }
    }
    let candidate: u32 = (base + 3) / 4 * 4;
    if run_end >= candidate && (run_end - candidate) as usize >= needed {
        return candidate;
    }
    0
}

/// What is found in the first `n` bytes of a tail whose further bytes are zero
/// up to `run_end` is zero.
proof fn lemma_padding(tail: Seq<u8>, n: int, base: int, run_end: int, needed: int, k: int)
    requires
        0 <= n <= tail.len(),
        0 <= base,
        base + n <= run_end <= base + tail.len(),
        forall|j: int| n <= j < run_end - base ==> #[trigger] tail[j] == 0,
        padding(tail.take(n), base, run_end, needed) != 0,
        0 <= k < needed,
    ensures
        ({
            let r = padding(tail.take(n), base, run_end, needed);
            &&& r % 4 == 0
            &&& base <= r
            &&& r + needed <= base + tail.len()
            &&& tail[r - base + k] == 0
        }),
    decreases n,
{
    let head = tail.take(n);
    if n > 0 {
        assert(head.drop_last() =~= tail.take(n - 1));
        if head.last() == 0 {
            lemma_padding(tail, n - 1, base, run_end, needed, k);
        } else if fits(up4(base + n), run_end, needed) {
        } else {
            lemma_padding(tail, n - 1, base, base + n - 1, needed, k);
        }
    }
}

/// Padding that is found is padding: it stands on a multiple of four, and every
/// byte of it that is needed was read and is zero. So where nothing could be
/// read, none is found.
pub proof fn law_padding_is_zero(tail: Seq<u8>, rx_end: int, needed: int, k: int)
    requires
        tail.len() <= rx_end,
        padding(tail, rx_end - tail.len(), rx_end, needed) != 0,
        0 <= k < needed,
    ensures
        ({
            let base = rx_end - tail.len();
            let r = padding(tail, base, rx_end, needed);
            &&& r % 4 == 0
            &&& base <= r
            &&& r + needed <= rx_end
            &&& tail[r - base + k] == 0
        }),
{
    assert(tail.take(tail.len() as int) =~= tail);
    lemma_padding(tail, tail.len() as int, rx_end - tail.len(), rx_end, needed, k);
}

/// The first jump slot relocation of a named symbol.
pub open spec fn jump_slot_offset(
    relocs: Seq<Reloc>,
    symbols: Seq<String>,
    symbol: Seq<char>,
) -> Option<u64>
    decreases relocs.len(),
{
    if relocs.len() == 0 {
        None
    } else if relocs[0].kind == RelocKind::JumpSlot && (relocs[0].sym_idx as int) < symbols.len()
        && symbols[relocs[0].sym_idx as int]@ == symbol {
        Some(relocs[0].offset)
    } else {
        jump_slot_offset(relocs.drop_first(), symbols, symbol)
    }
}

/// The place of a symbol's jump slot in a 32-bit image.
pub fn find_jump_slot_got_offset_elf32(
    relocs: &Vec<Reloc>,
    symbols: &Vec<String>,
    symbol: &str,
) -> (r: Option<u32>)
    ensures
        r == match jump_slot_offset(relocs@, symbols@, symbol@) {
            Some(offset) => Some((offset % 0x1_0000_0000) as u32),
            None => None,
        },
{
    let mut i: usize = 0;
    assert(relocs@.skip(0) =~= relocs@);
    while i < relocs.len()
        invariant
            i <= relocs@.len(),
            jump_slot_offset(relocs@, symbols@, symbol@) == jump_slot_offset(
                relocs@.skip(i as int),
                symbols@,
                symbol@,
            ),
        decreases relocs@.len() - i,
    {
        assert(relocs@.skip(i as int).drop_first() =~= relocs@.skip(i + 1));
        let rel = relocs[i];
        let at: usize = rel.sym_idx as usize;
        if rel.kind == RelocKind::JumpSlot && at < symbols.len() && same_text(
            symbols[at].as_str(),
            symbol,
        ) {
            return Some((rel.offset % 0x1_0000_0000) as u32);
        }
        i = i + 1;
    }
    None
}

/// The steps of a call of a remote function, once its registers and its stack
/// are prepared.
#[derive(Clone, Copy, Debug, PartialEq, Eq, Structural)]
pub enum CallStep {
    /// Hand the registers to the process.
    SetRegs,
    /// Let the process run and wait until it stops.
    Run,
    /// Fetch the registers.
    GetRegs { status: i32 },
    /// The call is over; zero stands for a failure.
    Return(u64),
}

/// What a finished call returns: it counts only if the process stopped where
/// the return address, which holds no code, sent it.
pub open spec fn call_value(status: int, ip: u64, ret: u64, return_addr: u64) -> u64 {
    if is_stopped(status) && second_byte(status) == SIGSEGV && ip == return_addr {
        ret
    } else {
        0
    }
}

/// The step of a remote call that follows a step which succeeded or not; `ip`
/// and `ret` are what was fetched, `status` what the wait ended with.
pub fn remote_call(
    step: CallStep,
    ok: bool,
    status: i32,
    ip: u64,
    ret: u64,
    return_addr: u64,
) -> (r: CallStep)
    ensures
        r == match step {
            CallStep::SetRegs => if ok {
                CallStep::Run
            } else {
                CallStep::Return(0)
            },
            CallStep::Run => if ok {
                CallStep::GetRegs { status }
            } else {
                CallStep::Return(0)
            },
            CallStep::GetRegs { status: s } => if ok {
                CallStep::Return(call_value(s as int, ip, ret, return_addr))
            } else {
                CallStep::Return(0)
            },
            CallStep::Return(v) => CallStep::Return(v),
        },
{
    match step {
        CallStep::SetRegs => if ok {
            CallStep::Run
        } else {
            CallStep::Return(0)
        },
        CallStep::Run => if ok {
            CallStep::GetRegs { status }
        } else {
            CallStep::Return(0)
        },
        CallStep::GetRegs { status: s } => {
            if ok && wifstopped(s) && wstopsig(s) == SIGSEGV && ip == return_addr {
                CallStep::Return(ret)
            } else {
                CallStep::Return(0)
            }
        },
        CallStep::Return(v) => CallStep::Return(v),
    }
}

/// The steps of a remote system call, once its registers are prepared.
#[derive(Clone, Copy, Debug, PartialEq, Eq, Structural)]
pub enum SyscallPhase {
    /// Save the registers of the process.
    Save,
    /// Hand it the prepared registers.
    SetRegs,
    /// Let it run to the entry of the system call.
    Enter,
    /// Let it run to the exit of the system call.
    Leave,
    /// Fetch the registers.
    GetRegs,
    /// Restore the saved registers; the call is over with this value.
    Restore(i64),
    /// Return this value.
    Return(i64),
}

/// The phase of a remote system call that follows a phase which succeeded or
/// not; `ret` is what was fetched.
pub open spec fn syscall_next(phase: SyscallPhase, ok: bool, ret: i64) -> SyscallPhase {
    match phase {
        SyscallPhase::Save => if ok {
            SyscallPhase::SetRegs
        } else {
            SyscallPhase::Return((-1) as i64)
        },
        SyscallPhase::SetRegs => if ok {
            SyscallPhase::Enter
        } else {
            SyscallPhase::Restore((-1) as i64)
        },
        SyscallPhase::Enter => if ok {
            SyscallPhase::Leave
        } else {
            SyscallPhase::Restore((-1) as i64)
        },
        SyscallPhase::Leave => if ok {
            SyscallPhase::GetRegs
        } else {
            SyscallPhase::Restore((-1) as i64)
        },
        SyscallPhase::GetRegs => if ok {
            SyscallPhase::Restore(ret)
        } else {
            SyscallPhase::Restore((-1) as i64)
        },
        SyscallPhase::Restore(v) => SyscallPhase::Return(v),
        SyscallPhase::Return(v) => SyscallPhase::Return(v),
    }
}

/// The next phase of a remote system call. Whether restoring the registers
/// succeeded makes no difference.
pub fn remote_syscall(phase: SyscallPhase, ok: bool, ret: i64) -> (r: SyscallPhase)
    ensures
        r == syscall_next(phase, ok, ret),
{
    match phase {
        SyscallPhase::Save => if ok {
            SyscallPhase::SetRegs
        } else {
            SyscallPhase::Return(-1)
        },
        SyscallPhase::SetRegs => if ok {
            SyscallPhase::Enter
        } else {
            SyscallPhase::Restore(-1)
        },
        SyscallPhase::Enter => if ok {
            SyscallPhase::Leave
        } else {
            SyscallPhase::Restore(-1)
        },
        SyscallPhase::Leave => if ok {
            SyscallPhase::GetRegs
        } else {
            SyscallPhase::Restore(-1)
        },
        SyscallPhase::GetRegs => if ok {
            SyscallPhase::Restore(ret)
        } else {
            SyscallPhase::Restore(-1)
        },
        SyscallPhase::Restore(v) => SyscallPhase::Return(v),
        SyscallPhase::Return(v) => SyscallPhase::Return(v),
    }
}

/// Once the registers are saved, a remote system call never ends without having
/// restored them.
pub proof fn law_syscall_restores(phase: SyscallPhase, ok: bool, ret: i64)
    requires
        phase != SyscallPhase::Save,
        !(phase is Return),
    ensures
        syscall_next(phase, ok, ret) is Return ==> phase is Restore,
{
}

/// How the linker of a 32-bit guest is watched: the slot that it fills last,
/// what the slot held at first, and what it was filled with.
#[derive(Clone, Copy, Debug, Default, PartialEq, Eq, Structural)]
pub struct TangoLinkerWatch {
    pub libc_init_got_slot: u32,
    pub libc_init_initial: u32,
    pub libc_init_resolved: u32,
}

/// A mapping of the beginning of the guest's program.
pub open spec fn is_guest_program(m: MapEntry) -> bool {
    &&& m.path@.len() > 0
    &&& m.start < 0x1_0000_0000
    &&& m.offset == 0
    &&& has_part(m.path@, "app_process32"@)
}

/// The indices of the mappings of the beginning of the guest's program.
pub open spec fn guest_programs(map: Seq<MapEntry>) -> Seq<usize>
    decreases map.len(),
{
    if map.len() == 0 {
        seq![]
    } else {
        let rest = guest_programs(map.drop_last());
        if is_guest_program(map.last()) {
            rest.push((map.len() - 1) as usize)
        } else {
            rest
        }
    }
}

/// Where the guest's program may be, in order; the first mapping whose file has
/// the slot decides.
pub fn tango_candidates(map: &Vec<MapEntry>) -> (out: Vec<usize>)
    ensures
        out@ == guest_programs(map@),
{
    let mut out: Vec<usize> = Vec::new();
    let mut i: usize = 0;
    while i < map.len()
        invariant
            i <= map@.len(),
            out@ == guest_programs(map@.take(i as int)),
        decreases map@.len() - i,
    {
        assert(map@.take(i + 1).drop_last() =~= map@.take(i as int));
        let m = &map[i];
        if !m.path.as_str().is_empty() && (m.start as u64) < 0x1_0000_0000 && m.offset == 0
            && text_contains(m.path.as_str(), "app_process32") {
            out.push(i);
        }
        i = i + 1;
    }
    assert(map@.take(i as int) =~= map@);
    out
}

impl TangoLinkerWatch {
    /// Starts over.
    pub fn reset(&mut self)
        ensures
            *final(self) == (TangoLinkerWatch {
                libc_init_got_slot: 0,
                libc_init_initial: 0,
                libc_init_resolved: 0,
            }),
    {
        *self = TangoLinkerWatch {
            libc_init_got_slot: 0,
            libc_init_initial: 0,
            libc_init_resolved: 0,
        };
    }

    /// Watches the slot of a program mapped at `start`, given the lowest
    /// address in its file and the slot's offset; sums wrap.
    pub fn watch_slot(&mut self, start: u32, bias: u32, got_off: u32)
        ensures
            *final(self) == (TangoLinkerWatch {
                libc_init_got_slot: start.wrapping_sub(bias).wrapping_add(got_off),
                libc_init_initial: 0,
                libc_init_resolved: 0,
            }),
    {
        *self = TangoLinkerWatch {
            libc_init_got_slot: start.wrapping_sub(bias).wrapping_add(got_off),
            libc_init_initial: 0,
            libc_init_resolved: 0,
        };
    }

    /// Takes what the slot holds when it is first seen; where it cannot be
    /// read, the search starts over.
    pub fn first_seen(&mut self, value: Option<u32>)
        ensures
            *final(self) == match value {
                Some(v) => TangoLinkerWatch { libc_init_initial: v, ..*old(self) },
                None => TangoLinkerWatch {
                    libc_init_got_slot: 0,
                    libc_init_initial: 0,
                    libc_init_resolved: 0,
                },
            },
    {
        match value {
            Some(v) => {
                self.libc_init_initial = v;
            },
            None => {
                self.reset();
            },
        }
    }

    /// Takes what the slot holds now: the linker is ready once the slot holds
    /// something other than zero and its first value.
    pub fn slot_read(&mut self, value: Option<u32>) -> (ready: bool)
        ensures
            ready == (value matches Some(v) && v != 0 && v != old(self).libc_init_initial),
            *final(self) == if ready {
                TangoLinkerWatch { libc_init_resolved: value->0, ..*old(self) }
            } else {
                *old(self)
            },
    {
        match value {
            Some(v) => {
                if v != 0 && v != self.libc_init_initial {
                    self.libc_init_resolved = v;
                    true
                } else {
                    false
                }
            },
            None => false,
        }
    }
}

/// The steps of waiting until the linker of a 32-bit guest is ready.
#[derive(Clone, Copy, Debug, PartialEq, Eq, Structural)]
pub enum LinkerPhase {
    /// See whether a slot is watched.
    Look,
    /// Read the memory map and look for the slot.
    FindSlot,
    /// Read what the slot holds at first; where that fails, the search starts
    /// over.
    ReadFirst,
    /// Read what the slot holds; `ok` if the linker filled it.
    ReadSlot,
    /// Let the process run to its next system call boundary.
    Step,
    /// The wait is over; `true` if the linker is ready.
    Over(bool),
}

/// The step that follows one that succeeded or not, while `slot` is watched, or
/// none if it is zero.
pub open spec fn linker_next(phase: LinkerPhase, slot: u32, ok: bool) -> LinkerPhase {
    match phase {
        LinkerPhase::Look => if slot == 0 {
            LinkerPhase::FindSlot
        } else {
            LinkerPhase::ReadSlot
        },
        LinkerPhase::FindSlot => if !ok {
            LinkerPhase::Over(false)
        } else if slot == 0 {
            LinkerPhase::Step
        } else {
            LinkerPhase::ReadFirst
        },
        LinkerPhase::ReadFirst => LinkerPhase::Step,
        LinkerPhase::ReadSlot => if ok {
            LinkerPhase::Over(true)
        } else {
            LinkerPhase::Step
        },
        LinkerPhase::Step => if ok {
            LinkerPhase::Look
        } else {
            LinkerPhase::Over(false)
        },
        LinkerPhase::Over(ready) => LinkerPhase::Over(ready),
    }
}

/// The step of waiting for the linker that follows.
pub fn tango_wait_linker_ready(phase: LinkerPhase, watch: &TangoLinkerWatch, ok: bool) -> (r:
    LinkerPhase)
    ensures
        r == linker_next(phase, watch.libc_init_got_slot, ok),
{
    match phase {
        LinkerPhase::Look => if watch.libc_init_got_slot == 0 {
            LinkerPhase::FindSlot
        } else {
            LinkerPhase::ReadSlot
        },
        LinkerPhase::FindSlot => if !ok {
            LinkerPhase::Over(false)
        } else if watch.libc_init_got_slot == 0 {
            LinkerPhase::Step
        } else {
            LinkerPhase::ReadFirst
        },
        LinkerPhase::ReadFirst => LinkerPhase::Step,
        LinkerPhase::ReadSlot => if ok {
            LinkerPhase::Over(true)
        } else {
            LinkerPhase::Step
        },
        LinkerPhase::Step => if ok {
            LinkerPhase::Look
        } else {
            LinkerPhase::Over(false)
        },
        LinkerPhase::Over(ready) => LinkerPhase::Over(ready),
    }
}

/// The wait for the linker succeeds only by reading a watched slot that was
/// filled.
pub proof fn law_linker_is_ready_by_its_slot(phase: LinkerPhase, slot: u32, ok: bool)
    requires
        phase != LinkerPhase::Over(true),
        linker_next(phase, slot, ok) == LinkerPhase::Over(true),
    ensures
        phase == LinkerPhase::ReadSlot,
        ok,
{
}

/// A region is the start of its mapping, whole where it is short and cut where
/// it is long.
pub proof fn law_region_is_capped(m: MapEntry, cap: usize)
    ensures
        capped(m, cap).start == m.start,
        capped(m, cap).len <= cap,
        m.start <= m.end && m.end - m.start <= cap ==> capped(m, cap).len == m.end - m.start,
        m.start <= m.end && m.end - m.start > cap ==> capped(m, cap).len == cap,
        m.end < m.start ==> capped(m, cap).len == 0,
{
}

/// A system call instruction is looked for in every executable mapping and no
/// other, in the kernel's shared object up to 64 KiB and elsewhere up to 1 MiB.
pub proof fn law_all_code_is_searched(map: Seq<MapEntry>, vdso: bool)
    ensures
        exec_regions(map, vdso) == map.filter(
            |m: MapEntry| m.executable && has_part(m.path@, "[vdso]"@) == vdso,
        ).map_values(
            |m: MapEntry|
                capped(
                    m,
                    if vdso {
                        0x1_0000usize
                    } else {
                        0x10_0000usize
                    },
                ),
        ),
    decreases map.len(),
{
    reveal(Seq::filter);
    if map.len() > 0 {
        law_all_code_is_searched(map.drop_last(), vdso);
    }
    assert(exec_regions(map, vdso) =~= map.filter(
        |m: MapEntry| m.executable && has_part(m.path@, "[vdso]"@) == vdso,
    ).map_values(
        |m: MapEntry|
            capped(
                m,
                if vdso {
                    0x1_0000usize
                } else {
                    0x10_0000usize
                },
            ),
    ));
}

/// A return instruction is looked for in all the code of a 32-bit guest.
pub proof fn law_all_guest_code_is_searched(map: Seq<MapEntry>)
    ensures
        guest_regions(map) == map.filter(
            |m: MapEntry| m.executable && m.start < 0x1_0000_0000,
        ).map_values(|m: MapEntry| capped(m, 0x1_0000usize)),
    decreases map.len(),
{
    reveal(Seq::filter);
    if map.len() > 0 {
        law_all_guest_code_is_searched(map.drop_last());
    }
    assert(guest_regions(map) =~= map.filter(
        |m: MapEntry| m.executable && m.start < 0x1_0000_0000,
    ).map_values(|m: MapEntry| capped(m, 0x1_0000usize)));
}

/// The guest's program is looked for in the mappings of the beginning of its
/// file below 4 GiB, all of them, each once and in the order of the map.
pub proof fn law_candidates_are_the_program(map: Seq<MapEntry>)
    requires
        map.len() <= usize::MAX,
    ensures
        forall|i: int|
            0 <= i < guest_programs(map).len() ==> {
                let k = #[trigger] guest_programs(map)[i];
                &&& k < map.len()
                &&& map[k as int].start < 0x1_0000_0000
                &&& map[k as int].offset == 0
                &&& has_part(map[k as int].path@, "app_process32"@)
            },
        forall|k: int|
            0 <= k < map.len() && (#[trigger] map[k]).start < 0x1_0000_0000 && map[k].offset == 0
                && map[k].path@.len() > 0 && has_part(map[k].path@, "app_process32"@)
                ==> guest_programs(map).contains(k as usize),
        forall|i: int, j: int|
            0 <= i < j < guest_programs(map).len() ==> #[trigger] guest_programs(map)[i]
                < #[trigger] guest_programs(map)[j],
    decreases map.len(),
{
    if map.len() > 0 {
        let rest = map.drop_last();
        law_candidates_are_the_program(rest);
        assert forall|k: int|
            0 <= k < map.len() && (#[trigger] map[k]).start < 0x1_0000_0000 && map[k].offset == 0
                && map[k].path@.len() > 0 && has_part(
                map[k].path@,
                "app_process32"@,
            ) implies guest_programs(map).contains(k as usize) by {
            if k < rest.len() {
                assert(rest[k] == map[k]);
                let i = choose|i: int|
                    0 <= i < guest_programs(rest).len() && guest_programs(rest)[i] == k as usize;
                assert(guest_programs(map)[i] == k as usize);
            } else {
                assert(guest_programs(map)[guest_programs(rest).len() as int] == k as usize);
            }
        }
    }
}

/// A system call instruction is found at its own address: where a region offers
/// one, the bytes there are the instruction, on a multiple of its length; on Arm
/// a Thumb one has an odd address.
#[verifier::rlimit(40)]
#[verifier::spinoff_prover]
pub proof fn law_gadget_is_the_instruction(isa: Isa, start: usize, buf: Seq<u8>, addr: u64)
    requires
        is_gadget(isa, start, buf, Some(addr)),
        start + buf.len() < usize::MAX,
        start % 4 == 0,
    ensures
        start <= addr,
        isa is Aarch64 ==> addr % 4 == 0 && buf.subrange(addr - start, addr - start + 4)
            == seq![0x01u8, 0x00u8, 0x00u8, 0xd4u8],
        isa is X86_64 ==> buf.subrange(addr - start, addr - start + 2) == seq![0x0fu8, 0x05u8],
        isa is X86 ==> buf.subrange(addr - start, addr - start + 2) == seq![0xcdu8, 0x80u8],
        isa is Arm && addr % 2 == 0 ==> buf.subrange(addr - start, addr - start + 4) == seq![
            0x00u8,
            0x00u8,
            0x00u8,
            0xefu8,
        ],
        isa is Arm && addr % 2 == 1 ==> buf.subrange(addr - start - 1, addr - start + 1) == seq![
            0x00u8,
            0xdfu8,
        ],
{
    let insn = syscall_insn(isa);
    let step = insn.len() as int;
    if exists|j: int|
        #[trigger] first_step_match(buf, insn, step, j) && addr == (start as u64).wrapping_add(
            j as u64,
        ) {
        let j = choose|j: int|
            #[trigger] first_step_match(buf, insn, step, j) && addr == (
            start as u64).wrapping_add(j as u64);
        assert(addr == start + j);
        assert(isa is Aarch64 || isa is Arm ==> step == 4 && j % 4 == 0);
    } else {
        let j = choose|j: int|
            #[trigger] first_step_match(buf, thumb_syscall_insn(), 2, j) && addr == (
            start as u64).wrapping_add(j as u64).wrapping_add(1);
        assert(addr == start + j + 1);
    }
}

/// A region without the instruction, on every multiple of its length, offers
/// none, and one with it does.
pub proof fn law_gadget_that_is_there_is_found(
    isa: Isa,
    start: usize,
    buf: Seq<u8>,
    r: Option<u64>,
    j: int,
)
    requires
        is_gadget(isa, start, buf, r),
        0 <= j,
        isa is Aarch64 ==> j % 4 == 0 && j + 4 <= buf.len() && buf.subrange(j, j + 4) == seq![
            0x01u8,
            0x00u8,
            0x00u8,
            0xd4u8,
        ],
        isa is Arm ==> j % 2 == 0 && j + 2 <= buf.len() && buf.subrange(j, j + 2) == seq![
            0x00u8,
            0xdfu8,
        ],
        isa is X86_64 ==> j % 2 == 0 && j + 2 <= buf.len() && buf.subrange(j, j + 2) == seq![
            0x0fu8,
            0x05u8,
        ],
        isa is X86 ==> j % 2 == 0 && j + 2 <= buf.len() && buf.subrange(j, j + 2) == seq![
            0xcdu8,
            0x80u8,
        ],
    ensures
        r is Some,
{
    if r is None {
        if isa is Arm {
            assert(occurs_at(buf, thumb_syscall_insn(), j));
        } else {
            assert(occurs_at(buf, syscall_insn(isa), j));
        }
    }
}

/// A poke goes to the word that holds its address, and changes no other bits of
/// it than the 32 from that address on.
pub proof fn law_poke_stays_in_its_word(addr: u64, word: u64, at: u64)
    requires
        call_ensures(poke_addr, (addr, word), at),
        word == 4 || word == 8,
    ensures
        at <= addr < at + word,
        at % word == 0,
{
    if word == 4 {
        assert(at == addr - addr % 4);
    } else {
        assert(at == addr - addr % 8);
    }
}

/// Where a whole word is replaced, it becomes the value.
pub proof fn law_poke_of_a_word(data: u64, value: u32, addr: u64, r: u64)
    requires
        call_ensures(ptrace_poke_u32, (data, addr, 4u64, value), r),
        addr % 4 == 0,
        data < 0x1_0000_0000,
    ensures
        r == value,
{
    law_poke_changes_one_half(data, value);
}

/// At most the last eight whole pages of a region are searched for padding.
pub proof fn law_padding_is_searched_at_the_end(start: u32, end: u32)
    requires
        start <= end,
    ensures
        tail_len(start, end) % 0x1000 == 0,
        tail_len(start, end) <= 0x8000,
        tail_len(start, end) <= end - start,
        end - start >= 0x8000 ==> tail_len(start, end) == 0x8000,
        end - start < 0x8000 ==> end - start - tail_len(start, end) < 0x1000,
{
}

proof fn lemma_padding_goes_down(
    tail: Seq<u8>,
    zeros: int,
    base: int,
    run_end: int,
    needed: int,
)
    requires
        0 <= base,
        0 <= zeros <= tail.len(),
        forall|i: int| tail.len() - zeros <= i < tail.len() ==> #[trigger] tail[i] == 0,
    ensures
        padding(tail, base, run_end, needed) == padding(
            tail.take(tail.len() - zeros),
            base,
            run_end,
            needed,
        ),
    decreases zeros,
{
    if zeros > 0 {
        let rest = tail.drop_last();
        assert forall|i: int| rest.len() - (zeros - 1) <= i < rest.len() implies #[trigger] rest[i]
            == 0 by {
            assert(rest[i] == tail[i]);
        }
        assert(tail[tail.len() - 1] == 0);
        lemma_padding_goes_down(rest, zeros - 1, base, run_end, needed);
        assert(rest.take(rest.len() - (zeros - 1)) =~= tail.take(tail.len() - zeros));
    } else {
        assert(tail.take(tail.len() as int) =~= tail);
    }
}

/// Padding that is there is found, as high as it can be: where a region ends
/// with so many zeros behind another byte, and what is needed fits into them
/// from the first multiple of four on, it is taken there.
pub proof fn law_padding_at_the_end_is_found(tail: Seq<u8>, rx_end: int, zeros: int, needed: int)
    requires
        tail.len() <= rx_end,
        0 <= zeros < tail.len(),
        forall|i: int| tail.len() - zeros <= i < tail.len() ==> #[trigger] tail[i] == 0,
        tail[tail.len() - zeros - 1] != 0,
        needed > 0,
        (rx_end - zeros + 3) / 4 * 4 + needed <= rx_end,
    ensures
        padding(tail, rx_end - tail.len(), rx_end, needed) == (rx_end - zeros + 3) / 4 * 4,
{
    lemma_padding_goes_down(tail, zeros, rx_end - tail.len(), rx_end, needed);
    let head = tail.take(tail.len() - zeros);
    assert(head.last() == tail[tail.len() - zeros - 1]);
}

/// A symbol's jump slot is that of the first such relocation for it; other
/// relocations for it do not count.
pub proof fn law_first_jump_slot_counts(
    relocs: Seq<Reloc>,
    symbols: Seq<String>,
    symbol: Seq<char>,
    i: int,
)
    requires
        0 <= i <= relocs.len(),
        i < relocs.len() ==> relocs[i].kind is JumpSlot && relocs[i].sym_idx < symbols.len()
            && symbols[relocs[i].sym_idx as int]@ == symbol,
        forall|j: int|
            0 <= j < i ==> !((#[trigger] relocs[j]).kind is JumpSlot && relocs[j].sym_idx
                < symbols.len() && symbols[relocs[j].sym_idx as int]@ == symbol),
    ensures
        jump_slot_offset(relocs, symbols, symbol) == if i < relocs.len() {
            Some(relocs[i].offset)
        } else {
            None
        },
    decreases relocs.len(),
{
    if i > 0 {
        let rest = relocs.drop_first();
        assert(!(relocs[0].kind is JumpSlot && relocs[0].sym_idx < symbols.len()
            && symbols[relocs[0].sym_idx as int]@ == symbol));
        assert forall|j: int| 0 <= j < i - 1 implies !((#[trigger] rest[j]).kind is JumpSlot
            && rest[j].sym_idx < symbols.len() && symbols[rest[j].sym_idx as int]@ == symbol) by {
            assert(rest[j] == relocs[j + 1]);
        }
        assert(i < relocs.len() ==> rest[i - 1] == relocs[i]);
        law_first_jump_slot_counts(rest, symbols, symbol, i - 1);
    }
}

/// A remote call goes through its steps one by one, and returns what the
/// function returned exactly where the process faulted at the return address;
/// whatever fails returns zero.
pub proof fn law_remote_call_order(
    step: CallStep,
    ok: bool,
    status: i32,
    ip: u64,
    ret: u64,
    return_addr: u64,
    r: CallStep,
)
    requires
        call_ensures(remote_call, (step, ok, status, ip, ret, return_addr), r),
    ensures
        !(r is SetRegs),
        r is Run <==> step is SetRegs && ok,
        r is GetRegs <==> step is Run && ok,
        r is GetRegs ==> r->status == status,
        !ok && !(step is Return) ==> r == CallStep::Return(0),
        step is Return ==> r == step,
        step is GetRegs && ok ==> {
            let s = step->status;
            let there = s % 256 == 127 && (s as int / 256) % 256 == 11 && ip == return_addr;
            r == CallStep::Return(
                if there {
                    ret
                } else {
                    0
                },
            )
        },
{
}

/// A remote system call goes through its steps one by one, and returns what the
/// kernel returned exactly where all of them succeeded; whatever fails returns
/// minus one.
pub proof fn law_remote_syscall_order(phase: SyscallPhase, ok: bool, ret: i64)
    ensures
        ({
            let next = syscall_next(phase, ok, ret);
            &&& next != SyscallPhase::Save
            &&& next == SyscallPhase::SetRegs <==> phase == SyscallPhase::Save && ok
            &&& next == SyscallPhase::Enter <==> phase == SyscallPhase::SetRegs && ok
            &&& next == SyscallPhase::Leave <==> phase == SyscallPhase::Enter && ok
            &&& next == SyscallPhase::GetRegs <==> phase == SyscallPhase::Leave && ok
            &&& phase == SyscallPhase::GetRegs && ok ==> next == SyscallPhase::Restore(ret)
            &&& !ok && (phase == SyscallPhase::SetRegs || phase == SyscallPhase::Enter || phase
                == SyscallPhase::Leave || phase == SyscallPhase::GetRegs) ==> (
            next matches SyscallPhase::Restore(v) && v == -1)
            &&& !ok && phase == SyscallPhase::Save ==> (next matches SyscallPhase::Return(v) && v
                == -1)
            &&& phase is Restore ==> next == SyscallPhase::Return(phase->Restore_0)
            &&& phase is Return ==> next == phase
        }),
{
}

/// The wait for the linker looks for its slot until there is one, reads it once
/// to know what it held, and then before every further step of the process.
pub proof fn law_linker_wait_order(phase: LinkerPhase, slot: u32, ok: bool)
    ensures
        ({
            let next = linker_next(phase, slot, ok);
            &&& next == LinkerPhase::Look <==> phase == LinkerPhase::Step && ok
            &&& next == LinkerPhase::FindSlot <==> phase == LinkerPhase::Look && slot == 0
            &&& next == LinkerPhase::ReadSlot <==> phase == LinkerPhase::Look && slot != 0
            &&& next == LinkerPhase::ReadFirst <==> phase == LinkerPhase::FindSlot && ok && slot
                != 0
            &&& next == LinkerPhase::Step <==> phase == LinkerPhase::ReadFirst || (phase
                == LinkerPhase::FindSlot && ok && slot == 0) || (phase == LinkerPhase::ReadSlot
                && !ok)
            &&& next == LinkerPhase::Over(false) && !(phase is Over) ==> !ok && (phase
                == LinkerPhase::FindSlot || phase == LinkerPhase::Step)
            &&& phase is Over ==> next == phase
        }),
{
}

/// The linker is ready once the slot that is watched holds something other than
/// zero and what it held at first; that is then kept. The slot is as far into
/// the program in memory as in its file.
pub proof fn law_linker_fills_its_slot(
    a: &mut TangoLinkerWatch,
    start: u32,
    bias: u32,
    off: u32,
    b: &mut TangoLinkerWatch,
    first: u32,
    c: &mut TangoLinkerWatch,
    now: Option<u32>,
    ready: bool,
)
    requires
        call_ensures(TangoLinkerWatch::watch_slot, (a, start, bias, off), ()),
        *old(b) == *final(a),
        call_ensures(TangoLinkerWatch::first_seen, (b, Some(first)), ()),
        *old(c) == *final(b),
        call_ensures(TangoLinkerWatch::slot_read, (c, now), ready),
        bias <= off,
        start + (off - bias) <= u32::MAX,
    ensures
        final(c).libc_init_got_slot - start == off - bias,
        ready <==> now is Some && now != Some(0u32) && now != Some(first),
        ready ==> Some(final(c).libc_init_resolved) == now,
        !ready ==> final(c).libc_init_resolved == 0,
        final(c).libc_init_initial == first,
{
}

/// A slot that cannot be read at first is not watched on.
pub proof fn law_unreadable_slot_starts_over(a: &mut TangoLinkerWatch, b: &mut TangoLinkerWatch)
    requires
        call_ensures(TangoLinkerWatch::first_seen, (a, None::<u32>), ()),
        call_ensures(TangoLinkerWatch::reset, (b,), ()),
    ensures
        *final(a) == *final(b),
        final(a).libc_init_got_slot == 0,
{
}

/// A pattern is looked for at the multiples of the step, from the front: it
/// stands where it was found, and wherever else it stands is behind.
pub proof fn law_first_multiple_is_found(
    buf: &[u8],
    pat: &Vec<u8>,
    step: usize,
    r: Option<usize>,
    k: int,
)
    requires
        1 <= step <= 4,
        call_ensures(find_step, (buf, pat, step), r),
    ensures
        r is Some ==> {
            let j = r->0 as int;
            &&& j % (step as int) == 0
            &&& j + pat@.len() <= buf@.len()
            &&& forall|i: int| 0 <= i < pat@.len() ==> buf@[j + i] == #[trigger] pat@[i]
        },
        0 <= k && k % (step as int) == 0 && k + pat@.len() <= buf@.len() && buf@.subrange(
            k,
            k + pat@.len(),
        ) == pat@ ==> r is Some && r->0 <= k,
{
    if r is Some {
        let j = r->0 as int;
        assert(occurs_at(buf@, pat@, j));
        assert forall|i: int| 0 <= i < pat@.len() implies buf@[j + i] == #[trigger] pat@[i] by {
            assert(buf@.subrange(j, j + pat@.len())[i] == pat@[i]);
        }
    }
    if 0 <= k && k % (step as int) == 0 && k + pat@.len() <= buf@.len() && buf@.subrange(
        k,
        k + pat@.len(),
    ) == pat@ {
        assert(occurs_at(buf@, pat@, k));
    }
}

/// A return instruction that was found is one: the bytes are those of the Thumb
/// return, at an even distance from the start of the region, and the address
/// carries the Thumb bit.
pub proof fn law_return_instruction_is_one(start: usize, buf: &[u8], r: Option<u64>, k: int)
    requires
        start + buf@.len() < 0xffff_ffff,
        call_ensures(find_arm32_ret_gadget, (start, buf), r),
    ensures
        r is Some ==> {
            let j = r->0 - 1 - start;
            &&& 0 <= j < buf@.len() - 1
            &&& j % 2 == 0
            &&& buf@[j] == 0x70
            &&& buf@[j + 1] == 0x47
        },
        0 <= k < buf@.len() - 1 && k % 2 == 0 && buf@[k] == 0x70 && buf@[k + 1] == 0x47 ==> r
            is Some && r->0 <= start + k + 1,
{
    let insn = thumb_ret_insn();
    if r is Some {
        let j = choose|j: int|
            #[trigger] first_step_match(buf@, insn, 2, j) && r->0 == (
            start as u64).wrapping_add(j as u64).wrapping_add(1);
        assert(occurs_at(buf@, insn, j));
        assert(buf@.subrange(j, j + insn.len())[0] == insn[0]);
        assert(buf@.subrange(j, j + insn.len())[1] == insn[1]);
        assert(r->0 == start + j + 1);
        if 0 <= k < buf@.len() - 1 && k % 2 == 0 && buf@[k] == 0x70 && buf@[k + 1] == 0x47 {
            assert(buf@.subrange(k, k + insn.len()) =~= insn);
            assert(occurs_at(buf@, insn, k));
        }
    } else if 0 <= k < buf@.len() - 1 && k % 2 == 0 && buf@[k] == 0x70 && buf@[k + 1] == 0x47 {
        assert(buf@.subrange(k, k + insn.len()) =~= insn);
        assert(occurs_at(buf@, insn, k));
    }
}

/// The regions of a process are searched one by one: none that was read as a
/// whole and has the instruction is passed over for a later one, and without
/// an answer none has it.
pub proof fn law_no_region_is_passed_over(
    isa: Isa,
    regions: &Vec<Region>,
    contents: &Vec<Option<Vec<u8>>>,
    r: Option<u64>,
    k: int,
)
    requires
        call_ensures(find_syscall_gadget, (isa, regions, contents), r),
        regions@.len() == contents@.len(),
        0 <= k < regions@.len(),
        contents@[k] is Some,
        contents@[k]->0@.len() == regions@[k].len,
        !is_gadget(isa, regions@[k].start, contents@[k]->0@, None),
    ensures
        r is Some,
        exists|i: int|
            0 <= i <= k && contents@[i] is Some && #[trigger] is_gadget(
                isa,
                regions@[i].start,
                contents@[i]->0@,
                r,
            ),
{
    assert(!passed_over(isa, regions@[k], contents@[k]));
    let i = choose|i: int| #[trigger] is_first_gadget(isa, regions@, contents@, i, r->0);
    assert(is_first_gadget(isa, regions@, contents@, i, r->0));
    assert(i <= k);
    assert(is_gadget(isa, regions@[i].start, contents@[i]->0@, r));
}

/// The kernel's shared object is searched before all other code.
pub proof fn law_kernel_object_is_searched_first(map: &Vec<MapEntry>, out: Vec<Region>)
    requires
        call_ensures(gadget_regions, (map,), out),
    ensures
        out@.len() == exec_regions(map@, true).len() + exec_regions(map@, false).len(),
        exec_regions(map@, true).is_prefix_of(out@),
        out@.skip(exec_regions(map@, true).len() as int) == exec_regions(map@, false),
{
}

} // verus!
