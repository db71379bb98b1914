//! Libraries, hooks, and how they are installed and taken back.
//!
//! Slots live in process memory, which this module never touches: it decides
//! which slot is to be read or written next and with what, and keeps the list
//! of hooks in step with what the caller reports back.
use vstd::prelude::*;

use crate::elf::{DynEntry, DynTag, ElfImage, Segment, PT_DYNAMIC, PT_LOAD};
use crate::plti::discover::{
    executes_in, find_plt_addrs, get_addr_protection, get_vma_boundaries, is_self_elf, plt_slots,
    protection_at, vma_bounds, PROT_WRITE,
};
use crate::text::{has_part, same_text, text_contains};

verus! {

/// A page range that was moved away and replaced by a private copy.
#[derive(Clone, Copy, Debug, PartialEq, Eq, Structural)]
pub struct StashedVma {
    pub original_addr: usize,
    pub backup_addr: usize,
    pub len: usize,
    pub original_prot: i32,
}

/// A library whose slots can be hooked.
#[derive(Debug)]
pub struct ElfInfo {
    pub path: String,
    /// Address of the ELF header.
    pub base_addr: usize,
    /// `base_addr` less the virtual address of the segment that holds it.
    pub bias_addr: usize,
    pub image: ElfImage,
    pub stashed_vmas: Vec<StashedVma>,
}

/// One hooked slot. The slots of one function can hold different targets, so
/// each keeps its own.
#[derive(Debug)]
pub struct Hook {
    pub lib_name: String,
    pub name: String,
    /// Address of the slot.
    pub address: usize,
    /// What the slot held before it was hooked.
    pub original: usize,
}

/// The interceptor: the libraries it knows and the hooks in force.
#[derive(Debug)]
pub struct Plti {
    pub elf_infos: Vec<ElfInfo>,
    pub hooks: Vec<Hook>,
}

/// A value to be written to a slot.
#[derive(Clone, Copy, Debug, PartialEq, Eq, Structural)]
pub struct SlotWrite {
    pub slot: usize,
    pub value: usize,
}

/// A hook was installed under these names.
pub open spec fn hook_named(h: Hook, lib_name: Seq<char>, name: Seq<char>) -> bool {
    h.lib_name@ == lib_name && h.name@ == name
}

/// The index of the first library whose path contains `lib_name`.
pub open spec fn library_index(infos: Seq<ElfInfo>, lib_name: Seq<char>) -> Option<int>
    decreases infos.len(),
{
    if infos.len() == 0 {
        None
    } else {
        match library_index(infos.drop_last(), lib_name) {
            Some(i) => Some(i),
            None => if has_part(infos.last().path@, lib_name) {
                Some(infos.len() - 1)
            } else {
                None
            },
        }
    }
}

/// The last dynamic segment has an address other than zero.
pub open spec fn dynamic_found(segs: Seq<Segment>) -> bool
    decreases segs.len(),
{
    if segs.len() == 0 {
        false
    } else if segs.last().ptype == PT_DYNAMIC {
        segs.last().vaddr != 0
    } else {
        dynamic_found(segs.drop_last())
    }
}

/// Dynamic entries that are addresses of tables.
pub open spec fn is_table_pointer(tag: DynTag) -> bool {
    tag == DynTag::StrTab || tag == DynTag::SymTab || tag == DynTag::JmpRel || tag == DynTag::Rel
        || tag == DynTag::Rela || tag == DynTag::AndroidRel || tag == DynTag::AndroidRela
}

/// No table starts below the image.
pub open spec fn pointers_inside(dynamic: Seq<DynEntry>, bias: usize, base: usize) -> bool {
    forall|i: int|
        0 <= i < dynamic.len() && is_table_pointer((#[trigger] dynamic[i]).tag)
            ==> bias.wrapping_add(dynamic[i].value as usize) >= base
}

/// The value of the last entry with one of two tags.
pub open spec fn last_value(dynamic: Seq<DynEntry>, a: DynTag, b: DynTag) -> Option<u64>
    decreases dynamic.len(),
{
    if dynamic.len() == 0 {
        None
    } else if dynamic.last().tag == a || dynamic.last().tag == b {
        Some(dynamic.last().value)
    } else {
        last_value(dynamic.drop_last(), a, b)
    }
}

/// The packed relocation table is readable and carries its magic, unless the
/// image has none or it lies below the image.
pub open spec fn packed_table_ok(img: &ElfImage, bias: usize, base: usize) -> bool {
    match last_value(img.dynamic@, DynTag::AndroidRel, DynTag::AndroidRela) {
        None => true,
        Some(vaddr) => {
            let at = bias.wrapping_add(vaddr as usize);
            if at == 0 || at < base {
                true
            } else {
                let size = match last_value(
                    img.dynamic@,
                    DynTag::AndroidRelSize,
                    DynTag::AndroidRelaSize,
                ) {
                    Some(v) => v,
                    None => 0,
                };
                match crate::elf::file_offset(img.segments@, vaddr) {
                    None => false,
                    Some(off) => {
                        &&& off + size <= img.raw@.len()
                        &&& size >= 4
                        &&& img.raw@.subrange(off as int, off + 4) == seq![
                            0x41u8,
                            0x50u8,
                            0x53u8,
                            0x32u8,
                        ]
                    },
                }
            }
        },
    }
}

/// An image that can be hooked when its header stands at `base`.
pub open spec fn usable_image(img: &ElfImage, bias: usize, base: usize) -> bool {
    &&& dynamic_found(img.segments@)
    &&& pointers_inside(img.dynamic@, bias, base)
    &&& packed_table_ok(img, bias, base)
}

fn has_dynamic(segs: &Vec<Segment>) -> (r: bool)
    ensures
        r == dynamic_found(segs@),
{
    let mut i: usize = segs.len();
    assert(segs@.take(i as int) =~= segs@);
    while i > 0
        invariant
            i <= segs@.len(),
            dynamic_found(segs@) == dynamic_found(segs@.take(i as int)),
        decreases i,
    {
        assert(segs@.take(i as int).drop_last() =~= segs@.take(i - 1));
        i = i - 1;
        if segs[i].ptype == PT_DYNAMIC {
            return segs[i].vaddr != 0;
        }
    }
    false
}

fn pointers_ok(dynamic: &Vec<DynEntry>, bias: usize, base: usize) -> (r: bool)
    ensures
        r == pointers_inside(dynamic@, bias, base),
{
    let mut i: usize = 0;
    while i < dynamic.len()
        invariant
            i <= dynamic@.len(),
            forall|j: int|
                0 <= j < i && is_table_pointer((#[trigger] dynamic@[j]).tag)
                    ==> bias.wrapping_add(dynamic@[j].value as usize) >= base,
        decreases dynamic@.len() - i,
    {
        let e = dynamic[i];
        let checked = match e.tag {
            DynTag::StrTab | DynTag::SymTab | DynTag::JmpRel | DynTag::Rel | DynTag::Rela
            | DynTag::AndroidRel | DynTag::AndroidRela => true,
            _ => false,
        };
        if checked && bias.wrapping_add(e.value as usize) < base {
            assert(is_table_pointer(dynamic@[i as int].tag));
            return false;
        }
        i = i + 1;
    }
    true
}

fn find_last_value(dynamic: &Vec<DynEntry>, a: DynTag, b: DynTag) -> (r: Option<u64>)
    ensures
        r == last_value(dynamic@, a, b),
{
    let mut i: usize = dynamic.len();
    assert(dynamic@.take(i as int) =~= dynamic@);
    while i > 0
        invariant
            i <= dynamic@.len(),
            last_value(dynamic@, a, b) == last_value(dynamic@.take(i as int), a, b),
        decreases i,
    {
        assert(dynamic@.take(i as int).drop_last() =~= dynamic@.take(i - 1));
        i = i - 1;
        if dynamic[i].tag == a || dynamic[i].tag == b {
            return Some(dynamic[i].value);
        }
    }
    None
}

fn packed_ok(img: &ElfImage, bias: usize, base: usize) -> (r: bool)
    ensures
        r == packed_table_ok(img, bias, base),
{
    let vaddr: u64 = match find_last_value(&img.dynamic, DynTag::AndroidRel, DynTag::AndroidRela) {
        Some(v) => v,
        None => {
            return true;
        },
    };
    let at: usize = bias.wrapping_add(vaddr as usize);
    if at == 0 || at < base {
        return true;
    }
    let size: u64 = match find_last_value(
        &img.dynamic,
        DynTag::AndroidRelSize,
        DynTag::AndroidRelaSize,
    ) {
        Some(v) => v,
        None => 0,
    };
    let off: u64 = match img.vaddr_to_file_offset(vaddr) {
        Some(off) => off,
        None => {
            return false;
        },
    };
    let len: usize = img.raw.len();
    let end: u128 = off as u128 + size as u128;
    if size < 4 || end > len as u128 {
        return false;
    }
    let o: usize = off as usize;
    let r = img.raw[o] == 0x41 && img.raw[o + 1] == 0x50 && img.raw[o + 2] == 0x53 && img.raw[o + 3]
        == 0x32;
    proof {
        let got = img.raw@.subrange(o as int, o + 4);
        if r {
            assert(got =~= seq![0x41u8, 0x50u8, 0x53u8, 0x32u8]);
        } else {
            assert(got[0] == img.raw@[o as int]);
            assert(got[1] == img.raw@[o + 1]);
            assert(got[2] == img.raw@[o + 2]);
            assert(got[3] == img.raw@[o + 3]);
        }
    }
    r
}

/// A library as the dynamic linker lists it.
#[derive(Debug)]
pub struct LinkedLib {
    pub name: String,
    pub addr: usize,
    pub segments: Vec<Segment>,
}

/// The address of a listed library's ELF header: its load address, moved by
/// the virtual address of the first segment that starts the file.
pub open spec fn header_addr(addr: usize, segs: Seq<Segment>) -> usize
    decreases segs.len(),
{
    if segs.len() == 0 {
        addr
    } else if segs[0].ptype == PT_LOAD && segs[0].offset == 0 {
        addr.wrapping_add(segs[0].vaddr as usize)
    } else {
        header_addr(addr, segs.drop_first())
    }
}

/// `i` is the first listed library whose name contains `lib_name`.
pub open spec fn first_linked(libs: Seq<LinkedLib>, lib_name: Seq<char>, i: int) -> bool {
    &&& 0 <= i < libs.len()
    &&& has_part(libs[i].name@, lib_name)
    &&& forall|j: int| 0 <= j < i ==> !has_part(#[trigger] libs[j].name@, lib_name)
}

/// The first listed library whose name contains `lib_name`: its index and the
/// address of its ELF header.
pub fn find_linked_lib(libs: &Vec<LinkedLib>, lib_name: &str) -> (r: Option<(usize, usize)>)
    ensures
        match r {
            Some((i, at)) => first_linked(libs@, lib_name@, i as int) && at == header_addr(
                libs@[i as int].addr,
                libs@[i as int].segments@,
            ),
            None => forall|j: int|
                0 <= j < libs@.len() ==> !has_part(#[trigger] libs@[j].name@, lib_name@),
        },
{
    let mut i: usize = 0;
    while i < libs.len()
        invariant
            i <= libs@.len(),
            forall|j: int| 0 <= j < i ==> !has_part(#[trigger] libs@[j].name@, lib_name@),
        decreases libs@.len() - i,
    {
        if text_contains(libs[i].name.as_str(), lib_name) {
            return Some((i, find_header(libs[i].addr, &libs[i].segments)));
        }
        i = i + 1;
    }
    None
}

fn find_header(addr: usize, segs: &Vec<Segment>) -> (r: usize)
    ensures
        r == header_addr(addr, segs@),
{
    let mut k: usize = 0;
    assert(segs@.skip(0) =~= segs@);
    while k < segs.len()
        invariant
            k <= segs@.len(),
            header_addr(addr, segs@) == header_addr(addr, segs@.skip(k as int)),
        decreases segs@.len() - k,
    {
        assert(segs@.skip(k as int).drop_first() =~= segs@.skip(k + 1));
        if segs[k].ptype == PT_LOAD && segs[k].offset == 0 {
            return addr.wrapping_add(segs[k].vaddr as usize);
        }
        k = k + 1;
    }
    addr
}

/// How a slot can be written.
#[derive(Clone, Copy, Debug, PartialEq, Eq, Structural)]
pub enum GotPlan {
    /// It cannot.
    Fail,
    /// Make its page writable, write it and give the page this protection.
    Write { restore_prot: i32 },
    /// Add write permission to the page first, then as for `Write`; the page
    /// is writable by its headers.
    UnprotectThenWrite { restore_prot: i32 },
    /// The page range is read-only and may be shared with the file: ask
    /// whether it is anonymous already, and replace it by a copy if not.
    Replace { vma_start: usize, vma_len: usize, restore_prot: i32 },
}

/// A page range was replaced before.
pub open spec fn is_stashed(stashed: Seq<StashedVma>, vma_start: usize) -> bool {
    exists|i: int| 0 <= i < stashed.len() && (#[trigger] stashed[i]).original_addr == vma_start
}

/// How the slot at `got_addr` of a library can be written, for code running at
/// `pc`.
pub open spec fn got_plan(info: &ElfInfo, got_addr: usize, pc: usize, page: usize) -> GotPlan {
    match protection_at(info.image.segments@, info.bias_addr, got_addr) {
        None => GotPlan::Fail,
        Some(prot) => if executes_in(info.image.segments@, info.bias_addr, pc) {
            GotPlan::Write { restore_prot: prot }
        } else if prot & PROT_WRITE != 0 {
            GotPlan::UnprotectThenWrite { restore_prot: prot }
        } else {
            match vma_bounds(info.image.segments@, info.bias_addr, got_addr, page) {
                None => GotPlan::Fail,
                Some((start, len)) => if is_stashed(info.stashed_vmas@, start) {
                    GotPlan::Write { restore_prot: prot }
                } else {
                    GotPlan::Replace { vma_start: start, vma_len: len, restore_prot: prot }
                },
            }
        },
    }
}

fn stashed_before(stashed: &Vec<StashedVma>, vma_start: usize) -> (r: bool)
    ensures
        r == is_stashed(stashed@, vma_start),
{
    let mut i: usize = 0;
    while i < stashed.len()
        invariant
            i <= stashed@.len(),
            forall|j: int| 0 <= j < i ==> (#[trigger] stashed@[j]).original_addr != vma_start,
        decreases stashed@.len() - i,
    {
        if stashed[i].original_addr == vma_start {
            return true;
        }
        i = i + 1;
    }
    false
}

impl ElfInfo {
    /// How one of the library's slots can be written.
    pub fn plan_got_write(&self, got_addr: usize, pc: usize, page_size: usize) -> (r: GotPlan)
        requires
            page_size >= 1,
        ensures
            r == got_plan(self, got_addr, pc, page_size),
    {
        let prot: i32 = match get_addr_protection(&self.image, self.bias_addr, got_addr) {
            Some(prot) => prot,
            None => {
                return GotPlan::Fail;
            },
        };
        if is_self_elf(&self.image, self.bias_addr, pc) {
            return GotPlan::Write { restore_prot: prot };
        }
        if prot & PROT_WRITE != 0 {
            return GotPlan::UnprotectThenWrite { restore_prot: prot };
        }
        let (start, len) = match get_vma_boundaries(
            &self.image,
            self.bias_addr,
            got_addr,
            page_size,
        ) {
            Some(range) => range,
            None => {
                return GotPlan::Fail;
            },
        };
        if stashed_before(&self.stashed_vmas, start) {
            return GotPlan::Write { restore_prot: prot };
        }
        GotPlan::Replace { vma_start: start, vma_len: len, restore_prot: prot }
    }

    /// Notes that a page range was replaced and where the original is kept.
    pub fn record_stash(&mut self, vma_start: usize, backup: usize, vma_len: usize, prot: i32)
        ensures
            final(self).stashed_vmas@ == old(self).stashed_vmas@.push(
                (StashedVma {
                    original_addr: vma_start,
                    backup_addr: backup,
                    len: vma_len,
                    original_prot: prot,
                }),
            ),
            final(self).path == old(self).path,
            final(self).base_addr == old(self).base_addr,
            final(self).bias_addr == old(self).bias_addr,
            final(self).image == old(self).image,
    {
        self.stashed_vmas.push(
            StashedVma {
                original_addr: vma_start,
                backup_addr: backup,
                len: vma_len,
                original_prot: prot,
            },
        );
    }
}

/// The installation of a hook, slot by slot.
#[derive(Debug)]
pub struct HookJob {
    pub lib: usize,
    pub lib_name: String,
    pub name: String,
    pub callback: usize,
    pub slots: Vec<usize>,
    /// How many hooks there were when the job began.
    pub first: usize,
    /// The slot that is being hooked.
    pub next: usize,
    /// What that slot held, once it has been read.
    pub original: usize,
    /// What the caller keeps for calling the original; zero while unset,
    /// `None` where it keeps nothing.
    pub backup: Option<usize>,
}

/// What follows after a slot was written.
#[derive(Debug)]
pub enum HookStep {
    /// Go on with this slot.
    Next(usize),
    /// Every slot is hooked.
    Done,
    /// The hook failed: write these values back, in this order.
    Undo(Vec<SlotWrite>),
}

impl HookJob {
    /// A job with a slot to work on.
    pub open spec fn wf(self) -> bool {
        self.next < self.slots@.len()
    }

    /// The slot to read and then write.
    pub fn slot(&self) -> (r: usize)
        requires
            self.wf(),
        ensures
            r == self.slots@[self.next as int],
    {
        self.slots[self.next]
    }

    /// Takes what the current slot holds. The first value read becomes the
    /// caller's backup if that is still unset; the slot is to be written after
    /// the backup.
    pub fn slot_read(&mut self, original: usize) -> (r: SlotWrite)
        requires
            old(self).wf(),
        ensures
            r == (SlotWrite {
                slot: old(self).slots@[old(self).next as int],
                value: old(self).callback,
            }),
            final(self).original == original,
            final(self).backup == if old(self).backup == Some(0usize) {
                Some(original)
            } else {
                old(self).backup
            },
            final(self).wf(),
            final(self).lib == old(self).lib,
            final(self).lib_name == old(self).lib_name,
            final(self).name == old(self).name,
            final(self).callback == old(self).callback,
            final(self).slots == old(self).slots,
            final(self).first == old(self).first,
            final(self).next == old(self).next,
    {
        self.original = original;
        if let Some(kept) = self.backup {
            if kept == 0 {
                self.backup = Some(original);
            }
        }
        SlotWrite { slot: self.slots[self.next], value: self.callback }
    }
}

/// What a failed hook writes back, given the hooks since it began: every slot
/// hooked under these names, the most recent first, each with its own original.
pub open spec fn undo_of(hooks: Seq<Hook>, lib_name: Seq<char>, name: Seq<char>) -> Seq<SlotWrite>
    decreases hooks.len(),
{
    if hooks.len() == 0 {
        seq![]
    } else {
        let h = hooks.last();
        let rest = undo_of(hooks.drop_last(), lib_name, name);
        if hook_named(h, lib_name, name) && h.address != 0 {
            seq![SlotWrite { slot: h.address, value: h.original }] + rest
        } else {
            rest
        }
    }
}

/// What removing a hook writes: every slot hooked under these names, in the
/// order of installation, each with its own original, or with `fallback` where
/// none was recorded.
pub open spec fn restore_of(
    hooks: Seq<Hook>,
    lib_name: Seq<char>,
    name: Seq<char>,
    fallback: usize,
) -> Seq<SlotWrite>
    decreases hooks.len(),
{
    if hooks.len() == 0 {
        seq![]
    } else {
        let h = hooks.last();
        let rest = restore_of(hooks.drop_last(), lib_name, name, fallback);
        if hook_named(h, lib_name, name) && h.address != 0 {
            rest.push(
                SlotWrite {
                    slot: h.address,
                    value: if h.original != 0 {
                        h.original
                    } else {
                        fallback
                    },
                },
            )
        } else {
            rest
        }
    }
}

/// The hooks installed under other names, in order.
pub open spec fn others_of(hooks: Seq<Hook>, lib_name: Seq<char>, name: Seq<char>) -> Seq<Hook>
    decreases hooks.len(),
{
    if hooks.len() == 0 {
        seq![]
    } else {
        let rest = others_of(hooks.drop_last(), lib_name, name);
        if hook_named(hooks.last(), lib_name, name) {
            rest
        } else {
            rest.push(hooks.last())
        }
    }
}

/// Some hook was installed under these names.
pub open spec fn any_named(hooks: Seq<Hook>, lib_name: Seq<char>, name: Seq<char>) -> bool {
    exists|i: int| 0 <= i < hooks.len() && hook_named(#[trigger] hooks[i], lib_name, name)
}

/// All page ranges that were replaced, library by library.
pub open spec fn all_stashed(infos: Seq<ElfInfo>) -> Seq<StashedVma>
    decreases infos.len(),
{
    if infos.len() == 0 {
        seq![]
    } else {
        all_stashed(infos.drop_last()) + infos.last().stashed_vmas@
    }
}

fn is_named(h: &Hook, lib_name: &str, name: &str) -> (r: bool)
    ensures
        r == hook_named(*h, lib_name@, name@),
{
    same_text(h.lib_name.as_str(), lib_name) && same_text(h.name.as_str(), name)
}

impl Plti {
    /// An interceptor without libraries and hooks.
    pub fn new() -> (r: Self)
        ensures
            r.elf_infos@.len() == 0,
            r.hooks@.len() == 0,
    {
        Plti { elf_infos: Vec::new(), hooks: Vec::new() }
    }

    /// Some library stands at `base`.
    pub open spec fn has_base(self, base: usize) -> bool {
        exists|i: int|
            0 <= i < self.elf_infos@.len() && (#[trigger] self.elf_infos@[i]).base_addr == base
    }

    /// Whether a library at this address is known already.
    pub fn knows_base(&self, base_addr: usize) -> (r: bool)
        ensures
            r == self.has_base(base_addr),
    {
        let mut i: usize = 0;
        while i < self.elf_infos.len()
            invariant
                i <= self.elf_infos@.len(),
                forall|j: int|
                    0 <= j < i ==> (#[trigger] self.elf_infos@[j]).base_addr != base_addr,
            decreases self.elf_infos@.len() - i,
        {
            if self.elf_infos[i].base_addr == base_addr {
                return true;
            }
            i = i + 1;
        }
        false
    }

    /// Adds the library whose ELF header stands at `base_addr`, given what
    /// reading and parsing it produced: the image and its load bias. A library
    /// that is known already is not added again; one that could not be read or
    /// has no usable tables is refused.
    pub fn add_manual_lib(
        &mut self,
        lib_path: &str,
        base_addr: usize,
        loaded: Option<(ElfImage, usize)>,
    ) -> (ok: bool)
        ensures
            final(self).hooks == old(self).hooks,
            ok == (old(self).has_base(base_addr) || (loaded matches Some(l) && usable_image(
                &l.0,
                l.1,
                base_addr,
            ))),
            !ok || old(self).has_base(base_addr) ==> final(self).elf_infos
                == old(self).elf_infos,
            ok && !old(self).has_base(base_addr) ==> {
                let infos = final(self).elf_infos@;
                let n = old(self).elf_infos@.len();
                &&& infos.len() == n + 1
                &&& infos.take(n as int) == old(self).elf_infos@
                &&& infos[n as int].path@ == lib_path@
                &&& infos[n as int].base_addr == base_addr
                &&& infos[n as int].bias_addr == (loaded->0).1
                &&& infos[n as int].image == (loaded->0).0
                &&& infos[n as int].stashed_vmas@.len() == 0
            },
    {
        if self.knows_base(base_addr) {
            return true;
        }
        let (image, bias_addr) = match loaded {
            Some(l) => l,
            None => {
                return false;
            },
        };
        if !has_dynamic(&image.segments) || !pointers_ok(&image.dynamic, bias_addr, base_addr)
            || !packed_ok(&image, bias_addr, base_addr) {
            return false;
        }
        self.elf_infos.push(
            ElfInfo {
                path: String::from_str(lib_path),
                base_addr,
                bias_addr,
                image,
                stashed_vmas: Vec::new(),
            },
        );
        assert(self.elf_infos@.take(old(self).elf_infos@.len() as int) =~= old(self).elf_infos@);
        true
    }

    /// The first library whose path contains `lib_name`.
    pub fn find_library(&self, lib_name: &str) -> (r: Option<usize>)
        ensures
            match r {
                Some(i) => i < self.elf_infos@.len() && library_index(self.elf_infos@, lib_name@)
                    == Some(i as int),
                None => library_index(self.elf_infos@, lib_name@) is None,
            },
    {
        let mut i: usize = 0;
        while i < self.elf_infos.len()
            invariant
                i <= self.elf_infos@.len(),
                library_index(self.elf_infos@.take(i as int), lib_name@) is None,
            decreases self.elf_infos@.len() - i,
        {
            assert(self.elf_infos@.take(i + 1).drop_last() =~= self.elf_infos@.take(i as int));
            if text_contains(self.elf_infos[i].path.as_str(), lib_name) {
                proof {
                    lemma_library_index_prefix(self.elf_infos@, lib_name@, i + 1);
                }
                return Some(i);
            }
            i = i + 1;
        }
        assert(self.elf_infos@.take(i as int) =~= self.elf_infos@);
        None
    }

    /// The slots that hooking `name` in a library concerns; empty where the
    /// library is unknown or has no such slot.
    pub open spec fn slots_for(self, lib_name: &str, name: &str, by_prefix: bool) -> Seq<usize> {
        match library_index(self.elf_infos@, lib_name@) {
            None => seq![],
            Some(i) => {
                let info = self.elf_infos@[i];
                plt_slots(&info.image, info.bias_addr, info.base_addr, name, by_prefix)
            },
        }
    }

    /// `job` installs `callback` for `name` from the first slot on.
    pub open spec fn starts(
        self,
        job: HookJob,
        lib_name: &str,
        name: &str,
        by_prefix: bool,
        callback: usize,
        backup: Option<usize>,
    ) -> bool {
        &&& library_index(self.elf_infos@, lib_name@) == Some(job.lib as int)
        &&& job.lib_name@ == lib_name@
        &&& job.name@ == name@
        &&& job.callback == callback
        &&& job.slots@ == self.slots_for(lib_name, name, by_prefix)
        &&& job.first == self.hooks@.len()
        &&& job.next == 0
        &&& job.backup == backup
        &&& job.wf()
    }

    fn begin_hook(
        &self,
        lib_name: &str,
        name: &str,
        by_prefix: bool,
        new_callback: usize,
        backup: Option<usize>,
    ) -> (r: Option<HookJob>)
        ensures
            match r {
                Some(job) => self.starts(job, lib_name, name, by_prefix, new_callback, backup),
                None => self.slots_for(lib_name, name, by_prefix).len() == 0,
            },
    {
        let lib: usize = match self.find_library(lib_name) {
            Some(i) => i,
            None => {
                return None;
            },
        };
        let info = &self.elf_infos[lib];
        let slots = find_plt_addrs(&info.image, info.bias_addr, info.base_addr, name, by_prefix);
        if slots.len() == 0 {
            return None;
        }
        Some(
            HookJob {
                lib,
                lib_name: String::from_str(lib_name),
                name: String::from_str(name),
                callback: new_callback,
                slots,
                first: self.hooks.len(),
                next: 0,
                original: 0,
                backup,
            },
        )
    }

    /// Begins to hook a function by its exact name. `None` where the library is
    /// unknown or has no slot for it.
    pub fn add_hook(
        &self,
        lib_name: &str,
        name: &str,
        new_callback: usize,
        backup: Option<usize>,
    ) -> (r: Option<HookJob>)
        ensures
            match r {
                Some(job) => self.starts(job, lib_name, name, false, new_callback, backup),
                None => self.slots_for(lib_name, name, false).len() == 0,
            },
    {
        self.begin_hook(lib_name, name, false, new_callback, backup)
    }

    /// Begins to hook every function whose name begins with a prefix. Only one
    /// hook per prefix makes sense: there is one backup for all originals.
    pub fn add_hook_by_prefix(
        &self,
        lib_name: &str,
        name_prefix: &str,
        new_callback: usize,
        backup: Option<usize>,
    ) -> (r: Option<HookJob>)
        ensures
            match r {
                Some(job) => self.starts(job, lib_name, name_prefix, true, new_callback, backup),
                None => self.slots_for(lib_name, name_prefix, true).len() == 0,
            },
    {
        self.begin_hook(lib_name, name_prefix, true, new_callback, backup)
    }

    /// Takes the outcome of writing the current slot. A written slot is
    /// recorded; a failure ends the job with what has to be written back, and
    /// forgets what the job recorded. Hooks from before the job stay, whatever
    /// their names are.
    pub fn slot_written(&mut self, job: &mut HookJob, ok: bool) -> (r: HookStep)
        requires
            old(job).wf(),
            old(job).first <= old(self).hooks@.len(),
        ensures
            final(self).elf_infos == old(self).elf_infos,
            final(job).first == old(job).first,
            final(job).first <= final(self).hooks@.len(),
            !ok ==> {
                &&& final(self).hooks@ == old(self).hooks@.take(old(job).first as int)
                &&& *final(job) == *old(job)
                &&& r matches HookStep::Undo(writes) && writes@ == undo_of(
                    old(self).hooks@.skip(old(job).first as int),
                    old(job).lib_name@,
                    old(job).name@,
                )
            },
            ok ==> {
                let n = old(self).hooks@.len();
                let h = final(self).hooks@[n as int];
                &&& final(self).hooks@.len() == n + 1
                &&& final(self).hooks@.take(n as int) == old(self).hooks@
                &&& hook_named(h, old(job).lib_name@, old(job).name@)
                &&& h.address == old(job).slots@[old(job).next as int]
                &&& h.original == old(job).original
                &&& final(job).next == old(job).next + 1
                &&& final(job).lib == old(job).lib
                &&& final(job).lib_name == old(job).lib_name
                &&& final(job).name == old(job).name
                &&& final(job).callback == old(job).callback
                &&& final(job).slots == old(job).slots
                &&& final(job).backup == old(job).backup
                &&& if old(job).next + 1 < old(job).slots@.len() {
                    r matches HookStep::Next(slot) && slot == old(job).slots@[old(job).next + 1]
                        && final(job).wf()
                } else {
                    r is Done
                }
            },
    {
        if !ok {
            let writes = self.undo_writes(job.first, &job.lib_name, &job.name);
            self.hooks.truncate(job.first);
            assert(self.hooks@ =~= old(self).hooks@.take(job.first as int));
            return HookStep::Undo(writes);
        }
        let slot: usize = job.slots[job.next];
        self.hooks.push(
            Hook {
                lib_name: job.lib_name.clone(),
                name: job.name.clone(),
                address: slot,
                original: job.original,
            },
        );
        assert(self.hooks@.take(old(self).hooks@.len() as int) =~= old(self).hooks@);
        let len: usize = job.slots.len();
        job.next = job.next + 1;
        if job.next < len {
            HookStep::Next(job.slots[job.next])
        } else {
            HookStep::Done
        }
    }

    fn undo_writes(&self, first: usize, lib_name: &String, name: &String) -> (r: Vec<SlotWrite>)
        requires
            first <= self.hooks@.len(),
        ensures
            r@ == undo_of(self.hooks@.skip(first as int), lib_name@, name@),
    {
        let mut out: Vec<SlotWrite> = Vec::new();
        let mut i: usize = self.hooks.len();
        let ghost added = self.hooks@.skip(first as int);
        assert(added.take(i - first) =~= added);
        while i > first
            invariant
                first <= i <= self.hooks@.len(),
                added == self.hooks@.skip(first as int),
                undo_of(added, lib_name@, name@) == out@ + undo_of(
                    added.take(i - first),
                    lib_name@,
                    name@,
                ),
            decreases i,
        {
            let ghost before = out@;
            assert(added.take(i - first).drop_last() =~= added.take(i - 1 - first));
            i = i - 1;
            let h = &self.hooks[i];
            if is_named(h, lib_name.as_str(), name.as_str()) && h.address != 0 {
                out.push(SlotWrite { slot: h.address, value: h.original });
                assert(before + (seq![SlotWrite { slot: h.address, value: h.original }] + undo_of(
                    added.take(i - first),
                    lib_name@,
                    name@,
                )) =~= out@ + undo_of(added.take(i - first), lib_name@, name@));
            }
        }
        assert(out@ + undo_of(added.take(0), lib_name@, name@) =~= out@);
        out
    }

    fn plan_removal(&self, lib_name: &str, name: &str, original_callback: usize) -> (r: Option<
        Vec<SlotWrite>,
    >)
        ensures
            match r {
                Some(writes) => {
                    &&& library_index(self.elf_infos@, lib_name@) is Some
                    &&& any_named(self.hooks@, lib_name@, name@)
                    &&& writes@ == restore_of(self.hooks@, lib_name@, name@, original_callback)
                },
                None => {
                    ||| library_index(self.elf_infos@, lib_name@) is None
                    ||| !any_named(self.hooks@, lib_name@, name@)
                },
            },
    {
        if self.find_library(lib_name).is_none() {
            return None;
        }
        let mut out: Vec<SlotWrite> = Vec::new();
        let mut found = false;
        let mut i: usize = 0;
        while i < self.hooks.len()
            invariant
                i <= self.hooks@.len(),
                out@ == restore_of(
                    self.hooks@.take(i as int),
                    lib_name@,
                    name@,
                    original_callback,
                ),
                found == exists|j: int|
                    0 <= j < i && hook_named(#[trigger] self.hooks@[j], lib_name@, name@),
            decreases self.hooks@.len() - i,
        {
            assert(self.hooks@.take(i + 1).drop_last() =~= self.hooks@.take(i as int));
            let h = &self.hooks[i];
            if is_named(h, lib_name, name) {
                assert(hook_named(self.hooks@[i as int], lib_name@, name@));
                found = true;
                if h.address != 0 {
                    let value: usize = if h.original != 0 {
                        h.original
                    } else {
                        original_callback
                    };
                    out.push(SlotWrite { slot: h.address, value });
                }
            }
            i = i + 1;
        }
        assert(self.hooks@.take(i as int) =~= self.hooks@);
        if !found {
            return None;
        }
        Some(out)
    }

    /// Begins to remove a hook: what has to be written, in this order, up to
    /// the first write that fails. `None` where no original is given, the
    /// library is unknown or nothing is hooked under these names.
    pub fn remove_hook(&self, lib_name: &str, name: &str, original_callback: usize) -> (r: Option<
        Vec<SlotWrite>,
    >)
        ensures
            match r {
                Some(writes) => {
                    &&& original_callback != 0
                    &&& library_index(self.elf_infos@, lib_name@) is Some
                    &&& any_named(self.hooks@, lib_name@, name@)
                    &&& writes@ == restore_of(self.hooks@, lib_name@, name@, original_callback)
                },
                None => {
                    ||| original_callback == 0
                    ||| library_index(self.elf_infos@, lib_name@) is None
                    ||| !any_named(self.hooks@, lib_name@, name@)
                },
            },
    {
        if original_callback == 0 {
            return None;
        }
        self.plan_removal(lib_name, name, original_callback)
    }

    /// Begins to remove the hook that was installed under a prefix.
    pub fn remove_hook_by_prefix(
        &self,
        lib_name: &str,
        name_prefix: &str,
        original_callback: usize,
    ) -> (r: Option<Vec<SlotWrite>>)
        ensures
            match r {
                Some(writes) => {
                    &&& original_callback != 0
                    &&& library_index(self.elf_infos@, lib_name@) is Some
                    &&& any_named(self.hooks@, lib_name@, name_prefix@)
                    &&& writes@ == restore_of(
                        self.hooks@,
                        lib_name@,
                        name_prefix@,
                        original_callback,
                    )
                },
                None => {
                    ||| original_callback == 0
                    ||| library_index(self.elf_infos@, lib_name@) is None
                    ||| !any_named(self.hooks@, lib_name@, name_prefix@)
                },
            },
    {
        if original_callback == 0 {
            return None;
        }
        self.plan_removal(lib_name, name_prefix, original_callback)
    }

    /// Ends a removal: forgets the hooks of these names if every slot was
    /// restored, and keeps all of them otherwise.
    pub fn hooks_restored(&mut self, lib_name: &str, name: &str, all_restored: bool) -> (ok: bool)
        ensures
            ok == all_restored,
            final(self).elf_infos == old(self).elf_infos,
            final(self).hooks@ == if all_restored {
                others_of(old(self).hooks@, lib_name@, name@)
            } else {
                old(self).hooks@
            },
    {
        if !all_restored {
            return false;
        }
        let mut kept: Vec<Hook> = Vec::new();
        let mut rest: Vec<Hook> = Vec::new();
        rest.append(&mut self.hooks);
        let ghost all = rest@;
        assert(all =~= old(self).hooks@);
        let ghost mut done: int = 0;
        while rest.len() > 0
            invariant
                0 <= done <= all.len(),
                rest@ =~= all.skip(done),
                kept@ == others_of(all.take(done), lib_name@, name@),
            decreases rest@.len(),
        {
            assert(all.take(done + 1).drop_last() =~= all.take(done));
            let h = rest.remove(0);
            if !is_named(&h, lib_name, name) {
                kept.push(h);
            }
            proof {
                done = done + 1;
            }
        }
        assert(all.take(done) =~= all);
        self.hooks = kept;
        true
    }

    /// Takes the interceptor down: what has to be moved back, in order. The
    /// result of moving back does not matter any more.
    pub fn deinit(self) -> (r: Vec<StashedVma>)
        ensures
            r@ == all_stashed(self.elf_infos@),
    {
        let mut out: Vec<StashedVma> = Vec::new();
        let mut i: usize = 0;
        while i < self.elf_infos.len()
            invariant
                i <= self.elf_infos@.len(),
                out@ == all_stashed(self.elf_infos@.take(i as int)),
            decreases self.elf_infos@.len() - i,
        {
            assert(self.elf_infos@.take(i + 1).drop_last() =~= self.elf_infos@.take(i as int));
            let stashed = &self.elf_infos[i].stashed_vmas;
            let ghost before = out@;
            let mut k: usize = 0;
            while k < stashed.len()
                invariant
                    k <= stashed@.len(),
                    out@ =~= before + stashed@.take(k as int),
                decreases stashed@.len() - k,
            {
                out.push(stashed[k]);
                k = k + 1;
            }
            assert(stashed@.take(k as int) =~= stashed@);
            i = i + 1;
        }
        assert(self.elf_infos@.take(i as int) =~= self.elf_infos@);
        out
    }
}

impl Default for Plti {
    fn default() -> (r: Self)
        ensures
            r.elf_infos@.len() == 0,
            r.hooks@.len() == 0,
    {
        Plti::new()
    }
}

proof fn lemma_library_index_prefix(infos: Seq<ElfInfo>, lib_name: Seq<char>, n: int)
    requires
        0 <= n <= infos.len(),
        library_index(infos.take(n), lib_name) is Some,
    ensures
        library_index(infos, lib_name) == library_index(infos.take(n), lib_name),
    decreases infos.len(),
{
    if n == infos.len() {
        assert(infos.take(n) =~= infos);
    } else {
        assert(infos.drop_last().take(n) =~= infos.take(n));
        lemma_library_index_prefix(infos.drop_last(), lib_name, n);
    }
}

/// The slots of a process after some writes, in their order.
pub open spec fn applied(slots: Map<usize, usize>, writes: Seq<SlotWrite>) -> Map<usize, usize>
    decreases writes.len(),
{
    if writes.len() == 0 {
        slots
    } else {
        applied(slots, writes.drop_last()).insert(writes.last().slot, writes.last().value)
    }
}

/// The slots of a process after the first `n` of a job's slots were hooked.
pub open spec fn hooked(
    slots: Map<usize, usize>,
    addrs: Seq<usize>,
    callback: usize,
    n: nat,
) -> Map<usize, usize>
    decreases n,
{
    if n == 0 {
        slots
    } else {
        hooked(slots, addrs, callback, (n - 1) as nat).insert(addrs[n - 1], callback)
    }
}

/// `hooks` is what `before` became when the first `n` of a job's slots were
/// hooked under these names, each with what it held at that moment.
pub open spec fn records(
    before: Seq<Hook>,
    hooks: Seq<Hook>,
    lib_name: Seq<char>,
    name: Seq<char>,
    slots: Map<usize, usize>,
    addrs: Seq<usize>,
    callback: usize,
    n: nat,
) -> bool {
    &&& n <= addrs.len()
    &&& hooks.len() == before.len() + n
    &&& hooks.take(before.len() as int) == before
    &&& forall|i: int|
        0 <= i < n ==> {
            let h = #[trigger] hooks[before.len() + i];
            &&& hook_named(h, lib_name, name)
            &&& h.address == addrs[i]
            &&& h.original == hooked(slots, addrs, callback, i as nat)[addrs[i]]
        }
}

/// The slots of a job are in the process and none is at zero.
pub open spec fn slots_exist(slots: Map<usize, usize>, addrs: Seq<usize>) -> bool {
    forall|i: int| 0 <= i < addrs.len() ==> slots.contains_key(#[trigger] addrs[i]) && addrs[i] != 0
}

proof fn lemma_nothing_to_restore(hooks: Seq<Hook>, lib_name: Seq<char>, name: Seq<char>, fallback: usize)
    requires
        !any_named(hooks, lib_name, name),
    ensures
        restore_of(hooks, lib_name, name, fallback).len() == 0,
    decreases hooks.len(),
{
    if hooks.len() > 0 {
        let rest = hooks.drop_last();
        assert(!any_named(rest, lib_name, name)) by {
            if any_named(rest, lib_name, name) {
                let i = choose|i: int|
                    0 <= i < rest.len() && hook_named(#[trigger] rest[i], lib_name, name);
                assert(hook_named(hooks[i], lib_name, name));
            }
        }
        assert(!hook_named(hooks[hooks.len() - 1], lib_name, name));
        lemma_nothing_to_restore(rest, lib_name, name, fallback);
    }
}

proof fn lemma_first_write(slots: Map<usize, usize>, w: SlotWrite, rest: Seq<SlotWrite>)
    ensures
        applied(slots, seq![w] + rest) == applied(slots.insert(w.slot, w.value), rest),
    decreases rest.len(),
{
    let all = seq![w] + rest;
    if rest.len() == 0 {
        assert(applied(slots, all.drop_last()) == slots);
        assert(all.last() == w);
    } else {
        lemma_first_write(slots, w, rest.drop_last());
        assert(all.drop_last() =~= seq![w] + rest.drop_last());
        assert(all.last() == rest.last());
    }
}

proof fn lemma_hooked_keeps_slots(slots: Map<usize, usize>, addrs: Seq<usize>, callback: usize, n: nat)
    requires
        slots_exist(slots, addrs),
        n <= addrs.len(),
    ensures
        hooked(slots, addrs, callback, n).dom() =~= slots.dom(),
    decreases n,
{
    if n > 0 {
        lemma_hooked_keeps_slots(slots, addrs, callback, (n - 1) as nat);
        assert(slots.contains_key(addrs[n - 1]));
    }
}

proof fn lemma_records_step(
    before: Seq<Hook>,
    hooks: Seq<Hook>,
    lib_name: Seq<char>,
    name: Seq<char>,
    slots: Map<usize, usize>,
    addrs: Seq<usize>,
    callback: usize,
    n: nat,
)
    requires
        records(before, hooks, lib_name, name, slots, addrs, callback, n),
        n > 0,
    ensures
        records(
            before,
            hooks.drop_last(),
            lib_name,
            name,
            slots,
            addrs,
            callback,
            (n - 1) as nat,
        ),
        hook_named(hooks.last(), lib_name, name),
        hooks.last().address == addrs[n - 1],
        hooks.last().original == hooked(slots, addrs, callback, (n - 1) as nat)[addrs[n - 1]],
{
    let less = hooks.drop_last();
    assert(less.take(before.len() as int) =~= hooks.take(before.len() as int));
    assert forall|i: int| 0 <= i < n - 1 implies {
        let h = #[trigger] less[before.len() + i];
        &&& hook_named(h, lib_name, name)
        &&& h.address == addrs[i]
        &&& h.original == hooked(slots, addrs, callback, i as nat)[addrs[i]]
    } by {
        assert(less[before.len() + i] == hooks[before.len() + i]);
    }
    assert(hooks.last() == hooks[before.len() + (n - 1)]);
}

/// Each slot that a job has written is recorded with what it held just before,
/// so that the list of hooks always tells what the job did so far.
pub proof fn law_written_slot_is_recorded(
    before: Seq<Hook>,
    hooks: Seq<Hook>,
    after: Seq<Hook>,
    lib_name: Seq<char>,
    name: Seq<char>,
    slots: Map<usize, usize>,
    addrs: Seq<usize>,
    callback: usize,
    n: nat,
)
    requires
        records(before, hooks, lib_name, name, slots, addrs, callback, n),
        n < addrs.len(),
        after.len() == hooks.len() + 1,
        after.take(hooks.len() as int) == hooks,
        hook_named(after.last(), lib_name, name),
        after.last().address == addrs[n as int],
        after.last().original == hooked(slots, addrs, callback, n)[addrs[n as int]],
    ensures
        records(before, after, lib_name, name, slots, addrs, callback, n + 1),
{
    assert(after.take(before.len() as int) =~= hooks.take(before.len() as int));
    assert forall|i: int| 0 <= i < n + 1 implies {
        let h = #[trigger] after[before.len() + i];
        &&& hook_named(h, lib_name, name)
        &&& h.address == addrs[i]
        &&& h.original == hooked(slots, addrs, callback, i as nat)[addrs[i]]
    } by {
        if i < n {
            assert(after.take(hooks.len() as int)[before.len() + i] == hooks[before.len() + i]);
        }
    }
}

/// A hook that fails half-way leaves no trace: what it writes back brings
/// every slot to what it held before, however many slots were hooked by then,
/// and what remains of the list are the hooks from before. Earlier hooks of the
/// same names are among those and stay as they are.
pub proof fn law_failed_hook_is_undone(
    before: Seq<Hook>,
    hooks: Seq<Hook>,
    lib_name: Seq<char>,
    name: Seq<char>,
    slots: Map<usize, usize>,
    addrs: Seq<usize>,
    callback: usize,
    n: nat,
)
    requires
        slots_exist(slots, addrs),
        records(before, hooks, lib_name, name, slots, addrs, callback, n),
    ensures
        hooks.take(before.len() as int) == before,
        applied(
            hooked(slots, addrs, callback, n),
            undo_of(hooks.skip(before.len() as int), lib_name, name),
        ) == slots,
    decreases n,
{
    let added = hooks.skip(before.len() as int);
    if n > 0 {
        lemma_records_step(before, hooks, lib_name, name, slots, addrs, callback, n);
        let less = hooks.drop_last();
        let h = hooks.last();
        let w = SlotWrite { slot: h.address, value: h.original };
        assert(added.drop_last() =~= less.skip(before.len() as int));
        assert(added.last() == h);
        let rest = undo_of(added.drop_last(), lib_name, name);
        let earlier = hooked(slots, addrs, callback, (n - 1) as nat);
        assert(addrs[n - 1] != 0 && slots.contains_key(addrs[n - 1]));
        lemma_hooked_keeps_slots(slots, addrs, callback, (n - 1) as nat);
        lemma_first_write(hooked(slots, addrs, callback, n), w, rest);
        assert(hooked(slots, addrs, callback, n).insert(w.slot, w.value) =~= earlier);
        law_failed_hook_is_undone(
            before,
            less,
            lib_name,
            name,
            slots,
            addrs,
            callback,
            (n - 1) as nat,
        );
    }
}

/// A slot that has not been hooked holds what it held.
proof fn lemma_untouched(
    slots: Map<usize, usize>,
    addrs: Seq<usize>,
    callback: usize,
    n: nat,
    slot: usize,
)
    requires
        n <= addrs.len(),
        forall|i: int| 0 <= i < n ==> #[trigger] addrs[i] != slot,
    ensures
        hooked(slots, addrs, callback, n)[slot] == slots[slot],
    decreases n,
{
    if n > 0 {
        lemma_untouched(slots, addrs, callback, (n - 1) as nat, slot);
        assert(addrs[n - 1] != slot);
    }
}

/// What removing a hook writes into any state of the slots: each hooked slot
/// gets what it first held, every other slot stays.
proof fn lemma_restore(
    before: Seq<Hook>,
    hooks: Seq<Hook>,
    lib_name: Seq<char>,
    name: Seq<char>,
    slots: Map<usize, usize>,
    addrs: Seq<usize>,
    callback: usize,
    fallback: usize,
    n: nat,
    now: Map<usize, usize>,
)
    requires
        !any_named(before, lib_name, name),
        slots_exist(slots, addrs),
        addrs.no_duplicates(),
        forall|i: int| 0 <= i < addrs.len() ==> slots[#[trigger] addrs[i]] != 0,
        records(before, hooks, lib_name, name, slots, addrs, callback, n),
        now.dom() == slots.dom(),
    ensures
        applied(now, restore_of(hooks, lib_name, name, fallback)).dom() =~= slots.dom(),
        forall|k: usize|
            slots.contains_key(k) ==> #[trigger] applied(
                now,
                restore_of(hooks, lib_name, name, fallback),
            )[k] == if addrs.take(n as int).contains(k) {
                slots[k]
            } else {
                now[k]
            },
    decreases n,
{
    if n == 0 {
        assert(hooks =~= before) by {
            assert(hooks.take(before.len() as int) =~= hooks);
        }
        lemma_nothing_to_restore(before, lib_name, name, fallback);
    } else {
        lemma_records_step(before, hooks, lib_name, name, slots, addrs, callback, n);
        let less = hooks.drop_last();
        let h = hooks.last();
        let a = addrs[n - 1];
        lemma_restore(
            before,
            less,
            lib_name,
            name,
            slots,
            addrs,
            callback,
            fallback,
            (n - 1) as nat,
            now,
        );
        assert forall|i: int| 0 <= i < n - 1 implies #[trigger] addrs[i] != a by {}
        lemma_untouched(slots, addrs, callback, (n - 1) as nat, a);
        assert(h.original == slots[a]);
        let w = restore_of(hooks, lib_name, name, fallback);
        let r = restore_of(less, lib_name, name, fallback);
        assert(w =~= r.push(SlotWrite { slot: a, value: slots[a] }));
        assert(w.drop_last() =~= r);
        let (mine, prior) = (addrs.take(n as int), addrs.take(n - 1));
        assert(mine =~= prior.push(a));
        assert forall|k: usize| #[trigger] mine.contains(k) == (prior.contains(k) || k == a) by {
            if prior.contains(k) {
                let j = choose|j: int| 0 <= j < prior.len() && prior[j] == k;
                assert(mine[j] == k);
            }
            assert(mine[n - 1] == a);
        }
    }
}

/// A hook and its removal cancel out: after both, every slot holds what it
/// held before. The slots are distinct, and none held zero.
pub proof fn law_removed_hook_restores_slots(
    before: Seq<Hook>,
    hooks: Seq<Hook>,
    lib_name: Seq<char>,
    name: Seq<char>,
    slots: Map<usize, usize>,
    addrs: Seq<usize>,
    callback: usize,
    fallback: usize,
)
    requires
        !any_named(before, lib_name, name),
        slots_exist(slots, addrs),
        addrs.no_duplicates(),
        forall|i: int| 0 <= i < addrs.len() ==> slots[#[trigger] addrs[i]] != 0,
        records(before, hooks, lib_name, name, slots, addrs, callback, addrs.len()),
    ensures
        applied(
            hooked(slots, addrs, callback, addrs.len()),
            restore_of(hooks, lib_name, name, fallback),
        ) == slots,
{
    let n = addrs.len();
    let now = hooked(slots, addrs, callback, n);
    lemma_hooked_keeps_slots(slots, addrs, callback, n);
    lemma_restore(before, hooks, lib_name, name, slots, addrs, callback, fallback, n, now);
    assert(addrs.take(n as int) =~= addrs);
    let after = applied(now, restore_of(hooks, lib_name, name, fallback));
    assert forall|k: usize| slots.contains_key(k) implies #[trigger] after[k] == slots[k] by {
        if !addrs.contains(k) {
            assert forall|i: int| 0 <= i < n implies #[trigger] addrs[i] != k by {
                assert(addrs.contains(addrs[i]));
            }
            lemma_untouched(slots, addrs, callback, n, k);
        }
    }
    assert(after =~= slots);
}

/// Removing a hook forgets it and keeps every hook under another name, in its
/// order.
pub proof fn law_removal_keeps_other_hooks(hooks: Seq<Hook>, lib_name: Seq<char>, name: Seq<char>)
    ensures
        !any_named(others_of(hooks, lib_name, name), lib_name, name),
        !any_named(hooks, lib_name, name) ==> others_of(hooks, lib_name, name) == hooks,
        others_of(hooks, lib_name, name) == hooks.filter(
            |h: Hook| !hook_named(h, lib_name, name),
        ),
    decreases hooks.len(),
{
    reveal(Seq::filter);
    let others = others_of(hooks, lib_name, name);
    if hooks.len() > 0 {
        let rest = hooks.drop_last();
        law_removal_keeps_other_hooks(rest, lib_name, name);
        let kept = others_of(rest, lib_name, name);
        if any_named(others, lib_name, name) {
            let i = choose|i: int|
                0 <= i < others.len() && hook_named(#[trigger] others[i], lib_name, name);
            if i < kept.len() {
                assert(kept[i] == others[i]);
                assert(hook_named(kept[i], lib_name, name));
            }
        }
        if !any_named(hooks, lib_name, name) {
            assert(!any_named(rest, lib_name, name)) by {
                if any_named(rest, lib_name, name) {
                    let i = choose|i: int|
                        0 <= i < rest.len() && hook_named(#[trigger] rest[i], lib_name, name);
                    assert(hook_named(hooks[i], lib_name, name));
                }
            }
            assert(!hook_named(hooks[hooks.len() - 1], lib_name, name));
            assert(others =~= hooks);
        }
    } else {
        assert(others =~= hooks);
    }
}

/// A library is found by a part of its path: the first one whose path has it.
pub proof fn law_first_library_counts(infos: Seq<ElfInfo>, lib_name: Seq<char>, i: int)
    requires
        0 <= i <= infos.len(),
        i < infos.len() ==> has_part(infos[i].path@, lib_name),
        forall|j: int| 0 <= j < i ==> !has_part((#[trigger] infos[j]).path@, lib_name),
    ensures
        library_index(infos, lib_name) == if i < infos.len() {
            Some(i)
        } else {
            None
        },
    decreases infos.len(),
{
    if infos.len() > 0 {
        let rest = infos.drop_last();
        assert forall|j: int| 0 <= j < i && j < rest.len() implies !has_part(
            (#[trigger] rest[j]).path@,
            lib_name,
        ) by {
            assert(rest[j] == infos[j]);
        }
        if i < rest.len() {
            assert(rest[i] == infos[i]);
            law_first_library_counts(rest, lib_name, i);
        } else {
            law_first_library_counts(rest, lib_name, rest.len() as int);
        }
    }
}

/// An image has a dynamic segment exactly where the last of that type has an
/// address.
pub proof fn law_last_dynamic_segment_counts(segs: Seq<Segment>, i: int)
    requires
        -1 <= i < segs.len(),
        i >= 0 ==> segs[i].ptype == 2,
        forall|j: int| i < j < segs.len() ==> (#[trigger] segs[j]).ptype != 2,
    ensures
        dynamic_found(segs) <==> i >= 0 && segs[i].vaddr != 0,
    decreases segs.len(),
{
    if segs.len() > 0 && i < segs.len() - 1 {
        let rest = segs.drop_last();
        assert(segs[segs.len() - 1].ptype != 2);
        assert forall|j: int| i < j < rest.len() implies (#[trigger] rest[j]).ptype != 2 by {
            assert(rest[j] == segs[j]);
        }
        assert(i >= 0 ==> rest[i] == segs[i]);
        law_last_dynamic_segment_counts(rest, i);
    }
}

/// Of dynamic entries with one of two tags, the last one counts.
pub proof fn law_last_entry_counts(dynamic: Seq<DynEntry>, a: DynTag, b: DynTag, i: int)
    requires
        -1 <= i < dynamic.len(),
        i >= 0 ==> dynamic[i].tag == a || dynamic[i].tag == b,
        forall|j: int|
            i < j < dynamic.len() ==> (#[trigger] dynamic[j]).tag != a && dynamic[j].tag != b,
    ensures
        last_value(dynamic, a, b) == if i >= 0 {
            Some(dynamic[i].value)
        } else {
            None
        },
    decreases dynamic.len(),
{
    if dynamic.len() > 0 && i < dynamic.len() - 1 {
        let rest = dynamic.drop_last();
        assert(dynamic[dynamic.len() - 1].tag != a && dynamic[dynamic.len() - 1].tag != b);
        assert forall|j: int| i < j < rest.len() implies (#[trigger] rest[j]).tag != a
            && rest[j].tag != b by {
            assert(rest[j] == dynamic[j]);
        }
        assert(i >= 0 ==> rest[i] == dynamic[i]);
        law_last_entry_counts(rest, a, b, i);
    }
}

/// A table that an image points to below itself makes it unusable, whichever of
/// the tables it is; other entries may hold anything.
pub proof fn law_tables_are_inside(dynamic: Seq<DynEntry>, bias: usize, base: usize, i: int)
    requires
        0 <= i < dynamic.len(),
        bias + dynamic[i].value <= usize::MAX,
        bias + dynamic[i].value < base,
        !(dynamic[i].tag is Other) && !(dynamic[i].tag is AndroidRelSize) && !(dynamic[i].tag
            is AndroidRelaSize),
    ensures
        !pointers_inside(dynamic, bias, base),
{
    if pointers_inside(dynamic, bias, base) {
        assert(is_table_pointer(dynamic[i].tag));
    }
}

/// Tables at or above an image's base are fine.
pub proof fn law_tables_above_the_base_are_fine(dynamic: Seq<DynEntry>, bias: usize, base: usize)
    requires
        forall|i: int|
            0 <= i < dynamic.len() ==> (#[trigger] dynamic[i]).tag is Other || dynamic[i].tag
                is AndroidRelSize || dynamic[i].tag is AndroidRelaSize || (bias
                + dynamic[i].value <= usize::MAX && bias + dynamic[i].value >= base),
    ensures
        pointers_inside(dynamic, bias, base),
{
}

/// A packed relocation table inside the image has to be in the file as a whole
/// and to start with its four letters.
pub proof fn law_packed_table_carries_its_letters(
    img: &ElfImage,
    bias: usize,
    base: usize,
    vaddr: u64,
    size: u64,
    off: u64,
)
    requires
        last_value(img.dynamic@, DynTag::AndroidRel, DynTag::AndroidRela) == Some(vaddr),
        last_value(img.dynamic@, DynTag::AndroidRelSize, DynTag::AndroidRelaSize) == Some(size),
        crate::elf::file_offset(img.segments@, vaddr) == Some(off),
        0 < bias + vaddr <= usize::MAX,
        bias + vaddr >= base,
    ensures
        packed_table_ok(img, bias, base) <==> size >= 4 && off + size <= img.raw@.len()
            && img.raw@[off as int] == 0x41 && img.raw@[off + 1] == 0x50 && img.raw@[off + 2]
            == 0x53 && img.raw@[off + 3] == 0x32,
{
    if size >= 4 && off + size <= img.raw@.len() {
        let head = img.raw@.subrange(off as int, off + 4);
        let letters = seq![0x41u8, 0x50u8, 0x53u8, 0x32u8];
        assert(head[0] == img.raw@[off as int] && head[1] == img.raw@[off + 1] && head[2]
            == img.raw@[off + 2] && head[3] == img.raw@[off + 3]);
        if head[0] == 0x41 && head[1] == 0x50 && head[2] == 0x53 && head[3] == 0x32 {
            assert(head =~= letters);
        } else if head == letters {
            assert(letters[0] == head[0] && letters[1] == head[1] && letters[2] == head[2]
                && letters[3] == head[3]);
        }
    }
}

/// An image without a packed table has nothing to check there, and one whose
/// table is in no file is refused.
pub proof fn law_packed_table_may_be_missing(img: &ElfImage, bias: usize, base: usize)
    ensures
        last_value(img.dynamic@, DynTag::AndroidRel, DynTag::AndroidRela) is None
            ==> packed_table_ok(img, bias, base),
        last_value(img.dynamic@, DynTag::AndroidRel, DynTag::AndroidRela) matches Some(vaddr)
            ==> 0 < bias + vaddr <= usize::MAX && bias + vaddr >= base && crate::elf::file_offset(
            img.segments@,
            vaddr,
        ) is None ==> !packed_table_ok(img, bias, base),
{
}

/// A listed library's header is where the first segment that starts its file
/// was loaded.
pub proof fn law_header_starts_the_file(addr: usize, segs: Seq<Segment>, i: int)
    requires
        0 <= i <= segs.len(),
        i < segs.len() ==> segs[i].ptype == 1 && segs[i].offset == 0 && addr + segs[i].vaddr
            <= usize::MAX,
        forall|j: int|
            0 <= j < i ==> (#[trigger] segs[j]).ptype != 1 || segs[j].offset != 0,
    ensures
        i < segs.len() ==> header_addr(addr, segs) == addr + segs[i].vaddr,
        i == segs.len() ==> header_addr(addr, segs) == addr,
    decreases segs.len(),
{
    if i > 0 {
        let rest = segs.drop_first();
        assert(segs[0].ptype != 1 || segs[0].offset != 0);
        assert forall|j: int| 0 <= j < i - 1 implies (#[trigger] rest[j]).ptype != 1
            || rest[j].offset != 0 by {
            assert(rest[j] == segs[j + 1]);
        }
        assert(i < segs.len() ==> rest[i - 1] == segs[i]);
        law_header_starts_the_file(addr, rest, i - 1);
    }
}

/// A slot outside of the image's pages cannot be written. Where it can, its page
/// ends up with the protection that it had; pages that are not writable are
/// replaced, once, before they are written, so that what is shared with the file
/// stays as it is. Only an image that writes its own slots is never replaced.
pub proof fn law_read_only_pages_are_replaced_once(
    info: &ElfInfo,
    got_addr: usize,
    pc: usize,
    page: usize,
)
    ensures
        ({
            let segs = info.image.segments@;
            let plan = got_plan(info, got_addr, pc, page);
            let own = executes_in(segs, info.bias_addr, pc);
            match protection_at(segs, info.bias_addr, got_addr) {
                None => plan is Fail,
                Some(prot) => {
                    let writable = prot & 2 != 0;
                    let range = vma_bounds(segs, info.bias_addr, got_addr, page);
                    let done = range is Some && exists|i: int|
                        0 <= i < info.stashed_vmas@.len() && (
                        #[trigger] info.stashed_vmas@[i]).original_addr == (range->0).0;
                    &&& plan is Write <==> own || (!writable && done)
                    &&& plan is UnprotectThenWrite <==> !own && writable
                    &&& plan is Replace <==> !own && !writable && range is Some && !done
                    &&& plan is Fail <==> !own && !writable && range is None
                    &&& plan matches GotPlan::Write { restore_prot } ==> restore_prot == prot
                    &&& plan matches GotPlan::UnprotectThenWrite { restore_prot } ==> restore_prot
                        == prot
                    &&& plan matches GotPlan::Replace { vma_start, vma_len, restore_prot }
                        ==> restore_prot == prot && range == Some((vma_start, vma_len))
                },
            }
        }),
{
}

/// Everything that was replaced is moved back, library by library and in order.
pub proof fn law_every_replacement_is_moved_back(a: Seq<ElfInfo>, b: Seq<ElfInfo>, one: ElfInfo)
    ensures
        all_stashed(a + b) == all_stashed(a) + all_stashed(b),
        all_stashed(seq![one]) == one.stashed_vmas@,
    decreases b.len(),
{
    let single = seq![one];
    assert(single.drop_last() =~= Seq::<ElfInfo>::empty());
    assert(all_stashed(Seq::<ElfInfo>::empty()) =~= Seq::<StashedVma>::empty());
    assert(single.last() == one);
    assert(all_stashed(single) =~= one.stashed_vmas@);
    if b.len() == 0 {
        assert(a + b =~= a);
        assert(all_stashed(a) + all_stashed(b) =~= all_stashed(a));
    } else {
        assert((a + b).drop_last() =~= a + b.drop_last());
        law_every_replacement_is_moved_back(a, b.drop_last(), one);
        assert(all_stashed(a + b) =~= all_stashed(a) + all_stashed(b));
    }
}

/// A hook begins exactly where there is a slot for it, at the first of them.
pub proof fn law_hook_begins_with_its_slots(
    p: &Plti,
    lib_name: &str,
    name: &str,
    callback: usize,
    backup: Option<usize>,
    exact: Option<HookJob>,
    prefix: Option<HookJob>,
)
    requires
        call_ensures(Plti::add_hook, (p, lib_name, name, callback, backup), exact),
        call_ensures(Plti::add_hook_by_prefix, (p, lib_name, name, callback, backup), prefix),
    ensures
        exact is Some <==> p.slots_for(lib_name, name, false).len() > 0,
        prefix is Some <==> p.slots_for(lib_name, name, true).len() > 0,
        exact matches Some(job) ==> job.slots@ == p.slots_for(lib_name, name, false) && job.next
            == 0 && job.callback == callback && job.backup == backup && job.lib_name@ == lib_name@
            && job.name@ == name@ && job.first == p.hooks@.len(),
        prefix matches Some(job) ==> job.slots@ == p.slots_for(lib_name, name, true) && job.next
            == 0 && job.callback == callback && job.backup == backup && job.lib_name@ == lib_name@
            && job.name@ == name@ && job.first == p.hooks@.len(),
{
}

/// Hooking one slot puts the replacement there, records what was there, keeps
/// the first such value for the caller, and goes on with the next slot until
/// there is none.
pub proof fn law_hooking_a_slot(
    a: &mut HookJob,
    held: usize,
    write: SlotWrite,
    p: &mut Plti,
    b: &mut HookJob,
    step: HookStep,
)
    requires
        old(a).wf(),
        old(a).first <= old(p).hooks@.len(),
        call_ensures(HookJob::slot_read, (a, held), write),
        *old(b) == *final(a),
        call_ensures(Plti::slot_written, (p, b, true), step),
    ensures
        write.slot == old(a).slots@[old(a).next as int],
        write.value == old(a).callback,
        final(p).hooks@.len() == old(p).hooks@.len() + 1,
        final(p).hooks@.take(old(p).hooks@.len() as int) == old(p).hooks@,
        final(p).hooks@.last().address == write.slot,
        final(p).hooks@.last().original == held,
        final(p).hooks@.last().lib_name@ == old(a).lib_name@,
        final(p).hooks@.last().name@ == old(a).name@,
        final(b).next == old(a).next + 1,
        old(a).backup == Some(0usize) ==> final(b).backup == Some(held),
        old(a).backup != Some(0usize) ==> final(b).backup == old(a).backup,
        step is Done <==> old(a).next + 1 == old(a).slots@.len(),
        step is Next <==> old(a).next + 1 < old(a).slots@.len(),
        !(step is Undo),
{
}

/// A library is known by its address: it is added once, at the end, and only
/// where it was read and its tables are usable; adding it again changes nothing.
pub proof fn law_library_is_added_once(
    p: &mut Plti,
    path: &str,
    base: usize,
    loaded: Option<(ElfImage, usize)>,
    ok: bool,
    before: bool,
    after: bool,
)
    requires
        call_ensures(Plti::knows_base, (&*old(p), base), before),
        call_ensures(Plti::add_manual_lib, (p, path, base, loaded), ok),
        call_ensures(Plti::knows_base, (&*final(p), base), after),
    ensures
        before ==> ok && final(p).elf_infos == old(p).elf_infos,
        after == ok,
        !before && ok ==> final(p).elf_infos@.len() == old(p).elf_infos@.len() + 1
            && final(p).elf_infos@.last().path@ == path@ && final(p).elf_infos@.last().base_addr
            == base && loaded is Some,
        !ok ==> final(p).elf_infos == old(p).elf_infos,
        final(p).hooks == old(p).hooks,
{
    if ok && !before {
        let n = old(p).elf_infos@.len() as int;
        assert(final(p).elf_infos@[n].base_addr == base);
    }
    if before {
        let i = choose|i: int|
            0 <= i < old(p).elf_infos@.len() && (#[trigger] old(p).elf_infos@[i]).base_addr == base;
        assert(final(p).elf_infos@[i].base_addr == base);
    }
}

/// A removal begins exactly where an original is given, the library is known and
/// something is hooked under the names, for an exact name as for a prefix.
pub proof fn law_removal_needs_a_hook(
    p: &Plti,
    lib_name: &str,
    name: &str,
    original: usize,
    exact: Option<Vec<SlotWrite>>,
    prefix: Option<Vec<SlotWrite>>,
)
    requires
        call_ensures(Plti::remove_hook, (p, lib_name, name, original), exact),
        call_ensures(Plti::remove_hook_by_prefix, (p, lib_name, name, original), prefix),
    ensures
        exact is Some <==> original != 0 && library_index(p.elf_infos@, lib_name@) is Some && exists|
            i: int,
        |
            0 <= i < p.hooks@.len() && (#[trigger] p.hooks@[i]).lib_name@ == lib_name@
                && p.hooks@[i].name@ == name@,
        exact is Some <==> prefix is Some,
        exact is Some ==> exact->0@ == prefix->0@,
{
    if any_named(p.hooks@, lib_name@, name@) {
        let i = choose|i: int|
            0 <= i < p.hooks@.len() && hook_named(#[trigger] p.hooks@[i], lib_name@, name@);
        assert(p.hooks@[i].lib_name@ == lib_name@);
    }
    if exists|i: int|
        0 <= i < p.hooks@.len() && (#[trigger] p.hooks@[i]).lib_name@ == lib_name@
            && p.hooks@[i].name@ == name@ {
        let i = choose|i: int|
            0 <= i < p.hooks@.len() && (#[trigger] p.hooks@[i]).lib_name@ == lib_name@
                && p.hooks@[i].name@ == name@;
        assert(hook_named(p.hooks@[i], lib_name@, name@));
    }
}

/// Hooks are forgotten only once every slot was restored, and then just those of
/// the names.
pub proof fn law_hooks_are_forgotten_when_restored(
    p: &mut Plti,
    lib_name: &str,
    name: &str,
    all: bool,
    ok: bool,
)
    requires
        call_ensures(Plti::hooks_restored, (p, lib_name, name, all), ok),
    ensures
        ok == all,
        !all ==> final(p).hooks@ == old(p).hooks@,
        all ==> final(p).hooks@ == old(p).hooks@.filter(
            |h: Hook| !(h.lib_name@ == lib_name@ && h.name@ == name@),
        ),
        final(p).elf_infos == old(p).elf_infos,
{
    law_removal_keeps_other_hooks(old(p).hooks@, lib_name@, name@);
    assert((|h: Hook| !hook_named(h, lib_name@, name@)) =~= (|h: Hook|
        !(h.lib_name@ == lib_name@ && h.name@ == name@)));
}

/// A linked library is known by the first name that has the part asked for; a
/// name that has it is found.
pub proof fn law_linked_library_is_the_first(
    libs: &Vec<LinkedLib>,
    lib_name: &str,
    r: Option<(usize, usize)>,
    k: int,
)
    requires
        call_ensures(find_linked_lib, (libs, lib_name), r),
        r is Some,
        0 <= k < libs@.len(),
        has_part(libs@[k].name@, lib_name@),
    ensures
        (r->0).0 <= k,
        has_part(libs@[(r->0).0 as int].name@, lib_name@),
        (r->0).1 == header_addr(libs@[(r->0).0 as int].addr, libs@[(r->0).0 as int].segments@),
{
    assert(first_linked(libs@, lib_name@, (r->0).0 as int));
    assert(has_part(libs@[k].name@, lib_name@));
}

/// A page range that was replaced is noted last, with where its original is,
/// and those before stay.
pub proof fn law_replaced_range_is_noted(
    lib: &mut ElfInfo,
    start: usize,
    backup: usize,
    len: usize,
    prot: i32,
)
    requires
        call_ensures(ElfInfo::record_stash, (lib, start, backup, len, prot), ()),
    ensures
        final(lib).stashed_vmas@.len() == old(lib).stashed_vmas@.len() + 1,
        final(lib).stashed_vmas@.last().original_addr == start,
        final(lib).stashed_vmas@.last().backup_addr == backup,
        final(lib).stashed_vmas@.last().len == len,
        final(lib).stashed_vmas@.last().original_prot == prot,
        final(lib).stashed_vmas@.drop_last() == old(lib).stashed_vmas@,
{
}

/// A packed table that lies below the image is none of its own, and is not
/// looked at.
pub proof fn law_packed_table_below_the_image(img: &ElfImage, bias: usize, base: usize, vaddr: u64)
    requires
        last_value(img.dynamic@, DynTag::AndroidRel, DynTag::AndroidRela) == Some(vaddr),
        bias + vaddr < base,
    ensures
        packed_table_ok(img, bias, base),
{
}

} // verus!
