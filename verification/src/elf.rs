//! The parts of an ELF image that the interceptor reads, as plain values.
use vstd::prelude::*;

use crate::text::same_text;

verus! {

/// Program header types.
pub const PT_LOAD: u32 = 1;

pub const PT_DYNAMIC: u32 = 2;

pub const PT_GNU_RELRO: u32 = 0x6474_e552;

/// Program header permission bits.
pub const PF_X: u32 = 1;

pub const PF_W: u32 = 2;

pub const PF_R: u32 = 4;

/// One program header.
#[derive(Clone, Copy, Debug, PartialEq, Eq, Structural)]
pub struct Segment {
    pub ptype: u32,
    pub flags: u32,
    pub offset: u64,
    pub vaddr: u64,
    pub filesz: u64,
    pub memsz: u64,
}

/// The relocation families that matter for hooking; the numeric types differ
/// between architectures.
#[derive(Clone, Copy, Debug, PartialEq, Eq, Structural)]
pub enum RelocKind {
    Absolute,
    GlobDat,
    JumpSlot,
    Other,
}

/// One relocation record.
#[derive(Clone, Copy, Debug, PartialEq, Eq, Structural)]
pub struct Reloc {
    pub offset: u64,
    pub sym_idx: u32,
    pub kind: RelocKind,
}

/// The relocation records by the table that holds them.
#[derive(Debug)]
pub struct RelocTables {
    pub plt: Vec<Reloc>,
    pub rel: Vec<Reloc>,
    pub android: Vec<Reloc>,
}

/// The meaning of a dynamic table entry.
#[derive(Clone, Copy, Debug, PartialEq, Eq, Structural)]
pub enum DynTag {
    StrTab,
    SymTab,
    JmpRel,
    Rel,
    Rela,
    AndroidRel,
    AndroidRela,
    AndroidRelSize,
    AndroidRelaSize,
    Other,
}

/// One dynamic table entry.
#[derive(Clone, Copy, Debug, PartialEq, Eq, Structural)]
pub struct DynEntry {
    pub tag: DynTag,
    pub value: u64,
}

/// A name that the image's hash tables resolve, and the index it resolves to.
#[derive(Debug)]
pub struct NamedIndex {
    pub name: String,
    pub index: usize,
}

/// A parsed image: program headers and dynamic entries in file order, the
/// names of the dynamic symbols, what the hash tables resolve, the relocation
/// tables (`None` where they cannot be read) and the bytes of the image.
#[derive(Debug)]
pub struct ElfImage {
    pub segments: Vec<Segment>,
    pub dynamic: Vec<DynEntry>,
    pub symbols: Vec<String>,
    pub names: Vec<NamedIndex>,
    pub relocations: Option<RelocTables>,
    pub raw: Vec<u8>,
}

/// The index of the first entry with the given name.
pub open spec fn named_index(names: Seq<NamedIndex>, name: Seq<char>) -> Option<usize>
    decreases names.len(),
{
    if names.len() == 0 {
        None
    } else if names[0].name@ == name {
        Some(names[0].index)
    } else {
        named_index(names.drop_first(), name)
    }
}

/// A virtual address lies in the part of a loaded segment that the file backs.
pub open spec fn backs(seg: Segment, vaddr: u64) -> bool {
    seg.ptype == PT_LOAD && seg.vaddr <= vaddr < seg.vaddr + seg.filesz
}

/// The file offset of a virtual address: the first loaded segment that backs
/// it decides; `None` where no segment does or the offset does not fit.
pub open spec fn file_offset(segs: Seq<Segment>, vaddr: u64) -> Option<u64>
    decreases segs.len(),
{
    if segs.len() == 0 {
        None
    } else if backs(segs[0], vaddr) {
        let at: int = segs[0].offset + (vaddr - segs[0].vaddr);
        if at <= u64::MAX {
            Some(at as u64)
        } else {
            None
        }
    } else {
        file_offset(segs.drop_first(), vaddr)
    }
}

/// What a name resolves to is the index of an entry with that name.
pub proof fn lemma_named_index(names: Seq<NamedIndex>, name: Seq<char>)
    requires
        named_index(names, name) is Some,
    ensures
        exists|i: int|
            0 <= i < names.len() && (#[trigger] names[i]).name@ == name && names[i].index
                == named_index(names, name)->0,
    decreases names.len(),
{
    if names[0].name@ != name {
        let rest = names.drop_first();
        lemma_named_index(rest, name);
        let i = choose|i: int|
            0 <= i < rest.len() && (#[trigger] rest[i]).name@ == name && rest[i].index
                == named_index(rest, name)->0;
        assert(names[i + 1] == rest[i]);
    }
}

impl ElfImage {
    /// The hash tables agree with the symbol table: each name resolves to a
    /// symbol of that name. Indices of symbols have 32 bits.
    pub open spec fn wf(self) -> bool {
        forall|i: int|
            0 <= i < self.names@.len() ==> {
                let entry = #[trigger] self.names@[i];
                &&& entry.index < self.symbols@.len()
                &&& entry.index <= u32::MAX
                &&& self.symbols@[entry.index as int]@ == entry.name@
            }
    }

    /// The index that the hash tables give for `name`.
    pub fn dynsym_index_by_name(&self, name: &str) -> (r: Option<usize>)
        ensures
            r == named_index(self.names@, name@),
    {
        let mut i: usize = 0;
        assert(self.names@.skip(0) =~= self.names@);
        while i < self.names.len()
            invariant
                i <= self.names@.len(),
                named_index(self.names@, name@) == named_index(self.names@.skip(i as int), name@),
            decreases self.names@.len() - i,
        {
            let ghost rest = self.names@.skip(i as int);
            assert(rest.drop_first() =~= self.names@.skip(i + 1));
            if same_text(self.names[i].name.as_str(), name) {
                return Some(self.names[i].index);
            }
            i = i + 1;
        }
        None
    }

    /// The file offset that holds the byte at a virtual address.
    pub fn vaddr_to_file_offset(&self, vaddr: u64) -> (r: Option<u64>)
        ensures
            r == file_offset(self.segments@, vaddr),
    {
        let mut i: usize = 0;
        assert(self.segments@.skip(0) =~= self.segments@);
        while i < self.segments.len()
            invariant
                i <= self.segments@.len(),
                file_offset(self.segments@, vaddr) == file_offset(
                    self.segments@.skip(i as int),
                    vaddr,
                ),
            decreases self.segments@.len() - i,
        {
            let ghost rest = self.segments@.skip(i as int);
            assert(rest.drop_first() =~= self.segments@.skip(i + 1));
            let seg = self.segments[i];
            if seg.ptype == PT_LOAD && seg.vaddr <= vaddr && vaddr - seg.vaddr < seg.filesz {
                return seg.offset.checked_add(vaddr - seg.vaddr);
            }
            i = i + 1;
        }
        None
    }
}

/// The two bytes at `at`, least significant first.
pub open spec fn le16(b: Seq<u8>, at: int) -> u16 {
    (b[at] + 0x100 * b[at + 1]) as u16
}

/// The four bytes at `at`, least significant first.
pub open spec fn le32(b: Seq<u8>, at: int) -> u32 {
    (le16(b, at) + 0x1_0000 * le16(b, at + 2)) as u32
}

/// The eight bytes at `at`, least significant first.
pub open spec fn le64(b: Seq<u8>, at: int) -> u64 {
    (le32(b, at) + 0x1_0000_0000 * le32(b, at + 4)) as u64
}

/// Reads a 16-bit little-endian number.
pub fn read_le16(b: &[u8], at: usize) -> (v: u16)
    requires
        at + 2 <= b.len(),
    ensures
        v == le16(b@, at as int),
{
    (b[at] as u16) + 0x100 * (b[at + 1] as u16)
}

/// Reads a 32-bit little-endian number.
pub fn read_le32(b: &[u8], at: usize) -> (v: u32)
    requires
        at + 4 <= b.len(),
    ensures
        v == le32(b@, at as int),
{
    (read_le16(b, at) as u32) + 0x1_0000 * (read_le16(b, at + 2) as u32)
}

/// Reads a 64-bit little-endian number.
pub fn read_le64(b: &[u8], at: usize) -> (v: u64)
    requires
        at + 8 <= b.len(),
    ensures
        v == le64(b@, at as int),
{
    (read_le32(b, at) as u64) + 0x1_0000_0000 * (read_le32(b, at + 4) as u64)
}

/// A name resolves by its first entry; one without an entry does not resolve.
pub proof fn law_first_entry_resolves(names: Seq<NamedIndex>, name: Seq<char>, i: int)
    requires
        0 <= i <= names.len(),
        i < names.len() ==> names[i].name@ == name,
        forall|j: int| 0 <= j < i ==> (#[trigger] names[j]).name@ != name,
    ensures
        named_index(names, name) == if i < names.len() {
            Some(names[i].index)
        } else {
            None
        },
    decreases names.len(),
{
    if i > 0 {
        let rest = names.drop_first();
        assert(names[0].name@ != name);
        assert forall|j: int| 0 <= j < i - 1 implies (#[trigger] rest[j]).name@ != name by {
            assert(rest[j] == names[j + 1]);
        }
        assert(i < names.len() ==> rest[i - 1] == names[i]);
        law_first_entry_resolves(rest, name, i - 1);
    }
}

/// A byte is as far into its segment in the file as in memory; the first loaded
/// segment whose part of the file holds it decides, and without one it is in no
/// file.
pub proof fn law_offset_moves_with_the_segment(segs: Seq<Segment>, vaddr: u64, i: int)
    requires
        0 <= i <= segs.len(),
        i < segs.len() ==> segs[i].ptype == 1 && segs[i].vaddr <= vaddr && vaddr - segs[i].vaddr
            < segs[i].filesz && segs[i].offset + (vaddr - segs[i].vaddr) <= u64::MAX,
        forall|j: int|
            0 <= j < i ==> (#[trigger] segs[j]).ptype != 1 || vaddr < segs[j].vaddr || vaddr
                - segs[j].vaddr >= segs[j].filesz,
    ensures
        i < segs.len() ==> (file_offset(segs, vaddr) matches Some(at) && at - segs[i].offset
            == vaddr - segs[i].vaddr),
        i == segs.len() ==> file_offset(segs, vaddr) is None,
    decreases segs.len(),
{
    if i > 0 {
        let rest = segs.drop_first();
        assert(segs[0].ptype != 1 || vaddr < segs[0].vaddr || vaddr - segs[0].vaddr
            >= segs[0].filesz);
        assert forall|j: int| 0 <= j < i - 1 implies (#[trigger] rest[j]).ptype != 1 || vaddr
            < rest[j].vaddr || vaddr - rest[j].vaddr >= rest[j].filesz by {
            assert(rest[j] == segs[j + 1]);
        }
        assert(i < segs.len() ==> rest[i - 1] == segs[i]);
        law_offset_moves_with_the_segment(rest, vaddr, i - 1);
    }
}

/// The bytes of a number count by their place, the first the least.
pub proof fn law_bytes_count_by_their_place(b: Seq<u8>, at: int)
    ensures
        le16(b, at) == b[at] + 0x100 * b[at + 1],
        le32(b, at) == b[at] + 0x100 * b[at + 1] + 0x1_0000 * b[at + 2] + 0x100_0000 * b[at + 3],
        le64(b, at) == b[at] + 0x100 * b[at + 1] + 0x1_0000 * b[at + 2] + 0x100_0000 * b[at + 3]
            + 0x1_0000_0000 * b[at + 4] + 0x100_0000_0000 * b[at + 5] + 0x1_0000_0000_0000 * b[at
            + 6] + 0x100_0000_0000_0000 * b[at + 7],
{
}

} // verus!
