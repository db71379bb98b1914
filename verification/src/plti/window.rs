//! Reading a mapped image back into the layout of its file.
//!
//! Segments of a mapped image stand where their virtual addresses put them,
//! often with unmapped holes in between, while a parser expects the bytes where
//! their file offsets put them. The window built here has that second layout;
//! what no segment covers is zero.
use vstd::prelude::*;

use crate::elf::{le16, le32, le64, read_le16, read_le32, read_le64, PT_LOAD};

verus! {

/// A number that can be read from bytes, the least significant first.
pub trait Readable: Sized {
    /// How many bytes it takes.
    spec fn width() -> int;

    /// The number in the bytes at `at`.
    spec fn value_at(b: Seq<u8>, at: int) -> Self;

    /// How many bytes it takes.
    fn size() -> (n: usize)
        ensures
            n == Self::width(),
    ;

    /// Reads the number at `at`.
    fn read(b: &[u8], at: usize) -> (v: Self)
        requires
            at + Self::width() <= b@.len(),
        ensures
            v == Self::value_at(b@, at as int),
    ;
}

impl Readable for u8 {
    open spec fn width() -> int {
        1
    }

    open spec fn value_at(b: Seq<u8>, at: int) -> u8 {
        b[at]
    }

    fn size() -> (n: usize) {
        1
    }

    fn read(b: &[u8], at: usize) -> (v: u8) {
        b[at]
    }
}

impl Readable for u16 {
    open spec fn width() -> int {
        2
    }

    open spec fn value_at(b: Seq<u8>, at: int) -> u16 {
        le16(b, at)
    }

    fn size() -> (n: usize) {
        2
    }

    fn read(b: &[u8], at: usize) -> (v: u16) {
        read_le16(b, at)
    }
}

impl Readable for u32 {
    open spec fn width() -> int {
        4
    }

    open spec fn value_at(b: Seq<u8>, at: int) -> u32 {
        le32(b, at)
    }

    fn size() -> (n: usize) {
        4
    }

    fn read(b: &[u8], at: usize) -> (v: u32) {
        read_le32(b, at)
    }
}

impl Readable for u64 {
    open spec fn width() -> int {
        8
    }

    open spec fn value_at(b: Seq<u8>, at: int) -> u64 {
        le64(b, at)
    }

    fn size() -> (n: usize) {
        8
    }

    fn read(b: &[u8], at: usize) -> (v: u64) {
        read_le64(b, at)
    }
}

/// An address has the machine's width.
impl Readable for usize {
    open spec fn width() -> int {
        if usize::BITS == 64 {
            8
        } else {
            4
        }
    }

    open spec fn value_at(b: Seq<u8>, at: int) -> usize {
        if usize::BITS == 64 {
            le64(b, at) as usize
        } else {
            le32(b, at) as usize
        }
    }

    fn size() -> (n: usize) {
        if usize::BITS == 64 {
            8
        } else {
            4
        }
    }

    fn read(b: &[u8], at: usize) -> (v: usize) {
        if usize::BITS == 64 {
            read_le64(b, at) as usize
        } else {
            read_le32(b, at) as usize
        }
    }
}

/// Bytes of the process, starting at an address other than zero.
#[derive(Debug)]
pub struct MappedElf {
    base: usize,
    bytes: Vec<u8>,
}

impl MappedElf {
    /// The address of the first byte.
    pub closed spec fn base_addr(self) -> usize {
        self.base
    }

    /// What the region holds.
    pub closed spec fn bytes(self) -> Seq<u8> {
        self.bytes@
    }

    /// A region at a given address.
    pub fn new(base: usize, bytes: Vec<u8>) -> (r: Self)
        requires
            base != 0,
        ensures
            r.base_addr() == base,
            r.bytes() == bytes@,
    {
        MappedElf { base, bytes }
    }

    /// A region at a given address, unless that address is zero.
    pub fn from_raw(base: usize, bytes: Vec<u8>) -> (r: Option<Self>)
        ensures
            match r {
                None => base == 0,
                Some(m) => base != 0 && m.base_addr() == base && m.bytes() == bytes@,
            },
    {
        if base == 0 {
            None
        } else {
            Some(MappedElf { base, bytes })
        }
    }

    /// The address of the region.
    pub fn base(&self) -> (r: usize)
        ensures
            r == self.base_addr(),
    {
        self.base
    }

    /// The number of bytes in the region.
    pub fn len(&self) -> (r: usize)
        ensures
            r == self.bytes().len(),
    {
        self.bytes.len()
    }

    /// Whether the region holds no byte.
    pub fn is_empty(&self) -> (r: bool)
        ensures
            r == (self.bytes().len() == 0),
    {
        self.bytes.len() == 0
    }

    /// The bytes from `start` up to `end`, if the region holds all of them.
    pub fn slice(&self, start: usize, end: usize) -> (r: Option<&[u8]>)
        ensures
            match r {
                Some(s) => start <= end <= self.bytes().len() && s@ == self.bytes().subrange(
                    start as int,
                    end as int,
                ),
                None => !(start <= end <= self.bytes().len()),
            },
    {
        if start <= end && end <= self.bytes.len() {
            Some(vstd::slice::slice_subrange(self.bytes.as_slice(), start, end))
        } else {
            None
        }
    }

    /// The address of `size` bytes at `offset`, if the region holds all of
    /// them; the address wraps where the region does.
    pub fn ptr_at(&self, offset: usize, size: usize) -> (r: Option<usize>)
        ensures
            r == if offset + size <= self.bytes().len() {
                Some(self.base_addr().wrapping_add(offset))
            } else {
                None
            },
    {
        let len: usize = self.bytes.len();
        match offset.checked_add(size) {
            Some(end) if end <= len => Some(self.base.wrapping_add(offset)),
            _ => None,
        }
    }

    /// The number at `offset`, if the region holds all of it.
    pub fn read_at<T: Readable>(&self, offset: usize) -> (r: Option<T>)
        ensures
            r == if offset + T::width() <= self.bytes().len() {
                Some(T::value_at(self.bytes(), offset as int))
            } else {
                None
            },
    {
        let len: usize = self.bytes.len();
        match offset.checked_add(T::size()) {
            Some(end) if end <= len => Some(T::read(self.bytes.as_slice(), offset)),
            _ => None,
        }
    }
}

/// What is mapped in the process, as far as it is known.
#[derive(Debug)]
pub struct Memory {
    pub regions: Vec<MappedElf>,
}

/// A region holds the byte at `addr`.
pub open spec fn region_has(r: MappedElf, addr: int) -> bool {
    r.base_addr() <= addr < r.base_addr() + r.bytes().len()
}

/// The byte at an address: that of the first region that has it.
pub open spec fn byte_at(regions: Seq<MappedElf>, addr: int) -> Option<u8>
    decreases regions.len(),
{
    if regions.len() == 0 {
        None
    } else if region_has(regions[0], addr) {
        Some(regions[0].bytes()[addr - regions[0].base_addr()])
    } else {
        byte_at(regions.drop_first(), addr)
    }
}

/// Every byte of a range is mapped.
pub open spec fn all_mapped(regions: Seq<MappedElf>, addr: int, len: int) -> bool {
    forall|k: int| 0 <= k < len ==> (#[trigger] byte_at(regions, addr + k)) is Some
}

/// The bytes of a range.
pub open spec fn bytes_at(regions: Seq<MappedElf>, addr: int, len: int) -> Seq<u8> {
    Seq::new(len as nat, |k: int| byte_at(regions, addr + k)->0)
}

impl Memory {
    /// The byte at an address.
    pub fn byte(&self, addr: usize) -> (r: Option<u8>)
        ensures
            r == byte_at(self.regions@, addr as int),
    {
        let mut i: usize = 0;
        assert(self.regions@.skip(0) =~= self.regions@);
        while i < self.regions.len()
            invariant
                i <= self.regions@.len(),
                byte_at(self.regions@, addr as int) == byte_at(
                    self.regions@.skip(i as int),
                    addr as int,
                ),
            decreases self.regions@.len() - i,
        {
            assert(self.regions@.skip(i as int).drop_first() =~= self.regions@.skip(i + 1));
            let base: usize = self.regions[i].base();
            if base <= addr && addr - base < self.regions[i].len() {
                return Some(self.regions[i].bytes[addr - base]);
            }
            i = i + 1;
        }
        None
    }

    /// The bytes of a range, or `None` where not all of it is mapped or the
    /// range leaves the address space.
    pub fn read(&self, addr: usize, len: usize) -> (r: Option<Vec<u8>>)
        ensures
            match r {
                Some(v) => addr + len <= usize::MAX + 1 && all_mapped(
                    self.regions@,
                    addr as int,
                    len as int,
                ) && v@ == bytes_at(self.regions@, addr as int, len as int),
                None => addr + len > usize::MAX + 1 || !all_mapped(
                    self.regions@,
                    addr as int,
                    len as int,
                ),
            },
    {
        let mut out: Vec<u8> = Vec::new();
        if len > 0 && usize::MAX - addr < len - 1 {
            return None;
        }
        let mut k: usize = 0;
        while k < len
            invariant
                k <= len,
                addr + len <= usize::MAX + 1,
                out@ =~= bytes_at(self.regions@, addr as int, k as int),
                all_mapped(self.regions@, addr as int, k as int),
            decreases len - k,
        {
            match self.byte(addr + k) {
                Some(b) => {
                    out.push(b);
                },
                None => {
                    assert(byte_at(self.regions@, addr + k) is None);
                    return None;
                },
            }
            k = k + 1;
        }
        Some(out)
    }
}

/// ELF file types.
pub const ET_EXEC: u16 = 2;

pub const ET_DYN: u16 = 3;

/// The ELF class of 64-bit images; any other class is read as 32-bit.
pub const ELF_CLASS_64: u8 = 2;

/// Where the program headers of an image are.
#[derive(Clone, Copy, Debug, PartialEq, Eq, Structural)]
pub struct PhdrTable {
    pub offset: usize,
    pub entry_size: usize,
    pub count: usize,
}

/// The size of an ELF header.
pub open spec fn ehdr_len(class: u8) -> int {
    if class == ELF_CLASS_64 {
        64
    } else {
        52
    }
}

/// The bytes of a program header entry that are read.
pub open spec fn phdr_min(class: u8) -> int {
    if class == ELF_CLASS_64 {
        48
    } else {
        24
    }
}

/// The program header table that a header describes.
pub open spec fn phdr_table(hdr: Seq<u8>, class: u8) -> PhdrTable {
    if class == ELF_CLASS_64 {
        PhdrTable {
            offset: le64(hdr, 32) as usize,
            entry_size: le16(hdr, 54) as usize,
            count: le16(hdr, 56) as usize,
        }
    } else {
        PhdrTable {
            offset: le32(hdr, 28) as usize,
            entry_size: le16(hdr, 42) as usize,
            count: le16(hdr, 44) as usize,
        }
    }
}

/// A header is that of a little-endian executable or shared object of the
/// current ELF version, of the given class and machine.
pub open spec fn ehdr_ok(hdr: Seq<u8>, class: u8, machine: u16) -> bool {
    &&& hdr.subrange(0, 4) == seq![0x7fu8, 0x45u8, 0x4cu8, 0x46u8]
    &&& hdr[4] == class
    &&& hdr[5] == 1
    &&& hdr[6] == 1
    &&& le16(hdr, 16) == ET_EXEC || le16(hdr, 16) == ET_DYN
    &&& le16(hdr, 18) == machine
    &&& le32(hdr, 20) == 1
}

/// The program header table of a header that fits, unless it is empty or its
/// entries are too short to be read.
pub open spec fn accepted_table(hdr: Seq<u8>, class: u8, machine: u16) -> Option<PhdrTable> {
    let t = phdr_table(hdr, class);
    if ehdr_ok(hdr, class, machine) && t.count != 0 && t.entry_size >= phdr_min(class) {
        Some(t)
    } else {
        None
    }
}

/// Checks an ELF header and gives the place of its program headers.
pub fn read_ehdr(hdr: &[u8], elf_class: u8, machine: u16) -> (r: Option<PhdrTable>)
    requires
        hdr@.len() == ehdr_len(elf_class),
    ensures
        r == accepted_table(hdr@, elf_class, machine),
{
    let n: usize = hdr.len();
    let magic = hdr[0] == 0x7f && hdr[1] == 0x45 && hdr[2] == 0x4c && hdr[3] == 0x46;
    assert(magic == (hdr@.subrange(0, 4) == seq![0x7fu8, 0x45u8, 0x4cu8, 0x46u8])) by {
        if magic {
            assert(hdr@.subrange(0, 4) =~= seq![0x7fu8, 0x45u8, 0x4cu8, 0x46u8]);
        } else {
            assert(hdr@.subrange(0, 4)[0] == hdr@[0]);
            assert(hdr@.subrange(0, 4)[1] == hdr@[1]);
            assert(hdr@.subrange(0, 4)[2] == hdr@[2]);
            assert(hdr@.subrange(0, 4)[3] == hdr@[3]);
        }
    }
    if !magic || hdr[4] != elf_class || hdr[5] != 1 || hdr[6] != 1 {
        return None;
    }
    let e_type: u16 = read_le16(hdr, 16);
    if e_type != ET_EXEC && e_type != ET_DYN {
        return None;
    }
    if read_le16(hdr, 18) != machine || read_le32(hdr, 20) != 1 {
        return None;
    }
    let table = if elf_class == ELF_CLASS_64 {
        PhdrTable {
            offset: read_le64(hdr, 32) as usize,
            entry_size: read_le16(hdr, 54) as usize,
            count: read_le16(hdr, 56) as usize,
        }
    } else {
        PhdrTable {
            offset: read_le32(hdr, 28) as usize,
            entry_size: read_le16(hdr, 42) as usize,
            count: read_le16(hdr, 44) as usize,
        }
    };
    let min: usize = if elf_class == ELF_CLASS_64 {
        48
    } else {
        24
    };
    if table.count == 0 || table.entry_size < min {
        return None;
    }
    Some(table)
}

/// A loaded segment: its file offset, its virtual address and its size in
/// memory.
#[derive(Clone, Copy, Debug, PartialEq, Eq, Structural)]
pub struct Load {
    pub offset: usize,
    pub vaddr: usize,
    pub memsz: usize,
}

/// The type of the program header at `at`.
pub open spec fn phdr_type(phdrs: Seq<u8>, at: int) -> u32 {
    le32(phdrs, at)
}

/// The program header at `at`, read as a loaded segment.
pub open spec fn phdr_load(phdrs: Seq<u8>, class: u8, at: int) -> Load {
    if class == ELF_CLASS_64 {
        Load {
            offset: le64(phdrs, at + 8) as usize,
            vaddr: le64(phdrs, at + 16) as usize,
            memsz: le64(phdrs, at + 40) as usize,
        }
    } else {
        Load {
            offset: le32(phdrs, at + 4) as usize,
            vaddr: le32(phdrs, at + 8) as usize,
            memsz: le32(phdrs, at + 20) as usize,
        }
    }
}

/// The loaded segments among the first `n` program headers, in file order.
pub open spec fn loads_of(phdrs: Seq<u8>, class: u8, entry_size: int, n: nat) -> Seq<Load>
    decreases n,
{
    if n == 0 {
        seq![]
    } else {
        let rest = loads_of(phdrs, class, entry_size, (n - 1) as nat);
        let at = (n - 1) * entry_size;
        if phdr_type(phdrs, at) == PT_LOAD {
            rest.push(phdr_load(phdrs, class, at))
        } else {
            rest
        }
    }
}

/// The load bias: that of the last segment that starts the file and lies at or
/// below the base.
pub open spec fn window_bias(loads: Seq<Load>, base: usize) -> Option<usize>
    decreases loads.len(),
{
    if loads.len() == 0 {
        None
    } else if loads.last().offset == 0 && base >= loads.last().vaddr {
        Some((base - loads.last().vaddr) as usize)
    } else {
        window_bias(loads.drop_last(), base)
    }
}

/// The furthest file extent of the segments.
pub open spec fn window_len(loads: Seq<Load>) -> int
    decreases loads.len(),
{
    if loads.len() == 0 {
        0
    } else {
        let rest = window_len(loads.drop_last());
        let end = loads.last().offset + loads.last().memsz;
        if end > rest {
            end
        } else {
            rest
        }
    }
}

/// What the window of an image consists of.
#[derive(Debug)]
pub struct WindowPlan {
    pub bias: usize,
    pub len: usize,
    pub loads: Vec<Load>,
}

/// Reads the program headers and lays the window out; `None` where no loaded
/// segment gives the bias or the window would be empty or too large.
pub fn plan_window(
    phdrs: &[u8],
    elf_class: u8,
    entry_size: usize,
    count: usize,
    base_addr: usize,
) -> (r: Option<WindowPlan>)
    requires
        entry_size >= phdr_min(elf_class),
        phdrs@.len() == entry_size * count,
    ensures
        ({
            let loads = loads_of(phdrs@, elf_class, entry_size as int, count as nat);
            match r {
                Some(p) => {
                    &&& p.loads@ == loads
                    &&& window_bias(loads, base_addr) == Some(p.bias)
                    &&& p.len == window_len(loads)
                    &&& p.len > 0
                },
                None => window_bias(loads, base_addr) is None || window_len(loads) == 0
                    || window_len(loads) > usize::MAX,
            }
        }),
{
    let mut loads: Vec<Load> = Vec::new();
    let mut bias: Option<usize> = None;
    let mut len: u128 = 0;
    let mut i: usize = 0;
    let total: usize = phdrs.len();
    let mut at: usize = 0;
    while i < count
        invariant
            i <= count,
            entry_size >= phdr_min(elf_class),
            at == i * entry_size,
            total == phdrs@.len(),
            total == entry_size * count,
            loads@ == loads_of(phdrs@, elf_class, entry_size as int, i as nat),
            bias == window_bias(loads@, base_addr),
            len == window_len(loads@),
        decreases count - i,
    {
        assert(i * entry_size + entry_size <= entry_size * count) by (nonlinear_arith)
            requires
                i < count,
        ;
        let ptype: u32 = read_le32(phdrs, at);
        if ptype == PT_LOAD {
            let load = if elf_class == ELF_CLASS_64 {
                Load {
                    offset: read_le64(phdrs, at + 8) as usize,
                    vaddr: read_le64(phdrs, at + 16) as usize,
                    memsz: read_le64(phdrs, at + 40) as usize,
                }
            } else {
                Load {
                    offset: read_le32(phdrs, at + 4) as usize,
                    vaddr: read_le32(phdrs, at + 8) as usize,
                    memsz: read_le32(phdrs, at + 20) as usize,
                }
            };
            let ghost before = loads@;
            loads.push(load);
            assert(loads@.drop_last() =~= before);
            if load.offset == 0 && base_addr >= load.vaddr {
                bias = Some(base_addr - load.vaddr);
            }
            let end: u128 = load.offset as u128 + load.memsz as u128;
            if end > len {
                len = end;
            }
        }
        assert((i + 1) * entry_size == i * entry_size + entry_size) by (nonlinear_arith);
        at = at + entry_size;
        i = i + 1;
    }
    match bias {
        None => None,
        Some(bias) => {
            if len == 0 || len > usize::MAX as u128 {
                return None;
            }
            Some(WindowPlan { bias, len: len as usize, loads })
        },
    }
}

/// The range of the process that a segment occupies is mapped.
pub open spec fn load_mapped(regions: Seq<MappedElf>, bias: usize, load: Load) -> bool {
    let src = bias.wrapping_add(load.vaddr) as int;
    load.memsz == 0 || (src + load.memsz <= usize::MAX + 1 && all_mapped(
        regions,
        src,
        load.memsz as int,
    ))
}

/// `part` laid over `whole` at `at`.
pub open spec fn laid_over(whole: Seq<u8>, at: int, part: Seq<u8>) -> Seq<u8> {
    Seq::new(
        whole.len(),
        |k: int|
            if at <= k < at + part.len() {
                part[k - at]
            } else {
                whole[k]
            },
    )
}

/// The window: the bytes of each segment at its file offset, later segments
/// over earlier ones, and zero elsewhere.
pub open spec fn window_of(
    regions: Seq<MappedElf>,
    bias: usize,
    len: nat,
    loads: Seq<Load>,
) -> Seq<u8>
    decreases loads.len(),
{
    if loads.len() == 0 {
        Seq::new(len, |k: int| 0u8)
    } else {
        let load = loads.last();
        laid_over(
            window_of(regions, bias, len, loads.drop_last()),
            load.offset as int,
            bytes_at(regions, bias.wrapping_add(load.vaddr) as int, load.memsz as int),
        )
    }
}

proof fn lemma_window_len(loads: Seq<Load>, i: int)
    requires
        0 <= i < loads.len(),
    ensures
        loads[i].offset + loads[i].memsz <= window_len(loads),
    decreases loads.len(),
{
    if i < loads.len() - 1 {
        lemma_window_len(loads.drop_last(), i);
    }
}

/// Copies the segments of a plan into a window. `None` where a segment is not
/// mapped as a whole.
pub fn fill_window(mem: &Memory, plan: &WindowPlan) -> (r: Option<Vec<u8>>)
    requires
        plan.len == window_len(plan.loads@),
    ensures
        match r {
            Some(w) => {
                &&& forall|i: int|
                    0 <= i < plan.loads@.len() ==> load_mapped(
                        mem.regions@,
                        plan.bias,
                        #[trigger] plan.loads@[i],
                    )
                &&& w@ == window_of(mem.regions@, plan.bias, plan.len as nat, plan.loads@)
            },
            None => exists|i: int|
                0 <= i < plan.loads@.len() && !load_mapped(
                    mem.regions@,
                    plan.bias,
                    #[trigger] plan.loads@[i],
                ),
        },
{
    let mut window: Vec<u8> = Vec::new();
    let mut k: usize = 0;
    while k < plan.len
        invariant
            k <= plan.len,
            window@ =~= Seq::new(k as nat, |j: int| 0u8),
        decreases plan.len - k,
    {
        window.push(0);
        k = k + 1;
    }
    assert(plan.loads@.take(0) =~= Seq::<Load>::empty());
    let mut i: usize = 0;
    while i < plan.loads.len()
        invariant
            i <= plan.loads@.len(),
            plan.len == window_len(plan.loads@),
            window@ == window_of(
                mem.regions@,
                plan.bias,
                plan.len as nat,
                plan.loads@.take(i as int),
            ),
            window@.len() == plan.len,
            forall|j: int|
                0 <= j < i ==> load_mapped(mem.regions@, plan.bias, #[trigger] plan.loads@[j]),
        decreases plan.loads@.len() - i,
    {
        let load = plan.loads[i];
        proof {
            lemma_window_len(plan.loads@, i as int);
            assert(plan.loads@.take(i + 1).drop_last() =~= plan.loads@.take(i as int));
        }
        let src: usize = plan.bias.wrapping_add(load.vaddr);
        if load.memsz != 0 {
            let part = match mem.read(src, load.memsz) {
                Some(part) => part,
                None => {
                    assert(!load_mapped(mem.regions@, plan.bias, plan.loads@[i as int]));
                    return None;
                },
            };
            let ghost before = window@;
            let mut k: usize = 0;
            while k < load.memsz
                invariant
                    k <= load.memsz,
                    part@.len() == load.memsz,
                    load.offset + load.memsz <= plan.len,
                    before.len() == plan.len,
                    window@ =~= laid_over(before, load.offset as int, part@.take(k as int)),
                decreases load.memsz - k,
            {
                window.set(load.offset + k, part[k]);
                k = k + 1;
            }
            assert(part@.take(k as int) =~= part@);
        } else {
            assert(window@ =~= laid_over(
                window@,
                load.offset as int,
                bytes_at(mem.regions@, src as int, 0),
            ));
        }
        i = i + 1;
    }
    assert(plan.loads@.take(i as int) =~= plan.loads@);
    Some(window)
}

/// The fields of an ELF header that describe the section header table: their
/// places, and the size of a table entry.
#[derive(Clone, Copy, Debug, PartialEq, Eq, Structural)]
pub struct SectionFields {
    pub shoff_at: usize,
    pub shoff_width: usize,
    pub shentsize_at: usize,
    pub shnum_at: usize,
    pub shstrndx_at: usize,
    pub entry_size: u64,
}

/// The section fields of a class.
pub open spec fn section_fields(class: u8) -> SectionFields {
    if class == ELF_CLASS_64 {
        SectionFields {
            shoff_at: 0x28,
            shoff_width: 8,
            shentsize_at: 0x3a,
            shnum_at: 0x3c,
            shstrndx_at: 0x3e,
            entry_size: 64,
        }
    } else {
        SectionFields {
            shoff_at: 0x20,
            shoff_width: 4,
            shentsize_at: 0x2e,
            shnum_at: 0x30,
            shstrndx_at: 0x32,
            entry_size: 40,
        }
    }
}

/// The offset of the section header table.
pub open spec fn shoff_of(window: Seq<u8>, class: u8) -> u64 {
    let f = section_fields(class);
    if class == ELF_CLASS_64 {
        le64(window, f.shoff_at as int)
    } else {
        le32(window, f.shoff_at as int) as u64
    }
}

/// The window holds the whole section header table that its header describes.
pub open spec fn sections_inside(window: Seq<u8>, class: u8) -> bool {
    let f = section_fields(class);
    &&& le16(window, f.shentsize_at as int) == f.entry_size
    &&& le16(window, f.shnum_at as int) != 0
    &&& shoff_of(window, class) + le16(window, f.shnum_at as int) * f.entry_size <= window.len()
}

/// Position `k` belongs to a section field.
pub open spec fn in_section_fields(class: u8, k: int) -> bool {
    let f = section_fields(class);
    ||| f.shoff_at <= k < f.shoff_at + f.shoff_width
    ||| f.shentsize_at <= k < f.shentsize_at + 2
    ||| f.shnum_at <= k < f.shnum_at + 2
    ||| f.shstrndx_at <= k < f.shstrndx_at + 2
}

/// A window long enough to have section fields.
pub open spec fn has_section_fields(window: Seq<u8>, class: u8) -> bool {
    window.len() >= section_fields(class).shstrndx_at + 2
}

/// The window with a header that tells the truth about its section table: the
/// section fields are zero unless the whole table is in the window.
pub open spec fn canonical(window: Seq<u8>, class: u8) -> Seq<u8> {
    if !has_section_fields(window, class) || sections_inside(window, class) {
        window
    } else {
        Seq::new(
            window.len(),
            |k: int|
                if in_section_fields(class, k) {
                    0u8
                } else {
                    window[k]
                },
        )
    }
}

fn zero_range(window: &mut Vec<u8>, at: usize, len: usize)
    requires
        at + len <= old(window)@.len(),
    ensures
        final(window)@ == Seq::new(
            old(window)@.len(),
            |k: int|
                if at <= k < at + len {
                    0u8
                } else {
                    old(window)@[k]
                },
        ),
{
    let mut k: usize = 0;
    while k < len
        invariant
            k <= len,
            at + len <= old(window)@.len(),
            at + len <= window.len(),
            window@ =~= Seq::new(
                old(window)@.len(),
                |j: int|
                    if at <= j < at + k {
                        0u8
                    } else {
                        old(window)@[j]
                    },
            ),
        decreases len - k,
    {
        window.set(at + k, 0);
        k = k + 1;
    }
}

/// Makes a window's header honest about the section header table.
pub fn canonicalize_section_table(window: &mut Vec<u8>, elf_class: u8)
    ensures
        final(window)@ == canonical(old(window)@, elf_class),
{
    let f = if elf_class == ELF_CLASS_64 {
        SectionFields {
            shoff_at: 0x28,
            shoff_width: 8,
            shentsize_at: 0x3a,
            shnum_at: 0x3c,
            shstrndx_at: 0x3e,
            entry_size: 64,
        }
    } else {
        SectionFields {
            shoff_at: 0x20,
            shoff_width: 4,
            shentsize_at: 0x2e,
            shnum_at: 0x30,
            shstrndx_at: 0x32,
            entry_size: 40,
        }
    };
    if window.len() < f.shstrndx_at + 2 {
        return;
    }
    let w = window.as_slice();
    let shoff: u64 = if elf_class == ELF_CLASS_64 {
        read_le64(w, f.shoff_at)
    } else {
        read_le32(w, f.shoff_at) as u64
    };
    let shentsize: u16 = read_le16(w, f.shentsize_at);
    let shnum: u16 = read_le16(w, f.shnum_at);
    let table_len: u128 = if elf_class == ELF_CLASS_64 {
        (shnum as u128) * 64
    } else {
        (shnum as u128) * 40
    };
    let end: u128 = shoff as u128 + table_len;
    let inside = shentsize as u64 == f.entry_size && shnum != 0 && end <= window.len() as u128;
    if !inside {
        zero_range(window, f.shoff_at, f.shoff_width);
        zero_range(window, f.shentsize_at, 2);
        zero_range(window, f.shnum_at, 2);
        zero_range(window, f.shstrndx_at, 2);
        assert(window@ =~= canonical(old(window)@, elf_class));
    }
}

/// The ELF header at `base` is mapped.
pub open spec fn header_mapped(regions: Seq<MappedElf>, base: usize, class: u8) -> bool {
    &&& base + ehdr_len(class) <= usize::MAX + 1
    &&& all_mapped(regions, base as int, ehdr_len(class))
}

/// The window and the bias of the image at `base`, or `None` where the header
/// is not accepted, no segment gives the bias, or bytes are missing.
pub open spec fn mapped_image(
    regions: Seq<MappedElf>,
    base: usize,
    class: u8,
    machine: u16,
) -> Option<(Seq<u8>, usize)> {
    let hdr = bytes_at(regions, base as int, ehdr_len(class));
    if base == 0 || !header_mapped(regions, base, class) {
        None
    } else {
        match accepted_table(hdr, class, machine) {
            None => None,
            Some(t) => {
                let at = base + t.offset;
                let size = t.entry_size * t.count;
                let loads = loads_of(
                    bytes_at(regions, at, size),
                    class,
                    t.entry_size as int,
                    t.count as nat,
                );
                if at + size > usize::MAX + 1 || !all_mapped(regions, at, size) {
                    None
                } else {
                    match window_bias(loads, base) {
                        None => None,
                        Some(bias) => {
                            let len = window_len(loads);
                            if 0 < len <= usize::MAX && forall|i: int|
                                0 <= i < loads.len() ==> load_mapped(
                                    regions,
                                    bias,
                                    #[trigger] loads[i],
                                ) {
                                Some(
                                    (
                                        canonical(
                                            window_of(regions, bias, len as nat, loads),
                                            class,
                                        ),
                                        bias,
                                    ),
                                )
                            } else {
                                None
                            }
                        },
                    }
                }
            },
        }
    }
}

/// Reads the image whose ELF header stands at `base_addr`: its window and its
/// load bias.
pub fn read_mapped_image_abi(
    mem: &Memory,
    base_addr: usize,
    elf_class: u8,
    machine: u16,
) -> (r: Option<(Vec<u8>, usize)>)
    ensures
        match mapped_image(mem.regions@, base_addr, elf_class, machine) {
            Some((window, bias)) => r matches Some(got) && got.0@ == window && got.1 == bias,
            None => r is None,
        },
{
    if base_addr == 0 {
        return None;
    }
    let ehdr_size: usize = if elf_class == ELF_CLASS_64 {
        64
    } else {
        52
    };
    let hdr = match mem.read(base_addr, ehdr_size) {
        Some(hdr) => hdr,
        None => {
            return None;
        },
    };
    let table = match read_ehdr(hdr.as_slice(), elf_class, machine) {
        Some(table) => table,
        None => {
            return None;
        },
    };
    assert(table.entry_size * table.count <= 0xffff * 0xffff) by (nonlinear_arith)
        requires
            table.entry_size <= 0xffff,
            table.count <= 0xffff,
    ;
    let size: usize = table.entry_size * table.count;
    let at: usize = match base_addr.checked_add(table.offset) {
        Some(at) => at,
        None => {
            assert(size > 0) by (nonlinear_arith)
                requires
                    table.entry_size > 0,
                    table.count > 0,
                    size == table.entry_size * table.count,
            ;
            return None;
        },
    };
    let phdrs = match mem.read(at, size) {
        Some(phdrs) => phdrs,
        None => {
            return None;
        },
    };
    let plan = match plan_window(
        phdrs.as_slice(),
        elf_class,
        table.entry_size,
        table.count,
        base_addr,
    ) {
        Some(plan) => plan,
        None => {
            return None;
        },
    };
    let mut window = match fill_window(mem, &plan) {
        Some(window) => window,
        None => {
            return None;
        },
    };
    canonicalize_section_table(&mut window, elf_class);
    Some((window, plan.bias))
}

/// A segment has the file offset `k`.
pub open spec fn covers(load: Load, k: int) -> bool {
    load.offset <= k < load.offset + load.memsz
}

/// A window is laid out like the file: at each file offset of a segment it
/// holds the byte that the process has at the segment's address. Where
/// segments overlap in the file, the last one counts.
pub proof fn law_window_has_file_layout(
    regions: Seq<MappedElf>,
    bias: usize,
    len: nat,
    loads: Seq<Load>,
    i: int,
    k: int,
)
    requires
        0 <= i < loads.len(),
        0 <= k < len,
        covers(loads[i], k),
        forall|j: int| i < j < loads.len() ==> !covers(#[trigger] loads[j], k),
    ensures
        window_of(regions, bias, len, loads)[k] == byte_at(
            regions,
            bias.wrapping_add(loads[i].vaddr) + (k - loads[i].offset),
        )->0,
    decreases loads.len(),
{
    lemma_window_of_len(regions, bias, len, loads.drop_last());
    if i < loads.len() - 1 {
        law_window_has_file_layout(regions, bias, len, loads.drop_last(), i, k);
        assert(!covers(loads[loads.len() - 1], k));
    }
}

/// What no segment has stays zero in a window: the gaps between segments are
/// never read.
pub proof fn law_gaps_are_zero(
    regions: Seq<MappedElf>,
    bias: usize,
    len: nat,
    loads: Seq<Load>,
    k: int,
)
    requires
        0 <= k < len,
        forall|j: int| 0 <= j < loads.len() ==> !covers(#[trigger] loads[j], k),
    ensures
        window_of(regions, bias, len, loads)[k] == 0,
    decreases loads.len(),
{
    if loads.len() > 0 {
        lemma_window_of_len(regions, bias, len, loads.drop_last());
        assert(!covers(loads[loads.len() - 1], k));
        law_gaps_are_zero(regions, bias, len, loads.drop_last(), k);
    }
}

proof fn lemma_window_of_len(regions: Seq<MappedElf>, bias: usize, len: nat, loads: Seq<Load>)
    ensures
        window_of(regions, bias, len, loads).len() == len,
    decreases loads.len(),
{
    if loads.len() > 0 {
        lemma_window_of_len(regions, bias, len, loads.drop_last());
    }
}

/// Making a header honest twice changes nothing more.
pub proof fn law_canonical_idempotent(window: Seq<u8>, class: u8)
    ensures
        canonical(canonical(window, class), class) == canonical(window, class),
{
    let once = canonical(window, class);
    if has_section_fields(window, class) && !sections_inside(window, class) {
        let f = section_fields(class);
        assert(once[f.shnum_at as int] == 0);
        assert(once[f.shnum_at + 1] == 0);
        assert(le16(once, f.shnum_at as int) == 0);
        assert(canonical(once, class) =~= once);
    }
}

/// Outside of the section fields a window keeps every byte.
pub proof fn law_canonical_keeps_the_rest(window: Seq<u8>, class: u8, k: int)
    requires
        0 <= k < window.len(),
        !in_section_fields(class, k),
    ensures
        canonical(window, class).len() == window.len(),
        canonical(window, class)[k] == window[k],
{
}

/// A byte is that of the first region that has its address, as far from the
/// region's start; an address that no region has is not mapped.
pub proof fn law_first_region_has_the_byte(regions: Seq<MappedElf>, addr: int, i: int)
    requires
        0 <= i <= regions.len(),
        i < regions.len() ==> regions[i].base_addr() <= addr < regions[i].base_addr()
            + regions[i].bytes().len(),
        forall|j: int|
            0 <= j < i ==> !((#[trigger] regions[j]).base_addr() <= addr < regions[j].base_addr()
                + regions[j].bytes().len()),
    ensures
        byte_at(regions, addr) == if i < regions.len() {
            Some(regions[i].bytes()[addr - regions[i].base_addr()])
        } else {
            None
        },
    decreases regions.len(),
{
    if i > 0 {
        let rest = regions.drop_first();
        assert(!(regions[0].base_addr() <= addr < regions[0].base_addr()
            + regions[0].bytes().len()));
        assert forall|j: int| 0 <= j < i - 1 implies !((#[trigger] rest[j]).base_addr() <= addr
            < rest[j].base_addr() + rest[j].bytes().len()) by {
            assert(rest[j] == regions[j + 1]);
        }
        assert(i < regions.len() ==> rest[i - 1] == regions[i]);
        law_first_region_has_the_byte(rest, addr, i - 1);
    }
}

/// A header is accepted by its bytes: the four of the format, the class, little
/// endian, the current version twice, an executable or a shared object, and the
/// machine.
pub proof fn law_header_is_told_by_its_bytes(hdr: Seq<u8>, class: u8, machine: u16)
    requires
        hdr.len() >= 52,
    ensures
        ehdr_ok(hdr, class, machine) <==> {
            &&& hdr[0] == 0x7f && hdr[1] == 0x45 && hdr[2] == 0x4c && hdr[3] == 0x46
            &&& hdr[4] == class
            &&& hdr[5] == 1
            &&& hdr[6] == 1
            &&& hdr[17] == 0 && (hdr[16] == 2 || hdr[16] == 3)
            &&& hdr[18] + 256 * hdr[19] == machine
            &&& hdr[20] == 1 && hdr[21] == 0 && hdr[22] == 0 && hdr[23] == 0
        },
{
    let head = hdr.subrange(0, 4);
    let format = seq![0x7fu8, 0x45u8, 0x4cu8, 0x46u8];
    assert(head[0] == hdr[0] && head[1] == hdr[1] && head[2] == hdr[2] && head[3] == hdr[3]);
    if hdr[0] == 0x7f && hdr[1] == 0x45 && hdr[2] == 0x4c && hdr[3] == 0x46 {
        assert(head =~= format);
    } else if head == format {
        assert(format[0] == head[0] && format[1] == head[1] && format[2] == head[2] && format[3]
            == head[3]);
    }
}

/// The program headers are where the header says, by the layout of its class,
/// and are refused where there are none or they are too short to be read.
pub proof fn law_program_headers_are_where_the_header_says(
    hdr: Seq<u8>,
    class: u8,
    machine: u16,
)
    ensures
        ({
            let t = phdr_table(hdr, class);
            &&& class == 2 ==> t.offset == le64(hdr, 0x20) as usize && t.entry_size == le16(
                hdr,
                0x36,
            ) && t.count == le16(hdr, 0x38)
            &&& class != 2 ==> t.offset == le32(hdr, 0x1c) as usize && t.entry_size == le16(
                hdr,
                0x2a,
            ) && t.count == le16(hdr, 0x2c)
            &&& accepted_table(hdr, class, machine) is Some <==> ehdr_ok(hdr, class, machine)
                && t.count > 0 && t.entry_size >= if class == 2 {
                48int
            } else {
                24int
            }
            &&& accepted_table(hdr, class, machine) is Some ==> accepted_table(hdr, class, machine)
                == Some(t)
        }),
{
}

/// A program header is read by the layout of its class.
pub proof fn law_program_header_fields(phdrs: Seq<u8>, class: u8, at: int)
    ensures
        ({
            let load = phdr_load(phdrs, class, at);
            if class == 2 {
                load.offset == le64(phdrs, at + 0x08) as usize && load.vaddr == le64(
                    phdrs,
                    at + 0x10,
                ) as usize && load.memsz == le64(phdrs, at + 0x28) as usize
            } else {
                load.offset == le32(phdrs, at + 0x04) as usize && load.vaddr == le32(
                    phdrs,
                    at + 0x08,
                ) as usize && load.memsz == le32(phdrs, at + 0x14) as usize
            }
        }),
{
}

/// Every loaded segment among the program headers is taken, and each that is
/// taken is one.
pub proof fn law_every_loaded_segment_is_taken(
    phdrs: Seq<u8>,
    class: u8,
    entry_size: int,
    n: nat,
    k: int,
)
    ensures
        0 <= k < n && le32(phdrs, k * entry_size) == 1 ==> loads_of(
            phdrs,
            class,
            entry_size,
            n,
        ).contains(phdr_load(phdrs, class, k * entry_size)),
        forall|i: int|
            0 <= i < loads_of(phdrs, class, entry_size, n).len() ==> exists|j: int|
                0 <= j < n && le32(phdrs, j * entry_size) == 1 && #[trigger] loads_of(
                    phdrs,
                    class,
                    entry_size,
                    n,
                )[i] == #[trigger] phdr_load(phdrs, class, j * entry_size),
        loads_of(phdrs, class, entry_size, n).len() <= n,
    decreases n,
{
    if n > 0 {
        let m = (n - 1) as nat;
        law_every_loaded_segment_is_taken(phdrs, class, entry_size, m, k);
        let rest = loads_of(phdrs, class, entry_size, m);
        let all = loads_of(phdrs, class, entry_size, n);
        let at = (n - 1) * entry_size;
        assert forall|i: int| 0 <= i < all.len() implies exists|j: int|
            0 <= j < n && le32(phdrs, j * entry_size) == 1 && #[trigger] all[i]
                == #[trigger] phdr_load(phdrs, class, j * entry_size) by {
            if i < rest.len() {
                assert(all[i] == rest[i]);
                let j = choose|j: int|
                    0 <= j < m && le32(phdrs, j * entry_size) == 1 && #[trigger] rest[i]
                        == #[trigger] phdr_load(phdrs, class, j * entry_size);
                assert(all[i] == phdr_load(phdrs, class, j * entry_size));
            } else {
                assert(all[i] == phdr_load(phdrs, class, (n - 1) * entry_size));
            }
        }
        if 0 <= k < n && le32(phdrs, k * entry_size) == 1 {
            let load = phdr_load(phdrs, class, k * entry_size);
            if k < m {
                let i = choose|i: int| 0 <= i < rest.len() && rest[i] == load;
                assert(all[i] == load);
            } else {
                assert(all[rest.len() as int] == load);
            }
        }
    }
}

/// The bias of a window is how far the last segment that starts the file, and is
/// not above the image, was moved; without one there is no window.
pub proof fn law_window_bias_is_of_the_last_start(loads: Seq<Load>, base: usize, i: int)
    requires
        -1 <= i < loads.len(),
        i >= 0 ==> loads[i].offset == 0 && loads[i].vaddr <= base,
        forall|j: int|
            i < j < loads.len() ==> (#[trigger] loads[j]).offset != 0 || loads[j].vaddr > base,
    ensures
        i >= 0 ==> (window_bias(loads, base) matches Some(bias) && bias + loads[i].vaddr == base),
        i < 0 ==> window_bias(loads, base) is None,
    decreases loads.len(),
{
    if loads.len() > 0 && i < loads.len() - 1 {
        let rest = loads.drop_last();
        assert(loads[loads.len() - 1].offset != 0 || loads[loads.len() - 1].vaddr > base);
        assert forall|j: int| i < j < rest.len() implies (#[trigger] rest[j]).offset != 0
            || rest[j].vaddr > base by {
            assert(rest[j] == loads[j]);
        }
        assert(i >= 0 ==> rest[i] == loads[i]);
        law_window_bias_is_of_the_last_start(rest, base, i);
    }
}

/// A window is as long as the furthest end of a segment in the file, and no
/// longer.
pub proof fn law_window_is_as_long_as_needed(loads: Seq<Load>)
    ensures
        forall|i: int|
            0 <= i < loads.len() ==> (#[trigger] loads[i]).offset + loads[i].memsz <= window_len(
                loads,
            ),
        window_len(loads) == 0 || exists|i: int|
            0 <= i < loads.len() && (#[trigger] loads[i]).offset + loads[i].memsz == window_len(
                loads,
            ),
    decreases loads.len(),
{
    if loads.len() > 0 {
        let rest = loads.drop_last();
        law_window_is_as_long_as_needed(rest);
        assert forall|i: int| 0 <= i < loads.len() implies (#[trigger] loads[i]).offset
            + loads[i].memsz <= window_len(loads) by {
            if i < rest.len() {
                assert(rest[i] == loads[i]);
            }
        }
        if window_len(loads) == window_len(rest) && window_len(rest) != 0 {
            let i = choose|i: int|
                0 <= i < rest.len() && (#[trigger] rest[i]).offset + rest[i].memsz == window_len(
                    rest,
                );
            assert(loads[i] == rest[i]);
        } else if window_len(loads) != window_len(rest) {
            assert(loads[loads.len() - 1].offset + loads[loads.len() - 1].memsz == window_len(
                loads,
            ));
        }
    }
}

/// A header keeps its section table exactly where the window holds all of it;
/// else all of the table's fields become zero.
pub proof fn law_lost_sections_are_dropped(window: Seq<u8>, class: u8)
    requires
        class == 2,
        window.len() >= 64,
    ensures
        ({
            let offset = le64(window, 0x28);
            let size = le16(window, 0x3a);
            let count = le16(window, 0x3c);
            let inside = size == 64 && count != 0 && offset + count * 64 <= window.len();
            &&& inside ==> canonical(window, class) == window
            &&& !inside ==> forall|k: int|
                0x28 <= k < 0x30 || 0x3a <= k < 0x40 ==> #[trigger] canonical(window, class)[k] == 0
        }),
{
}

/// The same of a 32-bit image.
pub proof fn law_lost_sections_are_dropped_32(window: Seq<u8>, class: u8)
    requires
        class != 2,
        window.len() >= 52,
    ensures
        ({
            let offset = le32(window, 0x20);
            let size = le16(window, 0x2e);
            let count = le16(window, 0x30);
            let inside = size == 40 && count != 0 && offset + count * 40 <= window.len();
            &&& inside ==> canonical(window, class) == window
            &&& !inside ==> forall|k: int|
                0x20 <= k < 0x24 || 0x2e <= k < 0x34 ==> #[trigger] canonical(window, class)[k] == 0
        }),
{
}

/// An image is read only from an address other than zero whose header is mapped
/// and accepted; what comes back has the length of the furthest segment, and the
/// bias that a segment which starts the file gives.
pub proof fn law_image_is_read_by_its_header(
    regions: Seq<MappedElf>,
    base: usize,
    class: u8,
    machine: u16,
)
    requires
        mapped_image(regions, base, class, machine) is Some,
    ensures
        ({
            let (window, bias) = mapped_image(regions, base, class, machine)->0;
            let n = ehdr_len(class);
            let hdr = bytes_at(regions, base as int, n);
            let t = phdr_table(hdr, class);
            let loads = loads_of(
                bytes_at(regions, base + t.offset, t.entry_size * t.count),
                class,
                t.entry_size as int,
                t.count as nat,
            );
            &&& base != 0
            &&& class == 2 ==> n == 64
            &&& class != 2 ==> n == 52
            &&& ehdr_ok(hdr, class, machine)
            &&& forall|k: int| 0 <= k < n ==> (#[trigger] byte_at(regions, base + k)) is Some
            &&& window.len() == window_len(loads)
            &&& window.len() > 0
            &&& bias <= base
            &&& window_bias(loads, base) == Some(bias)
            &&& forall|i: int|
                0 <= i < loads.len() ==> load_mapped(regions, bias, #[trigger] loads[i])
        }),
{
    let n = ehdr_len(class);
    let hdr = bytes_at(regions, base as int, n);
    let t = phdr_table(hdr, class);
    let loads = loads_of(
        bytes_at(regions, base + t.offset, t.entry_size * t.count),
        class,
        t.entry_size as int,
        t.count as nat,
    );
    let bias = window_bias(loads, base)->0;
    lemma_window_of_len(regions, bias, window_len(loads) as nat, loads);
    lemma_bias_below(loads, base);
}

proof fn lemma_bias_below(loads: Seq<Load>, base: usize)
    ensures
        window_bias(loads, base) matches Some(bias) ==> bias <= base,
    decreases loads.len(),
{
    if loads.len() > 0 {
        lemma_bias_below(loads.drop_last(), base);
    }
}

/// Bytes are laid over a window at their place, and nothing else of it changes.
pub proof fn law_bytes_are_laid_over(whole: Seq<u8>, at: int, part: Seq<u8>)
    requires
        0 <= at,
        at + part.len() <= whole.len(),
    ensures
        laid_over(whole, at, part) == whole.take(at) + part + whole.skip(at + part.len() as int),
{
    assert(laid_over(whole, at, part) =~= whole.take(at) + part + whole.skip(
        at + part.len() as int,
    ));
}

/// A region hands out just what it holds: the address of an offset is as far
/// from its start, and a slice is what stands there.
pub proof fn law_region_hands_out_what_it_holds(
    m: &MappedElf,
    offset: usize,
    size: usize,
    at: Option<usize>,
    byte: Option<u8>,
)
    requires
        call_ensures(MappedElf::ptr_at, (m, offset, size), at),
        call_ensures(MappedElf::read_at::<u8>, (m, offset), byte),
        m.base_addr() + m.bytes().len() <= usize::MAX,
    ensures
        at is Some <==> offset + size <= m.bytes().len(),
        at matches Some(a) ==> a == m.base_addr() + offset,
        byte is Some <==> offset < m.bytes().len(),
        byte matches Some(b) ==> b == m.bytes()[offset as int],
{
}

} // verus!
