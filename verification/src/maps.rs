//! The memory map of a process: looking modules and gaps up in it.
use vstd::prelude::*;

use crate::plti::discover::{page_floor, page_start};
use crate::text::{
    after_first, before_first, digit_value, digits, find_char, has_head, law_number_reads_back,
    lemma_first_index, lemma_first_index_unique, parse_unsigned, same_text, text_starts_with,
    to_chars, unsigned_value,
};

verus! {

/// One mapping of a process.
#[derive(Debug)]
pub struct MapEntry {
    pub start: usize,
    pub end: usize,
    pub readable: bool,
    pub writable: bool,
    pub executable: bool,
    pub is_private: bool,
    pub offset: u64,
    pub dev_major: u32,
    pub dev_minor: u32,
    pub inode: u64,
    pub path: String,
}

/// A hexadecimal address that fits a machine word.
pub open spec fn hex_address(s: Seq<char>) -> Option<usize> {
    match unsigned_value(s, 16) {
        Some(v) => if v <= usize::MAX {
            Some(v as usize)
        } else {
            None
        },
        None => None,
    }
}

/// The address range at the start of a line of a memory map: what stands before
/// the first blank, two hexadecimal numbers with a hyphen in between.
pub open spec fn line_range(line: Seq<char>) -> Option<(usize, usize)> {
    let range = before_first(line, ' ');
    match after_first(range, '-') {
        None => None,
        Some(tail) => match (hex_address(before_first(range, '-')), hex_address(tail)) {
            (Some(start), Some(end)) => Some((start, end)),
            _ => None,
        },
    }
}

/// The address range of a line of a memory map.
pub fn parse_map_range(line: &str) -> (r: Option<(usize, usize)>)
    ensures
        r == line_range(line@),
{
    let chars = to_chars(line);
    proof {
        assert(chars@.skip(0) =~= chars@);
        lemma_first_index(chars@, ' ');
    }
    let stop: usize = find_char(&chars, 0, ' ');
    let ghost range = before_first(line@, ' ');
    let mut head: Vec<char> = Vec::new();
    let mut i: usize = 0;
    while i < stop
        invariant
            i <= stop <= chars@.len(),
            head@ =~= chars@.take(i as int),
        decreases stop - i,
    {
        head.push(chars[i]);
        i = i + 1;
    }
    assert(head@ =~= range);
    proof {
        assert(head@.skip(0) =~= head@);
        lemma_first_index(head@, '-');
    }
    let dash: usize = find_char(&head, 0, '-');
    if dash == head.len() {
        return None;
    }
    assert(head@.subrange(0, dash as int) =~= before_first(range, '-'));
    assert(head@.subrange(dash + 1, head@.len() as int) =~= range.skip(dash + 1));
    let start: usize = match parse_unsigned(&head, 0, dash, 16, usize::MAX as u64) {
        Some(v) => v as usize,
        None => {
            return None;
        },
    };
    let end: usize = match parse_unsigned(&head, dash + 1, head.len(), 16, usize::MAX as u64) {
        Some(v) => v as usize,
        None => {
            return None;
        },
    };
    Some((start, end))
}

/// The ranges of those lines that have one, in order.
pub open spec fn line_ranges(lines: Seq<String>) -> Seq<(usize, usize)>
    decreases lines.len(),
{
    if lines.len() == 0 {
        seq![]
    } else {
        let rest = line_ranges(lines.drop_last());
        match line_range(lines.last()@) {
            Some(range) => rest.push(range),
            None => rest,
        }
    }
}

/// The furthest end of the ranges.
pub open spec fn furthest_end(ranges: Seq<(usize, usize)>) -> usize
    decreases ranges.len(),
{
    if ranges.len() == 0 {
        0
    } else {
        let rest = furthest_end(ranges.drop_last());
        if ranges.last().1 > rest {
            ranges.last().1
        } else {
            rest
        }
    }
}

/// The start of the last gap of at least `size` bytes between mappings, or
/// zero. What lies below the first mapping is no gap.
pub open spec fn last_gap(ranges: Seq<(usize, usize)>, size: int) -> usize
    decreases ranges.len(),
{
    if ranges.len() == 0 {
        0
    } else {
        let end = furthest_end(ranges.drop_last());
        let start = ranges.last().0;
        if end != 0 && start > end && start - end >= size {
            end
        } else {
            last_gap(ranges.drop_last(), size)
        }
    }
}

/// A size rounded up to whole pages.
pub open spec fn whole_pages(size: usize, page: usize) -> int {
    (size + page - 1) / page as int * page
}

/// Where to keep a copy of `needed_size` bytes, given the memory map: the
/// start of the last gap that is large enough, on a page boundary. Zero where
/// there is no such gap.
pub fn find_high_backup_hint(lines: &Vec<String>, needed_size: usize, page: usize) -> (hint: usize)
    requires
        page >= 1,
    ensures
        ({
            let gap = last_gap(line_ranges(lines@), whole_pages(needed_size, page));
            hint == if gap == 0 {
                0
            } else {
                page_floor(gap.wrapping_add((page - 1) as usize), page)
            }
        }),
{
    let pages: u128 = (needed_size as u128 + page as u128 - 1) / (page as u128);
    assert(pages * page <= needed_size + page - 1) by (nonlinear_arith)
        requires
            pages == (needed_size + page - 1) / page as int,
            page >= 1,
    ;
    assert(pages * page == whole_pages(needed_size, page));
    let size: u128 = pages * (page as u128);
    let mut prev_end: usize = 0;
    let mut best: usize = 0;
    let mut i: usize = 0;
    while i < lines.len()
        invariant
            i <= lines@.len(),
            prev_end == furthest_end(line_ranges(lines@.take(i as int))),
            best == last_gap(line_ranges(lines@.take(i as int)), size as int),
        decreases lines@.len() - i,
    {
        assert(lines@.take(i + 1).drop_last() =~= lines@.take(i as int));
        let ghost before = line_ranges(lines@.take(i as int));
        if let Some((start, end)) = parse_map_range(lines[i].as_str()) {
            assert(before.push((start, end)).drop_last() =~= before);
            if prev_end != 0 && start > prev_end && (start - prev_end) as u128 >= size {
                best = prev_end;
            }
            if end > prev_end {
                prev_end = end;
            }
        }
        i = i + 1;
    }
    assert(lines@.take(i as int) =~= lines@);
    if best != 0 {
        page_start(best.wrapping_add(page - 1), page)
    } else {
        0
    }
}

/// What stands after the last `c`: everything where there is none.
pub open spec fn after_last(s: Seq<char>, c: char) -> Seq<char>
    decreases s.len(),
{
    if s.len() == 0 {
        s
    } else if s.last() == c {
        seq![]
    } else {
        after_last(s.drop_last(), c).push(s.last())
    }
}

proof fn lemma_after_last(s: Seq<char>, c: char, i: int)
    requires
        0 <= i <= s.len(),
        i > 0 ==> s[i - 1] == c,
        forall|j: int| i <= j < s.len() ==> #[trigger] s[j] != c,
    ensures
        after_last(s, c) == s.skip(i),
    decreases s.len(),
{
    if i < s.len() {
        lemma_after_last(s.drop_last(), c, i);
        assert(s[s.len() - 1] != c);
        assert(s.drop_last().skip(i).push(s.last()) =~= s.skip(i));
    } else {
        assert(s.skip(i) =~= Seq::<char>::empty());
    }
}

/// The part of a text after the last `needle`.
pub fn position_after(s: &str, needle: char) -> (r: &str)
    ensures
        r@ == after_last(s@, needle),
{
    let chars = to_chars(s);
    let mut i: usize = chars.len();
    while i > 0 && chars[i - 1] != needle
        invariant
            i <= chars@.len(),
            forall|j: int| i <= j < chars@.len() ==> #[trigger] chars@[j] != needle,
        decreases i,
    {
        i = i - 1;
    }
    proof {
        lemma_after_last(s@, needle, i as int);
        assert(s@.subrange(i as int, s@.len() as int) =~= s@.skip(i as int));
    }
    s.substring_char(i, chars.len())
}

/// A named mapping without code whose file name begins with `suffix`.
pub open spec fn is_return_target(m: MapEntry, suffix: Seq<char>) -> bool {
    m.path@.len() > 0 && !m.executable && has_head(after_last(m.path@, '/'), suffix)
}

/// The start of the first such mapping, or zero.
pub open spec fn return_target(map: Seq<MapEntry>, suffix: Seq<char>) -> usize
    decreases map.len(),
{
    if map.len() == 0 {
        0
    } else if is_return_target(map[0], suffix) {
        map[0].start
    } else {
        return_target(map.drop_first(), suffix)
    }
}

/// An address in a module to which a remote call can return: it holds no code,
/// so returning there stops the process.
pub fn find_module_return_addr(map: &Vec<MapEntry>, suffix: &str) -> (r: usize)
    ensures
        r == return_target(map@, suffix@),
{
    let mut i: usize = 0;
    assert(map@.skip(0) =~= map@);
    while i < map.len()
        invariant
            i <= map@.len(),
            return_target(map@, suffix@) == return_target(map@.skip(i as int), suffix@),
        decreases map@.len() - i,
    {
        assert(map@.skip(i as int).drop_first() =~= map@.skip(i + 1));
        let m = &map[i];
        if !m.path.as_str().is_empty() && !m.executable && text_starts_with(
            position_after(m.path.as_str(), '/'),
            suffix,
        ) {
            return m.start;
        }
        i = i + 1;
    }
    0
}

/// The start of the first mapping of the beginning of `file`, or zero.
pub open spec fn module_base(map: Seq<MapEntry>, file: Seq<char>) -> usize
    decreases map.len(),
{
    if map.len() == 0 {
        0
    } else if map[0].path@.len() > 0 && map[0].offset == 0 && map[0].path@ == file {
        map[0].start
    } else {
        module_base(map.drop_first(), file)
    }
}

/// Where a file is mapped.
pub fn find_module_base(map: &Vec<MapEntry>, file: &str) -> (r: usize)
    ensures
        r == module_base(map@, file@),
{
    let mut i: usize = 0;
    assert(map@.skip(0) =~= map@);
    while i < map.len()
        invariant
            i <= map@.len(),
            module_base(map@, file@) == module_base(map@.skip(i as int), file@),
        decreases map@.len() - i,
    {
        assert(map@.skip(i as int).drop_first() =~= map@.skip(i + 1));
        let m = &map[i];
        if !m.path.as_str().is_empty() && m.offset == 0 && same_text(m.path.as_str(), file) {
            return m.start;
        }
        i = i + 1;
    }
    0
}

/// A function's symbol in the file of its module, with the module's lowest
/// virtual address.
#[derive(Clone, Copy, Debug, PartialEq, Eq, Structural)]
pub struct FuncSymbol {
    pub value: u64,
    pub bias: u64,
    /// The symbol is a resolver that picks the implementation at run time.
    pub indirect: bool,
}

/// Where a function of another process is.
#[derive(Clone, Copy, Debug, PartialEq, Eq, Structural)]
pub enum FuncLookup {
    /// The module or the symbol is missing.
    Missing,
    /// At this address.
    At(u64),
    /// Only the resolver at this local address can tell.
    Resolve { resolver: u64, local_base: u64, remote_base: u64 },
}

/// Where a function is, given what its module's file says about it. Addresses
/// wrap.
pub open spec fn func_lookup(
    local: Seq<MapEntry>,
    remote: Seq<MapEntry>,
    module: Seq<char>,
    sym: Option<FuncSymbol>,
) -> FuncLookup {
    let local_base = module_base(local, module) as u64;
    let remote_base = module_base(remote, module) as u64;
    if local_base == 0 || remote_base == 0 {
        FuncLookup::Missing
    } else {
        match sym {
            None => FuncLookup::Missing,
            Some(sym) => {
                let rel = sym.value.wrapping_sub(sym.bias);
                if sym.indirect {
                    FuncLookup::Resolve {
                        resolver: local_base.wrapping_add(rel),
                        local_base,
                        remote_base,
                    }
                } else {
                    FuncLookup::At(remote_base.wrapping_add(rel))
                }
            },
        }
    }
}

/// Finds a function of another process that maps the same module.
pub fn find_func_addr(
    local_info: &Vec<MapEntry>,
    remote_info: &Vec<MapEntry>,
    module: &str,
    sym: Option<FuncSymbol>,
) -> (r: FuncLookup)
    ensures
        r == func_lookup(local_info@, remote_info@, module@, sym),
{
    let local_base: u64 = find_module_base(local_info, module) as u64;
    let remote_base: u64 = find_module_base(remote_info, module) as u64;
    if local_base == 0 || remote_base == 0 {
        return FuncLookup::Missing;
    }
    match sym {
        None => FuncLookup::Missing,
        Some(sym) => {
            let rel: u64 = sym.value.wrapping_sub(sym.bias);
            if sym.indirect {
                FuncLookup::Resolve {
                    resolver: local_base.wrapping_add(rel),
                    local_base,
                    remote_base,
                }
            } else {
                FuncLookup::At(remote_base.wrapping_add(rel))
            }
        },
    }
}

/// The remote address of what a resolver picked locally, or zero where it
/// picked nothing.
pub fn translate_resolved(implementation: u64, local_base: u64, remote_base: u64) -> (r: u64)
    ensures
        r == if implementation == 0 {
            0
        } else {
            implementation.wrapping_sub(local_base).wrapping_add(remote_base)
        },
{
    if implementation == 0 {
        0
    } else {
        implementation.wrapping_sub(local_base).wrapping_add(remote_base)
    }
}

/// A mapping in text: its path and its permissions.
pub open spec fn region_text(m: MapEntry) -> Seq<char> {
    (if m.path@.len() == 0 {
        "<anonymous>"@
    } else {
        m.path@
    }) + " "@ + (if m.readable {
        "r"@
    } else {
        "-"@
    }) + (if m.writable {
        "w"@
    } else {
        "-"@
    }) + (if m.executable {
        "x"@
    } else {
        "-"@
    })
}

/// The mapping that holds an address, in text.
pub open spec fn region_of(map: Seq<MapEntry>, addr: usize) -> Seq<char>
    decreases map.len(),
{
    if map.len() == 0 {
        "<unknown>"@
    } else if map[0].start <= addr < map[0].end {
        region_text(map[0])
    } else {
        region_of(map.drop_first(), addr)
    }
}

/// Describes the mapping that holds an address.
pub fn get_addr_mem_region(map: &Vec<MapEntry>, addr: usize) -> (r: String)
    ensures
        r@ == region_of(map@, addr),
{
    let mut i: usize = 0;
    assert(map@.skip(0) =~= map@);
    while i < map.len()
        invariant
            i <= map@.len(),
            region_of(map@, addr) == region_of(map@.skip(i as int), addr),
        decreases map@.len() - i,
    {
        assert(map@.skip(i as int).drop_first() =~= map@.skip(i + 1));
        let m = &map[i];
        if m.start <= addr && addr < m.end {
            let mut out = String::new();
            if m.path.as_str().is_empty() {
                out.append("<anonymous>");
            } else {
                out.append(m.path.as_str());
            }
            out.append(" ");
            out.append(if m.readable { "r" } else { "-" });
            out.append(if m.writable { "w" } else { "-" });
            out.append(if m.executable { "x" } else { "-" });
            assert(out@ =~= region_text(*m));
            return out;
        }
        i = i + 1;
    }
    String::from_str("<unknown>")
}

/// The gap that is found touches no mapping listed before the one that ends it:
/// where mappings are listed in order of address, `size` bytes from the gap's
/// start on are free.
pub proof fn law_gap_is_free(ranges: Seq<(usize, usize)>, size: int, i: int)
    requires
        last_gap(ranges, size) != 0,
        0 <= i < ranges.len(),
        size >= 0,
        forall|a: int, b: int|
            0 <= a < b < ranges.len() ==> (#[trigger] ranges[a]).0 <= (#[trigger] ranges[b]).0,
    ensures
        ranges[i].1 <= last_gap(ranges, size) || ranges[i].0 >= last_gap(ranges, size) + size,
    decreases ranges.len(),
{
    let rest = ranges.drop_last();
    let end = furthest_end(rest);
    let n = ranges.len() - 1;
    let start = ranges.last().0;
    if end != 0 && start > end && start - end >= size {
        if i < n {
            lemma_furthest_end(rest, i);
        }
    } else if i < n {
        law_gap_is_free(rest, size, i);
    } else {
        lemma_gap_end(rest, size);
        let k = choose|k: int|
            0 <= k < rest.len() && (#[trigger] rest[k]).0 >= last_gap(rest, size) + size;
        assert(ranges[k].0 <= ranges[n].0);
    }
}

proof fn lemma_furthest_end(ranges: Seq<(usize, usize)>, i: int)
    requires
        0 <= i < ranges.len(),
    ensures
        ranges[i].1 <= furthest_end(ranges),
    decreases ranges.len(),
{
    if i < ranges.len() - 1 {
        lemma_furthest_end(ranges.drop_last(), i);
    }
}

proof fn lemma_gap_end(ranges: Seq<(usize, usize)>, size: int)
    requires
        last_gap(ranges, size) != 0,
    ensures
        exists|k: int|
            0 <= k < ranges.len() && (#[trigger] ranges[k]).0 >= last_gap(ranges, size) + size,
    decreases ranges.len(),
{
    let rest = ranges.drop_last();
    let end = furthest_end(rest);
    let start = ranges.last().0;
    if end != 0 && start > end && start - end >= size {
        assert(ranges[ranges.len() - 1].0 >= end + size);
    } else {
        lemma_gap_end(rest, size);
        let k = choose|k: int|
            0 <= k < rest.len() && (#[trigger] rest[k]).0 >= last_gap(rest, size) + size;
        assert(ranges[k] == rest[k]);
    }
}

proof fn lemma_hex(n: nat)
    ensures
        unsigned_value(digits(n, 16), 16) == Some(n),
        !digits(n, 16).contains('-'),
        !digits(n, 16).contains(' '),
{
    law_number_reads_back(n, 16);
    let s = digits(n, 16);
    assert(digit_value(s[0], 16) is Some);
    assert forall|i: int| 0 <= i < s.len() implies s[i] != '-' && s[i] != ' ' by {
        assert(digit_value(s[i], 16) is Some);
    }
}

/// A line of a memory map is read as the kernel writes it: two hexadecimal
/// addresses with a hyphen between them, and a blank behind.
pub proof fn law_range_is_read_as_written(start: usize, end: usize, rest: Seq<char>)
    ensures
        line_range(digits(start as nat, 16) + seq!['-'] + digits(end as nat, 16) + seq![' '] + rest)
            == Some((start, end)),
{
    let a = digits(start as nat, 16);
    let b = digits(end as nat, 16);
    let range = a + seq!['-'] + b;
    let line = range + seq![' '] + rest;
    lemma_hex(start as nat);
    lemma_hex(end as nat);
    assert forall|j: int| 0 <= j < range.len() implies #[trigger] range[j] != ' ' by {
        if j < a.len() {
            assert(range[j] == a[j]);
            assert(a.contains(a[j]));
        } else if j > a.len() {
            assert(range[j] == b[j - a.len() - 1]);
            assert(b.contains(b[j - a.len() - 1]));
        }
    }
    assert(line[range.len() as int] == ' ');
    assert forall|j: int| 0 <= j < range.len() implies #[trigger] line[j] != ' ' by {
        assert(line[j] == range[j]);
    }
    lemma_first_index_unique(line, ' ', range.len() as int);
    assert(line.take(range.len() as int) =~= range);
    assert(range[a.len() as int] == '-');
    assert forall|j: int| 0 <= j < a.len() implies #[trigger] range[j] != '-' by {
        assert(range[j] == a[j]);
        assert(a.contains(a[j]));
    }
    lemma_first_index_unique(range, '-', a.len() as int);
    assert(range.take(a.len() as int) =~= a);
    assert(range.skip(a.len() as int + 1) =~= b);
    assert(line =~= a + seq!['-'] + b + seq![' '] + rest);
}

/// A line whose first field has no hyphen has no range.
pub proof fn law_line_without_hyphen_has_no_range(field: Seq<char>, rest: Seq<char>)
    requires
        !field.contains(' '),
        !field.contains('-'),
    ensures
        line_range(field + seq![' '] + rest) is None,
        line_range(field) is None,
{
    let line = field + seq![' '] + rest;
    let n = field.len() as int;
    assert(line[n] == ' ');
    assert forall|j: int| 0 <= j < n implies #[trigger] line[j] != ' ' by {
        assert(line[j] == field[j]);
        assert(field.contains(field[j]));
    }
    lemma_first_index_unique(line, ' ', n);
    assert(line.take(n) =~= field);
    assert forall|j: int| 0 <= j < n implies #[trigger] field[j] != '-' by {
        assert(field.contains(field[j]));
    }
    lemma_first_index_unique(field, '-', n);
    assert forall|j: int| 0 <= j < n implies field[j] != ' ' by {
        assert(field.contains(field[j]));
    }
    lemma_first_index_unique(field, ' ', n);
    assert(field.take(n) =~= field);
}

/// Every line that has a range counts, in order, and no other line does.
pub proof fn law_every_range_counts(lines: Seq<String>)
    ensures
        line_ranges(lines) == lines.filter(|l: String| line_range(l@) is Some).map_values(
            |l: String| line_range(l@)->0,
        ),
    decreases lines.len(),
{
    reveal(Seq::filter);
    if lines.len() > 0 {
        law_every_range_counts(lines.drop_last());
    }
    assert(line_ranges(lines) =~= lines.filter(|l: String| line_range(l@) is Some).map_values(
        |l: String| line_range(l@)->0,
    ));
}

/// A size in whole pages is the least number of pages that holds it.
pub proof fn law_whole_pages_hold_the_size(size: usize, page: usize)
    requires
        page >= 1,
    ensures
        size <= whole_pages(size, page) < size + page,
        whole_pages(size, page) % page as int == 0,
{
    let n = size + page - 1;
    let p = page as int;
    let q = n / p;
    vstd::arithmetic::div_mod::lemma_fundamental_div_mod(n, p);
    vstd::arithmetic::div_mod::lemma_mod_multiples_basic(q, p);
    assert(q * p == p * q) by (nonlinear_arith);
    assert(0 <= n % p < p) by (nonlinear_arith)
        requires
            p > 0,
    ;
}

proof fn lemma_furthest_end_is_one(ranges: Seq<(usize, usize)>)
    ensures
        furthest_end(ranges) == 0 || exists|i: int|
            0 <= i < ranges.len() && (#[trigger] ranges[i]).1 == furthest_end(ranges),
    decreases ranges.len(),
{
    if ranges.len() > 0 {
        let rest = ranges.drop_last();
        lemma_furthest_end_is_one(rest);
        if furthest_end(ranges) == ranges.last().1 {
            assert(ranges[ranges.len() - 1].1 == furthest_end(ranges));
        } else if furthest_end(rest) != 0 {
            let i = choose|i: int|
                0 <= i < rest.len() && (#[trigger] rest[i]).1 == furthest_end(rest);
            assert(ranges[i] == rest[i]);
        }
    }
}

/// A gap that is found starts where a mapping ends, and a gap that is there is
/// found: where some mapping starts so far above the end of all before it, the
/// result is not zero, and the last such mapping decides.
pub proof fn law_gap_is_found(ranges: Seq<(usize, usize)>, size: int, k: int)
    requires
        0 <= k < ranges.len(),
    ensures
        last_gap(ranges, size) != 0 ==> exists|i: int|
            0 <= i < ranges.len() && (#[trigger] ranges[i]).1 == last_gap(ranges, size),
        ({
            let end = furthest_end(ranges.take(k));
            let start = ranges[k].0;
            end != 0 && start > end && start - end >= size && (forall|j: int|
                k < j < ranges.len() ==> {
                    let e = furthest_end(ranges.take(j));
                    !((#[trigger] ranges[j]).0 > e && ranges[j].0 - e >= size)
                }) ==> last_gap(ranges, size) == end
        }),
    decreases ranges.len(),
{
    let rest = ranges.drop_last();
    assert(ranges.take(ranges.len() - 1) =~= rest);
    lemma_furthest_end_is_one(rest);
    let end = furthest_end(rest);
    let start = ranges.last().0;
    if end != 0 && start > end && start - end >= size {
        let i = choose|i: int| 0 <= i < rest.len() && (#[trigger] rest[i]).1 == end;
        assert(ranges[i] == rest[i]);
        assert(ranges[ranges.len() - 1].0 == start);
    } else {
        assert(last_gap(ranges, size) == last_gap(rest, size));
        if rest.len() > 0 {
            law_gap_is_found(rest, size, if k < rest.len() {
                k
            } else {
                0
            });
            if last_gap(rest, size) != 0 {
                let i = choose|i: int|
                    0 <= i < rest.len() && (#[trigger] rest[i]).1 == last_gap(rest, size);
                assert(ranges[i] == rest[i]);
            }
        }
        if k < rest.len() {
            assert(ranges.take(k) =~= rest.take(k));
            assert forall|j: int| k < j < rest.len() implies #[trigger] rest[j] == ranges[j]
                && furthest_end(rest.take(j)) == furthest_end(ranges.take(j)) by {
                assert(rest.take(j) =~= ranges.take(j));
            }
        }
    }
}

/// The furthest end is that of some mapping, and none ends further.
pub proof fn law_furthest_end(ranges: Seq<(usize, usize)>, i: int)
    requires
        0 <= i < ranges.len(),
    ensures
        ranges[i].1 <= furthest_end(ranges),
        furthest_end(ranges) == 0 || exists|k: int|
            0 <= k < ranges.len() && (#[trigger] ranges[k]).1 == furthest_end(ranges),
{
    lemma_furthest_end(ranges, i);
    lemma_furthest_end_is_one(ranges);
}

/// What stands behind the last of a character holds it no more, and with what
/// stands before gives the text again.
pub proof fn law_text_behind_the_last(before: Seq<char>, tail: Seq<char>, c: char)
    requires
        !tail.contains(c),
    ensures
        after_last(before + seq![c] + tail, c) == tail,
        after_last(tail, c) == tail,
{
    let s = before + seq![c] + tail;
    let i = before.len() as int + 1;
    assert(s[i - 1] == c);
    assert forall|j: int| i <= j < s.len() implies #[trigger] s[j] != c by {
        assert(s[j] == tail[j - i]);
        assert(tail.contains(tail[j - i]));
    }
    lemma_after_last(s, c, i);
    assert(s.skip(i) =~= tail);
    assert forall|j: int| 0 <= j < tail.len() implies #[trigger] tail[j] != c by {
        assert(tail.contains(tail[j]));
    }
    lemma_after_last(tail, c, 0);
    assert(tail.skip(0) =~= tail);
}

/// A call returns to the first named mapping without code whose file name begins
/// as asked; without one there is no place to return to.
pub proof fn law_return_target_is_the_first(map: Seq<MapEntry>, suffix: Seq<char>, i: int)
    requires
        0 <= i <= map.len(),
        i < map.len() ==> map[i].path@.len() > 0 && !map[i].executable && has_head(
            after_last(map[i].path@, '/'),
            suffix,
        ),
        forall|j: int|
            0 <= j < i ==> !((#[trigger] map[j]).path@.len() > 0 && !map[j].executable && has_head(
                after_last(map[j].path@, '/'),
                suffix,
            )),
    ensures
        return_target(map, suffix) == if i < map.len() {
            map[i].start
        } else {
            0
        },
    decreases map.len(),
{
    if i > 0 {
        let rest = map.drop_first();
        assert(!(map[0].path@.len() > 0 && !map[0].executable && has_head(
            after_last(map[0].path@, '/'),
            suffix,
        )));
        assert forall|j: int| 0 <= j < i - 1 implies !((#[trigger] rest[j]).path@.len() > 0
            && !rest[j].executable && has_head(after_last(rest[j].path@, '/'), suffix)) by {
            assert(rest[j] == map[j + 1]);
        }
        assert(i < map.len() ==> rest[i - 1] == map[i]);
        law_return_target_is_the_first(rest, suffix, i - 1);
    }
}

/// A file is mapped where the first mapping of its beginning starts; without one
/// it is not mapped.
pub proof fn law_module_base_is_the_first(map: Seq<MapEntry>, file: Seq<char>, i: int)
    requires
        file.len() > 0,
        0 <= i <= map.len(),
        i < map.len() ==> map[i].offset == 0 && map[i].path@ == file,
        forall|j: int|
            0 <= j < i ==> !((#[trigger] map[j]).offset == 0 && map[j].path@ == file),
    ensures
        module_base(map, file) == if i < map.len() {
            map[i].start
        } else {
            0
        },
    decreases map.len(),
{
    if i > 0 {
        let rest = map.drop_first();
        assert(!(map[0].offset == 0 && map[0].path@ == file));
        assert forall|j: int| 0 <= j < i - 1 implies !((#[trigger] rest[j]).offset == 0
            && rest[j].path@ == file) by {
            assert(rest[j] == map[j + 1]);
        }
        assert(i < map.len() ==> rest[i - 1] == map[i]);
        law_module_base_is_the_first(rest, file, i - 1);
    }
}

/// A function is as far from the start of its module in the other process as in
/// the file, whatever this process maps where; one that has to be resolved is
/// resolved here. A module that either process lacks, or a missing symbol, gives
/// nothing.
pub proof fn law_function_moves_with_its_module(
    local: Seq<MapEntry>,
    remote: Seq<MapEntry>,
    module: Seq<char>,
    sym: FuncSymbol,
)
    requires
        sym.bias <= sym.value,
    ensures
        ({
            let here = module_base(local, module);
            let there = module_base(remote, module);
            let off = sym.value - sym.bias;
            let found = func_lookup(local, remote, module, Some(sym));
            &&& func_lookup(local, remote, module, None) is Missing
            &&& found is Missing <==> here == 0 || there == 0
            &&& here != 0 && there != 0 && !sym.indirect && there + off <= u64::MAX ==> (
            found matches FuncLookup::At(a) && a == there + off)
            &&& here != 0 && there != 0 && sym.indirect && here + off <= u64::MAX ==> (
            found matches FuncLookup::Resolve { resolver, local_base, remote_base } && resolver
                == here + off && local_base == here && remote_base == there)
        }),
{
}

/// What a resolver picked here is as far from the start of its module in the
/// other process; nothing stays nothing.
pub proof fn law_resolved_function_moves(
    picked: u64,
    local_base: u64,
    remote_base: u64,
    r: u64,
)
    requires
        call_ensures(translate_resolved, (picked, local_base, remote_base), r),
        picked == 0 || local_base <= picked,
        picked - local_base + remote_base <= u64::MAX,
    ensures
        picked == 0 ==> r == 0,
        picked != 0 ==> r - remote_base == picked - local_base,
{
}

/// An address is described by the first mapping that holds it, end excluded.
pub proof fn law_region_holds_the_address(map: Seq<MapEntry>, addr: usize, i: int)
    requires
        0 <= i <= map.len(),
        i < map.len() ==> map[i].start <= addr < map[i].end,
        forall|j: int| 0 <= j < i ==> !((#[trigger] map[j]).start <= addr < map[j].end),
    ensures
        region_of(map, addr) == if i < map.len() {
            region_text(map[i])
        } else {
            "<unknown>"@
        },
    decreases map.len(),
{
    if i > 0 {
        let rest = map.drop_first();
        assert(!(map[0].start <= addr < map[0].end));
        assert forall|j: int| 0 <= j < i - 1 implies !((#[trigger] rest[j]).start <= addr
            < rest[j].end) by {
            assert(rest[j] == map[j + 1]);
        }
        assert(i < map.len() ==> rest[i - 1] == map[i]);
        law_region_holds_the_address(rest, addr, i - 1);
    }
}

/// A mapping's description ends with its permissions, one character each.
pub proof fn law_description_ends_with_permissions(m: MapEntry)
    ensures
        ({
            let t = region_text(m);
            let n = t.len() as int;
            &&& n >= 4
            &&& t[n - 4] == ' '
            &&& t[n - 3] == if m.readable {
                'r'
            } else {
                '-'
            }
            &&& t[n - 2] == if m.writable {
                'w'
            } else {
                '-'
            }
            &&& t[n - 1] == if m.executable {
                'x'
            } else {
                '-'
            }
            &&& m.path@.len() > 0 ==> t.take(n - 4) == m.path@
            &&& m.path@.len() == 0 ==> t.take(n - 4) == "<anonymous>"@
        }),
{
    reveal_strlit(" ");
    reveal_strlit("r");
    reveal_strlit("w");
    reveal_strlit("x");
    reveal_strlit("-");
    let t = region_text(m);
    let n = t.len() as int;
    let name = if m.path@.len() == 0 {
        "<anonymous>"@
    } else {
        m.path@
    };
    assert(t.take(n - 4) =~= name);
}

/// A copy is kept in a free gap, or nowhere: the hint lies on a page boundary,
/// not before the end of what is mapped in front of the gap, and less than a
/// page behind it.
pub proof fn law_hint_is_in_a_gap(lines: &Vec<String>, size: usize, page: usize, hint: usize)
    requires
        page >= 1,
        call_ensures(find_high_backup_hint, (lines, size, page), hint),
        last_gap(line_ranges(lines@), whole_pages(size, page)) + page <= usize::MAX,
    ensures
        ({
            let gap = last_gap(line_ranges(lines@), whole_pages(size, page));
            &&& gap == 0 ==> hint == 0
            &&& gap != 0 ==> gap <= hint < gap + page && hint & ((page - 1) as usize) == 0
        }),
{
    let gap = last_gap(line_ranges(lines@), whole_pages(size, page));
    let low = (page - 1) as usize;
    let above = (gap + low) as usize;
    assert(above & !low <= above && above - (above & !low) <= low && (above & !low) & low == 0)
        by (bit_vector);
}

} // verus!
