//! The hooks that modules ask for: queued by a pattern over library paths or
//! by the device and inode of a library, then turned into hook requests.
use regex::Regex;
use vstd::prelude::*;
use crate::maps::MapEntry;
use crate::text::same_text;

verus! {

/// A compiled pattern of the `regex` crate, whose insides stay closed.
#[verifier::external_type_specification]
#[verifier::external_body]
pub struct ExRegex(Regex);

/// Whether the `regex` crate finds a match for a pattern anywhere in a text.
pub uninterp spec fn pattern_matches(pattern: Seq<char>, text: Seq<char>) -> bool;

/// Whether the `regex` crate compiles a pattern where pointers have so many
/// bits. The width counts: a compiled pattern may not exceed a number of bytes,
/// and the size of its parts depends on that of a pointer.
pub uninterp spec fn pattern_compiles(pattern: Seq<char>, pointer_bits: nat) -> bool;

/// A pattern together with its source. Only `compile` makes one.
pub struct Pattern {
    source: String,
    regex: Regex,
}

impl View for Pattern {
    type V = Seq<char>;

    closed spec fn view(&self) -> Seq<char> {
        self.source@
    }
}

/// Calls `regex::Regex::new` on a source. Claimed: whether a pattern comes back
/// depends on the source and the width of pointers alone, and one that comes
/// back is that of the source. Which sources compile is not spelled out: they
/// are those that the crate's syntax admits and its default size limit holds.
#[verifier::external_body]
fn compile(source: &str) -> (r: Option<Pattern>)
    ensures
        r is Some == pattern_compiles(source@, usize::BITS as nat),
        r matches Some(p) ==> p@ == source@,
{
    match Regex::new(source) {
        Ok(regex) => Some(Pattern { source: String::from(source), regex }),
        Err(_) => None,
    }
}

/// Calls `regex::Regex::is_match` with a pattern on a text. Claimed: the answer
/// depends on the pattern's source and the text alone.
#[verifier::external_body]
fn is_match(pattern: &Pattern, text: &str) -> (r: bool)
    ensures
        r == pattern_matches(pattern@, text@),
{
    pattern.regex.is_match(text)
}

/// The most hooks that modules can queue by pattern.
pub const MAX_REGISTER_INFO: usize = 64;

/// The most exceptions that modules can queue.
pub const MAX_IGNORE_INFO: usize = 64;

/// A hook that a module asked for in every library whose path matches.
pub struct RegisterInfo {
    /// The libraries.
    pub regex: Pattern,
    /// The symbol.
    pub symbol: String,
    /// The replacement.
    pub callback: usize,
    /// Where the original goes; zero for nowhere.
    pub backup: usize,
}

/// An exception: no hook in the libraries whose path matches.
pub struct IgnoreInfo {
    /// The libraries.
    pub regex: Pattern,
    /// The symbol, or every symbol.
    pub symbol: Option<String>,
}

/// A hook to install.
pub struct HookRequest {
    /// The library.
    pub path: String,
    /// The symbol.
    pub symbol: String,
    /// The replacement.
    pub callback: usize,
    /// Where the original goes; zero for nowhere.
    pub backup: usize,
}

impl View for HookRequest {
    type V = (Seq<char>, Seq<char>, usize, usize);

    open spec fn view(&self) -> (Seq<char>, Seq<char>, usize, usize) {
        (self.path@, self.symbol@, self.callback, self.backup)
    }
}

/// The hooks and exceptions that modules queued.
pub struct HookQueue {
    /// The hooks.
    pub register_info: Vec<RegisterInfo>,
    /// The exceptions.
    pub ignore_info: Vec<IgnoreInfo>,
}

impl HookQueue {
    /// The queue is within its limits.
    pub open spec fn wf(self) -> bool {
        self.register_info@.len() <= MAX_REGISTER_INFO && self.ignore_info@.len() <= MAX_IGNORE_INFO
    }

    /// An empty queue.
    pub fn new() -> (q: Self)
        ensures
            q.wf(),
            q.register_info@.len() == 0,
            q.ignore_info@.len() == 0,
    {
        HookQueue { register_info: Vec::new(), ignore_info: Vec::new() }
    }

    /// Queues a hook whose pattern compiled; one that did not is dropped.
    pub fn push_register(
        &mut self,
        compiled: Option<Pattern>,
        symbol: &str,
        callback: usize,
        backup: usize,
    )
        requires
            old(self).wf(),
        ensures
            final(self).wf(),
            final(self).ignore_info == old(self).ignore_info,
            if compiled is Some && old(self).register_info@.len() < MAX_REGISTER_INFO {
                let last = final(self).register_info@.last();
                &&& final(self).register_info@ == old(self).register_info@.push(last)
                &&& last.regex == compiled->0
                &&& last.symbol@ == symbol@
                &&& last.callback == callback
                &&& last.backup == backup
            } else {
                final(self).register_info@ == old(self).register_info@
            },
    {
        if self.register_info.len() >= MAX_REGISTER_INFO {
            return;
        }
        match compiled {
            Some(regex) => {
                let info = RegisterInfo {
                    regex,
                    symbol: String::from_str(symbol),
                    callback,
                    backup,
                };
                self.register_info.push(info);
            },
            None => {},
        }
    }

    /// Queues a hook for every library whose path matches a pattern. It is
    /// dropped without a replacement, beyond the limit, or where the pattern
    /// does not compile.
    pub fn api_plt_hook_register(
        &mut self,
        regex: &str,
        symbol: &str,
        callback: usize,
        backup: usize,
    )
        requires
            old(self).wf(),
        ensures
            final(self).wf(),
            final(self).ignore_info == old(self).ignore_info,
            if callback != 0 && old(self).register_info@.len() < MAX_REGISTER_INFO
                && pattern_compiles(regex@, usize::BITS as nat) {
                let last = final(self).register_info@.last();
                &&& final(self).register_info@ == old(self).register_info@.push(last)
                &&& last.regex@ == regex@
                &&& last.symbol@ == symbol@
                &&& last.callback == callback
                &&& last.backup == backup
            } else {
                final(self).register_info@ == old(self).register_info@
            },
    {
        if callback == 0 {
            return;
        }
        if self.register_info.len() >= MAX_REGISTER_INFO {
            return;
        }
        let compiled = compile(regex);
        self.push_register(compiled, symbol, callback, backup);
    }

    /// Queues an exception whose pattern compiled; one that did not is dropped.
    pub fn push_exclude(&mut self, compiled: Option<Pattern>, symbol: Option<String>)
        requires
            old(self).wf(),
        ensures
            final(self).wf(),
            final(self).register_info == old(self).register_info,
            if compiled is Some && old(self).ignore_info@.len() < MAX_IGNORE_INFO {
                final(self).ignore_info@ == old(self).ignore_info@.push(
                    IgnoreInfo { regex: compiled->0, symbol },
                )
            } else {
                final(self).ignore_info@ == old(self).ignore_info@
            },
    {
        if self.ignore_info.len() >= MAX_IGNORE_INFO {
            return;
        }
        match compiled {
            Some(regex) => {
                self.ignore_info.push(IgnoreInfo { regex, symbol });
            },
            None => {},
        }
    }

    /// Queues an exception for every library whose path matches a pattern:
    /// for one symbol, or for all of them. It is dropped beyond the limit, or
    /// where the pattern does not compile.
    pub fn api_plt_hook_exclude(&mut self, regex: &str, symbol: Option<String>)
        requires
            old(self).wf(),
        ensures
            final(self).wf(),
            final(self).register_info == old(self).register_info,
            if old(self).ignore_info@.len() < MAX_IGNORE_INFO && pattern_compiles(
                regex@,
                usize::BITS as nat,
            ) {
                let last = final(self).ignore_info@.last();
                &&& final(self).ignore_info@ == old(self).ignore_info@.push(last)
                &&& last.regex@ == regex@
                &&& last.symbol == symbol
            } else {
                final(self).ignore_info@ == old(self).ignore_info@
            },
    {
        if self.ignore_info.len() >= MAX_IGNORE_INFO {
            return;
        }
        let compiled = compile(regex);
        self.push_exclude(compiled, symbol);
    }
}

/// An exception speaks of a hook in a library.
pub open spec fn excludes(ign: IgnoreInfo, symbol: Seq<char>, path: Seq<char>) -> bool {
    pattern_matches(ign.regex@, path) && (ign.symbol matches Some(s) ==> s@ == symbol)
}

/// Some exception speaks of a hook in a library.
pub open spec fn is_ignored(ignores: Seq<IgnoreInfo>, symbol: Seq<char>, path: Seq<char>) -> bool {
    exists|i: int| 0 <= i < ignores.len() && excludes(#[trigger] ignores[i], symbol, path)
}

/// A mapping is the start of a library that can be hooked.
pub open spec fn is_library(map: MapEntry) -> bool {
    map.offset == 0 && map.is_private && map.readable
}

/// The requests for one library.
pub open spec fn library_requests(
    path: Seq<char>,
    regs: Seq<RegisterInfo>,
    ignores: Seq<IgnoreInfo>,
) -> Seq<(Seq<char>, Seq<char>, usize, usize)>
    decreases regs.len(),
{
    if regs.len() == 0 {
        seq![]
    } else {
        let before = library_requests(path, regs.drop_last(), ignores);
        let reg = regs.last();
        if pattern_matches(reg.regex@, path) && !is_ignored(ignores, reg.symbol@, path) {
            before.push((path, reg.symbol@, reg.callback, reg.backup))
        } else {
            before
        }
    }
}

/// The requests for all libraries, in the order in which they are mapped.
pub open spec fn all_requests(
    maps: Seq<MapEntry>,
    regs: Seq<RegisterInfo>,
    ignores: Seq<IgnoreInfo>,
) -> Seq<(Seq<char>, Seq<char>, usize, usize)>
    decreases maps.len(),
{
    if maps.len() == 0 {
        seq![]
    } else {
        let before = all_requests(maps.drop_last(), regs, ignores);
        if is_library(maps.last()) {
            before + library_requests(maps.last().path@, regs, ignores)
        } else {
            before
        }
    }
}

/// The requests as plain values.
pub open spec fn seen(requests: Seq<HookRequest>) -> Seq<(Seq<char>, Seq<char>, usize, usize)> {
    requests.map_values(|q: HookRequest| q@)
}

fn ignored(ignores: &Vec<IgnoreInfo>, symbol: &str, path: &str) -> (r: bool)
    ensures
        r == is_ignored(ignores@, symbol@, path@),
{
    let mut i: usize = 0;
    while i < ignores.len()
        invariant
            i <= ignores@.len(),
            forall|j: int| 0 <= j < i ==> !excludes(#[trigger] ignores@[j], symbol@, path@),
        decreases ignores@.len() - i,
    {
        if is_match(&ignores[i].regex, path) {
            let same = match &ignores[i].symbol {
                Some(s) => same_text(s.as_str(), symbol),
                None => true,
            };
            if same {
                assert(excludes(ignores@[i as int], symbol@, path@));
                return true;
            }
        }
        i = i + 1;
    }
    false
}

fn push_library(
    out: &mut Vec<HookRequest>,
    path: &str,
    regs: &Vec<RegisterInfo>,
    ignores: &Vec<IgnoreInfo>,
)
    ensures
        seen(final(out)@) == seen(old(out)@) + library_requests(path@, regs@, ignores@),
{
    let mut i: usize = 0;
    let ghost before = seen(out@);
    assert(regs@.take(0).len() == 0);
    assert(before + library_requests(path@, regs@.take(0), ignores@) =~= before);
    while i < regs.len()
        invariant
            i <= regs@.len(),
            seen(out@) == before + library_requests(path@, regs@.take(i as int), ignores@),
        decreases regs@.len() - i,
    {
        let ghost upto = regs@.take(i + 1);
        assert(upto.drop_last() =~= regs@.take(i as int));
        assert(upto.last() == regs@[i as int]);
        if is_match(&regs[i].regex, path) && !ignored(ignores, regs[i].symbol.as_str(), path) {
            let request = HookRequest {
                path: String::from_str(path),
                symbol: String::from_str(regs[i].symbol.as_str()),
                callback: regs[i].callback,
                backup: regs[i].backup,
            };
            let ghost so_far = out@;
            out.push(request);
            assert(seen(out@) =~= seen(so_far).push(request@));
            assert(seen(out@) =~= before + library_requests(path@, upto, ignores@));
        }
        i = i + 1;
    }
    assert(regs@.take(i as int) =~= regs@);
}

/// What becomes of the queued hooks.
pub enum Commit {
    /// Nothing was queued, or the mappings could not be read.
    Failed,
    /// These hooks are to be installed, in this order.
    Install(Vec<HookRequest>),
}

impl HookQueue {
    /// Turns the queue into the hooks to install, given the mappings of this
    /// process, and empties it. An empty queue, or mappings that could not be
    /// read, leave it as it is.
    pub fn api_plt_hook_commit(&mut self, maps: Option<&Vec<MapEntry>>) -> (r: Commit)
        requires
            old(self).wf(),
        ensures
            final(self).wf(),
            if old(self).register_info@.len() == 0 || maps is None {
                r is Failed && *final(self) == *old(self)
            } else {
                &&& r matches Commit::Install(requests)
                &&& seen(requests@) == all_requests(
                    maps->0@,
                    old(self).register_info@,
                    old(self).ignore_info@,
                )
                &&& final(self).register_info@.len() == 0
                &&& final(self).ignore_info@.len() == 0
            },
    {
        if self.register_info.len() == 0 {
            return Commit::Failed;
        }
        let maps = match maps {
            Some(m) => m,
            None => {
                return Commit::Failed;
            },
        };
        let mut out: Vec<HookRequest> = Vec::new();
        let mut i: usize = 0;
        assert(seen(out@) =~= seq![]);
        assert(maps@.take(0).len() == 0);
        while i < maps.len()
            invariant
                i <= maps@.len(),
                *self == *old(self),
                seen(out@) == all_requests(
                    maps@.take(i as int),
                    self.register_info@,
                    self.ignore_info@,
                ),
            decreases maps@.len() - i,
        {
            let ghost upto = maps@.take(i + 1);
            assert(upto.drop_last() =~= maps@.take(i as int));
            assert(upto.last() == maps@[i as int]);
            let entry = &maps[i];
            if entry.offset == 0 && entry.is_private && entry.readable {
                push_library(&mut out, entry.path.as_str(), &self.register_info, &self.ignore_info);
            }
            i = i + 1;
        }
        assert(maps@.take(i as int) =~= maps@);
        self.register_info.clear();
        self.ignore_info.clear();
        Commit::Install(out)
    }
}

/// Whether all hooks could be installed.
pub fn all_installed(outcomes: &Vec<bool>) -> (r: bool)
    ensures
        r == !outcomes@.contains(false),
{
    let mut i: usize = 0;
    while i < outcomes.len()
        invariant
            i <= outcomes@.len(),
            forall|j: int| 0 <= j < i ==> #[trigger] outcomes@[j],
        decreases outcomes@.len() - i,
    {
        if !outcomes[i] {
            assert(outcomes@[i as int] == false);
            return false;
        }
        i = i + 1;
    }
    true
}

/// A hook is requested only in a mapped library whose path its pattern
/// matches and that no exception takes out.
pub proof fn law_requests_match(
    path: Seq<char>,
    regs: Seq<RegisterInfo>,
    ignores: Seq<IgnoreInfo>,
    i: int,
)
    requires
        0 <= i < library_requests(path, regs, ignores).len(),
    ensures
        ({
            let q = library_requests(path, regs, ignores)[i];
            &&& q.0 == path
            &&& !is_ignored(ignores, q.1, path)
            &&& exists|k: int|
                0 <= k < regs.len() && pattern_matches((#[trigger] regs[k]).regex@, path)
                    && regs[k].symbol@ == q.1 && regs[k].callback == q.2 && regs[k].backup == q.3
        }),
    decreases regs.len(),
{
    let before = library_requests(path, regs.drop_last(), ignores);
    let reg = regs.last();
    if i < before.len() {
        law_requests_match(path, regs.drop_last(), ignores, i);
        let q = before[i];
        let k = choose|k: int|
            0 <= k < regs.drop_last().len() && pattern_matches(
                (#[trigger] regs.drop_last()[k]).regex@,
                path,
            ) && regs.drop_last()[k].symbol@ == q.1 && regs.drop_last()[k].callback == q.2
                && regs.drop_last()[k].backup == q.3;
        assert(regs[k] == regs.drop_last()[k]);
    } else {
        assert(regs[regs.len() - 1] == reg);
    }
}

/// An exception for every symbol of a library leaves no request there.
pub proof fn law_full_exception_blocks(
    path: Seq<char>,
    regs: Seq<RegisterInfo>,
    ignores: Seq<IgnoreInfo>,
    k: int,
)
    requires
        0 <= k < ignores.len(),
        ignores[k].symbol is None,
        pattern_matches(ignores[k].regex@, path),
    ensures
        library_requests(path, regs, ignores).len() == 0,
    decreases regs.len(),
{
    if regs.len() > 0 {
        law_full_exception_blocks(path, regs.drop_last(), ignores, k);
        assert(excludes(ignores[k], regs.last().symbol@, path));
    }
}

/// The device number of a major and a minor part.
pub open spec fn device(major: int, minor: int) -> int {
    (major % 0x1000) * 0x100 + minor % 0x100 + (minor / 0x100) * 0x10_0000 + (major / 0x1000)
        * 0x1000_0000_0000
}

/// The device number of a major and a minor part, in 64 bits.
pub fn makedev(major: u32, minor: u32) -> (dev: u64)
    ensures
        dev == device(major as int, minor as int),
{
    let a: u64 = major as u64;
    let b: u64 = minor as u64;
    assert(((a & 0xfff) << 8) | (b & 0xff) | ((b & 0xffff_ff00) << 12) | ((a & 0xffff_f000) << 32)
        == (a % 0x1000) * 0x100 + b % 0x100 + (b / 0x100) * 0x10_0000 + (a / 0x1000)
        * 0x1000_0000_0000) by (bit_vector)
        requires
            a <= 0xffff_ffff,
            b <= 0xffff_ffff,
    ;
    ((a & 0xfff) << 8) | (b & 0xff) | ((b & 0xffff_ff00) << 12) | ((a & 0xffff_f000) << 32)
}

/// Different devices have different numbers.
pub proof fn law_devices_are_distinct(a: u32, b: u32, c: u32, d: u32)
    requires
        device(a as int, b as int) == device(c as int, d as int),
    ensures
        a == c,
        b == d,
{
    let (ah, al) = (a as int / 0x1000, a as int % 0x1000);
    let (ch, cl) = (c as int / 0x1000, c as int % 0x1000);
    let (bh, bl) = (b as int / 0x100, b as int % 0x100);
    let (dh, dl) = (d as int / 0x100, d as int % 0x100);
    assert(0 <= bh < 0x100_0000 && 0 <= dh < 0x100_0000);
    assert(0 <= ah < 0x10_0000 && 0 <= ch < 0x10_0000);
    assert(bl == dl);
    assert(al == cl);
    assert(bh == dh);
    assert(ah == ch);
}

/// The part of a number that a word of 64 or of 32 bits holds.
pub open spec fn held_bits(v: u64, wide: bool) -> u64 {
    if wide {
        v
    } else {
        v % 0x1_0000_0000
    }
}

fn keep_bits(v: u64, wide: bool) -> (r: u64)
    ensures
        r == held_bits(v, wide),
{
    if wide {
        v
    } else {
        v % 0x1_0000_0000
    }
}

/// A mapping belongs to a device and inode; on a machine that is not `wide`
/// both are 32-bit numbers.
pub open spec fn belongs_to(map: MapEntry, dev: u64, ino: u64, wide: bool) -> bool {
    &&& held_bits(device(map.dev_major as int, map.dev_minor as int) as u64, wide) == dev
    &&& held_bits(map.inode, wide) == ino
}

/// No mapping belongs to a device and inode.
pub open spec fn none_belongs(maps: Seq<MapEntry>, dev: u64, ino: u64, wide: bool) -> bool {
    forall|j: int| 0 <= j < maps.len() ==> !belongs_to(#[trigger] maps[j], dev, ino, wide)
}

/// The first mapping of a device and inode.
pub fn find_library(maps: &Vec<MapEntry>, dev: u64, ino: u64, wide: bool) -> (r: Option<usize>)
    ensures
        match r {
            Some(i) => {
                &&& i < maps@.len()
                &&& belongs_to(maps@[i as int], dev, ino, wide)
                &&& forall|j: int| 0 <= j < i ==> !belongs_to(#[trigger] maps@[j], dev, ino, wide)
            },
            None => forall|j: int|
                0 <= j < maps@.len() ==> !belongs_to(#[trigger] maps@[j], dev, ino, wide),
        },
{
    let mut i: usize = 0;
    while i < maps.len()
        invariant
            i <= maps@.len(),
            forall|j: int| 0 <= j < i ==> !belongs_to(#[trigger] maps@[j], dev, ino, wide),
        decreases maps@.len() - i,
    {
        let number: u64 = makedev(maps[i].dev_major, maps[i].dev_minor);
        if keep_bits(number, wide) == dev && keep_bits(maps[i].inode, wide) == ino {
            return Some(i);
        }
        i = i + 1;
    }
    None
}

/// The hooks that modules queued by device and inode.
pub struct PltHookList {
    /// The hooks.
    pub entries: Vec<HookRequest>,
}

impl PltHookList {
    /// An empty list.
    pub fn new() -> (l: Self)
        ensures
            l.entries@.len() == 0,
    {
        PltHookList { entries: Vec::new() }
    }

    /// The start and the path of the library that a hook by device and inode
    /// is for; the library is then to be made known. Without a replacement, or
    /// where no mapping belongs to the file, there is none.
    pub fn api_plt_hook_register_v4(
        maps: &Vec<MapEntry>,
        dev: u64,
        ino: u64,
        wide: bool,
        callback: usize,
    ) -> (r: Option<(usize, String)>)
        ensures
            match r {
                Some((start, path)) => callback != 0 && exists|i: int|
                    {
                        &&& 0 <= i < maps@.len()
                        &&& belongs_to(#[trigger] maps@[i], dev, ino, wide)
                        &&& forall|j: int|
                            0 <= j < i ==> !belongs_to(#[trigger] maps@[j], dev, ino, wide)
                        &&& start == maps@[i].start
                        &&& path@ == maps@[i].path@
                    },
                None => callback == 0 || forall|j: int|
                    0 <= j < maps@.len() ==> !belongs_to(#[trigger] maps@[j], dev, ino, wide),
            },
            r is None ==> callback == 0 || none_belongs(maps@, dev, ino, wide),
            r is Some ==> exists|i: int|
                0 <= i < maps@.len() && #[trigger] none_belongs(maps@.take(i), dev, ino, wide)
                    && belongs_to(maps@[i], dev, ino, wide) && (r->0).0 == maps@[i].start && (
                r->0).1@ == maps@[i].path@,
    {
        if callback == 0 {
            return None;
        }
        match find_library(maps, dev, ino, wide) {
            Some(i) => {
                let path = String::from_str(maps[i].path.as_str());
                assert(belongs_to(maps@[i as int], dev, ino, wide));
                assert(none_belongs(maps@.take(i as int), dev, ino, wide));
                Some((maps[i].start, path))
            },
            None => None,
        }
    }

    /// Queues a hook in a library that has been made known.
    pub fn library_added(
        &mut self,
        added: bool,
        path: String,
        symbol: &str,
        callback: usize,
        backup: usize,
    )
        ensures
            seen(final(self).entries@) == if added {
                seen(old(self).entries@).push((path@, symbol@, callback, backup))
            } else {
                seen(old(self).entries@)
            },
    {
        if added {
            let ghost before = self.entries@;
            let request = HookRequest { path, symbol: String::from_str(symbol), callback, backup };
            self.entries.push(request);
            assert(seen(self.entries@) =~= seen(before).push(request@));
        }
    }

    /// The hooks to install, in the order in which they were queued; the list
    /// is empty afterwards.
    pub fn api_plt_hook_commit_v4(&mut self) -> (r: Vec<HookRequest>)
        ensures
            r@ == old(self).entries@,
            final(self).entries@.len() == 0,
    {
        let mut taken: Vec<HookRequest> = Vec::new();
        taken.append(&mut self.entries);
        assert(taken@ =~= old(self).entries@);
        taken
    }
}

/// A hook that is to be in a library, given the exceptions: its pattern matches
/// the library's path, and no exception whose pattern matches speaks of its
/// symbol or of all symbols.
pub open spec fn wants(reg: RegisterInfo, ignores: Seq<IgnoreInfo>, path: Seq<char>) -> bool {
    &&& pattern_matches(reg.regex@, path)
    &&& forall|i: int|
        0 <= i < ignores.len() && pattern_matches((#[trigger] ignores[i]).regex@, path)
            ==> ignores[i].symbol is Some && ignores[i].symbol->0@ != reg.symbol@
}

proof fn lemma_wants(reg: RegisterInfo, ignores: Seq<IgnoreInfo>, path: Seq<char>)
    ensures
        wants(reg, ignores, path) == (pattern_matches(reg.regex@, path) && !is_ignored(
            ignores,
            reg.symbol@,
            path,
        )),
{
    if wants(reg, ignores, path) && is_ignored(ignores, reg.symbol@, path) {
        let i = choose|i: int|
            0 <= i < ignores.len() && excludes(#[trigger] ignores[i], reg.symbol@, path);
        assert(pattern_matches(ignores[i].regex@, path));
    }
    if pattern_matches(reg.regex@, path) && !is_ignored(ignores, reg.symbol@, path) {
        assert forall|i: int|
            0 <= i < ignores.len() && pattern_matches(
                (#[trigger] ignores[i]).regex@,
                path,
            ) implies ignores[i].symbol is Some && ignores[i].symbol->0@ != reg.symbol@ by {
            assert(!excludes(ignores[i], reg.symbol@, path));
        }
    }
}

/// In one library, the requests are the wanted hooks, all of them and in the
/// order in which they were queued.
pub proof fn law_library_gets_every_wanted_hook(
    path: Seq<char>,
    regs: Seq<RegisterInfo>,
    ignores: Seq<IgnoreInfo>,
)
    ensures
        library_requests(path, regs, ignores) == regs.filter(
            |reg: RegisterInfo| wants(reg, ignores, path),
        ).map_values(|reg: RegisterInfo| (path, reg.symbol@, reg.callback, reg.backup)),
    decreases regs.len(),
{
    reveal(Seq::filter);
    if regs.len() > 0 {
        law_library_gets_every_wanted_hook(path, regs.drop_last(), ignores);
        lemma_wants(regs.last(), ignores, path);
    }
    assert(library_requests(path, regs, ignores) =~= regs.filter(
        |reg: RegisterInfo| wants(reg, ignores, path),
    ).map_values(|reg: RegisterInfo| (path, reg.symbol@, reg.callback, reg.backup)));
}

/// What is requested in some mappings does not depend on those before them or
/// behind them: the requests for two lists of mappings are those for the one,
/// then those for the other.
pub proof fn law_mappings_do_not_interfere(
    a: Seq<MapEntry>,
    b: Seq<MapEntry>,
    regs: Seq<RegisterInfo>,
    ignores: Seq<IgnoreInfo>,
)
    ensures
        all_requests(a + b, regs, ignores) == all_requests(a, regs, ignores) + all_requests(
            b,
            regs,
            ignores,
        ),
    decreases b.len(),
{
    if b.len() == 0 {
        assert(a + b =~= a);
        assert(all_requests(a, regs, ignores) + all_requests(b, regs, ignores) =~= all_requests(
            a,
            regs,
            ignores,
        ));
    } else {
        assert((a + b).drop_last() =~= a + b.drop_last());
        law_mappings_do_not_interfere(a, b.drop_last(), regs, ignores);
        assert(all_requests(a + b, regs, ignores) =~= all_requests(a, regs, ignores)
            + all_requests(b, regs, ignores));
    }
}

/// A mapping is hooked exactly where it is the private, readable start of a
/// file, and then with all that is wanted in that library.
pub proof fn law_one_mapping_is_one_library(
    map: MapEntry,
    regs: Seq<RegisterInfo>,
    ignores: Seq<IgnoreInfo>,
)
    ensures
        all_requests(seq![map], regs, ignores) == if map.offset == 0 && map.is_private
            && map.readable {
            library_requests(map.path@, regs, ignores)
        } else {
            seq![]
        },
{
    let one = seq![map];
    assert(one.drop_last() =~= seq![]);
    assert(all_requests(one.drop_last(), regs, ignores) =~= seq![]);
    assert(all_requests(one, regs, ignores) =~= if map.offset == 0 && map.is_private
        && map.readable {
        library_requests(map.path@, regs, ignores)
    } else {
        seq![]
    });
}

/// No library is left out: a wanted hook is requested in every mapped library
/// that it is for, whatever else is mapped or requested.
pub proof fn law_every_library_is_hooked(
    maps: Seq<MapEntry>,
    regs: Seq<RegisterInfo>,
    ignores: Seq<IgnoreInfo>,
    k: int,
    j: int,
)
    requires
        0 <= k < maps.len(),
        maps[k].offset == 0,
        maps[k].is_private,
        maps[k].readable,
        0 <= j < regs.len(),
        wants(regs[j], ignores, maps[k].path@),
    ensures
        all_requests(maps, regs, ignores).contains(
            (maps[k].path@, regs[j].symbol@, regs[j].callback, regs[j].backup),
        ),
{
    let path = maps[k].path@;
    let q = (path, regs[j].symbol@, regs[j].callback, regs[j].backup);
    lemma_library_requests_contain(path, regs, ignores, j);
    let here = library_requests(path, regs, ignores);
    let at = choose|at: int| 0 <= at < here.len() && here[at] == q;
    let before = maps.take(k);
    let behind = maps.skip(k + 1);
    assert(maps =~= before + (seq![maps[k]] + behind));
    law_mappings_do_not_interfere(before, seq![maps[k]] + behind, regs, ignores);
    law_mappings_do_not_interfere(seq![maps[k]], behind, regs, ignores);
    law_one_mapping_is_one_library(maps[k], regs, ignores);
    assert(all_requests(maps, regs, ignores)[all_requests(before, regs, ignores).len() + at] == q);
}

proof fn lemma_library_requests_contain(
    path: Seq<char>,
    regs: Seq<RegisterInfo>,
    ignores: Seq<IgnoreInfo>,
    j: int,
)
    requires
        0 <= j < regs.len(),
        wants(regs[j], ignores, path),
    ensures
        library_requests(path, regs, ignores).contains(
            (path, regs[j].symbol@, regs[j].callback, regs[j].backup),
        ),
    decreases regs.len(),
{
    let q = (path, regs[j].symbol@, regs[j].callback, regs[j].backup);
    let rest = regs.drop_last();
    let before = library_requests(path, rest, ignores);
    let all = library_requests(path, regs, ignores);
    lemma_wants(regs[j], ignores, path);
    if j < rest.len() {
        assert(rest[j] == regs[j]);
        lemma_library_requests_contain(path, rest, ignores, j);
        let i = choose|i: int| 0 <= i < before.len() && before[i] == q;
        assert(all[i] == q);
    } else {
        assert(all[before.len() as int] == q);
    }
}

/// A commit installs every wanted hook in every mapped library, and leaves
/// nothing in the queue; without hooks, or without the mappings, it fails and
/// leaves the queue as it is.
pub proof fn law_commit_leaves_no_library_out(
    queue: &mut HookQueue,
    maps: &Vec<MapEntry>,
    r: Commit,
    k: int,
    j: int,
)
    requires
        call_ensures(HookQueue::api_plt_hook_commit, (queue, Some(maps)), r),
        0 <= k < maps@.len(),
        maps@[k].offset == 0,
        maps@[k].is_private,
        maps@[k].readable,
        0 <= j < old(queue).register_info@.len(),
        wants(old(queue).register_info@[j], old(queue).ignore_info@, maps@[k].path@),
    ensures
        r is Install,
        ({
            let reg = old(queue).register_info@[j];
            seen(r->Install_0@).contains((maps@[k].path@, reg.symbol@, reg.callback, reg.backup))
        }),
        final(queue).register_info@.len() == 0,
        final(queue).ignore_info@.len() == 0,
{
    law_every_library_is_hooked(
        maps@,
        old(queue).register_info@,
        old(queue).ignore_info@,
        k,
        j,
    );
}

/// A commit fails exactly where nothing is queued or the mappings could not be
/// read, and then changes nothing.
pub proof fn law_failed_commit_changes_nothing(
    queue: &mut HookQueue,
    maps: Option<&Vec<MapEntry>>,
    r: Commit,
)
    requires
        call_ensures(HookQueue::api_plt_hook_commit, (queue, maps), r),
    ensures
        r is Failed <==> maps is None || old(queue).register_info@.len() == 0,
        r is Failed ==> *final(queue) == *old(queue),
{
}

/// A hook that is queued and then committed is installed in every library that
/// its pattern matches, where no exception was queued.
pub proof fn law_queued_hook_is_installed(
    before: &mut HookQueue,
    regex: &str,
    symbol: &str,
    callback: usize,
    backup: usize,
    after: &mut HookQueue,
    maps: &Vec<MapEntry>,
    r: Commit,
    k: int,
)
    requires
        call_ensures(
            HookQueue::api_plt_hook_register,
            (before, regex, symbol, callback, backup),
            (),
        ),
        callback != 0,
        old(before).register_info@.len() < 64,
        old(before).ignore_info@.len() == 0,
        pattern_compiles(regex@, usize::BITS as nat),
        *old(after) == *final(before),
        call_ensures(HookQueue::api_plt_hook_commit, (after, Some(maps)), r),
        0 <= k < maps@.len(),
        maps@[k].offset == 0,
        maps@[k].is_private,
        maps@[k].readable,
        pattern_matches(regex@, maps@[k].path@),
    ensures
        r is Install,
        seen(r->Install_0@).contains((maps@[k].path@, symbol@, callback, backup)),
{
    let j = old(after).register_info@.len() - 1;
    assert(old(after).register_info@[j].symbol@ == symbol@);
    assert(wants(old(after).register_info@[j], old(after).ignore_info@, maps@[k].path@));
    law_every_library_is_hooked(
        maps@,
        old(after).register_info@,
        old(after).ignore_info@,
        k,
        j,
    );
}

/// A hook without a replacement, or behind the limit, is not queued, and those
/// that are queued stay.
pub proof fn law_queue_keeps_what_it_has(
    queue: &mut HookQueue,
    regex: &str,
    symbol: &str,
    callback: usize,
    backup: usize,
)
    requires
        old(queue).wf(),
        call_ensures(
            HookQueue::api_plt_hook_register,
            (queue, regex, symbol, callback, backup),
            (),
        ),
    ensures
        callback == 0 || old(queue).register_info@.len() >= 64 ==> final(queue).register_info@
            == old(queue).register_info@,
        final(queue).register_info@.len() <= 64,
        old(queue).register_info@.is_prefix_of(final(queue).register_info@),
        final(queue).ignore_info@ == old(queue).ignore_info@,
{
}

/// An exception for every symbol that is queued and then committed leaves no
/// hook in the libraries that its pattern matches.
pub proof fn law_queued_exception_holds(
    before: &mut HookQueue,
    regex: &str,
    after: &mut HookQueue,
    maps: &Vec<MapEntry>,
    r: Commit,
    path: Seq<char>,
    i: int,
)
    requires
        call_ensures(HookQueue::api_plt_hook_exclude, (before, regex, None), ()),
        old(before).ignore_info@.len() < 64,
        pattern_compiles(regex@, usize::BITS as nat),
        *old(after) == *final(before),
        call_ensures(HookQueue::api_plt_hook_commit, (after, Some(maps)), r),
        r is Install,
        0 <= i < r->Install_0@.len(),
    ensures
        !pattern_matches(regex@, r->Install_0@[i].path@),
{
    let k = old(after).ignore_info@.len() - 1;
    let ign = old(after).ignore_info@[k];
    assert(ign.regex@ == regex@ && ign.symbol is None);
    assert(seen(r->Install_0@)[i] == r->Install_0@[i]@);
    lemma_request_has_its_library(
        maps@,
        old(after).register_info@,
        old(after).ignore_info@,
        i,
    );
    let q = seen(r->Install_0@)[i];
    if pattern_matches(regex@, q.0) {
        law_full_exception_blocks(q.0, old(after).register_info@, old(after).ignore_info@, k);
    }
}

proof fn lemma_request_has_its_library(
    maps: Seq<MapEntry>,
    regs: Seq<RegisterInfo>,
    ignores: Seq<IgnoreInfo>,
    i: int,
)
    requires
        0 <= i < all_requests(maps, regs, ignores).len(),
    ensures
        library_requests(all_requests(maps, regs, ignores)[i].0, regs, ignores).len() > 0,
    decreases maps.len(),
{
    if maps.len() > 0 {
        let before = all_requests(maps.drop_last(), regs, ignores);
        if i < before.len() {
            lemma_request_has_its_library(maps.drop_last(), regs, ignores, i);
        } else {
            law_requests_match(maps.last().path@, regs, ignores, i - before.len());
        }
    }
}

/// A hook by device and inode is for the first mapping of that file: its start
/// and its path are those of a mapping of the device, with the inode, that has
/// no such mapping before it.
pub proof fn law_library_is_found_by_its_file(
    maps: &Vec<MapEntry>,
    major: u32,
    minor: u32,
    dev: u64,
    ino: u64,
    callback: usize,
    r: Option<(usize, String)>,
)
    requires
        call_ensures(makedev, (major, minor), dev),
        call_ensures(PltHookList::api_plt_hook_register_v4, (maps, dev, ino, true, callback), r),
    ensures
        r is Some ==> callback != 0 && exists|i: int|
            {
                &&& 0 <= i < maps@.len()
                &&& #[trigger] maps@[i].dev_major == major
                &&& maps@[i].dev_minor == minor
                &&& maps@[i].inode == ino
                &&& maps@[i].start == (r->0).0
                &&& maps@[i].path@ == (r->0).1@
                &&& forall|j: int|
                    0 <= j < i ==> #[trigger] maps@[j].dev_major != major || maps@[j].dev_minor
                        != minor || maps@[j].inode != ino
            },
        r is None && callback != 0 ==> forall|j: int|
            0 <= j < maps@.len() ==> #[trigger] maps@[j].dev_major != major || maps@[j].dev_minor
                != minor || maps@[j].inode != ino,
{
    assert forall|j: int| 0 <= j < maps@.len() implies belongs_to(
        #[trigger] maps@[j],
        dev,
        ino,
        true,
    ) == (maps@[j].dev_major == major && maps@[j].dev_minor == minor && maps@[j].inode == ino) by {
        lemma_belongs(maps@[j], major, minor, dev, ino);
    }
    if r is Some {
        let i = choose|i: int|
            0 <= i < maps@.len() && #[trigger] none_belongs(maps@.take(i), dev, ino, true)
                && belongs_to(maps@[i], dev, ino, true) && (r->0).0 == maps@[i].start && (
            r->0).1@ == maps@[i].path@;
        assert(maps@[i].dev_major == major);
        assert forall|j: int| 0 <= j < i implies #[trigger] maps@[j].dev_major != major
            || maps@[j].dev_minor != minor || maps@[j].inode != ino by {
            assert(maps@.take(i)[j] == maps@[j]);
            assert(!belongs_to(maps@.take(i)[j], dev, ino, true));
        }
    } else if callback != 0 {
        assert(none_belongs(maps@, dev, ino, true));
    }
}

proof fn lemma_belongs(map: MapEntry, major: u32, minor: u32, dev: u64, ino: u64)
    requires
        dev == device(major as int, minor as int),
    ensures
        belongs_to(map, dev, ino, true) == (map.dev_major == major && map.dev_minor == minor
            && map.inode == ino),
{
    assert(0 <= device(map.dev_major as int, map.dev_minor as int) <= u64::MAX);
    if device(map.dev_major as int, map.dev_minor as int) == dev {
        law_devices_are_distinct(map.dev_major, map.dev_minor, major, minor);
    }
}

/// On a machine with words of 32 bits the lower halves of the numbers count.
pub proof fn law_narrow_numbers_are_cut(map: MapEntry, dev: u64, ino: u64)
    ensures
        belongs_to(map, dev, ino, false) ==> map.inode % 0x1_0000_0000 == ino && dev
            < 0x1_0000_0000 && ino < 0x1_0000_0000,
        belongs_to(map, dev, ino, true) ==> belongs_to(
            map,
            (dev % 0x1_0000_0000) as u64,
            (ino % 0x1_0000_0000) as u64,
            false,
        ),
{
}

/// A hook in a library that was made known is queued last, and the next commit
/// hands out all that are queued, once.
pub proof fn law_list_is_handed_out_once(
    a: &mut PltHookList,
    path: String,
    symbol: &str,
    callback: usize,
    backup: usize,
    b: &mut PltHookList,
    first: Vec<HookRequest>,
    c: &mut PltHookList,
    second: Vec<HookRequest>,
)
    requires
        call_ensures(PltHookList::library_added, (a, true, path, symbol, callback, backup), ()),
        *old(b) == *final(a),
        call_ensures(PltHookList::api_plt_hook_commit_v4, (b,), first),
        *old(c) == *final(b),
        call_ensures(PltHookList::api_plt_hook_commit_v4, (c,), second),
    ensures
        first@.len() == old(a).entries@.len() + 1,
        first@.last().path@ == path@,
        first@.last().symbol@ == symbol@,
        first@.last().callback == callback,
        first@.last().backup == backup,
        second@.len() == 0,
{
    let n = old(a).entries@.len() as int;
    assert(seen(final(a).entries@).len() == final(a).entries@.len());
    assert(seen(old(a).entries@).len() == n);
    assert(seen(final(a).entries@)[n] == final(a).entries@[n]@);
}

/// A library that could not be made known gets no hook.
pub proof fn law_unknown_library_gets_no_hook(
    list: &mut PltHookList,
    path: String,
    symbol: &str,
    callback: usize,
    backup: usize,
)
    requires
        call_ensures(
            PltHookList::library_added,
            (list, false, path, symbol, callback, backup),
            (),
        ),
    ensures
        final(list).entries@.len() == old(list).entries@.len(),
        forall|i: int|
            0 <= i < old(list).entries@.len() ==> (#[trigger] final(list).entries@[i])@ == old(
                list,
            ).entries@[i]@,
{
    assert(seen(final(list).entries@).len() == final(list).entries@.len());
    assert(seen(old(list).entries@).len() == old(list).entries@.len());
    assert forall|i: int| 0 <= i < old(list).entries@.len() implies (
    #[trigger] final(list).entries@[i])@ == old(list).entries@[i]@ by {
        assert(seen(final(list).entries@)[i] == seen(old(list).entries@)[i]);
    }
}

/// One failure is enough for the whole not to be installed.
pub proof fn law_each_hook_counts(outcomes: &Vec<bool>, r: bool)
    requires
        call_ensures(all_installed, (outcomes,), r),
    ensures
        r <==> forall|i: int| 0 <= i < outcomes@.len() ==> #[trigger] outcomes@[i],
{
    if r {
        assert forall|i: int| 0 <= i < outcomes@.len() implies #[trigger] outcomes@[i] by {
            assert(outcomes@.contains(outcomes@[i]));
        }
    }
}

} // verus!
