//! Registers of a traced process, by architecture, and how a function call or
//! a system call is laid into them.
use vstd::prelude::*;

pub mod aarch64;
pub mod arm;
pub mod x86;
pub mod x86_64;

verus! {

/// Failures to exchange registers with a traced process.
#[derive(Clone, Copy, Debug, PartialEq, Eq, Structural)]
pub enum RegsError {
    GetRegsFailed,
    SetRegsFailed,
}

/// The outcome of reading a process's registers, from whether the call that
/// reads a register set and the older call succeeded. The older one is only
/// tried, and only exists, where `fallback` is given.
pub fn try_get_regs(first_ok: bool, fallback: Option<bool>) -> (r: Result<(), RegsError>)
    ensures
        r is Ok <==> first_ok || fallback == Some(true),
        r is Err ==> r->Err_0 == RegsError::GetRegsFailed,
{
    if first_ok {
        return Ok(());
    }
    match fallback {
        Some(true) => Ok(()),
        _ => Err(RegsError::GetRegsFailed),
    }
}

/// The outcome of writing a process's registers.
pub fn try_set_regs(first_ok: bool, fallback: Option<bool>) -> (r: Result<(), RegsError>)
    ensures
        r is Ok <==> first_ok || fallback == Some(true),
        r is Err ==> r->Err_0 == RegsError::SetRegsFailed,
{
    if first_ok {
        return Ok(());
    }
    match fallback {
        Some(true) => Ok(()),
        _ => Err(RegsError::SetRegsFailed),
    }
}

/// Whether reading a process's registers succeeded.
pub fn get_regs(first_ok: bool, fallback: Option<bool>) -> (r: bool)
    ensures
        r == (first_ok || fallback == Some(true)),
{
    try_get_regs(first_ok, fallback).is_ok()
}

/// Whether writing a process's registers succeeded.
pub fn set_regs(first_ok: bool, fallback: Option<bool>) -> (r: bool)
    ensures
        r == (first_ok || fallback == Some(true)),
{
    try_set_regs(first_ok, fallback).is_ok()
}

/// Bytes to be written into the memory of a traced process.
#[derive(Debug)]
pub struct RemoteWrite {
    pub addr: u64,
    pub bytes: Vec<u8>,
}

/// A write is to this place with these bytes.
pub open spec fn writes_to(w: RemoteWrite, addr: u64, bytes: Seq<u8>) -> bool {
    w.addr == addr && w.bytes@ == bytes
}

/// Two to the 32nd and to the 64th power.
pub open spec fn word32() -> int {
    0x1_0000_0000
}

pub open spec fn word64() -> int {
    0x1_0000_0000_0000_0000
}

/// A stack pointer lowered by `preserve` and then to a multiple of 16, in
/// machine words of the given range.
pub open spec fn aligned(sp: int, preserve: int, range: int) -> int {
    ((sp - preserve) / 16 * 16) % range
}

/// A signed word seen as an unsigned one.
pub open spec fn as_word(v: int, range: int) -> int {
    v % range
}

/// Lowering to a multiple of 16 in a higher part of the number line gives the
/// same machine word.
proof fn lemma_aligned_above(d: int, above: int, range: int)
    requires
        range > 0,
        (range * above) % 16 == 0,
    ensures
        ((d + range * above) / 16 * 16) % range == (d / 16 * 16) % range,
{
    let k = range * above;
    let z = d / 16 * 16;
    assert((d + k) / 16 * 16 == z + k);
    vstd::arithmetic::div_mod::lemma_mod_multiples_vanish(above, z, range);
}

/// A lowered stack pointer is a multiple of 16.
proof fn lemma_aligned(sp: int, preserve: int, range: int)
    requires
        range > 0,
        range % 16 == 0,
    ensures
        aligned(sp, preserve, range) % 16 == 0,
        0 <= aligned(sp, preserve, range) < range,
{
    let z = (sp - preserve) / 16 * 16;
    vstd::arithmetic::div_mod::lemma_mod_mod(z, 16, range / 16);
}

fn aligned64(sp: u64, preserve: i128) -> (r: u64)
    requires
        -0x8000_0000_0000_0000_0000 <= preserve <= 0x8000_0000_0000_0000_0000,
    ensures
        r == aligned(sp as int, preserve as int, word64()),
{
    let x: i128 = sp as i128 - preserve + 0x1_0000_0000_0000_0000_0000;
    let y: u128 = (x as u128) / 16 * 16;
    proof {
        assert(word64() * 0x1_0000 == 0x1_0000_0000_0000_0000_0000);
        lemma_aligned_above(sp as int - preserve as int, 0x1_0000, word64());
    }
    (y % 0x1_0000_0000_0000_0000) as u64
}

fn aligned32(sp: u32, preserve: i128) -> (r: u32)
    requires
        -0x8000_0000_0000_0000_0000 <= preserve <= 0x8000_0000_0000_0000_0000,
    ensures
        r == aligned(sp as int, preserve as int, word32()),
{
    let x: i128 = sp as i128 - preserve + 0x1_0000_0000_0000_0000_0000;
    let y: u128 = (x as u128) / 16 * 16;
    proof {
        assert(word32() * 0x1_0000_0000_0000 == 0x1_0000_0000_0000_0000_0000);
        lemma_aligned_above(sp as int - preserve as int, 0x1_0000_0000_0000, word32());
    }
    (y % 0x1_0000_0000) as u32
}

fn word_of(v: i64) -> (r: u64)
    ensures
        r == as_word(v as int, word64()),
{
    if v < 0 {
        (v as i128 + 0x1_0000_0000_0000_0000) as u64
    } else {
        v as u64
    }
}

fn half_of(v: i64) -> (r: u32)
    ensures
        r == as_word(v as int, word32()),
{
    ((v as i128 + 0x1_0000_0000_0000_0000) as u128 % 0x1_0000_0000) as u32
}

fn low_half(v: u64) -> (r: u32)
    ensures
        r == as_word(v as int, word32()),
{
    (v % 0x1_0000_0000) as u32
}

/// The `n` low bytes of a number, least significant first.
pub open spec fn le_bytes(v: int, n: nat) -> Seq<u8>
    decreases n,
{
    if n == 0 {
        seq![]
    } else {
        seq![(v % 256) as u8] + le_bytes(v / 256, (n - 1) as nat)
    }
}

/// The words of a list in memory, each of `width` bytes.
pub open spec fn words_bytes(words: Seq<i64>, width: nat, range: int) -> Seq<u8>
    decreases words.len(),
{
    if words.len() == 0 {
        seq![]
    } else {
        words_bytes(words.drop_last(), width, range) + le_bytes(
            as_word(words.last() as int, range),
            width,
        )
    }
}

fn push_le(out: &mut Vec<u8>, v: u64, n: usize)
    ensures
        final(out)@ == old(out)@ + le_bytes(v as int, n as nat),
    decreases n,
{
    if n > 0 {
        out.push((v % 256) as u8);
        let ghost mid = out@;
        push_le(out, v / 256, n - 1);
        assert(out@ =~= old(out)@ + le_bytes(v as int, n as nat));
    } else {
        assert(out@ =~= old(out)@ + le_bytes(v as int, 0));
    }
}

fn words64(args: &[i64], from: usize) -> (out: Vec<u8>)
    requires
        from <= args@.len(),
    ensures
        out@ == words_bytes(args@.skip(from as int), 8, word64()),
{
    let mut out: Vec<u8> = Vec::new();
    let mut i: usize = from;
    assert(args@.skip(from as int).take(0) =~= Seq::<i64>::empty());
    while i < args.len()
        invariant
            from <= i <= args@.len(),
            out@ == words_bytes(args@.skip(from as int).take(i - from), 8, word64()),
        decreases args@.len() - i,
    {
        assert(args@.skip(from as int).take(i + 1 - from).drop_last() =~= args@.skip(
            from as int,
        ).take(i - from));
        push_le(&mut out, word_of(args[i]), 8);
        i = i + 1;
    }
    assert(args@.skip(from as int).take(i - from) =~= args@.skip(from as int));
    out
}

fn words32(args: &[i64], from: usize) -> (out: Vec<u8>)
    requires
        from <= args@.len(),
    ensures
        out@ == words_bytes(args@.skip(from as int), 4, word32()),
{
    let mut out: Vec<u8> = Vec::new();
    let mut i: usize = from;
    assert(args@.skip(from as int).take(0) =~= Seq::<i64>::empty());
    while i < args.len()
        invariant
            from <= i <= args@.len(),
            out@ == words_bytes(args@.skip(from as int).take(i - from), 4, word32()),
        decreases args@.len() - i,
    {
        assert(args@.skip(from as int).take(i + 1 - from).drop_last() =~= args@.skip(
            from as int,
        ).take(i - from));
        push_le(&mut out, half_of(args[i]) as u64, 4);
        i = i + 1;
    }
    assert(args@.skip(from as int).take(i - from) =~= args@.skip(from as int));
    out
}

/// The argument `i`, or what the register held.
pub open spec fn arg_or(args: Seq<i64>, i: int, held: int, range: int) -> int {
    if i < args.len() {
        as_word(args[i] as int, range)
    } else {
        held
    }
}

fn pick64(args: &[i64], i: usize, held: u64) -> (r: u64)
    ensures
        r == arg_or(args@, i as int, held as int, word64()),
{
    if i < args.len() {
        word_of(args[i])
    } else {
        held
    }
}

fn pick32(args: &[i64], i: usize, held: u32) -> (r: u32)
    ensures
        r == arg_or(args@, i as int, held as int, word32()),
{
    if i < args.len() {
        half_of(args[i])
    } else {
        held
    }
}

/// A number that is written reads back as itself.
pub proof fn law_written_number_reads_back(v: int)
    ensures
        le_bytes(v, 4).len() == 4,
        le_bytes(v, 8).len() == 8,
        0 <= v < 0x1_0000_0000 ==> crate::elf::le32(le_bytes(v, 4), 0) == v,
        0 <= v < 0x1_0000_0000_0000_0000 ==> crate::elf::le64(le_bytes(v, 8), 0) == v,
{
    reveal_with_fuel(le_bytes, 9);
    let b = le_bytes(v, 8);
    let c = le_bytes(v, 4);
    assert(b[0] == v % 256 && b[1] == v / 256 % 256 && b[2] == v / 256 / 256 % 256 && b[3] == v
        / 256 / 256 / 256 % 256);
    assert(b[4] == v / 256 / 256 / 256 / 256 % 256 && b[5] == v / 256 / 256 / 256 / 256 / 256
        % 256 && b[6] == v / 256 / 256 / 256 / 256 / 256 / 256 % 256 && b[7] == v / 256 / 256 / 256
        / 256 / 256 / 256 / 256 % 256);
    assert(c[0] == v % 256 && c[1] == v / 256 % 256 && c[2] == v / 256 / 256 % 256 && c[3] == v
        / 256 / 256 / 256 % 256);
}

/// The words of a list stand one behind the other, each in its own bytes.
pub proof fn law_words_stand_in_order(words: Seq<i64>, width: nat, range: int, i: int)
    requires
        width == 4 || width == 8,
        0 <= i < words.len(),
    ensures
        words_bytes(words, width, range).len() == words.len() * width,
        words_bytes(words, width, range).subrange(i * width, i * width + width) == le_bytes(
            words[i] as int % range,
            width,
        ),
    decreases words.len(),
{
    let rest = words.drop_last();
    let before = words_bytes(rest, width, range);
    let last = le_bytes(as_word(words.last() as int, range), width);
    law_written_number_reads_back(as_word(words.last() as int, range));
    assert(words.len() * width == rest.len() * width + width) by (nonlinear_arith)
        requires
            words.len() == rest.len() + 1,
    ;
    if rest.len() > 0 {
        law_words_stand_in_order(rest, width, range, if i < rest.len() {
            i
        } else {
            0
        });
    } else {
        assert(rest.len() * width == 0) by (nonlinear_arith)
            requires
                rest.len() == 0,
        ;
    }
    if i < rest.len() {
        assert(i * width + width <= rest.len() * width) by (nonlinear_arith)
            requires
                i + 1 <= rest.len(),
        ;
        assert(i * width >= 0) by (nonlinear_arith)
            requires
                i >= 0,
        ;
        assert(words_bytes(words, width, range).subrange(i * width, i * width + width)
            =~= before.subrange(i * width, i * width + width));
    } else {
        assert(words_bytes(words, width, range).subrange(i * width, i * width + width) =~= last);
    }
}

/// A lowered stack pointer makes room for what was asked for, and wastes less
/// than sixteen bytes on being a multiple of 16.
pub proof fn law_lowered_stack_has_room(sp: int, preserve: int, range: int)
    requires
        range > 0,
        0 <= sp < range,
        0 <= preserve,
        preserve + 16 <= sp,
    ensures
        aligned(sp, preserve, range) % 16 == 0,
        sp - preserve - 16 < aligned(sp, preserve, range) <= sp - preserve,
{
    let z = (sp - preserve) / 16 * 16;
    assert(0 <= z < range);
    assert(z % range == z) by (nonlinear_arith)
        requires
            0 <= z < range,
    ;
}

/// A register holds its argument, as the machine word that it is, or keeps what
/// it held where there is none.
pub proof fn law_arguments_are_words(args: Seq<i64>, i: int, held: int)
    requires
        0 <= i,
    ensures
        i >= args.len() ==> arg_or(args, i, held, word64()) == held,
        i < args.len() && args[i] >= 0 ==> arg_or(args, i, held, word64()) == args[i],
        i < args.len() && args[i] < 0 ==> arg_or(args, i, held, word64()) == args[i]
            + 0x1_0000_0000_0000_0000,
        i < args.len() && 0 <= args[i] < 0x1_0000_0000 ==> arg_or(args, i, held, word32())
            == args[i],
        i < args.len() && -0x1_0000_0000 <= args[i] < 0 ==> arg_or(args, i, held, word32())
            == args[i] + 0x1_0000_0000,
        i >= args.len() ==> arg_or(args, i, held, word32()) == held,
{
}

/// Registers are exchanged where the newer call succeeded, or the older one did.
pub proof fn law_either_call_exchanges_registers(
    first: bool,
    older: Option<bool>,
    got: bool,
    set: bool,
)
    requires
        call_ensures(get_regs, (first, older), got),
        call_ensures(set_regs, (first, older), set),
    ensures
        got == set,
        first ==> got,
        older == Some(true) ==> got,
        !first && older != Some(true) ==> !got,
{
}

/// Registers that can be read by one of the two calls are read, and so with
/// writing; each failure is told as what it is.
pub proof fn law_second_call_is_enough(
    first: bool,
    second: Option<bool>,
    got: Result<(), RegsError>,
    put: Result<(), RegsError>,
)
    requires
        call_ensures(try_get_regs, (first, second), got),
        call_ensures(try_set_regs, (first, second), put),
    ensures
        got is Ok <==> put is Ok,
        first ==> got is Ok,
        !first ==> (got is Ok <==> second is Some && second->0),
        got is Err ==> got->Err_0 != put->Err_0 && got->Err_0 == RegsError::GetRegsFailed,
{
}

} // verus!
