//! Registers of 32-bit Arm.
use vstd::prelude::*;

use crate::regs::{
    aligned, aligned32, arg_or, as_word, half_of, lemma_aligned, low_half, pick32, word32, words32,
    words_bytes, writes_to, RemoteWrite,
};

verus! {

/// The status bit that selects the Thumb instruction set.
pub const THUMB: u32 = 0x20;

/// The registers, in the kernel's order: 13 is the stack pointer, 14 the link
/// register, 15 the program counter and 16 the status register.
#[derive(Clone, Copy, Debug, Default)]
pub struct UserRegs {
    pub uregs: [u32; 18],
}

impl UserRegs {
    /// The stack pointer.
    pub fn reg_sp(&self) -> (r: u64)
        ensures
            r == self.uregs@[13],
    {
        self.uregs[13] as u64
    }

    /// Sets the stack pointer.
    pub fn set_reg_sp(&mut self, v: u64)
        ensures
            final(self).uregs@ == old(self).uregs@.update(
                13,
                as_word(v as int, word32()) as u32,
            ),
    {
        self.uregs[13] = low_half(v);
    }

    /// The instruction pointer.
    pub fn reg_ip(&self) -> (r: u64)
        ensures
            r == self.uregs@[15],
    {
        self.uregs[15] as u64
    }

    /// Sets the instruction pointer.
    pub fn set_reg_ip(&mut self, v: u64)
        ensures
            final(self).uregs@ == old(self).uregs@.update(
                15,
                as_word(v as int, word32()) as u32,
            ),
    {
        self.uregs[15] = low_half(v);
    }

    /// The register of return values.
    pub fn reg_ret(&self) -> (r: u64)
        ensures
            r == self.uregs@[0],
    {
        self.uregs[0] as u64
    }

    /// Sets the number of the system call in progress.
    pub fn set_reg_sysnr(&mut self, v: i64)
        ensures
            final(self).uregs@ == old(self).uregs@.update(7, as_word(v as int, word32()) as u32),
    {
        self.uregs[7] = half_of(v);
    }
}

/// Lowers the stack pointer by `preserve` bytes and aligns it.
pub fn align_stack(regs: &mut UserRegs, preserve: i64)
    ensures
        final(regs).uregs@ == old(regs).uregs@.update(
            13,
            aligned(old(regs).uregs@[13] as int, preserve as int, word32()) as u32,
        ),
{
    regs.uregs[13] = aligned32(regs.uregs[13], preserve as i128);
}

/// The stack pointer of a call: four arguments are passed in registers, the
/// others stand at the stack pointer.
pub open spec fn call_sp(sp: u32, args: Seq<i64>) -> u32 {
    let sp0 = aligned(sp as int, 0, word32());
    if args.len() > 4 {
        aligned(sp0, 4 * (args.len() - 4), word32()) as u32
    } else {
        sp0 as u32
    }
}

/// A code address without the bit that marks Thumb code.
pub open spec fn code_addr(addr: u64) -> u32 {
    let a = as_word(addr as int, word32());
    (a - a % 2) as u32
}

/// The status register for code at `addr`.
pub open spec fn status_for(held: u32, addr: u64) -> u32 {
    if addr % 2 != 0 {
        held | THUMB
    } else {
        held & !THUMB
    }
}

/// The registers at the entry of a called function.
pub open spec fn call_regs(held: Seq<u32>, func: u64, return_addr: u64, args: Seq<i64>) -> Seq<u32> {
    Seq::new(
        18,
        |i: int|
            if i < 4 {
                arg_or(args, i, held[i] as int, word32()) as u32
            } else if i == 13 {
                call_sp(held[13], args)
            } else if i == 14 {
                as_word(return_addr as int, word32()) as u32
            } else if i == 15 {
                code_addr(func)
            } else if i == 16 {
                status_for(held[16], func)
            } else {
                held[i]
            },
    )
}

fn enter_code(regs: &mut UserRegs, addr: u64)
    ensures
        final(regs).uregs@ == old(regs).uregs@.update(15, code_addr(addr)).update(
            16,
            status_for(old(regs).uregs@[16], addr),
        ),
{
    let a: u32 = low_half(addr);
    regs.uregs[15] = a - a % 2;
    if addr % 2 != 0 {
        regs.uregs[16] = regs.uregs[16] | THUMB;
    } else {
        regs.uregs[16] = regs.uregs[16] & !THUMB;
    }
}

/// Lays a function call into the registers; what is returned has to be written
/// to the process's memory.
pub fn prepare_call(
    regs: &mut UserRegs,
    func_addr: u64,
    return_addr: u64,
    args: &[i64],
) -> (writes: Vec<RemoteWrite>)
    ensures
        final(regs).uregs@ == call_regs(old(regs).uregs@, func_addr, return_addr, args@),
        writes@.len() == if args@.len() > 4 {
            1int
        } else {
            0
        },
        args@.len() > 4 ==> writes_to(
            writes@[0],
            call_sp(old(regs).uregs@[13], args@) as u64,
            words_bytes(args@.skip(4), 4, word32()),
        ),
{
    let mut writes: Vec<RemoteWrite> = Vec::new();
    let ghost held = regs.uregs@;
    assert(held.len() == 18);
    align_stack(regs, 0);
    let ghost begun = regs.uregs@;
    assert(begun[13] == aligned(held[13] as int, 0, word32()));
    assert(forall|j: int| 0 <= j < 18 && j != 13 ==> begun[j] == held[j]);
    let mut i: usize = 0;
    while i < 4
        invariant
            i <= 4,
            regs.uregs@.len() == 18,
            begun.len() == 18,
            forall|j: int|
                0 <= j < i ==> regs.uregs@[j] == arg_or(args@, j, begun[j] as int, word32()),
            forall|j: int| i <= j < 18 ==> regs.uregs@[j] == begun[j],
        decreases 4 - i,
    {
        regs.uregs[i] = pick32(args, i, regs.uregs[i]);
        i = i + 1;
    }
    if args.len() > 4 {
        let sp: u32 = aligned32(regs.uregs[13], (args.len() as i128 - 4) * 4);
        regs.uregs[13] = sp;
        writes.push(RemoteWrite { addr: sp as u64, bytes: words32(args, 4) });
    }
    regs.uregs[14] = low_half(return_addr);
    enter_code(regs, func_addr);
    assert(regs.uregs@.len() == 18);
    assert(regs.uregs@ =~= call_regs(old(regs).uregs@, func_addr, return_addr, args@));
    writes
}

/// The registers at a system call instruction: arguments that are not given
/// are zero.
pub open spec fn syscall_regs(held: Seq<u32>, gadget: u64, sysnr: i64, args: Seq<i64>) -> Seq<u32> {
    Seq::new(
        18,
        |i: int|
            if i < 6 {
                arg_or(args, i, 0, word32()) as u32
            } else if i == 7 {
                as_word(sysnr as int, word32()) as u32
            } else if i == 15 {
                code_addr(gadget)
            } else if i == 16 {
                status_for(held[16], gadget)
            } else {
                held[i]
            },
    )
}

/// Lays a system call into the registers.
pub fn prepare_syscall(regs: &mut UserRegs, syscall_gadget: u64, sysnr: i64, args: &[i64])
    ensures
        final(regs).uregs@ == syscall_regs(old(regs).uregs@, syscall_gadget, sysnr, args@),
{
    let ghost held = regs.uregs@;
    assert(held.len() == 18);
    regs.uregs[7] = half_of(sysnr);
    let ghost begun = regs.uregs@;
    assert(begun[7] == as_word(sysnr as int, word32()));
    assert(forall|j: int| 0 <= j < 18 && j != 7 ==> begun[j] == held[j]);
    let mut i: usize = 0;
    while i < 6
        invariant
            i <= 6,
            regs.uregs@.len() == 18,
            begun.len() == 18,
            forall|j: int| 0 <= j < i ==> regs.uregs@[j] == arg_or(args@, j, 0, word32()),
            forall|j: int| i <= j < 18 ==> regs.uregs@[j] == begun[j],
        decreases 6 - i,
    {
        regs.uregs[i] = pick32(args, i, 0);
        i = i + 1;
    }
    enter_code(regs, syscall_gadget);
    assert(regs.uregs@.len() == 18);
    assert(regs.uregs@ =~= syscall_regs(old(regs).uregs@, syscall_gadget, sysnr, args@));
}

/// A called function finds the stack pointer on a multiple of 16.
pub proof fn law_call_stack_is_aligned(sp: u32, args: Seq<i64>)
    ensures
        call_sp(sp, args) % 16 == 0,
{
    let sp0 = aligned(sp as int, 0, word32());
    lemma_aligned(sp as int, 0, word32());
    lemma_aligned(sp0, 4 * (args.len() - 4), word32());
}

/// Code is entered at an even address, with the status bit telling Thumb code
/// from other code.
pub proof fn law_code_is_entered_in_its_state(held: u32, addr: u64)
    ensures
        code_addr(addr) % 2 == 0,
        (status_for(held, addr) & THUMB != 0) == (addr % 2 != 0),
{
    assert((held | 0x20) & 0x20 != 0 && (held & !0x20u32) & 0x20 == 0) by (bit_vector);
}

/// A call is laid out as the convention has it: four arguments in registers, the
/// return address in the link register, the function in the program counter in
/// its own instruction set, and the arguments beyond on the stack, below what
/// the process had there. All other registers stay.
pub proof fn law_call_follows_the_convention(
    regs: &mut UserRegs,
    func: u64,
    ret: u64,
    args: &[i64],
    writes: Vec<RemoteWrite>,
)
    requires
        call_ensures(prepare_call, (regs, func, ret, args), writes),
        4 * args@.len() + 32 <= old(regs).uregs@[13],
        func < 0x1_0000_0000,
        ret < 0x1_0000_0000,
    ensures
        final(regs).uregs@[15] == func - func % 2,
        final(regs).uregs@[14] == ret,
        forall|i: int|
            0 <= i < 4 && i < args@.len() ==> #[trigger] final(regs).uregs@[i] == args@[i] as int
                % 0x1_0000_0000,
        forall|i: int|
            0 <= i < 18 && !(13 <= i <= 16) && (i >= 4 || i >= args@.len()) ==> #[trigger] final(
                regs).uregs@[i] == old(regs).uregs@[i],
        final(regs).uregs@[13] % 16 == 0,
        final(regs).uregs@[13] <= old(regs).uregs@[13],
        args@.len() > 4 ==> final(regs).uregs@[13] + 4 * (args@.len() - 4) <= old(regs).uregs@[13],
        args@.len() <= 4 ==> writes@.len() == 0,
        args@.len() > 4 ==> writes@.len() == 1 && writes@[0].addr == final(regs).uregs@[13]
            && writes@[0].bytes@.len() == 4 * (args@.len() - 4),
        forall|i: int|
            4 <= i < args@.len() ==> writes@[0].bytes@.subrange((i - 4) * 4, (i - 4) * 4 + 4)
                == crate::regs::le_bytes((#[trigger] args@[i]) as int % 0x1_0000_0000, 4),
{
    let sp = old(regs).uregs@[13];
    let sp0 = aligned(sp as int, 0, word32());
    crate::regs::law_lowered_stack_has_room(sp as int, 0, word32());
    law_call_stack_is_aligned(sp, args@);
    if args@.len() > 4 {
        crate::regs::law_lowered_stack_has_room(sp0, 4 * (args@.len() - 4), word32());
        crate::regs::law_words_stand_in_order(args@.skip(4), 4, word32(), 0);
    }
    assert forall|i: int| 4 <= i < args@.len() implies writes@[0].bytes@.subrange(
        (i - 4) * 4,
        (i - 4) * 4 + 4,
    ) == crate::regs::le_bytes((#[trigger] args@[i]) as int % 0x1_0000_0000, 4) by {
        crate::regs::law_words_stand_in_order(args@.skip(4), 4, word32(), i - 4);
    }
}

/// A system call is laid out as the kernel has it: the number in register seven,
/// six arguments, zero where none is given, in the first ones, and the
/// instruction in the program counter, in its own instruction set. The stack
/// pointer and all other registers stay.
pub proof fn law_system_call_follows_the_kernel(
    regs: &mut UserRegs,
    gadget: u64,
    nr: i64,
    args: &[i64],
)
    requires
        call_ensures(prepare_syscall, (regs, gadget, nr, args), ()),
        gadget < 0x1_0000_0000,
    ensures
        final(regs).uregs@[15] == gadget - gadget % 2,
        (final(regs).uregs@[16] & 0x20 != 0) == (gadget % 2 == 1),
        final(regs).uregs@[7] == nr as int % 0x1_0000_0000,
        forall|i: int|
            0 <= i < 6 ==> #[trigger] final(regs).uregs@[i] == if i < args@.len() {
                args@[i] as int % 0x1_0000_0000
            } else {
                0
            },
        forall|i: int|
            6 <= i < 18 && i != 7 && i != 15 && i != 16 ==> #[trigger] final(regs).uregs@[i] == old(
                regs,
            ).uregs@[i],
{
    law_code_is_entered_in_its_state(old(regs).uregs@[16], gadget);
}

/// What is set is what is read: the stack pointer and the instruction pointer
/// keep what they get, and setting the one leaves the other.
pub proof fn law_registers_keep_what_they_get(
    a: &mut UserRegs,
    sp: u64,
    b: &mut UserRegs,
    ip: u64,
    got_sp: u64,
    got_ip: u64,
)
    requires
        call_ensures(UserRegs::set_reg_sp, (a, sp), ()),
        *old(b) == *final(a),
        call_ensures(UserRegs::set_reg_ip, (b, ip), ()),
        call_ensures(UserRegs::reg_sp, (&*final(b),), got_sp),
        call_ensures(UserRegs::reg_ip, (&*final(b),), got_ip),
    ensures
        sp < 0x1_0000_0000 ==> got_sp == sp,
        ip < 0x1_0000_0000 ==> got_ip == ip,
        forall|i: int|
            0 <= i < 18 && i != 13 && i != 15 ==> #[trigger] final(b).uregs@[i] == old(
                a,
            ).uregs@[i],
{
}

/// The number of a system call can be changed while it is in progress, and that
/// changes nothing else.
pub proof fn law_number_is_changed_alone(regs: &mut UserRegs, v: i64)
    requires
        call_ensures(UserRegs::set_reg_sysnr, (regs, v), ()),
    ensures
        final(regs).uregs@[7] == v as int % 0x1_0000_0000,
        forall|i: int|
            0 <= i < 18 && i != 7 ==> #[trigger] final(regs).uregs@[i] == old(regs).uregs@[i],
{
}

/// Lowering the stack leaves what is to be kept and at most fifteen bytes
/// more, on a multiple of sixteen, and changes nothing else.
pub proof fn law_stack_is_lowered_alone(regs: &mut UserRegs, preserve: i64)
    requires
        call_ensures(align_stack, (regs, preserve), ()),
        0 <= preserve,
        preserve + 16 <= old(regs).uregs@[13],
    ensures
        final(regs).uregs@[13] % 16 == 0,
        old(regs).uregs@[13] - preserve - 16 < final(regs).uregs@[13] <= old(regs).uregs@[13] - preserve,
        forall|i: int|
            0 <= i < 18 && i != 13 ==> #[trigger] final(regs).uregs@[i] == old(regs).uregs@[i],
{
    lemma_aligned(old(regs).uregs@[13] as int, preserve as int, word32());
}

/// A call leaves its result in the register that carried its first argument.
pub proof fn law_result_replaces_the_argument(
    regs: &mut UserRegs,
    func: u64,
    ret: u64,
    args: &[i64],
    writes: Vec<RemoteWrite>,
    after: &UserRegs,
    v: u64,
)
    requires
        args@.len() > 0,
        call_ensures(prepare_call, (regs, func, ret, args), writes),
        *after == *final(regs),
        call_ensures(UserRegs::reg_ret, (after,), v),
    ensures
        v == args@[0] as int % 0x1_0000_0000,
{
}

} // verus!
