//! Registers of 64-bit Arm.
use vstd::prelude::*;

use crate::regs::{
    aligned, aligned64, arg_or, as_word, lemma_aligned, pick64, word64, word_of, words64,
    words_bytes, writes_to, RemoteWrite,
};

verus! {

/// The general purpose registers, in the kernel's order.
#[derive(Clone, Copy, Debug, Default)]
pub struct UserRegs {
    pub regs: [u64; 31],
    pub sp: u64,
    pub pc: u64,
    pub pstate: u64,
}

impl UserRegs {
    /// The stack pointer.
    pub fn reg_sp(&self) -> (r: u64)
        ensures
            r == self.sp,
    {
        self.sp
    }

    /// Sets the stack pointer.
    pub fn set_reg_sp(&mut self, v: u64)
        ensures
            *final(self) == (UserRegs { sp: v, ..*old(self) }),
    {
        self.sp = v;
    }

    /// The instruction pointer.
    pub fn reg_ip(&self) -> (r: u64)
        ensures
            r == self.pc,
    {
        self.pc
    }

    /// Sets the instruction pointer.
    pub fn set_reg_ip(&mut self, v: u64)
        ensures
            *final(self) == (UserRegs { pc: v, ..*old(self) }),
    {
        self.pc = v;
    }

    /// The register of return values.
    pub fn reg_ret(&self) -> (r: u64)
        ensures
            r == self.regs@[0],
    {
        self.regs[0]
    }

    /// Sets the number of the system call in progress.
    pub fn set_reg_sysnr(&mut self, v: i64)
        ensures
            final(self).regs@ == old(self).regs@.update(8, as_word(v as int, word64()) as u64),
            final(self).sp == old(self).sp,
            final(self).pc == old(self).pc,
            final(self).pstate == old(self).pstate,
    {
        self.regs[8] = word_of(v);
    }
}

/// Lowers the stack pointer by `preserve` bytes and aligns it.
pub fn align_stack(regs: &mut UserRegs, preserve: i64)
    ensures
        *final(regs) == (UserRegs {
            sp: aligned(old(regs).sp as int, preserve as int, word64()) as u64,
            ..*old(regs)
        }),
{
    regs.sp = aligned64(regs.sp, preserve as i128);
}

/// The stack pointer of a call: eight arguments are passed in registers, the
/// others stand at the stack pointer.
pub open spec fn call_sp(sp: u64, args: Seq<i64>) -> u64 {
    let sp0 = aligned(sp as int, 0, word64());
    if args.len() > 8 {
        aligned(sp0, 8 * (args.len() - 8), word64()) as u64
    } else {
        sp0 as u64
    }
}

/// The numbered registers of a call: arguments in the first eight, the return
/// address in the link register.
pub open spec fn call_numbered(held: Seq<u64>, return_addr: u64, args: Seq<i64>) -> Seq<u64> {
    Seq::new(
        31,
        |i: int|
            if i < 8 {
                arg_or(args, i, held[i] as int, word64()) as u64
            } else if i == 30 {
                return_addr
            } else {
                held[i]
            },
    )
}

/// Lays a function call into the registers; what is returned has to be written
/// to the process's memory.
pub fn prepare_call(
    regs: &mut UserRegs,
    func_addr: u64,
    return_addr: u64,
    args: &[i64],
) -> (writes: Vec<RemoteWrite>)
    ensures
        final(regs).regs@ == call_numbered(old(regs).regs@, return_addr, args@),
        final(regs).sp == call_sp(old(regs).sp, args@),
        final(regs).pc == func_addr,
        final(regs).pstate == old(regs).pstate,
        writes@.len() == if args@.len() > 8 {
            1int
        } else {
            0
        },
        args@.len() > 8 ==> writes_to(
            writes@[0],
            call_sp(old(regs).sp, args@),
            words_bytes(args@.skip(8), 8, word64()),
        ),
{
    let mut writes: Vec<RemoteWrite> = Vec::new();
    align_stack(regs, 0);
    let mut i: usize = 0;
    while i < 8
        invariant
            i <= 8,
            regs.regs@.len() == 31,
            regs.sp == aligned(old(regs).sp as int, 0, word64()),
            regs.pstate == old(regs).pstate,
            forall|j: int|
                0 <= j < i ==> regs.regs@[j] == arg_or(
                    args@,
                    j,
                    old(regs).regs@[j] as int,
                    word64(),
                ),
            forall|j: int| i <= j < 31 ==> regs.regs@[j] == old(regs).regs@[j],
        decreases 8 - i,
    {
        regs.regs[i] = pick64(args, i, regs.regs[i]);
        i = i + 1;
    }
    if args.len() > 8 {
        regs.sp = aligned64(regs.sp, (args.len() as i128 - 8) * 8);
        writes.push(RemoteWrite { addr: regs.sp, bytes: words64(args, 8) });
    }
    regs.regs[30] = return_addr;
    regs.pc = func_addr;
    assert(regs.regs@ =~= call_numbered(old(regs).regs@, return_addr, args@));
    writes
}

/// The numbered registers at a system call instruction: arguments that are not
/// given are zero.
pub open spec fn syscall_numbered(held: Seq<u64>, sysnr: i64, args: Seq<i64>) -> Seq<u64> {
    Seq::new(
        31,
        |i: int|
            if i < 6 {
                arg_or(args, i, 0, word64()) as u64
            } else if i == 8 {
                as_word(sysnr as int, word64()) as u64
            } else {
                held[i]
            },
    )
}

/// Lays a system call into the registers, and clears the branch type so that
/// the instruction may be entered anywhere.
pub fn prepare_syscall(regs: &mut UserRegs, syscall_gadget: u64, sysnr: i64, args: &[i64])
    ensures
        final(regs).regs@ == syscall_numbered(old(regs).regs@, sysnr, args@),
        final(regs).sp == old(regs).sp,
        final(regs).pc == syscall_gadget,
        final(regs).pstate == old(regs).pstate & !0xc00u64,
{
    regs.regs[8] = word_of(sysnr);
    let mut i: usize = 0;
    while i < 6
        invariant
            i <= 6,
            regs.regs@.len() == 31,
            regs.sp == old(regs).sp,
            regs.pstate == old(regs).pstate,
            regs.regs@[8] == as_word(sysnr as int, word64()),
            forall|j: int| 0 <= j < i ==> regs.regs@[j] == arg_or(args@, j, 0, word64()),
            forall|j: int| i <= j < 31 && j != 8 ==> regs.regs@[j] == old(regs).regs@[j],
        decreases 6 - i,
    {
        regs.regs[i] = pick64(args, i, 0);
        i = i + 1;
    }
    regs.pc = syscall_gadget;
    regs.pstate = regs.pstate & !0xc00u64;
    assert(regs.regs@ =~= syscall_numbered(old(regs).regs@, sysnr, args@));
}

/// A called function finds the stack pointer on a multiple of 16.
pub proof fn law_call_stack_is_aligned(sp: u64, args: Seq<i64>)
    ensures
        call_sp(sp, args) % 16 == 0,
{
    let sp0 = aligned(sp as int, 0, word64());
    lemma_aligned(sp as int, 0, word64());
    lemma_aligned(sp0, 8 * (args.len() - 8), word64());
}

/// A call is laid out as the convention has it: eight arguments in registers,
/// the return address in the link register, the function in the program counter,
/// and the arguments beyond on the stack, below what the process had there. All
/// other registers stay.
pub proof fn law_call_follows_the_convention(
    regs: &mut UserRegs,
    func: u64,
    ret: u64,
    args: &[i64],
    writes: Vec<RemoteWrite>,
)
    requires
        call_ensures(prepare_call, (regs, func, ret, args), writes),
        8 * args@.len() + 32 <= old(regs).sp,
    ensures
        final(regs).pc == func,
        final(regs).regs@[30] == ret,
        final(regs).pstate == old(regs).pstate,
        forall|i: int|
            0 <= i < 8 && i < args@.len() ==> #[trigger] final(regs).regs@[i] == args@[i] as int
                % 0x1_0000_0000_0000_0000,
        forall|i: int|
            0 <= i < 31 && i != 30 && (i >= 8 || i >= args@.len()) ==> #[trigger] final(
                regs).regs@[i] == old(regs).regs@[i],
        final(regs).sp % 16 == 0,
        final(regs).sp <= old(regs).sp,
        args@.len() > 8 ==> final(regs).sp + 8 * (args@.len() - 8) <= old(regs).sp,
        args@.len() <= 8 ==> writes@.len() == 0,
        args@.len() > 8 ==> writes@.len() == 1 && writes@[0].addr == final(regs).sp
            && writes@[0].bytes@.len() == 8 * (args@.len() - 8),
        forall|i: int|
            8 <= i < args@.len() ==> writes@[0].bytes@.subrange((i - 8) * 8, (i - 8) * 8 + 8)
                == crate::regs::le_bytes(
                (#[trigger] args@[i]) as int % 0x1_0000_0000_0000_0000,
                8,
            ),
{
    let sp0 = aligned(old(regs).sp as int, 0, word64());
    crate::regs::law_lowered_stack_has_room(old(regs).sp as int, 0, word64());
    law_call_stack_is_aligned(old(regs).sp, args@);
    if args@.len() > 8 {
        crate::regs::law_lowered_stack_has_room(sp0, 8 * (args@.len() - 8), word64());
        crate::regs::law_words_stand_in_order(args@.skip(8), 8, word64(), 0);
    }
    assert forall|i: int| 8 <= i < args@.len() implies writes@[0].bytes@.subrange(
        (i - 8) * 8,
        (i - 8) * 8 + 8,
    ) == crate::regs::le_bytes((#[trigger] args@[i]) as int % 0x1_0000_0000_0000_0000, 8) by {
        crate::regs::law_words_stand_in_order(args@.skip(8), 8, word64(), i - 8);
    }
}

/// A system call is laid out as the kernel has it: the number in register eight,
/// six arguments, zero where none is given, in the first ones, and the
/// instruction in the program counter. The stack pointer and all other registers
/// stay.
pub proof fn law_system_call_follows_the_kernel(
    regs: &mut UserRegs,
    gadget: u64,
    nr: i64,
    args: &[i64],
)
    requires
        call_ensures(prepare_syscall, (regs, gadget, nr, args), ()),
    ensures
        final(regs).pc == gadget,
        final(regs).sp == old(regs).sp,
        final(regs).regs@[8] == nr as int % 0x1_0000_0000_0000_0000,
        forall|i: int|
            0 <= i < 6 ==> #[trigger] final(regs).regs@[i] == if i < args@.len() {
                args@[i] as int % 0x1_0000_0000_0000_0000
            } else {
                0
            },
        forall|i: int|
            6 <= i < 31 && i != 8 ==> #[trigger] final(regs).regs@[i] == old(regs).regs@[i],
{
}

/// What is set is what is read: the stack pointer and the instruction pointer
/// keep what they get, and setting the one leaves the other.
pub proof fn law_registers_keep_what_they_get(
    a: &mut UserRegs,
    sp: u64,
    b: &mut UserRegs,
    ip: u64,
    got_sp: u64,
    got_ip: u64,
)
    requires
        call_ensures(UserRegs::set_reg_sp, (a, sp), ()),
        *old(b) == *final(a),
        call_ensures(UserRegs::set_reg_ip, (b, ip), ()),
        call_ensures(UserRegs::reg_sp, (&*final(b),), got_sp),
        call_ensures(UserRegs::reg_ip, (&*final(b),), got_ip),
    ensures
        got_sp == sp,
        got_ip == ip,
        final(b).regs == old(a).regs,
{
}

/// A call leaves its result in the register that carried its first argument.
pub proof fn law_result_replaces_the_argument(
    regs: &mut UserRegs,
    func: u64,
    ret: u64,
    args: &[i64],
    writes: Vec<RemoteWrite>,
    after: &UserRegs,
    v: u64,
)
    requires
        args@.len() > 0,
        call_ensures(prepare_call, (regs, func, ret, args), writes),
        *after == *final(regs),
        call_ensures(UserRegs::reg_ret, (after,), v),
    ensures
        v == args@[0] as int % 0x1_0000_0000_0000_0000,
{
}

/// The number of a system call can be changed while it is in progress, and that
/// changes nothing else.
pub proof fn law_number_is_changed_alone(regs: &mut UserRegs, v: i64)
    requires
        call_ensures(UserRegs::set_reg_sysnr, (regs, v), ()),
    ensures
        final(regs).regs@[8] == v as int % 0x1_0000_0000_0000_0000,
        forall|i: int|
            0 <= i < 31 && i != 8 ==> #[trigger] final(regs).regs@[i] == old(regs).regs@[i],
        final(regs).sp == old(regs).sp,
        final(regs).pc == old(regs).pc,
{
}

/// Lowering the stack leaves what is to be kept and at most fifteen bytes
/// more, on a multiple of sixteen, and changes nothing else.
pub proof fn law_stack_is_lowered_alone(regs: &mut UserRegs, preserve: i64)
    requires
        call_ensures(align_stack, (regs, preserve), ()),
        0 <= preserve,
        preserve + 16 <= old(regs).sp,
    ensures
        final(regs).sp % 16 == 0,
        old(regs).sp - preserve - 16 < final(regs).sp <= old(regs).sp - preserve,
        final(regs).regs == old(regs).regs,
        final(regs).pc == old(regs).pc,
        final(regs).pstate == old(regs).pstate,
{
    lemma_aligned(old(regs).sp as int, preserve as int, word64());
}

/// A system call instruction may be entered anywhere: the branch type is
/// cleared, and the rest of the state stays.
pub proof fn law_branch_type_is_cleared(regs: &mut UserRegs, gadget: u64, nr: i64, args: &[i64])
    requires
        call_ensures(prepare_syscall, (regs, gadget, nr, args), ()),
    ensures
        final(regs).pstate / 0x400 % 4 == 0,
        final(regs).pstate % 0x400 == old(regs).pstate % 0x400,
        final(regs).pstate / 0x1000 == old(regs).pstate / 0x1000,
{
    let s = old(regs).pstate;
    assert((s & !0xc00u64) / 0x400 % 4 == 0 && (s & !0xc00u64) % 0x400 == s % 0x400 && (s
        & !0xc00u64) / 0x1000 == s / 0x1000) by (bit_vector);
}

} // verus!
