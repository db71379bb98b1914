//! Registers of x86-64.
use vstd::prelude::*;

use crate::regs::{
    aligned, aligned64, arg_or, as_word, le_bytes, lemma_aligned, pick64, push_le, word64, word_of, words64,
    words_bytes, writes_to, RemoteWrite,
};

verus! {

/// The general purpose registers, in the kernel's order.
#[derive(Clone, Copy, Debug, Default, PartialEq, Eq, Structural)]
pub struct UserRegs {
    pub r15: u64,
    pub r14: u64,
    pub r13: u64,
    pub r12: u64,
    pub rbp: u64,
    pub rbx: u64,
    pub r11: u64,
    pub r10: u64,
    pub r9: u64,
    pub r8: u64,
    pub rax: u64,
    pub rcx: u64,
    pub rdx: u64,
    pub rsi: u64,
    pub rdi: u64,
    pub orig_rax: u64,
    pub rip: u64,
    pub cs: u64,
    pub eflags: u64,
    pub rsp: u64,
    pub ss: u64,
    pub fs_base: u64,
    pub gs_base: u64,
    pub ds: u64,
    pub es: u64,
    pub fs: u64,
    pub gs: u64,
}

impl UserRegs {
    /// The stack pointer.
    pub fn reg_sp(&self) -> (r: u64)
        ensures
            r == self.rsp,
    {
        self.rsp
    }

    /// Sets the stack pointer.
    pub fn set_reg_sp(&mut self, v: u64)
        ensures
            *final(self) == (UserRegs { rsp: v, ..*old(self) }),
    {
        self.rsp = v;
    }

    /// The instruction pointer.
    pub fn reg_ip(&self) -> (r: u64)
        ensures
            r == self.rip,
    {
        self.rip
    }

    /// Sets the instruction pointer.
    pub fn set_reg_ip(&mut self, v: u64)
        ensures
            *final(self) == (UserRegs { rip: v, ..*old(self) }),
    {
        self.rip = v;
    }

    /// The register of return values.
    pub fn reg_ret(&self) -> (r: u64)
        ensures
            r == self.rax,
    {
        self.rax
    }

    /// Sets the number of the system call in progress.
    pub fn set_reg_sysnr(&mut self, v: i64)
        ensures
            *final(self) == (UserRegs {
                orig_rax: as_word(v as int, word64()) as u64,
                ..*old(self)
            }),
    {
        self.orig_rax = word_of(v);
    }
}

/// Lowers the stack pointer by `preserve` bytes and aligns it.
pub fn align_stack(regs: &mut UserRegs, preserve: i64)
    ensures
        *final(regs) == (UserRegs {
            rsp: aligned(old(regs).rsp as int, preserve as int, word64()) as u64,
            ..*old(regs)
        }),
{
    regs.rsp = aligned64(regs.rsp, preserve as i128);
}

/// The stack pointer where the arguments that have no register stand: six
/// arguments are passed in registers.
pub open spec fn args_sp(sp: u64, args: Seq<i64>) -> u64 {
    let sp0 = aligned(sp as int, 0, word64());
    if args.len() > 6 {
        aligned(sp0, 8 * (args.len() - 6), word64()) as u64
    } else {
        sp0 as u64
    }
}

/// The stack pointer at the callee's entry, where the return address stands.
pub open spec fn entry_sp(sp: u64, args: Seq<i64>) -> u64 {
    as_word(args_sp(sp, args) - 8, word64()) as u64
}

/// The registers at the entry of a called function.
pub open spec fn call_regs(regs: UserRegs, func: u64, args: Seq<i64>) -> UserRegs {
    UserRegs {
        rdi: arg_or(args, 0, regs.rdi as int, word64()) as u64,
        rsi: arg_or(args, 1, regs.rsi as int, word64()) as u64,
        rdx: arg_or(args, 2, regs.rdx as int, word64()) as u64,
        rcx: arg_or(args, 3, regs.rcx as int, word64()) as u64,
        r8: arg_or(args, 4, regs.r8 as int, word64()) as u64,
        r9: arg_or(args, 5, regs.r9 as int, word64()) as u64,
        rsp: entry_sp(regs.rsp, args),
        rip: func,
        ..regs
    }
}

/// Lays a function call into the registers; what is returned has to be written
/// to the process's memory, in order.
pub fn prepare_call(
    regs: &mut UserRegs,
    func_addr: u64,
    return_addr: u64,
    args: &[i64],
) -> (writes: Vec<RemoteWrite>)
    ensures
        *final(regs) == call_regs(*old(regs), func_addr, args@),
        writes@.len() == if args@.len() > 6 {
            2int
        } else {
            1
        },
        args@.len() > 6 ==> writes_to(
            writes@[0],
            args_sp(old(regs).rsp, args@),
            words_bytes(args@.skip(6), 8, word64()),
        ),
        writes_to(
            writes@.last(),
            entry_sp(old(regs).rsp, args@),
            le_bytes(return_addr as int, 8),
        ),
{
    let mut writes: Vec<RemoteWrite> = Vec::new();
    align_stack(regs, 0);
    regs.rdi = pick64(args, 0, regs.rdi);
    regs.rsi = pick64(args, 1, regs.rsi);
    regs.rdx = pick64(args, 2, regs.rdx);
    regs.rcx = pick64(args, 3, regs.rcx);
    regs.r8 = pick64(args, 4, regs.r8);
    regs.r9 = pick64(args, 5, regs.r9);
    if args.len() > 6 {
        regs.rsp = aligned64(regs.rsp, (args.len() as i128 - 6) * 8);
        writes.push(RemoteWrite { addr: regs.rsp, bytes: words64(args, 6) });
    }
    regs.rsp = regs.rsp.wrapping_sub(8);
    let mut ra: Vec<u8> = Vec::new();
    push_le(&mut ra, return_addr, 8);
    assert(ra@ =~= le_bytes(return_addr as int, 8));
    writes.push(RemoteWrite { addr: regs.rsp, bytes: ra });
    regs.rip = func_addr;
    writes
}

/// The registers at a system call instruction: arguments that are not given
/// are zero.
pub open spec fn syscall_regs(regs: UserRegs, gadget: u64, sysnr: i64, args: Seq<i64>) -> UserRegs {
    UserRegs {
        orig_rax: as_word(sysnr as int, word64()) as u64,
        rax: as_word(sysnr as int, word64()) as u64,
        rdi: arg_or(args, 0, 0, word64()) as u64,
        rsi: arg_or(args, 1, 0, word64()) as u64,
        rdx: arg_or(args, 2, 0, word64()) as u64,
        r10: arg_or(args, 3, 0, word64()) as u64,
        r8: arg_or(args, 4, 0, word64()) as u64,
        r9: arg_or(args, 5, 0, word64()) as u64,
        rip: gadget,
        ..regs
    }
}

/// Lays a system call into the registers.
pub fn prepare_syscall(regs: &mut UserRegs, syscall_gadget: u64, sysnr: i64, args: &[i64])
    ensures
        *final(regs) == syscall_regs(*old(regs), syscall_gadget, sysnr, args@),
{
    regs.orig_rax = word_of(sysnr);
    regs.rax = word_of(sysnr);
    regs.rdi = pick64(args, 0, 0);
    regs.rsi = pick64(args, 1, 0);
    regs.rdx = pick64(args, 2, 0);
    regs.r10 = pick64(args, 3, 0);
    regs.r8 = pick64(args, 4, 0);
    regs.r9 = pick64(args, 5, 0);
    regs.rip = syscall_gadget;
}

/// A called function finds the stack as the calling convention has it: the
/// arguments that have no register start on a multiple of 16, and the return
/// address stands just below them.
pub proof fn law_entry_stack_follows_the_convention(sp: u64, args: Seq<i64>)
    ensures
        args_sp(sp, args) % 16 == 0,
        as_word(entry_sp(sp, args) + 8, word64()) == args_sp(sp, args),
        as_word(entry_sp(sp, args) + 8, word64()) % 16 == 0,
{
    let sp0 = aligned(sp as int, 0, word64());
    lemma_aligned(sp as int, 0, word64());
    lemma_aligned(sp0, 8 * (args.len() - 6), word64());
}

/// A call is laid out as the convention has it: six arguments in `rdi`, `rsi`,
/// `rdx`, `rcx`, `r8` and `r9`, those beyond on the stack, the return address
/// just below them, and the function in the instruction pointer, all below what
/// the process had on its stack. All other registers stay.
pub proof fn law_call_follows_the_convention(
    regs: &mut UserRegs,
    func: u64,
    ret: u64,
    args: &[i64],
    writes: Vec<RemoteWrite>,
)
    requires
        call_ensures(prepare_call, (regs, func, ret, args), writes),
        8 * args@.len() + 48 <= old(regs).rsp,
    ensures
        ({
            let r = *final(regs);
            let put = seq![r.rdi, r.rsi, r.rdx, r.rcx, r.r8, r.r9];
            let was = *old(regs);
            let held = seq![was.rdi, was.rsi, was.rdx, was.rcx, was.r8, was.r9];
            &&& r.rip == func
            &&& r.rax == was.rax
            &&& r.rbx == was.rbx
            &&& r.rbp == was.rbp
            &&& r.r10 == was.r10
            &&& r.r11 == was.r11
            &&& r.orig_rax == was.orig_rax
            &&& r.eflags == was.eflags
            &&& forall|i: int|
                0 <= i < 6 ==> #[trigger] put[i] == if i < args@.len() {
                    args@[i] as int % 0x1_0000_0000_0000_0000
                } else {
                    held[i] as int
                }
            &&& (r.rsp + 8) % 16 == 0
            &&& r.rsp + 8 <= was.rsp
            &&& args@.len() > 6 ==> r.rsp + 8 + 8 * (args@.len() - 6) <= was.rsp
            &&& writes@.last().addr == r.rsp
            &&& writes@.last().bytes@ == le_bytes(ret as int, 8)
            &&& args@.len() <= 6 ==> writes@.len() == 1
            &&& args@.len() > 6 ==> writes@.len() == 2 && writes@[0].addr == r.rsp + 8
                && writes@[0].bytes@.len() == 8 * (args@.len() - 6)
        }),
        forall|i: int|
            6 <= i < args@.len() ==> writes@[0].bytes@.subrange((i - 6) * 8, (i - 6) * 8 + 8)
                == le_bytes((#[trigger] args@[i]) as int % 0x1_0000_0000_0000_0000, 8),
{
    let sp0 = aligned(old(regs).rsp as int, 0, word64());
    crate::regs::law_lowered_stack_has_room(old(regs).rsp as int, 0, word64());
    law_entry_stack_follows_the_convention(old(regs).rsp, args@);
    if args@.len() > 6 {
        crate::regs::law_lowered_stack_has_room(sp0, 8 * (args@.len() - 6), word64());
        crate::regs::law_words_stand_in_order(args@.skip(6), 8, word64(), 0);
    }
    assert forall|i: int| 6 <= i < args@.len() implies writes@[0].bytes@.subrange(
        (i - 6) * 8,
        (i - 6) * 8 + 8,
    ) == le_bytes((#[trigger] args@[i]) as int % 0x1_0000_0000_0000_0000, 8) by {
        crate::regs::law_words_stand_in_order(args@.skip(6), 8, word64(), i - 6);
    }
}

/// A system call is laid out as the kernel has it: the number in `rax`, six
/// arguments, zero where none is given, in `rdi`, `rsi`, `rdx`, `r10`, `r8` and
/// `r9`, and the instruction in the instruction pointer. The stack pointer and
/// all other registers stay.
pub proof fn law_system_call_follows_the_kernel(
    regs: UserRegs,
    gadget: u64,
    nr: i64,
    args: Seq<i64>,
)
    ensures
        ({
            let r = syscall_regs(regs, gadget, nr, args);
            let put = seq![r.rdi, r.rsi, r.rdx, r.r10, r.r8, r.r9];
            &&& r.rip == gadget
            &&& r.rax == nr as int % 0x1_0000_0000_0000_0000
            &&& r.orig_rax == r.rax
            &&& r.rsp == regs.rsp
            &&& r.rbp == regs.rbp
            &&& r.rbx == regs.rbx
            &&& r.rcx == regs.rcx
            &&& r.eflags == regs.eflags
            &&& r.cs == regs.cs
            &&& r.ss == regs.ss
            &&& forall|i: int|
                0 <= i < 6 ==> #[trigger] put[i] == if i < args.len() {
                    args[i] as int % 0x1_0000_0000_0000_0000
                } else {
                    0
                }
        }),
{
}

/// What is set is what is read: the stack pointer and the instruction pointer
/// keep what they get, and setting the one leaves the other.
pub proof fn law_registers_keep_what_they_get(
    a: &mut UserRegs,
    sp: u64,
    b: &mut UserRegs,
    ip: u64,
    got_sp: u64,
    got_ip: u64,
)
    requires
        call_ensures(UserRegs::set_reg_sp, (a, sp), ()),
        *old(b) == *final(a),
        call_ensures(UserRegs::set_reg_ip, (b, ip), ()),
        call_ensures(UserRegs::reg_sp, (&*final(b),), got_sp),
        call_ensures(UserRegs::reg_ip, (&*final(b),), got_ip),
    ensures
        got_sp == sp,
        got_ip == ip,
        final(b).rax == old(a).rax,
{
}

/// The number of a system call can be changed while it is in progress, and that
/// changes nothing else.
pub proof fn law_number_is_changed_alone(regs: &mut UserRegs, v: i64)
    requires
        call_ensures(UserRegs::set_reg_sysnr, (regs, v), ()),
    ensures
        final(regs).orig_rax == v as int % 0x1_0000_0000_0000_0000,
        final(regs).rax == old(regs).rax,
        final(regs).rsp == old(regs).rsp,
        final(regs).rip == old(regs).rip,
        final(regs).rdi == old(regs).rdi,
{
}

/// Lowering the stack leaves what is to be kept and at most fifteen bytes
/// more, on a multiple of sixteen, and changes nothing else.
pub proof fn law_stack_is_lowered_alone(regs: &mut UserRegs, preserve: i64)
    requires
        call_ensures(align_stack, (regs, preserve), ()),
        0 <= preserve,
        preserve + 16 <= old(regs).rsp,
    ensures
        final(regs).rsp % 16 == 0,
        old(regs).rsp - preserve - 16 < final(regs).rsp <= old(regs).rsp - preserve,
        final(regs).rax == old(regs).rax,
        final(regs).rip == old(regs).rip,
        final(regs).rdi == old(regs).rdi,
        final(regs).rbp == old(regs).rbp,
{
    lemma_aligned(old(regs).rsp as int, preserve as int, word64());
}

/// A system call leaves its result in the register that carried its number.
pub proof fn law_result_replaces_the_number(
    regs: &mut UserRegs,
    gadget: u64,
    nr: i64,
    args: &[i64],
    after: &UserRegs,
    v: u64,
)
    requires
        call_ensures(prepare_syscall, (regs, gadget, nr, args), ()),
        *after == *final(regs),
        call_ensures(UserRegs::reg_ret, (after,), v),
    ensures
        v == nr as int % 0x1_0000_0000_0000_0000,
{
}

} // verus!
