//! Registers of 32-bit x86.
use vstd::prelude::*;

use crate::regs::{
    aligned, aligned32, arg_or, as_word, half_of, le_bytes, lemma_aligned, low_half, pick32,
    push_le, word32, words32, words_bytes, writes_to, RemoteWrite,
};

verus! {

/// The general purpose registers, in the kernel's order.
#[derive(Clone, Copy, Debug, Default, PartialEq, Eq, Structural)]
pub struct UserRegs {
    pub ebx: u32,
    pub ecx: u32,
    pub edx: u32,
    pub esi: u32,
    pub edi: u32,
    pub ebp: u32,
    pub eax: u32,
    pub xds: u32,
    pub xes: u32,
    pub xfs: u32,
    pub xgs: u32,
    pub orig_eax: u32,
    pub eip: u32,
    pub cs: u32,
    pub eflags: u32,
    pub esp: u32,
    pub ss: u32,
}

impl UserRegs {
    /// The stack pointer.
    pub fn reg_sp(&self) -> (r: u64)
        ensures
            r == self.esp,
    {
        self.esp as u64
    }

    /// Sets the stack pointer.
    pub fn set_reg_sp(&mut self, v: u64)
        ensures
            *final(self) == (UserRegs { esp: as_word(v as int, word32()) as u32, ..*old(self) }),
    {
        self.esp = low_half(v);
    }

    /// The instruction pointer.
    pub fn reg_ip(&self) -> (r: u64)
        ensures
            r == self.eip,
    {
        self.eip as u64
    }

    /// Sets the instruction pointer.
    pub fn set_reg_ip(&mut self, v: u64)
        ensures
            *final(self) == (UserRegs { eip: as_word(v as int, word32()) as u32, ..*old(self) }),
    {
        self.eip = low_half(v);
    }

    /// The register of return values.
    pub fn reg_ret(&self) -> (r: u64)
        ensures
            r == self.eax,
    {
        self.eax as u64
    }

    /// Sets the number of the system call in progress.
    pub fn set_reg_sysnr(&mut self, v: i64)
        ensures
            *final(self) == (UserRegs {
                orig_eax: as_word(v as int, word32()) as u32,
                ..*old(self)
            }),
    {
        self.orig_eax = half_of(v);
    }
}

/// Lowers the stack pointer by `preserve` bytes and aligns it.
pub fn align_stack(regs: &mut UserRegs, preserve: i64)
    ensures
        *final(regs) == (UserRegs {
            esp: aligned(old(regs).esp as int, preserve as int, word32()) as u32,
            ..*old(regs)
        }),
{
    regs.esp = aligned32(regs.esp, preserve as i128);
}

/// The stack pointer where the arguments stand: all of them are on the stack.
pub open spec fn args_sp(sp: u32, args: Seq<i64>) -> u32 {
    let sp0 = aligned(sp as int, 0, word32());
    if args.len() > 0 {
        aligned(sp0, 4 * args.len() as int, word32()) as u32
    } else {
        sp0 as u32
    }
}

/// The stack pointer at the callee's entry, where the return address stands.
pub open spec fn entry_sp(sp: u32, args: Seq<i64>) -> u32 {
    as_word(args_sp(sp, args) - 4, word32()) as u32
}

/// Lays a function call into the registers; what is returned has to be written
/// to the process's memory, in order.
pub fn prepare_call(
    regs: &mut UserRegs,
    func_addr: u64,
    return_addr: u64,
    args: &[i64],
) -> (writes: Vec<RemoteWrite>)
    ensures
        *final(regs) == (UserRegs {
            esp: entry_sp(old(regs).esp, args@),
            eip: as_word(func_addr as int, word32()) as u32,
            ..*old(regs)
        }),
        writes@.len() == if args@.len() > 0 {
            2int
        } else {
            1
        },
        args@.len() > 0 ==> writes_to(
            writes@[0],
            args_sp(old(regs).esp, args@) as u64,
            words_bytes(args@, 4, word32()),
        ),
        writes_to(
            writes@.last(),
            entry_sp(old(regs).esp, args@) as u64,
            le_bytes(as_word(return_addr as int, word32()), 4),
        ),
{
    let mut writes: Vec<RemoteWrite> = Vec::new();
    align_stack(regs, 0);
    if args.len() > 0 {
        regs.esp = aligned32(regs.esp, (args.len() as i128) * 4);
        assert(args@.skip(0) =~= args@);
        writes.push(RemoteWrite { addr: regs.esp as u64, bytes: words32(args, 0) });
    }
    regs.esp = regs.esp.wrapping_sub(4);
    let mut ra: Vec<u8> = Vec::new();
    push_le(&mut ra, low_half(return_addr) as u64, 4);
    assert(ra@ =~= le_bytes(as_word(return_addr as int, word32()), 4));
    writes.push(RemoteWrite { addr: regs.esp as u64, bytes: ra });
    regs.eip = low_half(func_addr);
    writes
}

/// The registers at a system call instruction: arguments that are not given
/// are zero.
pub open spec fn syscall_regs(regs: UserRegs, gadget: u64, sysnr: i64, args: Seq<i64>) -> UserRegs {
    UserRegs {
        orig_eax: as_word(sysnr as int, word32()) as u32,
        eax: as_word(sysnr as int, word32()) as u32,
        ebx: arg_or(args, 0, 0, word32()) as u32,
        ecx: arg_or(args, 1, 0, word32()) as u32,
        edx: arg_or(args, 2, 0, word32()) as u32,
        esi: arg_or(args, 3, 0, word32()) as u32,
        edi: arg_or(args, 4, 0, word32()) as u32,
        ebp: arg_or(args, 5, 0, word32()) as u32,
        eip: as_word(gadget as int, word32()) as u32,
        ..regs
    }
}

/// Lays a system call into the registers.
pub fn prepare_syscall(regs: &mut UserRegs, syscall_gadget: u64, sysnr: i64, args: &[i64])
    ensures
        *final(regs) == syscall_regs(*old(regs), syscall_gadget, sysnr, args@),
{
    regs.orig_eax = half_of(sysnr);
    regs.eax = half_of(sysnr);
    regs.ebx = pick32(args, 0, 0);
    regs.ecx = pick32(args, 1, 0);
    regs.edx = pick32(args, 2, 0);
    regs.esi = pick32(args, 3, 0);
    regs.edi = pick32(args, 4, 0);
    regs.ebp = pick32(args, 5, 0);
    regs.eip = low_half(syscall_gadget);
}

/// A called function finds the stack as the calling convention has it: the
/// arguments start on a multiple of 16, and the return address stands just
/// below them.
pub proof fn law_entry_stack_follows_the_convention(sp: u32, args: Seq<i64>)
    ensures
        args_sp(sp, args) % 16 == 0,
        as_word(entry_sp(sp, args) + 4, word32()) == args_sp(sp, args),
        as_word(entry_sp(sp, args) + 4, word32()) % 16 == 0,
{
    let sp0 = aligned(sp as int, 0, word32());
    lemma_aligned(sp as int, 0, word32());
    lemma_aligned(sp0, 4 * args.len() as int, word32());
}

/// A call is laid out as the convention has it: all arguments on the stack, the
/// return address just below them, and the function in the instruction pointer,
/// all below what the process had on its stack. All other registers stay.
pub proof fn law_call_follows_the_convention(
    regs: &mut UserRegs,
    func: u64,
    ret: u64,
    args: &[i64],
    writes: Vec<RemoteWrite>,
)
    requires
        call_ensures(prepare_call, (regs, func, ret, args), writes),
        4 * args@.len() + 48 <= old(regs).esp,
        func < 0x1_0000_0000,
        ret < 0x1_0000_0000,
    ensures
        final(regs).eip == func,
        *final(regs) == (UserRegs {
            esp: final(regs).esp,
            eip: final(regs).eip,
            ..*old(regs)
        }),
        (final(regs).esp + 4) % 16 == 0,
        final(regs).esp + 4 + 4 * args@.len() <= old(regs).esp,
        writes@.last().addr == final(regs).esp,
        writes@.last().bytes@ == le_bytes(ret as int, 4),
        args@.len() == 0 ==> writes@.len() == 1,
        args@.len() > 0 ==> writes@.len() == 2 && writes@[0].addr == final(regs).esp + 4
            && writes@[0].bytes@.len() == 4 * args@.len(),
        forall|i: int|
            0 <= i < args@.len() ==> writes@[0].bytes@.subrange(i * 4, i * 4 + 4) == le_bytes(
                (#[trigger] args@[i]) as int % 0x1_0000_0000,
                4,
            ),
{
    let sp0 = aligned(old(regs).esp as int, 0, word32());
    crate::regs::law_lowered_stack_has_room(old(regs).esp as int, 0, word32());
    law_entry_stack_follows_the_convention(old(regs).esp, args@);
    if args@.len() > 0 {
        crate::regs::law_lowered_stack_has_room(sp0, 4 * args@.len() as int, word32());
        crate::regs::law_words_stand_in_order(args@, 4, word32(), 0);
    }
    assert forall|i: int| 0 <= i < args@.len() implies writes@[0].bytes@.subrange(i * 4, i * 4 + 4)
        == le_bytes((#[trigger] args@[i]) as int % 0x1_0000_0000, 4) by {
        crate::regs::law_words_stand_in_order(args@, 4, word32(), i);
    }
}

/// A system call is laid out as the kernel has it: the number in `eax`, six
/// arguments, zero where none is given, in `ebx`, `ecx`, `edx`, `esi`, `edi` and
/// `ebp`, and the instruction in the instruction pointer. The stack pointer and
/// all other registers stay.
pub proof fn law_system_call_follows_the_kernel(
    regs: UserRegs,
    gadget: u64,
    nr: i64,
    args: Seq<i64>,
)
    requires
        gadget < 0x1_0000_0000,
    ensures
        ({
            let r = syscall_regs(regs, gadget, nr, args);
            let put = seq![r.ebx, r.ecx, r.edx, r.esi, r.edi, r.ebp];
            &&& r.eip == gadget
            &&& r.eax == nr as int % 0x1_0000_0000
            &&& r.orig_eax == r.eax
            &&& r.esp == regs.esp
            &&& r.eflags == regs.eflags
            &&& r.cs == regs.cs
            &&& r.ss == regs.ss
            &&& forall|i: int|
                0 <= i < 6 ==> #[trigger] put[i] == if i < args.len() {
                    args[i] as int % 0x1_0000_0000
                } else {
                    0
                }
        }),
{
}

/// What is set is what is read: the stack pointer and the instruction pointer
/// keep what they get, and setting the one leaves the other.
pub proof fn law_registers_keep_what_they_get(
    a: &mut UserRegs,
    sp: u64,
    b: &mut UserRegs,
    ip: u64,
    got_sp: u64,
    got_ip: u64,
)
    requires
        call_ensures(UserRegs::set_reg_sp, (a, sp), ()),
        *old(b) == *final(a),
        call_ensures(UserRegs::set_reg_ip, (b, ip), ()),
        call_ensures(UserRegs::reg_sp, (&*final(b),), got_sp),
        call_ensures(UserRegs::reg_ip, (&*final(b),), got_ip),
    ensures
        sp < 0x1_0000_0000 ==> got_sp == sp,
        ip < 0x1_0000_0000 ==> got_ip == ip,
        final(b).eax == old(a).eax,
{
}

/// The number of a system call can be changed while it is in progress, and that
/// changes nothing else.
pub proof fn law_number_is_changed_alone(regs: &mut UserRegs, v: i64)
    requires
        call_ensures(UserRegs::set_reg_sysnr, (regs, v), ()),
    ensures
        final(regs).orig_eax == v as int % 0x1_0000_0000,
        final(regs).eax == old(regs).eax,
        final(regs).esp == old(regs).esp,
        final(regs).eip == old(regs).eip,
{
}

/// Lowering the stack leaves what is to be kept and at most fifteen bytes
/// more, on a multiple of sixteen, and changes nothing else.
pub proof fn law_stack_is_lowered_alone(regs: &mut UserRegs, preserve: i64)
    requires
        call_ensures(align_stack, (regs, preserve), ()),
        0 <= preserve,
        preserve + 16 <= old(regs).esp,
    ensures
        final(regs).esp % 16 == 0,
        old(regs).esp - preserve - 16 < final(regs).esp <= old(regs).esp - preserve,
        final(regs).eax == old(regs).eax,
        final(regs).eip == old(regs).eip,
        final(regs).ebp == old(regs).ebp,
{
    lemma_aligned(old(regs).esp as int, preserve as int, word32());
}

/// A system call leaves its result in the register that carried its number.
pub proof fn law_result_replaces_the_number(
    regs: &mut UserRegs,
    gadget: u64,
    nr: i64,
    args: &[i64],
    after: &UserRegs,
    v: u64,
)
    requires
        call_ensures(prepare_syscall, (regs, gadget, nr, args), ()),
        *after == *final(regs),
        call_ensures(UserRegs::reg_ret, (after,), v),
    ensures
        v == nr as int % 0x1_0000_0000,
{
}

} // verus!
