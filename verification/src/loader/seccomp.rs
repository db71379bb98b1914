//! The filter that lets the tracer see one marked system call, and the sign
//! by which such filters are visible.
use vstd::prelude::*;
use crate::daemon::chunk_len;

verus! {

/// One instruction of a filter.
#[derive(Clone, Copy, Debug, PartialEq, Eq, Structural)]
pub struct SockFilter {
    /// What it does.
    pub code: u16,
    /// How far to jump if the test holds.
    pub jt: u8,
    /// How far to jump if it does not.
    pub jf: u8,
    /// Its operand.
    pub k: u32,
}

/// Load a word of the system call's data.
pub const BPF_LD_W_ABS: u16 = 0x20;

/// Jump by whether the loaded word equals the operand.
pub const BPF_JMP_JEQ_K: u16 = 0x15;

/// End with the operand.
pub const BPF_RET_K: u16 = 0x06;

/// Show the system call to the tracer.
pub const SECCOMP_RET_TRACE: u32 = 0x7ff0_0000;

/// Let the system call pass.
pub const SECCOMP_RET_ALLOW: u32 = 0x7fff_0000;

/// Where the number of the system call stands in its data.
pub const NR_OFFSET: u32 = 0;

/// Where the first argument stands; each takes eight bytes.
pub const ARGS_OFFSET: u32 = 16;

/// An instruction without a jump.
pub fn bpf_stmt(code: u16, k: u32) -> (f: SockFilter)
    ensures
        f == (SockFilter { code, jt: 0, jf: 0, k }),
{
    SockFilter { code, jt: 0, jf: 0, k }
}

/// An instruction with jumps.
pub fn bpf_jump(code: u16, k: u32, jt: u8, jf: u8) -> (f: SockFilter)
    ensures
        f == (SockFilter { code, jt, jf, k }),
{
    SockFilter { code, jt, jf, k }
}

/// A system call: its number and the lower words of its arguments.
pub struct Call {
    /// The number.
    pub nr: u32,
    /// The lower words of the arguments.
    pub args: Seq<u32>,
}

/// The word of a system call's data at an offset.
pub open spec fn call_word(call: Call, offset: u32) -> u32 {
    if offset == NR_OFFSET {
        call.nr
    } else {
        call.args[(offset - ARGS_OFFSET) / 8]
    }
}

/// What a filter says of a system call, from instruction `pc` on with `acc`
/// loaded.
pub open spec fn filter_result(prog: Seq<SockFilter>, call: Call, pc: int, acc: u32) -> Option<u32>
    decreases
            if pc < prog.len() {
                prog.len() - pc
            } else {
                0
            },
{
    if !(0 <= pc < prog.len()) {
        None
    } else {
        let i = prog[pc];
        if i.code == BPF_RET_K {
            Some(i.k)
        } else if i.code == BPF_LD_W_ABS {
            filter_result(prog, call, pc + 1, call_word(call, i.k))
        } else if i.code == BPF_JMP_JEQ_K {
            let jump = if acc == i.k {
                i.jt as nat
            } else {
                i.jf as nat
            };
            filter_result(prog, call, pc + 1 + jump, acc)
        } else {
            None
        }
    }
}

/// The filter for a call of `exit_group` with these arguments.
pub open spec fn marked_filter(exit_group: u32, args: Seq<u32>) -> Seq<SockFilter> {
    seq![
        SockFilter { code: BPF_LD_W_ABS, jt: 0, jf: 0, k: NR_OFFSET },
        SockFilter { code: BPF_JMP_JEQ_K, jt: 0, jf: 9, k: exit_group },
        SockFilter { code: BPF_LD_W_ABS, jt: 0, jf: 0, k: 16 },
        SockFilter { code: BPF_JMP_JEQ_K, jt: 0, jf: 7, k: args[0] },
        SockFilter { code: BPF_LD_W_ABS, jt: 0, jf: 0, k: 24 },
        SockFilter { code: BPF_JMP_JEQ_K, jt: 0, jf: 5, k: args[1] },
        SockFilter { code: BPF_LD_W_ABS, jt: 0, jf: 0, k: 32 },
        SockFilter { code: BPF_JMP_JEQ_K, jt: 0, jf: 3, k: args[2] },
        SockFilter { code: BPF_LD_W_ABS, jt: 0, jf: 0, k: 40 },
        SockFilter { code: BPF_JMP_JEQ_K, jt: 0, jf: 1, k: args[3] },
        SockFilter { code: BPF_RET_K, jt: 0, jf: 0, k: SECCOMP_RET_TRACE },
        SockFilter { code: BPF_RET_K, jt: 0, jf: 0, k: SECCOMP_RET_ALLOW },
    ]
}

/// The filter shows the tracer exactly the calls of `exit_group` with the
/// marked arguments, and lets every other call pass.
pub proof fn law_filter_shows_the_marked_call(exit_group: u32, args: Seq<u32>, call: Call)
    requires
        args.len() == 4,
        call.args.len() == 6,
    ensures
        filter_result(marked_filter(exit_group, args), call, 0, 0) == Some(
            if call.nr == exit_group && call.args[0] == args[0] && call.args[1] == args[1]
                && call.args[2] == args[2] && call.args[3] == args[3] {
                SECCOMP_RET_TRACE
            } else {
                SECCOMP_RET_ALLOW
            },
        ),
{
    let prog = marked_filter(exit_group, args);
    let (nr, a0, a1, a2, a3) = (call.nr, call.args[0], call.args[1], call.args[2], call.args[3]);
    let allow = Some(SECCOMP_RET_ALLOW);
    assert(prog.len() == 12);
    assert(filter_result(prog, call, 11, nr) == allow);
    assert(filter_result(prog, call, 11, a0) == allow);
    assert(filter_result(prog, call, 11, a1) == allow);
    assert(filter_result(prog, call, 11, a2) == allow);
    assert(filter_result(prog, call, 11, a3) == allow);
    assert(filter_result(prog, call, 10, a3) == Some(SECCOMP_RET_TRACE));
    let r9 = filter_result(prog, call, 9, a3);
    assert(r9 == if a3 == args[3] {
        Some(SECCOMP_RET_TRACE)
    } else {
        allow
    });
    assert(filter_result(prog, call, 8, a2) == r9);
    let r7 = filter_result(prog, call, 7, a2);
    assert(r7 == if a2 == args[2] {
        r9
    } else {
        allow
    });
    assert(filter_result(prog, call, 6, a1) == r7);
    let r5 = filter_result(prog, call, 5, a1);
    assert(r5 == if a1 == args[1] {
        r7
    } else {
        allow
    });
    assert(filter_result(prog, call, 4, a0) == r5);
    let r3 = filter_result(prog, call, 3, a0);
    assert(r3 == if a0 == args[0] {
        r5
    } else {
        allow
    });
    assert(filter_result(prog, call, 2, nr) == r3);
    let r1 = filter_result(prog, call, 1, nr);
    assert(r1 == if nr == exit_group {
        r3
    } else {
        allow
    });
}

/// The arguments of the marked call: four random words, the first of them
/// with one bit set.
pub fn marked_args(random: [u32; 4]) -> (args: Vec<u32>)
    ensures
        args@ == seq![random[0] | 0x10000, random[1], random[2], random[3]],
{
    let mut args: Vec<u32> = Vec::new();
    args.push(random[0] | 0x10000);
    args.push(random[1]);
    args.push(random[2]);
    args.push(random[3]);
    assert(args@ =~= seq![random[0] | 0x10000, random[1], random[2], random[3]]);
    args
}

/// The filter for a call of `exit_group` with the marked arguments.
pub fn build_filter(exit_group: u32, args: &Vec<u32>) -> (prog: Vec<SockFilter>)
    requires
        args@.len() == 4,
    ensures
        prog@ == marked_filter(exit_group, args@),
{
    let mut prog: Vec<SockFilter> = Vec::new();
    prog.push(bpf_stmt(BPF_LD_W_ABS, NR_OFFSET));
    prog.push(bpf_jump(BPF_JMP_JEQ_K, exit_group, 0, 9));
    prog.push(bpf_stmt(BPF_LD_W_ABS, ARGS_OFFSET));
    prog.push(bpf_jump(BPF_JMP_JEQ_K, args[0], 0, 7));
    prog.push(bpf_stmt(BPF_LD_W_ABS, ARGS_OFFSET + 8));
    prog.push(bpf_jump(BPF_JMP_JEQ_K, args[1], 0, 5));
    prog.push(bpf_stmt(BPF_LD_W_ABS, ARGS_OFFSET + 16));
    prog.push(bpf_jump(BPF_JMP_JEQ_K, args[2], 0, 3));
    prog.push(bpf_stmt(BPF_LD_W_ABS, ARGS_OFFSET + 24));
    prog.push(bpf_jump(BPF_JMP_JEQ_K, args[3], 0, 1));
    prog.push(bpf_stmt(BPF_RET_K, SECCOMP_RET_TRACE));
    prog.push(bpf_stmt(BPF_RET_K, SECCOMP_RET_ALLOW));
    assert(prog@ =~= marked_filter(exit_group, args@));
    prog
}

/// The longest piece of a line that is read at once.
pub const STATUS_LINE: usize = 255;

/// The head of the line that counts the filters of a process.
pub open spec fn filters_head() -> Seq<u8> {
    seq![
        0x53u8, 0x65, 0x63, 0x63, 0x6f, 0x6d, 0x70, 0x5f, 0x66, 0x69, 0x6c, 0x74, 0x65, 0x72, 0x73, 0x3a,
    ]
}

/// A line counts the filters.
pub open spec fn counts_filters(line: Seq<u8>) -> bool {
    line.len() >= 16 && line.take(16) == filters_head()
}

/// Some line of the status counts the filters.
pub open spec fn shows_filters(status: Seq<u8>) -> bool
    decreases status.len(),
{
    let n = chunk_len(status, STATUS_LINE as nat);
    if status.len() == 0 || !(0 < n <= status.len()) {
        false
    } else {
        counts_filters(status.take(n as int)) || shows_filters(status.skip(n as int))
    }
}

fn has_filters_head(s: &Vec<u8>, at: usize, to: usize) -> (r: bool)
    requires
        at <= to <= s@.len(),
    ensures
        r == counts_filters(s@.subrange(at as int, to as int)),
{
    let head: [u8; 16] = [
        0x53, 0x65, 0x63, 0x63, 0x6f, 0x6d, 0x70, 0x5f, 0x66, 0x69, 0x6c, 0x74, 0x65, 0x72, 0x73, 0x3a,
    ];
    let ghost line = s@.subrange(at as int, to as int);
    assert(head@ =~= filters_head());
    if to - at < 16 {
        return false;
    }
    let mut i: usize = 0;
    while i < 16
        invariant
            i <= 16,
            head@ == filters_head(),
            head@.len() == 16,
            line == s@.subrange(at as int, to as int),
            at + 16 <= to <= s@.len(),
            forall|j: int| 0 <= j < i ==> #[trigger] line[j] == head@[j],
        decreases 16 - i,
    {
        assert(line[i as int] == s@[at + i]);
        if s[at + i] != head[i] {
            assert(line.take(16)[i as int] != head@[i as int]);
            return false;
        }
        i = i + 1;
    }
    assert(line.take(16) =~= filters_head());
    true
}

/// Whether the filters of a process are visible in its status; where the
/// status cannot be read they are taken to be.
pub fn seccomp_filters_visible(status: Option<&Vec<u8>>) -> (r: bool)
    ensures
        r == match status {
            Some(s) => shows_filters(s@),
            None => true,
        },
{
    let s = match status {
        Some(s) => s,
        None => {
            return true;
        },
    };
    let mut at: usize = 0;
    assert(s@.skip(0) =~= s@);
    while at < s.len()
        invariant
            at <= s@.len(),
            status == Some(s),
            shows_filters(s@) == shows_filters(s@.skip(at as int)),
        decreases s@.len() - at,
    {
        let ghost here = s@.skip(at as int);
        let to: usize = crate::daemon::chunk_end(s, at, STATUS_LINE);
        proof {
            crate::daemon::lemma_chunk_len(here, STATUS_LINE as nat);
            assert(here.take(to - at) =~= s@.subrange(at as int, to as int));
            assert(here.skip(to - at) =~= s@.skip(to as int));
        }
        if has_filters_head(s, at, to) {
            return true;
        }
        at = to;
    }
    assert(s@.skip(at as int).len() == 0);
    false
}

/// Whether the marked call is to be made: not where filters are visible, and
/// only with four random words at hand.
pub fn perform_ptrace_message_clear(
    filters_visible: bool,
    random: Option<[u32; 4]>,
    exit_group: u32,
) -> (r: Option<(Vec<SockFilter>, Vec<u32>)>)
    ensures
        match r {
            Some((prog, args)) => {
                &&& !filters_visible
                &&& random is Some
                &&& args@ == seq![
                    random->0[0] | 0x10000,
                    random->0[1],
                    random->0[2],
                    random->0[3],
                ]
                &&& prog@ == marked_filter(exit_group, args@)
            },
            None => filters_visible || random is None,
        },
{
    if filters_visible {
        return None;
    }
    match random {
        Some(words) => {
            let args = marked_args(words);
            let prog = build_filter(exit_group, &args);
            Some((prog, args))
        },
        None => None,
    }
}

/// The filter has the form that the kernel reads: words are loaded from the
/// places of the number and of the first four arguments, each is tested, and
/// no jump leaves the program.
pub proof fn law_filter_has_the_form_of_the_kernel(
    exit_group: u32,
    args: &Vec<u32>,
    prog: Vec<SockFilter>,
    i: int,
)
    requires
        args@.len() == 4,
        call_ensures(build_filter, (exit_group, args), prog),
        0 <= i < prog@.len(),
    ensures
        i < 10 && i % 2 == 0 ==> prog@[i].code == 0x20 && prog@[i].k == (if i == 0 {
            0
        } else {
            12 + 4 * (i / 2) * 2 - 4
        }),
        i < 10 && i % 2 == 1 ==> prog@[i].code == 0x15 && prog@[i].k == (if i == 1 {
            exit_group
        } else {
            args@[i / 2 - 1]
        }),
        i >= 10 ==> prog@[i].code == 0x06,
        prog@[i].code == 0x15 ==> i + 1 + prog@[i].jt < prog@.len() && i + 1 + prog@[i].jf
            < prog@.len(),
        prog@[i].code == 0x06 ==> prog@[i].k == 0x7ff0_0000 || prog@[i].k == 0x7fff_0000,
        prog@[i].code != 0x15 ==> prog@[i].jt == 0 && prog@[i].jf == 0,
        prog@.len() == 12,
{
}

/// Of the calls of a process that has the filter the tracer sees the one that
/// is then made and no call that differs from it: where filters are visible,
/// or nothing random is at hand, none is made.
pub proof fn law_marked_call_is_seen(
    filters_visible: bool,
    random: Option<[u32; 4]>,
    exit_group: u32,
    r: Option<(Vec<SockFilter>, Vec<u32>)>,
    call: Call,
)
    requires
        call_ensures(perform_ptrace_message_clear, (filters_visible, random, exit_group), r),
        call.args.len() == 6,
    ensures
        r is Some <==> !filters_visible && random is Some,
        r is Some ==> {
            let prog = (r->0).0@;
            let args = (r->0).1@;
            let result = filter_result(prog, call, 0, 0);
            &&& args.len() == 4
            &&& result == Some(0x7ff0_0000u32) <==> call.nr == exit_group && call.args.take(4)
                == args
            &&& result != Some(0x7ff0_0000u32) ==> result == Some(0x7fff_0000u32)
        },
{
    if r is Some {
        let args = (r->0).1@;
        law_filter_shows_the_marked_call(exit_group, args, call);
        let four = call.args.take(4);
        assert(four[0] == call.args[0] && four[1] == call.args[1] && four[2] == call.args[2]
            && four[3] == call.args[3]);
        if four[0] == args[0] && four[1] == args[1] && four[2] == args[2] && four[3] == args[3] {
            assert(four =~= args);
        }
    }
}

/// The marked arguments are the random words, but that the first is never
/// small: one bit of it is set, and no other changes.
pub proof fn law_mark_is_one_bit(random: [u32; 4], args: Vec<u32>)
    requires
        call_ensures(marked_args, (random,), args),
    ensures
        args@.len() == 4,
        args@[0] / 0x1_0000 % 2 == 1,
        args@[0] >= 0x1_0000,
        args@[0] % 0x1_0000 == random@[0] % 0x1_0000,
        args@[0] / 0x2_0000 == random@[0] / 0x2_0000,
        args@.skip(1) == random@.skip(1),
{
    let x = random@[0];
    assert((x | 0x10000u32) / 0x1_0000 % 2 == 1 && (x | 0x10000u32) >= 0x1_0000 && (x
        | 0x10000u32) % 0x1_0000 == x % 0x1_0000 && (x | 0x10000u32) / 0x2_0000 == x / 0x2_0000)
        by (bit_vector);
}

/// A status is read line by line: a first line that is not too long says
/// whether filters are visible by how it begins, and where it does not, the
/// lines behind it say it.
pub proof fn law_status_is_read_by_lines(line: Seq<u8>, rest: Seq<u8>)
    requires
        !line.contains(0x0a),
        line.len() < 255,
    ensures
        shows_filters(line + seq![0x0au8] + rest) <==> {
            ||| line.len() >= 16 && line[0] == 0x53 && line[1] == 0x65 && line[2] == 0x63 && line[3]
                == 0x63 && line[4] == 0x6f && line[5] == 0x6d && line[6] == 0x70 && line[7] == 0x5f
                && line[8] == 0x66 && line[9] == 0x69 && line[10] == 0x6c && line[11] == 0x74
                && line[12] == 0x65 && line[13] == 0x72 && line[14] == 0x73 && line[15] == 0x3a
            ||| shows_filters(rest)
        },
        !shows_filters(seq![]),
{
    let s = line + seq![0x0au8] + rest;
    lemma_first_line(line, rest, 255);
    let n = line.len() + 1;
    assert(s.skip(n as int) == rest);
    let t = s.take(n as int);
    assert(t == line + seq![0x0au8]);
    if counts_filters(t) {
        let h = filters_head();
        assert forall|k: int| 0 <= k < 16 implies t[k] == #[trigger] h[k] by {
            assert(t.take(16)[k] == h[k]);
        }
        assert(t[0] == h[0] && t[1] == h[1] && t[2] == h[2] && t[3] == h[3] && t[4] == h[4] && t[5]
            == h[5] && t[6] == h[6] && t[7] == h[7] && t[8] == h[8] && t[9] == h[9] && t[10]
            == h[10] && t[11] == h[11] && t[12] == h[12] && t[13] == h[13] && t[14] == h[14]
            && t[15] == h[15]);
        if line.len() < 16 {
            assert(line.len() == 15);
            assert(t[15] == 0x0a);
        }
        assert(forall|k: int| 0 <= k < 16 ==> #[trigger] t[k] == line[k]);
    }
    if line.len() >= 16 && line[0] == 0x53 && line[1] == 0x65 && line[2] == 0x63 && line[3] == 0x63
        && line[4] == 0x6f && line[5] == 0x6d && line[6] == 0x70 && line[7] == 0x5f && line[8]
        == 0x66 && line[9] == 0x69 && line[10] == 0x6c && line[11] == 0x74 && line[12] == 0x65
        && line[13] == 0x72 && line[14] == 0x73 && line[15] == 0x3a {
        assert(t.take(16) == filters_head());
    }
}

proof fn lemma_first_line(line: Seq<u8>, rest: Seq<u8>, cap: nat)
    requires
        !line.contains(0x0a),
        line.len() < cap,
    ensures
        chunk_len(line + seq![0x0au8] + rest, cap) == line.len() + 1,
    decreases line.len(),
{
    let s = line + seq![0x0au8] + rest;
    if line.len() > 0 {
        assert(line[0] != 0x0a);
        assert(s.drop_first() == line.drop_first() + seq![0x0au8] + rest);
        assert forall|k: int| 0 <= k < line.len() - 1 implies line.drop_first()[k] != 0x0a by {
            assert(line[k + 1] != 0x0a);
        }
        lemma_first_line(line.drop_first(), rest, (cap - 1) as nat);
    }
}

/// A status that cannot be read is taken to show filters.
pub proof fn law_unread_status_shows_filters(r: bool)
    requires
        call_ensures(seccomp_filters_visible, (None,), r),
    ensures
        r,
{
}

} // verus!
