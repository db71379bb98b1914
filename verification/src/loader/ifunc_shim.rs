//! The memory and string functions that the library brings along, on a
//! memory in which both operands lie, so that they may overlap.
use vstd::prelude::*;
use crate::text::{first_at, has_part, occurs_at};

verus! {

/// A range of the memory lies within it.
pub open spec fn in_memory(len: nat, at: usize, n: int) -> bool {
    at + n <= len
}

/// The memory after bytes were copied one by one from the front.
pub open spec fn copied_forward(mem: Seq<u8>, dst: int, src: int, n: nat) -> Seq<u8>
    decreases n,
{
    if n == 0 {
        mem
    } else {
        let before = copied_forward(mem, dst, src, (n - 1) as nat);
        before.update(dst + n - 1, before[src + n - 1])
    }
}

/// The memory after a range was copied as a whole.
pub open spec fn moved(mem: Seq<u8>, dst: int, src: int, n: int) -> Seq<u8> {
    Seq::new(
        mem.len(),
        |k: int|
            if dst <= k < dst + n {
                mem[src + k - dst]
            } else {
                mem[k]
            },
    )
}

/// Copying from the front copies the range as a whole where the target does
/// not start inside the source.
pub proof fn law_forward_copy_moves(mem: Seq<u8>, dst: int, src: int, n: nat)
    requires
        0 <= dst,
        0 <= src,
        dst + n <= mem.len(),
        src + n <= mem.len(),
        dst <= src || src + n <= dst,
    ensures
        copied_forward(mem, dst, src, n) == moved(mem, dst, src, n as int),
    decreases n,
{
    if n > 0 {
        law_forward_copy_moves(mem, dst, src, (n - 1) as nat);
    }
    assert(copied_forward(mem, dst, src, n) =~= moved(mem, dst, src, n as int));
}

/// Copies bytes one by one from the front, and returns the target.
pub fn memcpy_impl(mem: &mut Vec<u8>, dst: usize, src: usize, n: usize) -> (r: usize)
    requires
        in_memory(old(mem)@.len(), dst, n as int),
        in_memory(old(mem)@.len(), src, n as int),
    ensures
        r == dst,
        final(mem)@ == copied_forward(old(mem)@, dst as int, src as int, n as nat),
{
    let mut i: usize = 0;
    assert(mem.len() == mem@.len());
    while i < n
        invariant
            i <= n,
            mem@.len() == old(mem)@.len(),
            mem@.len() <= usize::MAX,
            in_memory(mem@.len(), dst, n as int),
            in_memory(mem@.len(), src, n as int),
            mem@ == copied_forward(old(mem)@, dst as int, src as int, i as nat),
        decreases n - i,
    {
        let b: u8 = mem[src + i];
        mem.set(dst + i, b);
        i = i + 1;
    }
    dst
}

/// Copies a range as a whole, also where the two overlap, and returns the
/// target.
pub fn memmove_impl(mem: &mut Vec<u8>, dst: usize, src: usize, n: usize) -> (r: usize)
    requires
        in_memory(old(mem)@.len(), dst, n as int),
        in_memory(old(mem)@.len(), src, n as int),
    ensures
        r == dst,
        final(mem)@ == moved(old(mem)@, dst as int, src as int, n as int),
{
    if dst < src {
        proof {
            law_forward_copy_moves(mem@, dst as int, src as int, n as nat);
        }
        memcpy_impl(mem, dst, src, n);
    } else if dst > src {
        let mut i: usize = n;
        assert(mem.len() == mem@.len());
        while i > 0
            invariant
                i <= n,
                dst > src,
                mem@.len() == old(mem)@.len(),
                mem@.len() <= usize::MAX,
                in_memory(mem@.len(), dst, n as int),
                in_memory(mem@.len(), src, n as int),
                forall|k: int|
                    0 <= k < mem@.len() ==> #[trigger] mem@[k] == if dst + i <= k < dst + n {
                        old(mem)@[src + k - dst]
                    } else {
                        old(mem)@[k]
                    },
            decreases i,
        {
            let b: u8 = mem[src + (i - 1)];
            mem.set(dst + (i - 1), b);
            i = i - 1;
        }
        assert(mem@ =~= moved(old(mem)@, dst as int, src as int, n as int));
    } else {
        assert(mem@ =~= moved(old(mem)@, dst as int, src as int, n as int));
    }
    dst
}

/// The length of the text at a place: up to its zero, or to the end of the
/// memory.
pub open spec fn text_len(s: Seq<u8>) -> int
    decreases s.len(),
{
    if s.len() == 0 || s[0] == 0 {
        0
    } else {
        1 + text_len(s.drop_first())
    }
}

proof fn lemma_text_len(s: Seq<u8>)
    ensures
        0 <= text_len(s) <= s.len(),
        text_len(s) < s.len() ==> s[text_len(s)] == 0,
        forall|j: int| 0 <= j < text_len(s) ==> #[trigger] s[j] != 0,
    decreases s.len(),
{
    if s.len() > 0 && s[0] != 0 {
        let rest = s.drop_first();
        lemma_text_len(rest);
        assert forall|j: int| 0 <= j < text_len(s) implies #[trigger] s[j] != 0 by {
            if j > 0 {
                assert(s[j] == rest[j - 1]);
            }
        }
        if text_len(s) < s.len() {
            assert(s[text_len(s)] == rest[text_len(rest)]);
        }
    }
}

/// A text ends in a zero.
pub open spec fn ends(s: Seq<u8>) -> bool {
    text_len(s) < s.len()
}

/// Copies a text with its zero, and returns the target. The target does not
/// start inside the text.
pub fn strcpy_impl(mem: &mut Vec<u8>, dst: usize, src: usize) -> (r: usize)
    requires
        src <= old(mem)@.len(),
        ends(old(mem)@.skip(src as int)),
        in_memory(old(mem)@.len(), dst, text_len(old(mem)@.skip(src as int)) + 1),
        dst <= src || dst > src + text_len(old(mem)@.skip(src as int)),
    ensures
        r == dst,
        final(mem)@ == moved(
            old(mem)@,
            dst as int,
            src as int,
            text_len(old(mem)@.skip(src as int)) + 1,
        ),
{
    let ghost first = mem@;
    let ghost text = first.skip(src as int);
    let ghost n = text_len(text);
    proof {
        lemma_text_len(text);
    }
    let mut i: usize = 0;
    assert(mem.len() == mem@.len());
    loop
        invariant
            first == old(mem)@,
            text == first.skip(src as int),
            n == text_len(text),
            0 <= i <= n < text.len(),
            src <= first.len() <= usize::MAX,
            text[n] == 0,
            forall|j: int| 0 <= j < n ==> #[trigger] text[j] != 0,
            in_memory(first.len(), dst, n + 1),
            dst <= src || dst > src + n,
            mem@ == moved(first, dst as int, src as int, i as int),
        decreases n - i,
    {
        let b: u8 = mem[src + i];
        assert(b == text[i as int]);
        mem.set(dst + i, b);
        assert(mem@ =~= moved(first, dst as int, src as int, i + 1));
        if b == 0 {
            assert(i == n);
            return dst;
        }
        i = i + 1;
    }
}

/// Fills a range with the low byte of a number, and returns the target.
pub fn memset_chk_impl(mem: &mut Vec<u8>, dst: usize, c: i32, n: usize) -> (r: usize)
    requires
        in_memory(old(mem)@.len(), dst, n as int),
    ensures
        r == dst,
        final(mem)@.len() == old(mem)@.len(),
        forall|k: int|
            0 <= k < old(mem)@.len() ==> #[trigger] final(mem)@[k] == if dst <= k < dst + n {
                (c as int % 256) as u8
            } else {
                old(mem)@[k]
            },
{
    assert(c as u8 == c % 256) by (bit_vector);
    let b: u8 = c as u8;
    let mut i: usize = 0;
    assert(mem.len() == mem@.len());
    while i < n
        invariant
            i <= n,
            b == c as int % 256,
            mem@.len() == old(mem)@.len(),
            mem@.len() <= usize::MAX,
            in_memory(mem@.len(), dst, n as int),
            forall|k: int|
                0 <= k < mem@.len() ==> #[trigger] mem@[k] == if dst <= k < dst + i {
                    b
                } else {
                    old(mem)@[k]
                },
        decreases n - i,
    {
        mem.set(dst + i, b);
        i = i + 1;
    }
    dst
}

/// How two texts differ: the difference of their first bytes that do, or of
/// the zeros at which both end.
pub open spec fn text_order(a: Seq<u8>, b: Seq<u8>) -> int
    decreases a.len(),
{
    if a.len() == 0 || b.len() == 0 {
        0
    } else if a[0] == 0 || a[0] != b[0] {
        a[0] - b[0]
    } else {
        text_order(a.drop_first(), b.drop_first())
    }
}

/// How two texts differ within so many bytes.
pub open spec fn text_order_upto(a: Seq<u8>, b: Seq<u8>, n: nat) -> int
    decreases n,
{
    if n == 0 || a.len() == 0 || b.len() == 0 {
        0
    } else if a[0] != b[0] {
        a[0] - b[0]
    } else if a[0] == 0 {
        0
    } else {
        text_order_upto(a.drop_first(), b.drop_first(), (n - 1) as nat)
    }
}

/// How two ranges differ within so many bytes.
pub open spec fn byte_order(a: Seq<u8>, b: Seq<u8>, n: nat) -> int
    decreases n,
{
    if n == 0 || a.len() == 0 || b.len() == 0 {
        0
    } else if a[0] != b[0] {
        a[0] - b[0]
    } else {
        byte_order(a.drop_first(), b.drop_first(), (n - 1) as nat)
    }
}

/// The memory holds so many bytes, or a text that ends before.
pub open spec fn readable(s: Seq<u8>, n: usize) -> bool {
    s.len() >= n || ends(s)
}

/// So many bytes as a length.
pub open spec fn length(n: usize) -> nat {
    n as nat
}

fn difference(a: u8, b: u8) -> (r: i32)
    ensures
        r == a - b,
{
    a as i32 - b as i32
}

fn order_texts(a: &Vec<u8>, b: &Vec<u8>) -> (r: i32)
    requires
        ends(a@),
        ends(b@),
    ensures
        r == text_order(a@, b@),
{
    let mut i: usize = 0;
    proof {
        lemma_text_len(a@);
        lemma_text_len(b@);
        assert(a@.skip(0) =~= a@);
        assert(b@.skip(0) =~= b@);
    }
    let ghost na = text_len(a@);
    let ghost nb = text_len(b@);
    assert(a.len() == a@.len());
    loop
        invariant
            na < a@.len() <= usize::MAX,
            nb < b@.len(),
            a@[na] == 0,
            b@[nb] == 0,
            i <= na,
            i <= nb,
            text_order(a@, b@) == text_order(a@.skip(i as int), b@.skip(i as int)),
        decreases a@.len() - i,
    {
        assert(a@.skip(i as int)[0] == a@[i as int]);
        assert(b@.skip(i as int)[0] == b@[i as int]);
        if a[i] == 0 || a[i] != b[i] {
            return difference(a[i], b[i]);
        }
        assert(a@.skip(i as int).drop_first() =~= a@.skip(i + 1));
        assert(b@.skip(i as int).drop_first() =~= b@.skip(i + 1));
        i = i + 1;
    }
}

fn order_texts_upto(a: &Vec<u8>, b: &Vec<u8>, n: usize) -> (r: i32)
    requires
        readable(a@, n),
        readable(b@, n),
    ensures
        r == text_order_upto(a@, b@, n as nat),
{
    let mut i: usize = 0;
    proof {
        lemma_text_len(a@);
        lemma_text_len(b@);
        assert(a@.skip(0) =~= a@);
        assert(b@.skip(0) =~= b@);
    }
    let ghost na = text_len(a@);
    let ghost nb = text_len(b@);
    while i < n
        invariant
            i <= n,
            na == text_len(a@),
            nb == text_len(b@),
            readable(a@, n),
            readable(b@, n),
            0 <= na <= a@.len(),
            0 <= nb <= b@.len(),
            na < a@.len() ==> a@[na] == 0,
            nb < b@.len() ==> b@[nb] == 0,
            i <= na,
            i <= nb,
            text_order_upto(a@, b@, n as nat) == text_order_upto(
                a@.skip(i as int),
                b@.skip(i as int),
                (n - i) as nat,
            ),
        decreases n - i,
    {
        assert(i < a@.len());
        assert(i < b@.len());
        assert(a@.skip(i as int)[0] == a@[i as int]);
        assert(b@.skip(i as int)[0] == b@[i as int]);
        if a[i] != b[i] {
            return difference(a[i], b[i]);
        }
        if a[i] == 0 {
            return 0;
        }
        assert(a@.skip(i as int).drop_first() =~= a@.skip(i + 1));
        assert(b@.skip(i as int).drop_first() =~= b@.skip(i + 1));
        i = i + 1;
    }
    0
}

fn order_bytes(a: &Vec<u8>, b: &Vec<u8>, n: usize) -> (r: i32)
    requires
        a@.len() >= n,
        b@.len() >= n,
    ensures
        r == byte_order(a@, b@, n as nat),
{
    let mut i: usize = 0;
    assert(a@.skip(0) =~= a@);
    assert(b@.skip(0) =~= b@);
    while i < n
        invariant
            i <= n,
            a@.len() >= n,
            b@.len() >= n,
            byte_order(a@, b@, n as nat) == byte_order(
                a@.skip(i as int),
                b@.skip(i as int),
                (n - i) as nat,
            ),
        decreases n - i,
    {
        assert(a@.skip(i as int)[0] == a@[i as int]);
        assert(b@.skip(i as int)[0] == b@[i as int]);
        if a[i] != b[i] {
            return difference(a[i], b[i]);
        }
        assert(a@.skip(i as int).drop_first() =~= a@.skip(i + 1));
        assert(b@.skip(i as int).drop_first() =~= b@.skip(i + 1));
        i = i + 1;
    }
    0
}

/// How two texts differ.
pub fn strcmp_impl(s1: &Vec<u8>, s2: &Vec<u8>) -> (r: i32)
    requires
        ends(s1@),
        ends(s2@),
    ensures
        r == text_order(s1@, s2@),
{
    order_texts(s1, s2)
}

/// How two texts differ within so many bytes.
pub fn strncmp_impl(s1: &Vec<u8>, s2: &Vec<u8>, n: usize) -> (r: i32)
    requires
        readable(s1@, n),
        readable(s2@, n),
    ensures
        r == text_order_upto(s1@, s2@, length(n)),
{
    order_texts_upto(s1, s2, n)
}

/// How two ranges differ within so many bytes.
pub fn memcmp_impl(s1: &Vec<u8>, s2: &Vec<u8>, n: usize) -> (r: i32)
    requires
        s1@.len() >= n,
        s2@.len() >= n,
    ensures
        r == byte_order(s1@, s2@, length(n)),
{
    order_bytes(s1, s2, n)
}

/// Two texts do not differ exactly if they are the same up to their zeros.
pub proof fn law_same_texts_do_not_differ(a: Seq<u8>, b: Seq<u8>)
    requires
        ends(a),
        ends(b),
    ensures
        (text_order(a, b) == 0) == (a.take(text_len(a)) == b.take(text_len(b))),
    decreases a.len(),
{
    lemma_text_len(a);
    lemma_text_len(b);
    let x = a.take(text_len(a));
    let y = b.take(text_len(b));
    if a[0] == 0 || a[0] != b[0] {
        if a[0] == b[0] {
            assert(x =~= y);
        } else {
            if x == y {
                assert(x.len() == text_len(a) && y.len() == text_len(b));
                if text_len(a) > 0 {
                    assert(x[0] == a[0] && y[0] == b[0]);
                }
            }
        }
    } else {
        let (ra, rb) = (a.drop_first(), b.drop_first());
        law_same_texts_do_not_differ(ra, rb);
        let (xr, yr) = (ra.take(text_len(ra)), rb.take(text_len(rb)));
        assert(x =~= seq![a[0]] + xr);
        assert(y =~= seq![b[0]] + yr);
        if x == y {
            assert(xr =~= x.drop_first());
            assert(yr =~= y.drop_first());
        }
    }
}

/// The difference of two texts changes its sign when they change places.
pub proof fn law_difference_is_antisymmetric(a: Seq<u8>, b: Seq<u8>)
    requires
        ends(a),
        ends(b),
    ensures
        text_order(a, b) == -text_order(b, a),
    decreases a.len(),
{
    lemma_text_len(a);
    lemma_text_len(b);
    if !(a[0] == 0 || a[0] != b[0]) {
        law_difference_is_antisymmetric(a.drop_first(), b.drop_first());
    }
}

/// The place of the first occurrence of one text in another; an empty text
/// occurs at the start.
pub fn strstr_impl(haystack: &Vec<u8>, needle: &Vec<u8>) -> (r: Option<usize>)
    requires
        ends(haystack@),
        ends(needle@),
    ensures
        ({
            let h = haystack@.take(text_len(haystack@));
            let n = needle@.take(text_len(needle@));
            match r {
                Some(i) => first_at(h, n, i as int),
                None => forall|i: int| !occurs_at(h, n, i),
            }
        }),
        r is Some <==> has_part(
            haystack@.take(text_len(haystack@)),
            needle@.take(text_len(needle@)),
        ),
{
    let hl: usize = text_end(haystack);
    let nl: usize = text_end(needle);
    let ghost h = haystack@.take(hl as int);
    let ghost n = needle@.take(nl as int);
    let mut i: usize = 0;
    if nl == 0 {
        assert(h.subrange(0, 0) =~= n);
        assert(occurs_at(h, n, 0));
        return Some(0);
    }
    while i < hl
        invariant
            i <= hl < haystack@.len(),
            0 < nl < needle@.len(),
            hl == text_len(haystack@),
            nl == text_len(needle@),
            h == haystack@.take(hl as int),
            n == needle@.take(nl as int),
            forall|j: int| 0 <= j < i ==> !occurs_at(h, n, j),
        decreases hl - i,
    {
        if bytes_at(haystack, hl, needle, nl, i) {
            return Some(i);
        }
        i = i + 1;
    }
    None
}

fn text_end(s: &Vec<u8>) -> (r: usize)
    requires
        ends(s@),
    ensures
        r == text_len(s@),
        r < s@.len(),
{
    proof {
        lemma_text_len(s@);
        assert(s@.skip(0) =~= s@);
    }
    let ghost n = text_len(s@);
    let mut i: usize = 0;
    assert(s.len() == s@.len());
    while s[i] != 0
        invariant
            i <= n,
            n == text_len(s@),
            n < s@.len() <= usize::MAX,
            s@[n] == 0,
            forall|j: int| 0 <= j < n ==> #[trigger] s@[j] != 0,
        decreases n - i,
    {
        i = i + 1;
    }
    i
}

fn bytes_at(h: &Vec<u8>, hl: usize, n: &Vec<u8>, nl: usize, at: usize) -> (r: bool)
    requires
        at <= hl <= h@.len(),
        nl <= n@.len(),
    ensures
        r == occurs_at(h@.take(hl as int), n@.take(nl as int), at as int),
{
    let ghost x = h@.take(hl as int);
    let ghost y = n@.take(nl as int);
    if nl > hl - at {
        return false;
    }
    let mut k: usize = 0;
    while k < nl
        invariant
            k <= nl <= n@.len(),
            at + nl <= hl <= h@.len(),
            x == h@.take(hl as int),
            y == n@.take(nl as int),
            forall|j: int| 0 <= j < k ==> #[trigger] y[j] == x[at + j],
        decreases nl - k,
    {
        if h[at + k] != n[k] {
            assert(x.subrange(at as int, at + nl)[k as int] != y[k as int]);
            return false;
        }
        k = k + 1;
    }
    assert(x.subrange(at as int, at + nl) =~= y);
    true
}

/// Copying from the front changes nothing but the target, and a target behind
/// the source repeats it: each byte is that which the source has in the end.
pub proof fn law_forward_copy_repeats(mem: Seq<u8>, dst: int, src: int, n: nat)
    requires
        0 <= src < dst,
        dst + n <= mem.len(),
    ensures
        copied_forward(mem, dst, src, n).len() == mem.len(),
        forall|k: int|
            0 <= k < mem.len() && !(dst <= k < dst + n) ==> #[trigger] copied_forward(
                mem,
                dst,
                src,
                n,
            )[k] == mem[k],
        forall|k: int|
            dst <= k < dst + n ==> #[trigger] copied_forward(mem, dst, src, n)[k]
                == copied_forward(mem, dst, src, n)[src + k - dst],
    decreases n,
{
    if n > 0 {
        let m = (n - 1) as nat;
        law_forward_copy_repeats(mem, dst, src, m);
        let before = copied_forward(mem, dst, src, m);
        let after = copied_forward(mem, dst, src, n);
        assert(after == before.update(dst + n - 1, before[src + n - 1]));
        assert forall|k: int| dst <= k < dst + n implies #[trigger] after[k] == after[src + k
            - dst] by {
            if k < dst + n - 1 {
                assert(before[k] == before[src + k - dst]);
            }
        }
    }
}

/// Where source and target do not overlap, both ways of copying agree, and
/// the target holds what the source holds.
pub proof fn law_copies_agree(
    a: &mut Vec<u8>,
    b: &mut Vec<u8>,
    dst: usize,
    src: usize,
    n: usize,
    ra: usize,
    rb: usize,
)
    requires
        old(a)@ == old(b)@,
        dst + n <= old(a)@.len(),
        src + n <= old(a)@.len(),
        dst + n <= src || src + n <= dst,
        call_ensures(memcpy_impl, (a, dst, src, n), ra),
        call_ensures(memmove_impl, (b, dst, src, n), rb),
    ensures
        ra == dst,
        rb == dst,
        final(a)@ == final(b)@,
        final(a)@.subrange(dst as int, dst + n) == old(a)@.subrange(src as int, src + n),
        final(a)@.subrange(src as int, src + n) == old(a)@.subrange(src as int, src + n),
{
    law_forward_copy_moves(old(a)@, dst as int, src as int, n as nat);
}

/// Moving a range puts the whole of it, as it was, at the target, and leaves
/// the rest, wherever the two lie.
pub proof fn law_move_keeps_the_range(
    mem: &mut Vec<u8>,
    dst: usize,
    src: usize,
    n: usize,
    r: usize,
)
    requires
        dst + n <= old(mem)@.len(),
        src + n <= old(mem)@.len(),
        call_ensures(memmove_impl, (mem, dst, src, n), r),
    ensures
        r == dst,
        final(mem)@ == old(mem)@.take(dst as int) + old(mem)@.subrange(src as int, src + n)
            + old(mem)@.skip(dst + n),
{
}

/// A text runs to its first zero.
pub proof fn law_text_runs_to_its_zero(text: Seq<u8>, rest: Seq<u8>)
    requires
        !text.contains(0),
    ensures
        text_len(text + seq![0u8] + rest) == text.len(),
        ends(text + seq![0u8] + rest),
{
    let s = text + seq![0u8] + rest;
    lemma_text_len(s);
    if text_len(s) < text.len() {
        assert(text[text_len(s)] == 0);
    } else if text_len(s) > text.len() {
        assert(s[text.len() as int] != 0);
    }
}

/// Copying a text puts its characters and a zero at the target, and leaves
/// the rest.
pub proof fn law_copied_text_ends(
    mem: &mut Vec<u8>,
    dst: usize,
    src: usize,
    text: Seq<u8>,
    rest: Seq<u8>,
    r: usize,
)
    requires
        !text.contains(0),
        src <= old(mem)@.len(),
        old(mem)@.skip(src as int) == text + seq![0u8] + rest,
        dst + text.len() + 1 <= old(mem)@.len(),
        call_ensures(strcpy_impl, (mem, dst, src), r),
    ensures
        r == dst,
        final(mem)@ == old(mem)@.take(dst as int) + text + seq![0u8] + old(mem)@.skip(
            dst + text.len() + 1,
        ),
{
    law_text_runs_to_its_zero(text, rest);
    let s = text + seq![0u8] + rest;
    assert forall|k: int| 0 <= k <= text.len() implies old(mem)@[src + k] == #[trigger] s[k] by {
        assert(old(mem)@.skip(src as int)[k] == s[k]);
    }
    assert(text_len(old(mem)@.skip(src as int)) == text.len());
    assert(s[text.len() as int] == 0);
    let want = old(mem)@.take(dst as int) + text + seq![0u8] + old(mem)@.skip(
        dst + text.len() + 1,
    );
    assert forall|k: int| 0 <= k < want.len() implies final(mem)@[k] == #[trigger] want[k] by {
        if dst <= k < dst + text.len() + 1 {
            assert(old(mem)@[src + (k - dst)] == s[k - dst]);
        }
    }
    assert(final(mem)@ =~= want);
}

/// Filling writes one byte throughout, which differs from the number by a
/// multiple of what a byte can count, and leaves the rest.
pub proof fn law_filled_with_the_low_byte(
    mem: &mut Vec<u8>,
    dst: usize,
    c: i32,
    n: usize,
    r: usize,
    k: int,
)
    requires
        dst + n <= old(mem)@.len(),
        0 <= k < old(mem)@.len(),
        call_ensures(memset_chk_impl, (mem, dst, c, n), r),
    ensures
        r == dst,
        dst <= k < dst + n ==> (c - final(mem)@[k]) % 256 == 0,
        !(dst <= k < dst + n) ==> final(mem)@[k] == old(mem)@[k],
{
}

/// Two texts are ordered by their first bytes that differ.
pub proof fn law_first_difference_orders(a: Seq<u8>, b: Seq<u8>, i: int)
    requires
        0 <= i < a.len(),
        i < b.len(),
        forall|j: int| 0 <= j < i ==> a[j] == #[trigger] b[j] && b[j] != 0,
        a[i] != b[i] || a[i] == 0,
    ensures
        text_order(a, b) == a[i] - b[i],
        forall|n: nat| n > i ==> #[trigger] text_order_upto(a, b, n) == a[i] - b[i],
        forall|n: nat| n <= i ==> #[trigger] text_order_upto(a, b, n) == 0,
    decreases i,
{
    if i > 0 {
        let c = a.drop_first();
        let d = b.drop_first();
        assert forall|j: int| 0 <= j < i - 1 implies c[j] == #[trigger] d[j] && d[j] != 0 by {
            assert(a[j + 1] == b[j + 1]);
        }
        assert(a[0] == b[0]);
        law_first_difference_orders(c, d, i - 1);
        assert forall|n: nat| n > i implies #[trigger] text_order_upto(a, b, n) == a[i]
            - b[i] by {
            assert(text_order_upto(a, b, n) == text_order_upto(c, d, (n - 1) as nat));
        }
        assert forall|n: nat| n <= i implies #[trigger] text_order_upto(a, b, n) == 0 by {
            if n > 0 {
                assert(text_order_upto(a, b, n) == text_order_upto(c, d, (n - 1) as nat));
            }
        }
    }
}

/// Two ranges are ordered by their first bytes that differ, zeros or not.
pub proof fn law_first_difference_orders_bytes(a: Seq<u8>, b: Seq<u8>, n: nat, i: int)
    requires
        0 <= i < n,
        n <= a.len(),
        n <= b.len(),
        forall|j: int| 0 <= j < i ==> a[j] == #[trigger] b[j],
        a[i] != b[i],
    ensures
        byte_order(a, b, n) == a[i] - b[i],
    decreases i,
{
    if i > 0 {
        let c = a.drop_first();
        let d = b.drop_first();
        assert forall|j: int| 0 <= j < i - 1 implies c[j] == #[trigger] d[j] by {
            assert(a[j + 1] == b[j + 1]);
        }
        assert(a[0] == b[0]);
        law_first_difference_orders_bytes(c, d, (n - 1) as nat, i - 1);
    }
}

/// Two ranges do not differ exactly if they hold the same bytes.
pub proof fn law_same_bytes_do_not_differ(a: Seq<u8>, b: Seq<u8>, n: nat)
    requires
        n <= a.len(),
        n <= b.len(),
    ensures
        byte_order(a, b, n) == 0 <==> a.take(n as int) == b.take(n as int),
    decreases n,
{
    let x = a.take(n as int);
    let y = b.take(n as int);
    if n == 0 {
        assert(x =~= y);
    } else if a[0] != b[0] {
        assert(x[0] != y[0]);
    } else {
        let m = (n - 1) as nat;
        law_same_bytes_do_not_differ(a.drop_first(), b.drop_first(), m);
        assert(x =~= seq![a[0]] + a.drop_first().take(m as int));
        assert(y =~= seq![b[0]] + b.drop_first().take(m as int));
        assert(x.drop_first() =~= a.drop_first().take(m as int));
        assert(y.drop_first() =~= b.drop_first().take(m as int));
    }
}

/// A text is found at the start of any text that it begins.
pub proof fn law_beginning_is_found_at_once(
    haystack: &Vec<u8>,
    needle: &Vec<u8>,
    r: Option<usize>,
)
    requires
        ends(haystack@),
        ends(needle@),
        text_len(needle@) <= text_len(haystack@),
        forall|j: int| 0 <= j < text_len(needle@) ==> #[trigger] needle@[j] == haystack@[j],
        call_ensures(strstr_impl, (haystack, needle), r),
    ensures
        r == Some(0usize),
{
    lemma_text_len(haystack@);
    lemma_text_len(needle@);
    let h = haystack@.take(text_len(haystack@));
    let n = needle@.take(text_len(needle@));
    assert(h.subrange(0, 0 + n.len() as int) == n);
    assert(occurs_at(h, n, 0));
    assert(has_part(h, n));
}

} // verus!
