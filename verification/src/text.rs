//! Searching, comparing and building text.
//!
//! Strings are seen through their views as sequences of characters; every
//! executable function below is tied to a plain statement about those
//! sequences.
use vstd::prelude::*;

verus! {

/// `part` stands in `whole` at position `i`.
pub open spec fn occurs_at<T>(whole: Seq<T>, part: Seq<T>, i: int) -> bool {
    &&& 0 <= i
    &&& i + part.len() <= whole.len()
    &&& whole.subrange(i, i + part.len() as int) == part
}

/// `part` stands somewhere in `whole`.
pub open spec fn has_part<T>(whole: Seq<T>, part: Seq<T>) -> bool {
    exists|i: int| occurs_at(whole, part, i)
}

/// `whole` begins with `head`.
pub open spec fn has_head<T>(whole: Seq<T>, head: Seq<T>) -> bool {
    occurs_at(whole, head, 0)
}

/// `i` is the first place where `part` stands in `whole`.
pub open spec fn first_at<T>(whole: Seq<T>, part: Seq<T>, i: int) -> bool {
    &&& occurs_at(whole, part, i)
    &&& forall|j: int| 0 <= j < i ==> !occurs_at(whole, part, j)
}

/// The characters of a string, one by one.
pub fn to_chars(s: &str) -> (out: Vec<char>)
    ensures
        out@ == s@,
{
    let mut out: Vec<char> = Vec::new();
    for c in it: s.chars()
        invariant
            it.seq() == s@,
            out@ == s@.subrange(0, it.index() as int),
    {
        out.push(c);
        assert(s@.subrange(0, it.index() as int).push(c) =~= s@.subrange(0, it.index() + 1));
    }
    assert(s@.subrange(0, s@.len() as int) =~= s@);
    out
}

/// Whether two strings hold the same characters.
pub fn same_text(a: &str, b: &str) -> (r: bool)
    ensures
        r == (a@ == b@),
{
    let x = to_chars(a);
    let y = to_chars(b);
    same_items(&x, &y)
}

/// Whether two character vectors hold the same characters.
pub fn same_items(x: &Vec<char>, y: &Vec<char>) -> (r: bool)
    ensures
        r == (x@ == y@),
{
    if x.len() != y.len() {
        return false;
    }
    let mut i: usize = 0;
    while i < x.len()
        invariant
            i <= x@.len(),
            x@.len() == y@.len(),
            forall|j: int| 0 <= j < i ==> x@[j] == y@[j],
        decreases x@.len() - i,
    {
        if x[i] != y[i] {
            assert(x@[i as int] != y@[i as int]);
            return false;
        }
        i = i + 1;
    }
    assert(x@ =~= y@);
    true
}

/// Whether `part` stands in `whole` at `i`.
pub fn chars_at(whole: &Vec<char>, part: &Vec<char>, i: usize) -> (r: bool)
    ensures
        r == occurs_at(whole@, part@, i as int),
{
    if part.len() > whole.len() || i > whole.len() - part.len() {
        return false;
    }
    let mut k: usize = 0;
    while k < part.len()
        invariant
            k <= part@.len(),
            i + part@.len() <= whole.len(),
            forall|j: int| 0 <= j < k ==> whole@[i + j] == part@[j],
        decreases part@.len() - k,
    {
        if whole[i + k] != part[k] {
            assert(whole@.subrange(i as int, i + part@.len() as int)[k as int] != part@[k as int]);
            return false;
        }
        k = k + 1;
    }
    assert(whole@.subrange(i as int, i + part@.len() as int) =~= part@);
    true
}

/// The first place where `part` stands in `whole`, or `None` where it is not
/// in it.
pub fn find_chars(whole: &Vec<char>, part: &Vec<char>) -> (r: Option<usize>)
    ensures
        match r {
            Some(i) => first_at(whole@, part@, i as int),
            None => !has_part(whole@, part@),
        },
{
    if part.len() > whole.len() {
        assert(forall|i: int| !occurs_at(whole@, part@, i));
        return None;
    }
    let end: usize = whole.len() - part.len();
    let mut i: usize = 0;
    loop
        invariant
            i <= end,
            end + part@.len() == whole@.len(),
            forall|j: int| 0 <= j < i ==> !occurs_at(whole@, part@, j),
        decreases end - i,
    {
        if chars_at(whole, part, i) {
            return Some(i);
        }
        if i == end {
            assert forall|j: int| !occurs_at(whole@, part@, j) by {
                if 0 <= j < i {
                    assert(!occurs_at(whole@, part@, j));
                }
            }
            return None;
        }
        i = i + 1;
    }
}

/// Whether `part` stands somewhere in `whole`.
pub fn text_contains(whole: &str, part: &str) -> (r: bool)
    ensures
        r == has_part(whole@, part@),
{
    let w = to_chars(whole);
    let p = to_chars(part);
    match find_chars(&w, &p) {
        Some(i) => {
            assert(occurs_at(whole@, part@, i as int));
            true
        },
        None => false,
    }
}

/// Whether `whole` begins with `head`.
pub fn text_starts_with(whole: &str, head: &str) -> (r: bool)
    ensures
        r == has_head(whole@, head@),
{
    let w = to_chars(whole);
    let h = to_chars(head);
    chars_at(&w, &h, 0)
}

/// The character of a decimal or hexadecimal digit.
pub open spec fn digit_char(d: nat) -> char {
    if d < 10 {
        (48 + d) as char
    } else {
        (87 + d) as char
    }
}

/// `n` written in `base`, most significant digit first, without leading zeros.
pub open spec fn digits(n: nat, base: nat) -> Seq<char>
    decreases n,
{
    if base < 2 || n < base {
        seq![digit_char(n)]
    } else {
        proof {
            assert(n / base < n) by (nonlinear_arith)
                requires
                    2 <= base <= n,
            ;
        }
        digits(n / base, base).push(digit_char(n % base))
    }
}

/// `n` in decimal notation.
pub open spec fn decimal(n: int) -> Seq<char> {
    if n < 0 {
        seq!['-'] + digits((-n) as nat, 10)
    } else {
        digits(n as nat, 10)
    }
}

/// `n` in lower case hexadecimal notation.
pub open spec fn hexadecimal(n: nat) -> Seq<char> {
    digits(n, 16)
}

fn digit_text(d: u64) -> (s: &'static str)
    requires
        d < 16,
    ensures
        s@ == seq![digit_char(d as nat)],
{
    proof {
        reveal_strlit("0");
        reveal_strlit("1");
        reveal_strlit("2");
        reveal_strlit("3");
        reveal_strlit("4");
        reveal_strlit("5");
        reveal_strlit("6");
        reveal_strlit("7");
        reveal_strlit("8");
        reveal_strlit("9");
        reveal_strlit("a");
        reveal_strlit("b");
        reveal_strlit("c");
        reveal_strlit("d");
        reveal_strlit("e");
        reveal_strlit("f");
    }
    let s: &'static str = match d {
        0 => "0",
        1 => "1",
        2 => "2",
        3 => "3",
        4 => "4",
        5 => "5",
        6 => "6",
        7 => "7",
        8 => "8",
        9 => "9",
        10 => "a",
        11 => "b",
        12 => "c",
        13 => "d",
        14 => "e",
        _ => "f",
    };
    assert(s@ =~= seq![digit_char(d as nat)]);
    s
}

/// Appends `n` in the given base.
pub fn push_digits(out: &mut String, n: u64, base: u64)
    requires
        2 <= base <= 16,
    ensures
        final(out)@ == old(out)@ + digits(n as nat, base as nat),
    decreases n,
{
    if n < base {
        out.append(digit_text(n));
        assert(out@ =~= old(out)@ + digits(n as nat, base as nat));
    } else {
        assert(n / base < n) by (nonlinear_arith)
            requires
                2 <= base <= n,
        ;
        push_digits(out, n / base, base);
        out.append(digit_text(n % base));
        assert(out@ =~= old(out)@ + digits(n as nat, base as nat));
    }
}

/// Appends `n` in decimal notation.
pub fn push_decimal(out: &mut String, n: i64)
    ensures
        final(out)@ == old(out)@ + decimal(n as int),
{
    if n < 0 {
        proof {
            reveal_strlit("-");
        }
        let magnitude: u64 = (0i128 - n as i128) as u64;
        out.append("-");
        push_digits(out, magnitude, 10);
        assert(out@ =~= old(out)@ + decimal(n as int));
    } else {
        push_digits(out, n as u64, 10);
    }
}

/// The place of the first `c`, or the length where there is none.
pub open spec fn first_index(s: Seq<char>, c: char) -> int
    decreases s.len(),
{
    if s.len() == 0 {
        0
    } else if s[0] == c {
        0
    } else {
        1 + first_index(s.drop_first(), c)
    }
}

/// What stands before the first `c`: everything where there is none.
pub open spec fn before_first(s: Seq<char>, c: char) -> Seq<char> {
    s.take(first_index(s, c))
}

/// What stands after the first `c`, if there is one.
pub open spec fn after_first(s: Seq<char>, c: char) -> Option<Seq<char>> {
    let i = first_index(s, c);
    if i < s.len() {
        Some(s.skip(i + 1))
    } else {
        None
    }
}

/// The first index of `c` lies within the text, nothing before it is `c`, and
/// `c` stands there unless it is the end.
pub proof fn lemma_first_index(s: Seq<char>, c: char)
    ensures
        0 <= first_index(s, c) <= s.len(),
        first_index(s, c) < s.len() ==> s[first_index(s, c)] == c,
        forall|j: int| 0 <= j < first_index(s, c) ==> #[trigger] s[j] != c,
    decreases s.len(),
{
    if s.len() > 0 && s[0] != c {
        let rest = s.drop_first();
        lemma_first_index(rest, c);
        assert forall|j: int| 0 <= j < first_index(s, c) implies #[trigger] s[j] != c by {
            if j > 0 {
                assert(s[j] == rest[j - 1]);
            }
        }
    }
}

/// The first index is the only place with these properties.
pub proof fn lemma_first_index_unique(s: Seq<char>, c: char, i: int)
    requires
        0 <= i <= s.len(),
        i < s.len() ==> s[i] == c,
        forall|j: int| 0 <= j < i ==> #[trigger] s[j] != c,
    ensures
        first_index(s, c) == i,
{
    lemma_first_index(s, c);
    let k = first_index(s, c);
    if k < i {
        assert(s[k] != c);
    }
    if i < k {
        assert(s[i] != c);
    }
}

/// The place of the first `c` from `from` on, or the length.
pub fn find_char(s: &Vec<char>, from: usize, c: char) -> (r: usize)
    requires
        from <= s@.len(),
    ensures
        r == from + first_index(s@.skip(from as int), c),
        from <= r <= s@.len(),
{
    let mut i: usize = from;
    while i < s.len() && s[i] != c
        invariant
            from <= i <= s@.len(),
            forall|j: int| from <= j < i ==> #[trigger] s@[j] != c,
        decreases s@.len() - i,
    {
        i = i + 1;
    }
    proof {
        let rest = s@.skip(from as int);
        assert forall|j: int| 0 <= j < i - from implies #[trigger] rest[j] != c by {
            assert(rest[j] == s@[from + j]);
        }
        lemma_first_index_unique(rest, c, i - from);
    }
    i
}

/// The value of a digit in a base up to 16; letters count in either case.
pub open spec fn digit_value(c: char, base: nat) -> Option<nat> {
    let v: int = if '0' <= c <= '9' {
        c as int - '0' as int
    } else if 'a' <= c <= 'f' {
        c as int - 'a' as int + 10
    } else if 'A' <= c <= 'F' {
        c as int - 'A' as int + 10
    } else {
        99
    };
    if v < base {
        Some(v as nat)
    } else {
        None
    }
}

/// The number that a run of digits denotes; `None` where a character is no
/// digit, zero for the empty run.
pub open spec fn digits_value(s: Seq<char>, base: nat) -> Option<nat>
    decreases s.len(),
{
    if s.len() == 0 {
        Some(0)
    } else {
        match (digits_value(s.drop_last(), base), digit_value(s.last(), base)) {
            (Some(v), Some(d)) => Some(v * base + d),
            _ => None,
        }
    }
}

/// The number that a text denotes: at least one digit, after an optional plus
/// sign.
pub open spec fn unsigned_value(s: Seq<char>, base: nat) -> Option<nat> {
    let t = if s.len() > 0 && s[0] == '+' {
        s.skip(1)
    } else {
        s
    };
    if t.len() == 0 {
        None
    } else {
        digits_value(t, base)
    }
}

/// The value of a digit.
pub fn digit_of(c: char, base: u64) -> (r: Option<u64>)
    requires
        base <= 16,
    ensures
        match r {
            Some(d) => digit_value(c, base as nat) == Some(d as nat) && d < base,
            None => digit_value(c, base as nat) is None,
        },
{
    let n: u32 = c as u32;
    let v: u64 = if c >= '0' && c <= '9' {
        (n - 48) as u64
    } else if c >= 'a' && c <= 'f' {
        (n - 87) as u64
    } else if c >= 'A' && c <= 'F' {
        (n - 55) as u64
    } else {
        99
    };
    if v < base {
        Some(v)
    } else {
        None
    }
}

proof fn lemma_digits_value_grows(s: Seq<char>, base: nat, n: int)
    requires
        0 <= n <= s.len(),
        base >= 1,
    ensures
        digits_value(s, base) is Some ==> digits_value(s.take(n), base) is Some && digits_value(
            s,
            base,
        )->0 >= digits_value(s.take(n), base)->0,
    decreases s.len(),
{
    if n == s.len() {
        assert(s.take(n) =~= s);
    } else {
        assert(s.drop_last().take(n) =~= s.take(n));
        lemma_digits_value_grows(s.drop_last(), base, n);
        if digits_value(s, base) is Some {
            let v = digits_value(s.drop_last(), base)->0;
            assert(v * base >= v) by (nonlinear_arith)
                requires
                    base >= 1,
            ;
        }
    }
}

/// The number that `s[from..to]` denotes, if it is at most `max`.
pub fn parse_digits(s: &Vec<char>, from: usize, to: usize, base: u64, max: u64) -> (r: Option<u64>)
    requires
        from <= to <= s@.len(),
        1 <= base <= 16,
    ensures
        match r {
            Some(v) => digits_value(s@.subrange(from as int, to as int), base as nat) == Some(
                v as nat,
            ) && v <= max,
            None => digits_value(s@.subrange(from as int, to as int), base as nat) is None
                || digits_value(s@.subrange(from as int, to as int), base as nat)->0 > max,
        },
{
    let ghost whole = s@.subrange(from as int, to as int);
    let mut v: u64 = 0;
    let mut i: usize = from;
    assert(whole.take(0) =~= Seq::<char>::empty());
    while i < to
        invariant
            from <= i <= to <= s@.len(),
            1 <= base <= 16,
            whole == s@.subrange(from as int, to as int),
            digits_value(whole.take(i - from), base as nat) == Some(v as nat),
            v <= max,
        decreases to - i,
    {
        let ghost upto = whole.take(i + 1 - from);
        proof {
            assert(upto.drop_last() =~= whole.take(i - from));
            assert(upto.last() == s@[i as int]);
            lemma_digits_value_grows(whole, base as nat, i + 1 - from);
        }
        let d: u64 = match digit_of(s[i], base) {
            Some(d) => d,
            None => {
                return None;
            },
        };
        assert(v * base <= u64::MAX * 16) by (nonlinear_arith)
            requires
                v <= u64::MAX,
                base <= 16,
        ;
        let next: u128 = (v as u128) * (base as u128) + d as u128;
        if next > max as u128 {
            return None;
        }
        v = next as u64;
        i = i + 1;
    }
    assert(whole.take(i - from) =~= whole);
    Some(v)
}

/// The number that `s[from..to]` denotes, after an optional plus sign, if it is
/// at most `max`.
pub fn parse_unsigned(
    s: &Vec<char>,
    from: usize,
    to: usize,
    base: u64,
    max: u64,
) -> (r: Option<u64>)
    requires
        from <= to <= s@.len(),
        1 <= base <= 16,
    ensures
        match r {
            Some(v) => unsigned_value(s@.subrange(from as int, to as int), base as nat) == Some(
                v as nat,
            ) && v <= max,
            None => unsigned_value(s@.subrange(from as int, to as int), base as nat) is None
                || unsigned_value(s@.subrange(from as int, to as int), base as nat)->0 > max,
        },
{
    let ghost whole = s@.subrange(from as int, to as int);
    let start: usize = if from < to && s[from] == '+' {
        from + 1
    } else {
        from
    };
    proof {
        if start > from {
            assert(whole.skip(1) =~= s@.subrange(start as int, to as int));
        }
    }
    if start == to {
        return None;
    }
    parse_digits(s, start, to, base, max)
}

/// A character that separates words.
pub open spec fn is_blank(c: char) -> bool {
    let n = c as int;
    9 <= n <= 13 || n == 0x20 || n == 0x85 || n == 0xa0 || n == 0x1680 || 0x2000 <= n <= 0x200a
        || n == 0x2028 || n == 0x2029 || n == 0x202f || n == 0x205f || n == 0x3000
}

/// Whether a character separates words.
pub fn blank(c: char) -> (r: bool)
    ensures
        r == is_blank(c),
{
    let n: u32 = c as u32;
    (9 <= n && n <= 13) || n == 0x20 || n == 0x85 || n == 0xa0 || n == 0x1680 || (0x2000 <= n && n
        <= 0x200a) || n == 0x2028 || n == 0x2029 || n == 0x202f || n == 0x205f || n == 0x3000
}

/// A text without blanks at its start.
pub open spec fn trim_start(s: Seq<char>) -> Seq<char>
    decreases s.len(),
{
    if s.len() > 0 && is_blank(s[0]) {
        trim_start(s.drop_first())
    } else {
        s
    }
}

/// A text without blanks at its end.
pub open spec fn trim_end(s: Seq<char>) -> Seq<char>
    decreases s.len(),
{
    if s.len() > 0 && is_blank(s.last()) {
        trim_end(s.drop_last())
    } else {
        s
    }
}

/// The first word at the start of a text: everything before its first blank.
pub open spec fn first_word(s: Seq<char>) -> Seq<char>
    decreases s.len(),
{
    if s.len() == 0 || is_blank(s[0]) {
        seq![]
    } else {
        seq![s[0]] + first_word(s.drop_first())
    }
}

/// The word number `n` of a text, counted from zero.
pub open spec fn nth_word(s: Seq<char>, n: nat) -> Option<Seq<char>>
    decreases n,
{
    let t = trim_start(s);
    let w = first_word(t);
    if t.len() == 0 {
        None
    } else if n == 0 {
        Some(w)
    } else {
        nth_word(t.skip(w.len() as int), (n - 1) as nat)
    }
}

/// Skips blanks: the text from the result on is the trimmed one.
pub fn skip_blanks(s: &Vec<char>, from: usize) -> (r: usize)
    requires
        from <= s@.len(),
    ensures
        from <= r <= s@.len(),
        s@.skip(r as int) == trim_start(s@.skip(from as int)),
        r < s@.len() ==> !is_blank(s@[r as int]),
{
    let mut i: usize = from;
    while i < s.len() && blank(s[i])
        invariant
            from <= i <= s@.len(),
            trim_start(s@.skip(from as int)) == trim_start(s@.skip(i as int)),
        decreases s@.len() - i,
    {
        assert(s@.skip(i as int).drop_first() =~= s@.skip(i + 1));
        i = i + 1;
    }
    i
}

/// The end of the word that starts at `from`.
pub fn word_end(s: &Vec<char>, from: usize) -> (r: usize)
    requires
        from <= s@.len(),
    ensures
        from <= r <= s@.len(),
        s@.subrange(from as int, r as int) == first_word(s@.skip(from as int)),
{
    let mut i: usize = from;
    assert(s@.subrange(from as int, from as int) + first_word(s@.skip(from as int)) =~= first_word(
        s@.skip(from as int),
    ));
    while i < s.len() && !blank(s[i])
        invariant
            from <= i <= s@.len(),
            first_word(s@.skip(from as int)) == s@.subrange(from as int, i as int) + first_word(
                s@.skip(i as int),
            ),
        decreases s@.len() - i,
    {
        assert(s@.skip(i as int).drop_first() =~= s@.skip(i + 1));
        assert(s@.subrange(from as int, i as int) + (seq![s@[i as int]] + first_word(
            s@.skip(i + 1),
        )) =~= s@.subrange(from as int, i + 1) + first_word(s@.skip(i + 1)));
        i = i + 1;
    }
    assert(s@.subrange(from as int, i as int) + Seq::<char>::empty() =~= s@.subrange(
        from as int,
        i as int,
    ));
    i
}

/// The range of word number `n` from `from` on.
pub fn find_word(s: &Vec<char>, from: usize, n: usize) -> (r: Option<(usize, usize)>)
    requires
        from <= s@.len(),
    ensures
        match r {
            Some((a, b)) => a <= b <= s@.len() && nth_word(s@.skip(from as int), n as nat) == Some(
                s@.subrange(a as int, b as int),
            ),
            None => nth_word(s@.skip(from as int), n as nat) is None,
        },
    decreases n,
{
    let a: usize = skip_blanks(s, from);
    if a == s.len() {
        assert(s@.skip(a as int).len() == 0);
        return None;
    }
    let b: usize = word_end(s, a);
    if n == 0 {
        return Some((a, b));
    }
    assert(s@.skip(a as int).skip(b - a) =~= s@.skip(b as int));
    find_word(s, b, n - 1)
}

/// The number that a text denotes: at least one digit, after an optional sign.
pub open spec fn signed_value(s: Seq<char>, base: nat) -> Option<int> {
    if s.len() > 0 && s[0] == '-' {
        if s.len() == 1 {
            None
        } else {
            match digits_value(s.skip(1), base) {
                Some(v) => Some(-(v as int)),
                None => None,
            }
        }
    } else {
        match unsigned_value(s, base) {
            Some(v) => Some(v as int),
            None => None,
        }
    }
}

/// The number that `s[from..to]` denotes, if it is a 64-bit one.
pub fn parse_signed(s: &Vec<char>, from: usize, to: usize, base: u64) -> (r: Option<i64>)
    requires
        from <= to <= s@.len(),
        1 <= base <= 16,
    ensures
        match r {
            Some(v) => signed_value(s@.subrange(from as int, to as int), base as nat) == Some(
                v as int,
            ),
            None => match signed_value(s@.subrange(from as int, to as int), base as nat) {
                Some(v) => !(i64::MIN <= v <= i64::MAX),
                None => true,
            },
        },
{
    let ghost whole = s@.subrange(from as int, to as int);
    if from < to && s[from] == '-' {
        if from + 1 == to {
            return None;
        }
        assert(whole.skip(1) =~= s@.subrange(from + 1, to as int));
        match parse_digits(s, from + 1, to, base, 0x8000_0000_0000_0000) {
            Some(v) => Some((0 - v as i128) as i64),
            None => None,
        }
    } else {
        match parse_unsigned(s, from, to, base, 0x7fff_ffff_ffff_ffff) {
            Some(v) => Some(v as i64),
            None => None,
        }
    }
}

/// A text that is cut at every `sep` has the part `w`.
pub open spec fn has_field(s: Seq<char>, sep: char, w: Seq<char>) -> bool
    decreases s.len(),
{
    let i = first_index(s, sep);
    if s.take(i) == w {
        true
    } else if 0 <= i < s.len() {
        has_field(s.skip(i + 1), sep, w)
    } else {
        false
    }
}

/// Whether a text that is cut at every `sep` has the part `w`.
pub fn text_has_field(text: &str, sep: char, w: &str) -> (r: bool)
    ensures
        r == has_field(text@, sep, w@),
{
    let s = to_chars(text);
    let part = to_chars(w);
    let mut from: usize = 0;
    assert(s@.skip(0) =~= s@);
    loop
        invariant
            from <= s@.len(),
            part@ == w@,
            s@ == text@,
            has_field(text@, sep, w@) == has_field(s@.skip(from as int), sep, w@),
        decreases s@.len() - from,
    {
        let ghost rest = s@.skip(from as int);
        let to: usize = find_char(&s, from, sep);
        let hit = to - from == part.len() && chars_at(&s, &part, from);
        proof {
            let field = rest.take(to - from);
            assert(field =~= s@.subrange(from as int, to as int));
            if hit {
                assert(field =~= w@);
            }
            if field == w@ {
                assert(s@.subrange(from as int, from + part@.len() as int) =~= part@);
            }
        }
        if hit {
            return true;
        }
        if to == s.len() {
            return false;
        }
        assert(rest.skip(to - from + 1) =~= s@.skip(to + 1));
        from = to + 1;
    }
}

/// The place of the last `c`, or -1 where there is none.
pub open spec fn last_index(s: Seq<char>, c: char) -> int
    decreases s.len(),
{
    if s.len() == 0 {
        -1
    } else if s.last() == c {
        s.len() - 1
    } else {
        last_index(s.drop_last(), c)
    }
}

/// The place right after the last `c`, if there is one.
pub fn find_after_last(s: &Vec<char>, c: char) -> (r: Option<usize>)
    ensures
        match r {
            Some(i) => i <= s@.len() && last_index(s@, c) == i - 1 && i > 0,
            None => last_index(s@, c) == -1,
        },
{
    let mut i: usize = s.len();
    assert(s@.take(i as int) =~= s@);
    while i > 0
        invariant
            i <= s@.len(),
            last_index(s@, c) == last_index(s@.take(i as int), c),
        decreases i,
    {
        if s[i - 1] == c {
            assert(s@.take(i as int).last() == c);
            return Some(i);
        }
        assert(s@.take(i as int).drop_last() =~= s@.take(i - 1));
        i = i - 1;
    }
    assert(s@.take(0).len() == 0);
    None
}

/// Word number `n` of what follows the last closing parenthesis of a process
/// status line: the name before it may hold blanks and parentheses.
pub open spec fn stat_field(stat: Seq<char>, n: nat) -> Option<Seq<char>> {
    let i = last_index(stat, ')');
    if i < 0 {
        None
    } else {
        nth_word(stat.skip(i + 1), n)
    }
}

/// A digit that is written reads back as itself, in either case of its letter.
pub proof fn law_digit_reads_back(d: nat, base: nat)
    requires
        d < base <= 16,
    ensures
        digit_value(digit_char(d), base) == Some(d),
        d >= 10 ==> digit_value((55 + d) as char, base) == Some(d),
{
}

/// A number that is written in some base reads back as itself, and is written
/// without a leading zero.
pub proof fn law_number_reads_back(n: nat, base: nat)
    requires
        2 <= base <= 16,
    ensures
        digits_value(digits(n, base), base) == Some(n),
        digits(n, base).len() > 0,
        n > 0 ==> digits(n, base)[0] != '0',
        forall|i: int|
            0 <= i < digits(n, base).len() ==> digit_value(#[trigger] digits(n, base)[i], base)
                is Some,
    decreases n,
{
    if n < base {
        law_digit_reads_back(n, base);
        let s = digits(n, base);
        assert(s.drop_last() =~= seq![]);
        assert(digits_value(s.drop_last(), base) == Some(0nat));
        assert(0 * base == 0) by (nonlinear_arith);
    } else {
        assert(n / base < n && n / base > 0) by (nonlinear_arith)
            requires
                2 <= base <= n,
        ;
        assert(n / base * base + n % base == n) by (nonlinear_arith)
            requires
                base > 0,
        ;
        assert(n % base < base) by (nonlinear_arith)
            requires
                base > 0,
        ;
        law_number_reads_back(n / base, base);
        law_digit_reads_back(n % base, base);
        let s = digits(n, base);
        assert(s.drop_last() =~= digits(n / base, base));
        assert(s.last() == digit_char(n % base));
        assert forall|i: int| 0 <= i < s.len() implies digit_value(#[trigger] s[i], base)
            is Some by {
            if i < s.len() - 1 {
                assert(s[i] == digits(n / base, base)[i]);
            }
        }
    }
}

/// A signed number in decimal notation reads back as itself.
pub proof fn law_decimal_reads_back(n: int)
    ensures
        signed_value(decimal(n), 10) == Some(n),
        n >= 0 ==> unsigned_value(decimal(n), 10) == Some(n as nat),
{
    if n < 0 {
        law_number_reads_back((-n) as nat, 10);
        assert(decimal(n).skip(1) =~= digits((-n) as nat, 10));
    } else {
        law_number_reads_back(n as nat, 10);
        assert(digit_value(decimal(n)[0], 10) is Some);
    }
}

/// The last digit of a number counts once, and the others the base times as
/// much; something else than a digit makes it none.
pub proof fn law_digits_count_by_their_place(s: Seq<char>, c: char, base: nat)
    ensures
        digits_value(s, base) is Some && digit_value(c, base) is Some ==> digits_value(
            s.push(c),
            base,
        ) == Some(digits_value(s, base)->0 * base + digit_value(c, base)->0),
        digits_value(s, base) is None || digit_value(c, base) is None ==> digits_value(
            s.push(c),
            base,
        ) is None,
{
    assert(s.push(c).drop_last() =~= s);
}

/// A digit is below the base, and blanks, signs and letters beyond `f` are none.
pub proof fn law_only_digits_have_values(c: char, base: nat)
    requires
        base <= 16,
    ensures
        digit_value(c, base) matches Some(d) ==> d < base,
        digit_value(c, base) is Some ==> ('0' <= c <= '9') || ('a' <= c <= 'f') || ('A' <= c
            <= 'F'),
        '0' <= c <= '9' && base >= 10 ==> digit_value(c, base) == Some((c as int - 48) as nat),
{
}

/// A number has at most one sign: a minus turns it, a plus does not, and neither
/// stands without digits.
pub proof fn law_signs(s: Seq<char>, base: nat)
    requires
        s.len() > 0,
        s[0] != '+',
        s[0] != '-',
    ensures
        signed_value(s, base) is Some == digits_value(s, base) is Some,
        signed_value(seq!['+'] + s, base) == signed_value(s, base),
        signed_value(s, base) matches Some(v) ==> signed_value(seq!['-'] + s, base) == Some(-v),
        signed_value(s, base) is None ==> signed_value(seq!['-'] + s, base) is None,
        signed_value(seq!['+'], base) is None,
        signed_value(seq!['-'], base) is None,
        unsigned_value(seq![], base) is None,
{
    assert((seq!['+'] + s).skip(1) =~= s);
    assert((seq!['-'] + s).skip(1) =~= s);
    assert(seq!['+'].skip(1) =~= seq![]);
}

/// Trimming takes blanks alone: what is left is an end of the text, everything
/// before it is blank, and it does not start with a blank.
pub proof fn law_trimming_takes_blanks_alone(s: Seq<char>)
    ensures
        ({
            let t = trim_start(s);
            let n = s.len() - t.len();
            &&& t.len() <= s.len()
            &&& s.skip(n) == t
            &&& forall|i: int| 0 <= i < n ==> is_blank(#[trigger] s[i])
            &&& t.len() > 0 ==> !is_blank(t[0])
        }),
        ({
            let t = trim_end(s);
            &&& t.len() <= s.len()
            &&& s.take(t.len() as int) == t
            &&& forall|i: int| t.len() <= i < s.len() ==> is_blank(#[trigger] s[i])
            &&& t.len() > 0 ==> !is_blank(t.last())
        }),
    decreases s.len(),
{
    if s.len() > 0 && is_blank(s[0]) {
        law_trimming_takes_blanks_alone(s.drop_first());
        let t = trim_start(s);
        let n = s.len() - t.len();
        assert(s.skip(n) =~= s.drop_first().skip(n - 1));
        assert forall|i: int| 0 <= i < n implies is_blank(#[trigger] s[i]) by {
            if i > 0 {
                assert(s.drop_first()[i - 1] == s[i]);
            }
        }
    } else {
        assert(s.skip(0) =~= s);
    }
    if s.len() > 0 && is_blank(s.last()) {
        law_trimming_takes_blanks_alone(s.drop_last());
        let t = trim_end(s);
        assert(s.take(t.len() as int) =~= s.drop_last().take(t.len() as int));
        assert forall|i: int| t.len() <= i < s.len() implies is_blank(#[trigger] s[i]) by {
            if i < s.len() - 1 {
                assert(s.drop_last()[i] == s[i]);
            }
        }
    } else {
        assert(s.take(s.len() as int) =~= s);
    }
}

proof fn lemma_first_word_of(word: Seq<char>, rest: Seq<char>)
    requires
        forall|i: int| 0 <= i < word.len() ==> !is_blank(#[trigger] word[i]),
        rest.len() == 0 || is_blank(rest[0]),
    ensures
        first_word(word + rest) == word,
    decreases word.len(),
{
    if word.len() == 0 {
        assert(word + rest =~= rest);
        assert(first_word(rest) =~= word);
    } else {
        let more = word.drop_first();
        assert forall|i: int| 0 <= i < more.len() implies !is_blank(#[trigger] more[i]) by {
            assert(more[i] == word[i + 1]);
        }
        lemma_first_word_of(more, rest);
        assert((word + rest).drop_first() =~= more + rest);
        assert(first_word(word + rest) =~= word);
    }
}

proof fn lemma_trimmed_of(blanks: Seq<char>, rest: Seq<char>)
    requires
        forall|i: int| 0 <= i < blanks.len() ==> is_blank(#[trigger] blanks[i]),
        rest.len() == 0 || !is_blank(rest[0]),
    ensures
        trim_start(blanks + rest) == rest,
    decreases blanks.len(),
{
    if blanks.len() == 0 {
        assert(blanks + rest =~= rest);
    } else {
        let more = blanks.drop_first();
        assert forall|i: int| 0 <= i < more.len() implies is_blank(#[trigger] more[i]) by {
            assert(more[i] == blanks[i + 1]);
        }
        assert((blanks + rest)[0] == blanks[0]);
        lemma_trimmed_of(more, rest);
        assert((blanks + rest).drop_first() =~= more + rest);
    }
}

/// Words are counted by the blanks between them: behind some blanks, a word ends
/// at the next blank, and the further words are those of the rest.
pub proof fn law_words_are_counted(blanks: Seq<char>, word: Seq<char>, rest: Seq<char>, n: nat)
    requires
        forall|i: int| 0 <= i < blanks.len() ==> is_blank(#[trigger] blanks[i]),
        word.len() > 0,
        forall|i: int| 0 <= i < word.len() ==> !is_blank(#[trigger] word[i]),
        rest.len() == 0 || is_blank(rest[0]),
    ensures
        nth_word(blanks + word + rest, 0) == Some(word),
        nth_word(blanks + word + rest, n + 1) == nth_word(rest, n),
        nth_word(blanks, n) is None,
{
    let s = blanks + word + rest;
    let t = word + rest;
    assert(!is_blank(word[0]));
    assert(t[0] == word[0]);
    assert(s =~= blanks + t);
    lemma_trimmed_of(blanks, t);
    lemma_first_word_of(word, rest);
    assert(t.skip(word.len() as int) =~= rest);
    lemma_trimmed_of(blanks, seq![]);
    assert(blanks + seq![] =~= blanks);
}

/// A text that is cut has the part in front of the first cut, and those of what
/// follows it; a text without a cut is its only part.
pub proof fn law_fields_are_cut(part: Seq<char>, rest: Seq<char>, sep: char, w: Seq<char>)
    requires
        !part.contains(sep),
    ensures
        has_field(part + seq![sep] + rest, sep, w) == (part == w || has_field(rest, sep, w)),
        has_field(part, sep, w) == (part == w),
{
    let s = part + seq![sep] + rest;
    let n = part.len() as int;
    assert(s[n] == sep);
    assert forall|j: int| 0 <= j < n implies #[trigger] s[j] != sep by {
        assert(s[j] == part[j]);
        assert(part.contains(part[j]));
    }
    lemma_first_index_unique(s, sep, n);
    assert(s.take(n) =~= part);
    assert(s.skip(n + 1) =~= rest);
    assert forall|j: int| 0 <= j < n implies #[trigger] part[j] != sep by {
        assert(part.contains(part[j]));
    }
    lemma_first_index_unique(part, sep, n);
    assert(part.take(n) =~= part);
}

proof fn lemma_last_index_of(s: Seq<char>, c: char, i: int)
    requires
        -1 <= i < s.len(),
        i >= 0 ==> s[i] == c,
        forall|j: int| i < j < s.len() ==> #[trigger] s[j] != c,
    ensures
        last_index(s, c) == i,
    decreases s.len(),
{
    if s.len() > 0 && i < s.len() - 1 {
        assert(s.last() != c);
        lemma_last_index_of(s.drop_last(), c, i);
    }
}

/// The fields of a process status line are counted behind its name, whatever
/// that name holds; a line without a name has none.
pub proof fn law_status_fields_follow_the_name(head: Seq<char>, tail: Seq<char>, n: nat)
    requires
        !tail.contains(')'),
    ensures
        stat_field(head + seq![')'] + tail, n) == nth_word(tail, n),
        stat_field(tail, n) is None,
{
    let s = head + seq![')'] + tail;
    let at = head.len() as int;
    assert(s[at] == ')');
    assert forall|j: int| at < j < s.len() implies #[trigger] s[j] != ')' by {
        assert(s[j] == tail[j - at - 1]);
        assert(tail.contains(tail[j - at - 1]));
    }
    lemma_last_index_of(s, ')', at);
    assert(s.skip(at + 1) =~= tail);
    assert forall|j: int| -1 < j < tail.len() implies #[trigger] tail[j] != ')' by {
        assert(tail.contains(tail[j]));
    }
    lemma_last_index_of(tail, ')', -1);
}

/// A part that was put into a text is found in it, at its start where it was put
/// first; and nothing else is found in an empty text but an empty part.
pub proof fn law_parts_are_found(before: Seq<char>, part: Seq<char>, behind: Seq<char>)
    ensures
        has_part(before + part + behind, part),
        has_head(part + behind, part),
        has_part(Seq::<char>::empty(), part) ==> part.len() == 0,
        has_head(behind, part) ==> has_part(behind, part),
{
    let s = before + part + behind;
    let at = before.len() as int;
    assert(s.subrange(at, at + part.len() as int) =~= part);
    assert(occurs_at(s, part, at));
    assert((part + behind).subrange(0, part.len() as int) =~= part);
    if has_head(behind, part) {
        assert(occurs_at(behind, part, 0));
    }
}

/// A character is found at its first place, and the end stands for none.
pub proof fn law_first_place_is_found(s: &Vec<char>, from: usize, c: char, r: usize)
    requires
        from <= s@.len(),
        call_ensures(find_char, (s, from, c), r),
    ensures
        from <= r <= s@.len(),
        r < s@.len() ==> s@[r as int] == c,
        forall|i: int| from <= i < r ==> #[trigger] s@[i] != c,
{
    let t = s@.skip(from as int);
    lemma_first_place(t, c);
    let n = r - from;
    if r < s@.len() {
        assert(t[n] == c);
    }
    assert forall|i: int| from <= i < r implies #[trigger] s@[i] != c by {
        assert(t[i - from] != c);
    }
}

proof fn lemma_first_place(s: Seq<char>, c: char)
    ensures
        0 <= first_index(s, c) <= s.len(),
        first_index(s, c) < s.len() ==> s[first_index(s, c)] == c,
        forall|i: int| 0 <= i < first_index(s, c) ==> #[trigger] s[i] != c,
    decreases s.len(),
{
    if s.len() > 0 && s[0] != c {
        let t = s.drop_first();
        lemma_first_place(t, c);
        assert forall|i: int| 0 <= i < first_index(s, c) implies #[trigger] s[i] != c by {
            if i > 0 {
                assert(t[i - 1] != c);
            }
        }
    }
}

/// What follows the last place of a character holds it no more; without an
/// answer it stands nowhere.
pub proof fn law_last_place_is_found(s: &Vec<char>, c: char, r: Option<usize>)
    requires
        call_ensures(find_after_last, (s, c), r),
    ensures
        r is Some ==> 0 < r->0 <= s@.len() && s@[r->0 - 1] == c && forall|i: int|
            r->0 <= i < s@.len() ==> #[trigger] s@[i] != c,
        r is None ==> !s@.contains(c),
{
    lemma_last_place(s@, c);
}

proof fn lemma_last_place(s: Seq<char>, c: char)
    ensures
        -1 <= last_index(s, c) < s.len(),
        last_index(s, c) >= 0 ==> s[last_index(s, c)] == c,
        forall|i: int| last_index(s, c) < i < s.len() ==> #[trigger] s[i] != c,
    decreases s.len(),
{
    if s.len() > 0 && s.last() != c {
        let t = s.drop_last();
        lemma_last_place(t, c);
        assert forall|i: int| last_index(s, c) < i < s.len() implies #[trigger] s[i] != c by {
            if i < t.len() {
                assert(t[i] != c);
            }
        }
    }
}

/// A word ends at the first blank, or with the text.
pub proof fn law_word_ends_at_a_blank(s: &Vec<char>, from: usize, r: usize)
    requires
        from <= s@.len(),
        call_ensures(word_end, (s, from), r),
    ensures
        from <= r <= s@.len(),
        r < s@.len() ==> is_blank(s@[r as int]),
        forall|i: int| from <= i < r ==> !is_blank(#[trigger] s@[i]),
{
    let t = s@.skip(from as int);
    lemma_first_word(t);
    let w = first_word(t);
    let u = s@.subrange(from as int, r as int);
    assert(u.len() == w.len());
    if r < s@.len() {
        assert(t[w.len() as int] == s@[r as int]);
    }
    assert forall|i: int| from <= i < r implies !is_blank(#[trigger] s@[i]) by {
        assert(u[i - from] == w[i - from]);
    }
}

proof fn lemma_first_word(s: Seq<char>)
    ensures
        first_word(s).len() <= s.len(),
        first_word(s).len() < s.len() ==> is_blank(s[first_word(s).len() as int]),
        forall|i: int| 0 <= i < first_word(s).len() ==> !is_blank(#[trigger] first_word(s)[i]),
    decreases s.len(),
{
    if s.len() > 0 && !is_blank(s[0]) {
        lemma_first_word(s.drop_first());
        let w = first_word(s);
        let v = first_word(s.drop_first());
        assert(w =~= seq![s[0]] + v);
    }
}

/// Hexadecimal notation counts by sixteen.
pub proof fn law_hexadecimal_reads_back(n: nat)
    ensures
        digits_value(hexadecimal(n), 16) == Some(n),
        hexadecimal(n).len() > 0,
        n < 16 ==> hexadecimal(n).len() == 1,
{
    law_number_reads_back(n, 16);
}

} // verus!
