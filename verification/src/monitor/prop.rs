//! The property file: where the status text goes, and how an old one leaves.
use vstd::prelude::*;
use crate::text::{
    chars_at, find_char, first_index, has_head, is_blank, lemma_first_index,
    lemma_first_index_unique, occurs_at, skip_blanks, to_chars, trim_start,
};

verus! {

/// The length of the first line, its line end counted in.
pub open spec fn line_len(s: Seq<char>) -> int {
    let i = first_index(s, '\n');
    if i < s.len() {
        i + 1
    } else {
        s.len() as int
    }
}

/// The end of the status bracket that a text starts with, blanks aside.
pub open spec fn bracket_end(s: Seq<char>) -> Option<int> {
    let head = "[Monitor: "@;
    if has_head(s, head) {
        let rest = s.skip(head.len() as int);
        let i = first_index(rest, ']');
        if 0 <= i < rest.len() {
            Some(head.len() + i + 1)
        } else {
            None
        }
    } else {
        None
    }
}

/// A description without the status brackets at its start.
pub open spec fn stripped(s: Seq<char>) -> Seq<char>
    decreases s.len(),
{
    let t = trim_start(s);
    match bracket_end(t) {
        Some(end) => if t.len() <= s.len() && 0 < end <= t.len() {
            let next = trim_start(t.skip(end));
            if next.len() < s.len() {
                stripped(next)
            } else {
                s
            }
        } else {
            s
        },
        None => s,
    }
}

/// Trimming keeps an end of the text.
proof fn lemma_trim_start(s: Seq<char>)
    ensures
        trim_start(s).len() <= s.len(),
        trim_start(s).len() > 0 ==> !is_blank(trim_start(s)[0]),
        trim_start(trim_start(s)) == trim_start(s),
    decreases s.len(),
{
    if s.len() > 0 && is_blank(s[0]) {
        lemma_trim_start(s.drop_first());
    }
}

/// A bracket ends inside the text.
proof fn lemma_bracket_end(s: Seq<char>)
    ensures
        bracket_end(s) matches Some(end) ==> 0 < end <= s.len(),
{
    let head = "[Monitor: "@;
    if has_head(s, head) {
        lemma_first_index(s.skip(head.len() as int), ']');
    }
}

/// What a description without its first bracket is stripped to.
proof fn lemma_stripped_step(s: Seq<char>)
    ensures
        stripped(s) == match bracket_end(trim_start(s)) {
            Some(end) => stripped(trim_start(trim_start(s).skip(end))),
            None => s,
        },
{
    let t = trim_start(s);
    lemma_trim_start(s);
    lemma_bracket_end(t);
    if let Some(end) = bracket_end(t) {
        lemma_trim_start(t.skip(end));
    }
}

/// Stripping twice strips no more than stripping once.
pub proof fn law_stripping_settles(s: Seq<char>)
    ensures
        stripped(stripped(s)) == stripped(s),
    decreases s.len(),
{
    let t = trim_start(s);
    lemma_trim_start(s);
    lemma_bracket_end(t);
    if let Some(end) = bracket_end(t) {
        lemma_trim_start(t.skip(end));
        law_stripping_settles(trim_start(t.skip(end)));
    }
}

/// What is stripped no longer starts with a status bracket.
pub proof fn law_no_status_is_left(s: Seq<char>)
    ensures
        bracket_end(trim_start(stripped(s))) is None,
    decreases s.len(),
{
    let t = trim_start(s);
    lemma_trim_start(s);
    lemma_bracket_end(t);
    if let Some(end) = bracket_end(t) {
        lemma_trim_start(t.skip(end));
        law_no_status_is_left(trim_start(t.skip(end)));
    }
}

/// The property file in two parts: up to the value of its first description,
/// and from that value on. The value loses its status brackets; everything
/// after it stays as it is, whatever it holds.
pub open spec fn prop_parts(s: Seq<char>) -> (Seq<char>, Seq<char>)
    decreases s.len(),
{
    let key = "description="@;
    let n = line_len(s);
    if s.len() == 0 || !(0 < n <= s.len()) {
        (seq![], seq![])
    } else {
        let line = s.take(n);
        if has_head(line, key) {
            (key, stripped(line.skip(key.len() as int)) + s.skip(n))
        } else {
            let rest = prop_parts(s.skip(n));
            (line + rest.0, rest.1)
        }
    }
}

/// A line is not empty and lies within the text.
proof fn lemma_line_len(s: Seq<char>)
    requires
        s.len() > 0,
    ensures
        0 < line_len(s) <= s.len(),
{
    lemma_first_index(s, '\n');
}

/// A part at the start of an end of the text.
proof fn lemma_head_of_skip(s: Seq<char>, part: Seq<char>, i: int)
    requires
        0 <= i <= s.len(),
    ensures
        has_head(s.skip(i), part) == occurs_at(s, part, i),
{
    if i + part.len() <= s.len() {
        assert(s.skip(i).subrange(0, part.len() as int) =~= s.subrange(i, i + part.len()));
    }
}

/// A description without the status brackets at its start.
pub fn strip_status_brackets(value: &str) -> (r: String)
    ensures
        r@ == stripped(value@),
{
    let s = to_chars(value);
    let head = to_chars("[Monitor: ");
    let mut at: usize = 0;
    let mut more = true;
    assert(s@.skip(0) =~= s@);
    while more
        invariant
            s@ == value@,
            head@ == "[Monitor: "@,
            at <= s@.len(),
            stripped(value@) == stripped(s@.skip(at as int)),
            !more ==> stripped(value@) == s@.skip(at as int),
        decreases s@.len() - at + (if more { 1int } else { 0int }),
    {
        let ghost here = s@.skip(at as int);
        let start: usize = skip_blanks(&s, at);
        let ghost t = trim_start(here);
        proof {
            lemma_stripped_step(here);
            lemma_head_of_skip(s@, head@, start as int);
            lemma_bracket_end(t);
        }
        more = false;
        if chars_at(&s, &head, start) {
            assert(start + head.len() <= s.len());
            let close: usize = find_char(&s, start + head.len(), ']');
            proof {
                assert(t.skip(head@.len() as int) =~= s@.skip(start + head@.len()));
                lemma_first_index(t.skip(head@.len() as int), ']');
            }
            if close < s.len() {
                let ghost end = close + 1 - start;
                assert(bracket_end(t) == Some(end));
                assert(t.skip(end) =~= s@.skip(close + 1));
                at = skip_blanks(&s, close + 1);
                more = true;
            }
        }
    }
    proof {
        assert(s@.skip(at as int) =~= value@.subrange(at as int, value@.len() as int));
    }
    String::from_str(value.substring_char(at, s.len()))
}

/// Splits the property file into the part up to the description's value and
/// the part from that value on, which loses the status brackets at its start.
pub fn split_module_prop(orig: &str) -> (r: (String, String))
    ensures
        (r.0@, r.1@) == prop_parts(orig@),
{
    let s = to_chars(orig);
    let key = to_chars("description=");
    let mut pre = String::new();
    let mut at: usize = 0;
    proof {
        assert(s@.skip(0) =~= s@);
        assert(pre@ + prop_parts(s@).0 =~= prop_parts(s@).0);
    }
    while at < s.len()
        invariant
            s@ == orig@,
            key@ == "description="@,
            at <= s@.len(),
            prop_parts(orig@).0 == pre@ + prop_parts(s@.skip(at as int)).0,
            prop_parts(orig@).1 == prop_parts(s@.skip(at as int)).1,
        decreases s@.len() - at,
    {
        let ghost here = s@.skip(at as int);
        let ghost pre0 = pre@;
        let found: usize = find_char(&s, at, '\n');
        let end: usize = if found < s.len() {
            found + 1
        } else {
            s.len()
        };
        let ghost n = end - at;
        let ghost line = here.take(n);
        let ghost rest = here.skip(n);
        proof {
            lemma_line_len(here);
            assert(n == line_len(here));
            assert(line =~= s@.subrange(at as int, end as int));
            assert(rest =~= s@.skip(end as int));
        }
        let is_key = end - at >= key.len() && chars_at(&s, &key, at);
        proof {
            if at + key@.len() <= end {
                assert(line.subrange(0, key@.len() as int) =~= s@.subrange(at as int, at + key@.len()));
            }
            assert(is_key == has_head(line, key@));
        }
        if is_key {
            let value = strip_status_brackets(orig.substring_char(at + key.len(), end));
            let tail = orig.substring_char(end, s.len());
            proof {
                assert(line.skip(key@.len() as int) =~= orig@.subrange(at + key@.len(), end as int));
                assert(tail@ =~= rest);
            }
            pre.append("description=");
            let mut post = value;
            post.append(tail);
            return (pre, post);
        }
        let piece = orig.substring_char(at, end);
        pre.append(piece);
        proof {
            assert(piece@ =~= line);
            assert(pre0 + (line + prop_parts(rest).0) =~= pre@ + prop_parts(rest).0);
        }
        at = end;
    }
    proof {
        assert(s@.skip(at as int).len() == 0);
        assert(pre@ + Seq::<char>::empty() =~= pre@);
    }
    (pre, String::new())
}

/// No line of the text is a description.
pub open spec fn no_description(s: Seq<char>) -> bool
    decreases s.len(),
{
    let n = line_len(s);
    if s.len() == 0 || !(0 < n <= s.len()) {
        true
    } else {
        !has_head(s.take(n), "description="@) && no_description(s.skip(n))
    }
}

/// The first line of a text is that of its start, if the start has one.
proof fn lemma_first_line(head: Seq<char>, x: Seq<char>)
    requires
        head.len() > 0,
        head.last() == '\n',
    ensures
        line_len(head + x) == line_len(head),
        0 < line_len(head) <= head.len(),
        line_len(head) < head.len() ==> head.skip(line_len(head)).last() == '\n',
{
    let i = first_index(head, '\n');
    lemma_first_index(head, '\n');
    assert(i < head.len()) by {
        if i == head.len() {
            assert(head[head.len() - 1] != '\n');
        }
    }
    let whole = head + x;
    assert forall|j: int| 0 <= j < i implies #[trigger] whole[j] != '\n' by {
        assert(whole[j] == head[j]);
    }
    lemma_first_index_unique(whole, '\n', i);
}

/// Lines that are no description stay as they are.
proof fn lemma_lines_before(head: Seq<char>, x: Seq<char>)
    requires
        head.len() == 0 || head.last() == '\n',
        no_description(head),
    ensures
        prop_parts(head + x) == (head + prop_parts(x).0, prop_parts(x).1),
    decreases head.len(),
{
    let p = prop_parts(x);
    if head.len() == 0 {
        assert(head + x =~= x);
        assert(head + p.0 =~= p.0);
    } else {
        let n = line_len(head);
        let whole = head + x;
        lemma_first_line(head, x);
        let rest = head.skip(n);
        lemma_lines_before(rest, x);
        assert(whole.take(n) =~= head.take(n));
        assert(whole.skip(n) =~= rest + x);
        assert(head.take(n) + (rest + p.0) =~= head + p.0);
    }
}

/// What stands in front of the description's own text.
pub open spec fn shown_status(text: Seq<char>) -> Seq<char> {
    "[Monitor: "@ + text + "] "@
}

/// The first line ends where that of the rest does, if nothing before has an
/// end.
proof fn lemma_line_through(head: Seq<char>, rest: Seq<char>)
    requires
        !head.contains('\n'),
    ensures
        line_len(head + rest) == head.len() + line_len(rest),
{
    let d = head + rest;
    let i = first_index(rest, '\n');
    lemma_first_index(rest, '\n');
    assert forall|j: int| 0 <= j < head.len() + i implies #[trigger] d[j] != '\n' by {
        if j < head.len() {
            assert(d[j] == head[j]);
            assert(head.contains(head[j]));
        } else {
            assert(d[j] == rest[j - head.len()]);
        }
    }
    lemma_first_index_unique(d, '\n', head.len() + i);
}

/// The key and the status hold no line end.
proof fn lemma_status_has_no_end(text: Seq<char>)
    requires
        !text.contains('\n'),
    ensures
        !("description="@ + shown_status(text)).contains('\n'),
{
    let key = "description="@;
    let lead = "[Monitor: "@;
    let shut = "] "@;
    reveal_strlit("description=");
    reveal_strlit("[Monitor: ");
    reveal_strlit("] ");
    let all = key + shown_status(text);
    assert forall|j: int| 0 <= j < all.len() implies #[trigger] all[j] != '\n' by {
        if j < key.len() {
            assert(all[j] == key[j]);
        } else if j < key.len() + lead.len() {
            assert(all[j] == lead[j - key.len()]);
        } else if j < key.len() + lead.len() + text.len() {
            assert(all[j] == text[j - key.len() - lead.len()]);
            assert(text.contains(text[j - key.len() - lead.len()]));
        } else {
            assert(all[j] == shut[j - key.len() - lead.len() - text.len()]);
        }
    }
}

/// A description that shows a status is stripped like its own text.
proof fn lemma_status_is_stripped(text: Seq<char>, own: Seq<char>)
    requires
        !text.contains(']'),
    ensures
        stripped(shown_status(text) + own) == stripped(trim_start(own)),
{
    let lead = "[Monitor: "@;
    let shut = "] "@;
    reveal_strlit("[Monitor: ");
    reveal_strlit("] ");
    let value = shown_status(text) + own;
    assert(value[0] == lead[0]);
    assert(!is_blank(value[0]));
    assert(trim_start(value) == value);
    assert(value.subrange(0, lead.len() as int) =~= lead);
    let inner = value.skip(lead.len() as int);
    assert forall|j: int| 0 <= j < text.len() implies #[trigger] inner[j] != ']' by {
        assert(inner[j] == text[j]);
        assert(text.contains(text[j]));
    }
    assert(inner[text.len() as int] == shut[0]);
    lemma_first_index_unique(inner, ']', text.len() as int);
    let end = (lead.len() + text.len() + 1) as int;
    assert(bracket_end(value) == Some(end));
    let left = value.skip(end);
    assert(left[0] == shut[1]);
    assert(left.drop_first() =~= own);
    assert(trim_start(left) == trim_start(own));
    lemma_stripped_step(value);
}

/// A property file that shows a status splits into the same two parts as the
/// file without it: writing a fresh status replaces the old one, however
/// often it is done. `before` is what stands before the description, `text`
/// the status after its first word, `rest` the description's own text and
/// everything after it. Blanks and statuses at the start of the description's
/// own text go with the old status; without any, that text stays as it is.
pub proof fn law_status_is_replaced(before: Seq<char>, text: Seq<char>, rest: Seq<char>)
    requires
        before.len() == 0 || before.last() == '\n',
        no_description(before),
        !text.contains('\n'),
        !text.contains(']'),
    ensures
        ({
            let own = rest.take(line_len(rest));
            let parts = prop_parts(before + "description="@ + shown_status(text) + rest);
            &&& parts.0 == before + "description="@
            &&& parts.1 == stripped(trim_start(own)) + rest.skip(line_len(rest))
            &&& rest.len() == 0 || (!is_blank(rest[0]) && bracket_end(own) is None) ==> parts.1
                == rest
        }),
{
    let key = "description="@;
    let status = shown_status(text);
    let head = key + status;
    let d = head + rest;
    let m = line_len(rest);
    let own = rest.take(m);
    let tail = rest.skip(m);
    if rest.len() > 0 {
        lemma_line_len(rest);
    }
    lemma_status_has_no_end(text);
    lemma_line_through(head, rest);
    assert(before + key + status + rest =~= before + d);
    lemma_lines_before(before, d);
    let line = d.take(head.len() + m);
    reveal_strlit("description=");
    assert(line.subrange(0, key.len() as int) =~= key);
    assert(line.skip(key.len() as int) =~= status + own);
    assert(d.skip(head.len() + m) =~= tail);
    lemma_status_is_stripped(text, own);
    assert(own + tail =~= rest);
    lemma_stripped_step(trim_start(own));
    lemma_trim_start(own);
    if rest.len() == 0 {
        lemma_bracket_end(own);
    } else if !is_blank(rest[0]) {
        assert(own[0] == rest[0]);
    }
}

/// A status bracket starts with its own words and ends with the next closing
/// bracket; nothing else is one.
pub proof fn law_bracket_is_the_status(s: Seq<char>, end: int)
    requires
        0 < end <= s.len(),
        has_head(s, "[Monitor: "@),
        end > 10,
        s[end - 1] == ']',
        forall|j: int| 10 <= j < end - 1 ==> #[trigger] s[j] != ']',
    ensures
        bracket_end(s) == Some(end),
{
    reveal_strlit("[Monitor: ");
    let rest = s.skip(10);
    assert(rest[end - 11] == ']');
    assert forall|j: int| 0 <= j < end - 11 implies #[trigger] rest[j] != ']' by {
        assert(rest[j] == s[j + 10]);
    }
    lemma_first_index_unique(rest, ']', end - 11);
}

/// A description that does not start with a status, blanks aside, is left as it
/// is, and nothing is ever added to one.
pub proof fn law_other_descriptions_stay(s: Seq<char>)
    ensures
        !has_head(trim_start(s), "[Monitor: "@) ==> stripped(s) == s,
        stripped(s).len() <= s.len(),
        stripped(s) == s.skip(s.len() - stripped(s).len()),
    decreases s.len(),
{
    let t = trim_start(s);
    lemma_stripped_step(s);
    lemma_trim_start(s);
    crate::text::law_trimming_takes_blanks_alone(s);
    assert(s.skip(0) =~= s);
    match bracket_end(t) {
        Some(end) => {
            lemma_bracket_end(t);
            let next = trim_start(t.skip(end));
            crate::text::law_trimming_takes_blanks_alone(t.skip(end));
            law_other_descriptions_stay(next);
            let r = stripped(s);
            assert(r =~= s.skip(s.len() - r.len())) by {
                assert(next =~= s.skip(s.len() - next.len()));
                assert(r == next.skip(next.len() - r.len()));
            }
        },
        None => {},
    }
}

/// A file without a description has all of it in the first part.
pub proof fn law_file_without_description(s: Seq<char>)
    requires
        no_description(s),
    ensures
        prop_parts(s).0 == s,
        prop_parts(s).1.len() == 0,
    decreases s.len(),
{
    if s.len() > 0 {
        lemma_line_len(s);
        let n = line_len(s);
        law_file_without_description(s.skip(n));
        assert(s.take(n) + s.skip(n) =~= s);
    }
}

/// A file is split where the value of its first description starts, and nothing
/// of it is lost where that value shows no status: the two parts make the file
/// again.
pub proof fn law_split_loses_nothing(before: Seq<char>, rest: Seq<char>)
    requires
        before.len() == 0 || before.last() == '\n',
        no_description(before),
        !has_head(trim_start(rest.take(line_len(rest))), "[Monitor: "@),
    ensures
        prop_parts(before + "description="@ + rest) == (before + "description="@, rest),
{
    let key = "description="@;
    let d = key + rest;
    let m = line_len(rest);
    let own = rest.take(m);
    let tail = rest.skip(m);
    reveal_strlit("description=");
    assert(!key.contains('\n'));
    if rest.len() > 0 {
        lemma_line_len(rest);
    }
    lemma_line_through(key, rest);
    assert(before + key + rest =~= before + d);
    lemma_lines_before(before, d);
    let line = d.take(key.len() + m);
    assert(line.subrange(0, key.len() as int) =~= key);
    assert(line.skip(key.len() as int) =~= own);
    assert(d.skip(key.len() + m) =~= tail);
    law_other_descriptions_stay(own);
    assert(own + tail =~= rest);
}

} // verus!
