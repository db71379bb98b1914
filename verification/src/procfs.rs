//! What is read of a process from its files.
use vstd::prelude::*;
use crate::text::{find_after_last, find_word, parse_signed, signed_value, stat_field, to_chars};

verus! {

/// A command line with a blank between its arguments: every byte of an
/// argument stays, the zeros between arguments go, and empty arguments
/// leave no trace.
pub open spec fn joined_arguments(raw: Seq<u8>) -> Seq<u8>
    decreases raw.len(),
{
    if raw.len() == 0 {
        seq![]
    } else {
        let before = joined_arguments(raw.drop_last());
        let starts = raw.len() == 1 || raw[raw.len() - 2] == 0;
        if raw.last() == 0 {
            before
        } else if starts && before.len() > 0 {
            before.push(0x20).push(raw.last())
        } else {
            before.push(raw.last())
        }
    }
}

/// The command line of a process, from the bytes of its file.
pub fn get_cmdline(raw: &Vec<u8>) -> (out: Vec<u8>)
    ensures
        out@ == joined_arguments(raw@),
{
    let mut out: Vec<u8> = Vec::new();
    let mut i: usize = 0;
    assert(raw@.take(0).len() == 0);
    while i < raw.len()
        invariant
            i <= raw@.len(),
            out@ == joined_arguments(raw@.take(i as int)),
        decreases raw@.len() - i,
    {
        let ghost upto = raw@.take(i + 1);
        assert(upto.drop_last() =~= raw@.take(i as int));
        if raw[i] != 0 {
            let starts = i == 0 || raw[i - 1] == 0;
            if starts && out.len() > 0 {
                out.push(0x20);
            }
            out.push(raw[i]);
        }
        i = i + 1;
    }
    assert(raw@.take(i as int) =~= raw@);
    out
}

/// A command line holds no zero: what `get_cmdline` returns is plain text.
pub proof fn law_command_line_has_no_zero(raw: Seq<u8>)
    ensures
        !joined_arguments(raw).contains(0u8),
    decreases raw.len(),
{
    if raw.len() > 0 {
        law_command_line_has_no_zero(raw.drop_last());
        let before = joined_arguments(raw.drop_last());
        let all = joined_arguments(raw);
        if all.contains(0u8) {
            let j = choose|j: int| 0 <= j < all.len() && all[j] == 0u8;
            if j < before.len() {
                assert(all[j] == before[j]);
                assert(before.contains(0u8));
            }
        }
    }
}

/// The parent that a process status line names: the second word after the
/// process's own name.
pub open spec fn parent_of(stat: Seq<char>) -> Option<i32> {
    match stat_field(stat, 1) {
        Some(word) => match signed_value(word, 10) {
            Some(v) => if i32::MIN <= v <= i32::MAX {
                Some(v as i32)
            } else {
                None
            },
            None => None,
        },
        None => None,
    }
}

/// The parent of a process, from its status line.
pub fn get_ppid(stat: &str) -> (r: Option<i32>)
    ensures
        r == parent_of(stat@),
{
    let s = to_chars(stat);
    match find_after_last(&s, ')') {
        Some(at) => match find_word(&s, at, 1) {
            Some((a, b)) => match parse_signed(&s, a, b, 10) {
                Some(v) => if -0x8000_0000 <= v && v <= 0x7fff_ffff {
                    Some(v as i32)
                } else {
                    None
                },
                None => None,
            },
            None => None,
        },
        None => None,
    }
}

/// An argument that follows others, behind the zero that ends them, is added
/// with a blank in between; one that comes first is added as it is; and a zero
/// more changes nothing.
pub proof fn law_arguments_are_joined_by_blanks(before: Seq<u8>, argument: Seq<u8>)
    requires
        before.len() == 0 || before.last() == 0,
        argument.len() > 0,
        !argument.contains(0u8),
    ensures
        joined_arguments(before + argument) == if joined_arguments(before).len() == 0 {
            argument
        } else {
            joined_arguments(before).push(0x20) + argument
        },
        joined_arguments(before.push(0)) == joined_arguments(before),
    decreases argument.len(),
{
    assert(before.push(0).drop_last() =~= before);
    let all = before + argument;
    let rest = argument.drop_last();
    assert(all.drop_last() =~= before + rest);
    assert(argument.contains(argument.last()));
    assert(all.last() == argument.last());
    if rest.len() == 0 {
        assert(before + rest =~= before);
        assert(argument =~= seq![argument.last()]);
        assert(all.len() == 1 || all[all.len() - 2] == before.last());
        assert(joined_arguments(all) =~= if joined_arguments(before).len() == 0 {
            argument
        } else {
            joined_arguments(before).push(0x20) + argument
        });
    } else {
        assert(!rest.contains(0u8)) by {
            if rest.contains(0u8) {
                let k = choose|k: int| 0 <= k < rest.len() && rest[k] == 0u8;
                assert(argument[k] == 0u8);
                assert(argument.contains(0u8));
            }
        }
        law_arguments_are_joined_by_blanks(before, rest);
        assert(all[all.len() - 2] == rest.last());
        assert(rest.contains(rest.last()));
        assert(joined_arguments(all) =~= if joined_arguments(before).len() == 0 {
            argument
        } else {
            joined_arguments(before).push(0x20) + argument
        });
    }
}

/// A process's parent is the number in the second field behind its name, where
/// there is one that a process can have.
pub proof fn law_parent_is_the_second_field(stat: Seq<char>)
    ensures
        parent_of(stat) matches Some(p) ==> stat_field(stat, 1) is Some && signed_value(
            stat_field(stat, 1)->0,
            10,
        ) == Some(p as int),
        stat_field(stat, 1) is None ==> parent_of(stat) is None,
        stat_field(stat, 1) is Some && signed_value(stat_field(stat, 1)->0, 10) is Some ==> {
            let v = signed_value(stat_field(stat, 1)->0, 10)->0;
            parent_of(stat) == if i32::MIN <= v <= i32::MAX {
                Some(v as i32)
            } else {
                None
            }
        },
{
}

} // verus!
