//! The layout of the C++ library's strings.
use vstd::prelude::*;
use crate::elf::{le32, le64, read_le32, read_le64};

verus! {

/// Where the characters of a string are.
#[derive(Clone, Copy, Debug, PartialEq, Eq, Structural)]
pub enum StringData {
    /// In the string object, from its second byte on.
    Inline(usize),
    /// At an address.
    At(u64, u64),
    /// Nowhere.
    Absent,
}

/// The size of a string object.
pub open spec fn object_size(wide: bool) -> int {
    if wide {
        24
    } else {
        12
    }
}

/// A word of a string object.
pub open spec fn object_word(obj: Seq<u8>, n: int, wide: bool) -> u64 {
    if wide {
        le64(obj, 8 * n)
    } else {
        le32(obj, 4 * n) as u64
    }
}

fn read_word(obj: &[u8], n: usize, wide: bool) -> (r: u64)
    requires
        n < 3,
        obj@.len() >= object_size(wide),
    ensures
        r == object_word(obj@, n as int, wide),
{
    if wide {
        read_le64(obj, 8 * n)
    } else {
        read_le32(obj, 4 * n) as u64
    }
}

/// The string keeps its characters in the object: its first byte is even.
pub open spec fn is_short(obj: Seq<u8>) -> bool {
    obj[0] % 2 == 0
}

/// The length of a string; zero without a string. `wide` tells pointers of
/// eight bytes from pointers of four.
pub fn get_std_string_length(obj: Option<&[u8]>, wide: bool) -> (n: u64)
    requires
        obj matches Some(b) ==> b@.len() >= object_size(wide),
    ensures
        n == match obj {
            Some(b) => if is_short(b@) {
                (b@[0] / 2) as u64
            } else {
                object_word(b@, 1, wide)
            },
            None => 0u64,
        },
{
    match obj {
        Some(b) => if b[0] % 2 == 0 {
            (b[0] / 2) as u64
        } else {
            read_word(b, 1, wide)
        },
        None => 0,
    }
}

/// Where the characters of a string are: in the object, at an address, or
/// nowhere without a string or with a null address.
pub fn read_std_string(obj: Option<&[u8]>, wide: bool) -> (r: StringData)
    requires
        obj matches Some(b) ==> b@.len() >= object_size(wide),
    ensures
        r == match obj {
            Some(b) => if is_short(b@) {
                StringData::Inline((b@[0] / 2) as usize)
            } else if object_word(b@, 2, wide) == 0 {
                StringData::Absent
            } else {
                StringData::At(object_word(b@, 2, wide), object_word(b@, 1, wide))
            },
            None => StringData::Absent,
        },
{
    match obj {
        Some(b) => if b[0] % 2 == 0 {
            StringData::Inline((b[0] / 2) as usize)
        } else {
            let addr: u64 = read_word(b, 2, wide);
            if addr == 0 {
                StringData::Absent
            } else {
                StringData::At(addr, read_word(b, 1, wide))
            }
        },
        None => StringData::Absent,
    }
}

/// Where the characters are and how many there are agree: those in the object
/// are counted by half of its first byte, those elsewhere by its second word.
pub proof fn law_length_and_place_agree(obj: &[u8], wide: bool, n: u64, r: StringData)
    requires
        obj@.len() >= 24,
        call_ensures(get_std_string_length, (Some(obj), wide), n),
        call_ensures(read_std_string, (Some(obj), wide), r),
    ensures
        r is Inline <==> obj@[0] % 2 == 0,
        r is Inline ==> r->Inline_0 == n && 2 * n == obj@[0],
        r is At ==> r->At_1 == n && r->At_0 != 0,
{
}

/// The words of a long string stand least significant byte first, in eight
/// bytes each or in four.
pub proof fn law_words_of_a_long_string(obj: &[u8], wide: bool, r: StringData)
    requires
        obj@.len() >= 24,
        call_ensures(read_std_string, (Some(obj), wide), r),
        r is At,
    ensures
        wide ==> {
            &&& r->At_0 % 0x100 == obj@[16]
            &&& r->At_0 / 0x100_0000_0000_0000 == obj@[23]
            &&& r->At_1 % 0x100 == obj@[8]
            &&& r->At_1 / 0x100_0000_0000_0000 == obj@[15]
        },
        !wide ==> {
            &&& r->At_0 % 0x100 == obj@[8]
            &&& r->At_0 / 0x100_0000 == obj@[11]
            &&& r->At_1 % 0x100 == obj@[4]
            &&& r->At_1 / 0x100_0000 == obj@[7]
        },
{
}

/// A long string has no characters exactly if the bytes of its third word are
/// zero.
pub proof fn law_long_string_at_null(obj: &[u8], r: StringData, s: StringData)
    requires
        obj@.len() >= 24,
        obj@[0] % 2 == 1,
        call_ensures(read_std_string, (Some(obj), true), r),
        call_ensures(read_std_string, (Some(obj), false), s),
    ensures
        r is Absent <==> (forall|i: int| 16 <= i < 24 ==> #[trigger] obj@[i] == 0),
        s is Absent <==> (forall|i: int| 8 <= i < 12 ==> #[trigger] obj@[i] == 0),
{
    let o = obj@;
    assert(le64(o, 16) == 0 <==> le32(o, 16) == 0 && le32(o, 20) == 0);
    assert(le32(o, 16) == 0 <==> o[16] == 0 && o[17] == 0 && o[18] == 0 && o[19] == 0);
    assert(le32(o, 20) == 0 <==> o[20] == 0 && o[21] == 0 && o[22] == 0 && o[23] == 0);
    assert(le32(o, 8) == 0 <==> o[8] == 0 && o[9] == 0 && o[10] == 0 && o[11] == 0);
}

/// Where there is no string there are no characters.
pub proof fn law_no_string_is_empty(wide: bool, n: u64, r: StringData)
    requires
        call_ensures(get_std_string_length, (None, wide), n),
        call_ensures(read_std_string, (None, wide), r),
    ensures
        n == 0,
        r is Absent,
{
}

} // verus!
