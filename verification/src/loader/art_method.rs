//! Where the runtime keeps what of a method.
use vstd::prelude::*;

verus! {

/// The bytes of a pointer.
pub open spec fn pointer_bytes() -> int {
    usize::BITS as int / 8
}

fn pointer_size() -> (n: usize)
    ensures
        n == pointer_bytes(),
        n == 4 || n == 8,
{
    (usize::BITS / 8) as usize
}

/// The largest size that a method object is taken to have.
pub fn max_assumed_art_method_size() -> (n: usize)
    ensures
        n == 4 * 9 + 3 * pointer_bytes(),
{
    4 * 9 + 3 * pointer_size()
}

/// A difference that wraps around below zero.
pub open spec fn wrapped_difference(a: usize, b: int) -> int {
    if a >= b {
        a - b
    } else {
        a - b + usize::MAX + 1
    }
}

/// The places of the entry point and of the data in a method object: its last
/// two pointers.
pub fn derive_offsets(size: usize) -> (r: (usize, usize))
    ensures
        r.0 == wrapped_difference(size, pointer_bytes()),
        r.1 == wrapped_difference(r.0, pointer_bytes()),
{
    let n: usize = pointer_size();
    let entry_point: usize = size.wrapping_sub(n);
    (entry_point, entry_point.wrapping_sub(n))
}

/// How the object of a reflected method is found.
#[derive(Clone, Copy, Debug, PartialEq, Eq, Structural)]
pub enum ReflectedBy {
    /// By the field that names it.
    Field,
    /// By asking the runtime.
    Runtime,
}

/// The fewest constructors from which the layout can be learned.
pub const MIN_CONSTRUCTORS: usize = 2;

/// The two methods that are measured: the first two constructors, if the
/// classes were found and there are so many.
pub fn measured_methods(
    throwable_found: bool,
    class_found: bool,
    constructors: &Vec<usize>,
) -> (r: Option<(usize, usize)>)
    ensures
        r == if throwable_found && class_found && constructors@.len() >= MIN_CONSTRUCTORS {
            Some((constructors@[0], constructors@[1]))
        } else {
            None
        },
{
    if throwable_found && class_found && constructors.len() >= MIN_CONSTRUCTORS {
        Some((constructors[0], constructors[1]))
    } else {
        None
    }
}

/// What is known of the runtime's method objects.
#[derive(Clone, Copy, Debug, PartialEq, Eq, Structural)]
pub struct ArtMethodLayout {
    /// A reflected method names its object in a field.
    pub has_field: bool,
    /// Their size.
    pub size: usize,
    /// Where the entry point stands.
    pub entry_point_offset: usize,
    /// Where the data stands.
    pub data_offset: usize,
}

impl ArtMethodLayout {
    /// Nothing is known.
    pub fn new() -> (l: Self)
        ensures
            l == (ArtMethodLayout {
                has_field: false,
                size: 0,
                entry_point_offset: 0,
                data_offset: 0,
            }),
    {
        ArtMethodLayout { has_field: false, size: 0, entry_point_offset: 0, data_offset: 0 }
    }

    /// Notes whether reflected methods name their object in a field.
    pub fn field_probed(&mut self, class_found: bool, field_found: bool)
        ensures
            *final(self) == (ArtMethodLayout {
                has_field: class_found && field_found,
                ..*old(self)
            }),
    {
        self.has_field = class_found && field_found;
    }

    /// How the object of a reflected method is found.
    pub fn amethod_from_reflected_method(&self) -> (r: ReflectedBy)
        ensures
            r == if self.has_field {
                ReflectedBy::Field
            } else {
                ReflectedBy::Runtime
            },
    {
        if self.has_field {
            ReflectedBy::Field
        } else {
            ReflectedBy::Runtime
        }
    }

    /// Learns the layout from the addresses of two methods that lie side by
    /// side, if two constructors could be found. A distance that is too large
    /// is noted but teaches nothing else.
    pub fn amethod_init(&mut self, constructors: Option<(usize, usize)>) -> (r: bool)
        ensures
            match constructors {
                Some((first, second)) => {
                    let size = wrapped_difference(second, first as int);
                    &&& r == (size <= 4 * 9 + 3 * pointer_bytes())
                    &&& final(self).size == size
                    &&& final(self).has_field == old(self).has_field
                    &&& if r {
                        &&& final(self).entry_point_offset == wrapped_difference(
                            size as usize,
                            pointer_bytes(),
                        )
                        &&& final(self).data_offset == wrapped_difference(
                            final(self).entry_point_offset,
                            pointer_bytes(),
                        )
                    } else {
                        &&& final(self).entry_point_offset == old(self).entry_point_offset
                        &&& final(self).data_offset == old(self).data_offset
                    }
                },
                None => !r && *final(self) == *old(self),
            },
    {
        let (first, second): (usize, usize) = match constructors {
            Some(pair) => pair,
            None => {
                return false;
            },
        };
        let size: usize = second.wrapping_sub(first);
        self.size = size;
        if max_assumed_art_method_size() < size {
            return false;
        }
        let (entry_point, data): (usize, usize) = derive_offsets(size);
        self.entry_point_offset = entry_point;
        self.data_offset = data;
        true
    }

    /// The address of a method's data.
    pub fn amethod_get_data(&self, method: usize) -> (addr: usize)
        ensures
            addr == (if method + self.data_offset <= usize::MAX {
                method + self.data_offset
            } else {
                method + self.data_offset - usize::MAX - 1
            }),
    {
        method.wrapping_add(self.data_offset)
    }
}

/// The layout is learned from how far two methods lie apart: a distance of no
/// more than nine words and three pointers is the size of a method, whose last
/// pointer is its entry point and whose last pointer but one is its data.
pub proof fn law_layout_ends_in_two_pointers(
    layout: &mut ArtMethodLayout,
    first: usize,
    second: usize,
    r: bool,
)
    requires
        first <= second,
        call_ensures(ArtMethodLayout::amethod_init, (layout, Some((first, second))), r),
    ensures
        ({
            let word: int = if usize::MAX == 0xffff_ffff {
                4
            } else {
                8
            };
            &&& r <==> second - first <= 36 + 3 * word
            &&& first + final(layout).size == second
            &&& r && second - first >= 2 * word ==> {
                &&& first + final(layout).entry_point_offset + word == second
                &&& first + final(layout).data_offset + 2 * word == second
            }
            &&& !r ==> final(layout).entry_point_offset == old(layout).entry_point_offset
                && final(layout).data_offset == old(layout).data_offset
        }),
{
    assert(usize::MAX == 0xffff_ffff <==> usize::BITS == 32);
}

/// Methods that lie in the wrong order are as far apart as can be: nothing is
/// learned from them, unless the distance wraps around to a small one.
pub proof fn law_methods_in_the_wrong_order(
    layout: &mut ArtMethodLayout,
    first: usize,
    second: usize,
    r: bool,
)
    requires
        second < first,
        first - second < 0x1_0000,
        call_ensures(ArtMethodLayout::amethod_init, (layout, Some((first, second))), r),
    ensures
        !r,
        final(layout).entry_point_offset == old(layout).entry_point_offset,
        final(layout).data_offset == old(layout).data_offset,
{
}

/// Without two constructors of a class that was found there is nothing to
/// learn from; with them the first two are measured.
pub proof fn law_two_constructors_are_needed(
    throwable_found: bool,
    class_found: bool,
    constructors: &Vec<usize>,
    pair: Option<(usize, usize)>,
    layout: &mut ArtMethodLayout,
    r: bool,
)
    requires
        call_ensures(measured_methods, (throwable_found, class_found, constructors), pair),
        call_ensures(ArtMethodLayout::amethod_init, (layout, pair), r),
    ensures
        r ==> throwable_found && class_found && constructors@.len() >= 2,
        !throwable_found || !class_found || constructors@.len() < 2 ==> *final(layout) == *old(
            layout,
        ),
        pair is Some ==> (pair->0).0 == constructors@[0] && (pair->0).1 == constructors@[1],
        pair is None ==> !throwable_found || !class_found || constructors@.len() < 2,
{
}

/// The data of a method stands as far behind its start as was learned, for
/// all methods alike.
pub proof fn law_data_moves_with_the_method(
    layout: &ArtMethodLayout,
    first: usize,
    second: usize,
    a: usize,
    b: usize,
)
    requires
        first <= second,
        second + layout.data_offset <= usize::MAX,
        call_ensures(ArtMethodLayout::amethod_get_data, (layout, first), a),
        call_ensures(ArtMethodLayout::amethod_get_data, (layout, second), b),
    ensures
        b - a == second - first,
        a - first == layout.data_offset,
{
}

/// A reflected method is read by its field exactly if both its class and the
/// field were found; probing changes nothing else.
pub proof fn law_field_is_used_where_it_is(
    layout: &mut ArtMethodLayout,
    class_found: bool,
    field_found: bool,
    after: &ArtMethodLayout,
    way: ReflectedBy,
)
    requires
        call_ensures(ArtMethodLayout::field_probed, (layout, class_found, field_found), ()),
        *after == *final(layout),
        call_ensures(ArtMethodLayout::amethod_from_reflected_method, (after,), way),
    ensures
        way is Field <==> class_found && field_found,
        after.size == old(layout).size,
        after.data_offset == old(layout).data_offset,
        after.entry_point_offset == old(layout).entry_point_offset,
{
}

/// As long as nothing was learned, a method has no size, and its object is
/// found by asking the runtime.
pub proof fn law_nothing_is_known_at_first(layout: &ArtMethodLayout, way: ReflectedBy, addr: usize, method: usize)
    requires
        call_ensures(ArtMethodLayout::new, (), *layout),
        call_ensures(ArtMethodLayout::amethod_from_reflected_method, (layout,), way),
        call_ensures(ArtMethodLayout::amethod_get_data, (layout, method), addr),
    ensures
        way is Runtime,
        addr == method,
        layout.size == 0,
{
}

/// The offsets of a method of any plausible size are those of its last two
/// pointers.
pub proof fn law_offsets_are_the_last_pointers(size: usize, limit: usize, r: (usize, usize))
    requires
        call_ensures(max_assumed_art_method_size, (), limit),
        call_ensures(derive_offsets, (size,), r),
        16 <= size <= limit,
    ensures
        size - r.0 == r.0 - r.1,
        size - r.0 == 4 || size - r.0 == 8,
        limit <= 60,
{
}

} // verus!
