use vstd::prelude::*;
use core::cmp::Ordering;
use vstd::std_specs::cmp::PartialEqSpec;
use crate::item_pointer::{IndexPointer, ItemPointer};

verus! {

// A distance is an `f32`; the library holds it by its IEEE-754 bit pattern
// (the value of `f32::to_bits`), so that everything below is integer logic.

/// The largest bit pattern of a non-negative, non-NaN `f32` with the sign bit
/// clear: positive infinity.
pub const POSITIVE_INFINITY_BITS: u32 = 0x7F80_0000u32;

/// The bit pattern of negative zero.
pub const NEGATIVE_ZERO_BITS: u32 = 0x8000_0000u32;

/// The pattern with all bits but the sign bit.
pub open spec fn magnitude_bits(bits: u32) -> int {
    bits as int % 0x8000_0000
}

/// The `f32` with these bits is a NaN: all exponent bits set and a nonzero mantissa.
pub open spec fn is_nan_bits(bits: u32) -> bool {
    magnitude_bits(bits) > POSITIVE_INFINITY_BITS as int
}

/// The `f32` with these bits is positive or negative zero.
pub open spec fn is_zero_bits(bits: u32) -> bool {
    magnitude_bits(bits) == 0
}

/// The `f32` with these bits is not NaN and compares `>= 0.0`:
/// a value from `+0.0` to `+inf`, or `-0.0`.
pub open spec fn is_valid_distance(bits: u32) -> bool {
    !is_nan_bits(bits) && (bits < NEGATIVE_ZERO_BITS || bits == NEGATIVE_ZERO_BITS)
}

/// The position of an `f32` in the IEEE-754 total order (`f32::total_cmp`):
/// negative values (negative NaNs first) below `-0.0`, which lies just below `+0.0`,
/// then the positive values up to the positive NaNs.
pub open spec fn total_order_key(bits: u32) -> int {
    if bits >= NEGATIVE_ZERO_BITS {
        0x7FFF_FFFF - bits as int
    } else {
        bits as int
    }
}

/// Three-way comparison of two mathematical integers.
pub open spec fn compare_int(a: int, b: int) -> Ordering {
    if a < b {
        Ordering::Less
    } else if a == b {
        Ordering::Equal
    } else {
        Ordering::Greater
    }
}

/// `f32::partial_cmp` on two bit patterns: no order when either is NaN,
/// `-0.0` equal to `+0.0`, and otherwise the numeric order, which the total
/// order agrees with.
pub open spec fn float_partial_cmp(a: u32, b: u32) -> Option<Ordering> {
    if is_nan_bits(a) || is_nan_bits(b) {
        None
    } else if is_zero_bits(a) && is_zero_bits(b) {
        Some(Ordering::Equal)
    } else {
        Some(compare_int(total_order_key(a), total_order_key(b)))
    }
}

/// `f32::total_cmp` on two bit patterns.
pub open spec fn float_total_cmp(a: u32, b: u32) -> Ordering {
    compare_int(total_order_key(a), total_order_key(b))
}

/// The total-order key shifted into `u32`: `total_order_key(bits) + 2^31`.
fn unsigned_total_order_key(bits: u32) -> (key: u32)
    ensures
        key == total_order_key(bits) + 0x8000_0000,
{
    if bits >= NEGATIVE_ZERO_BITS {
        0xFFFF_FFFFu32 - bits
    } else {
        bits + NEGATIVE_ZERO_BITS
    }
}

/// `f32::total_cmp` is a total order on bit patterns: it is antisymmetric,
/// calls two patterns equal only when they are the same, and is transitive.
pub proof fn lemma_total_cmp_is_total_order(a: u32, b: u32, c: u32)
    ensures
        (float_total_cmp(a, b) == Ordering::Less) <==> (float_total_cmp(b, a) == Ordering::Greater),
        (float_total_cmp(a, b) == Ordering::Equal) <==> a == b,
        float_total_cmp(a, b) == Ordering::Less && float_total_cmp(b, c) == Ordering::Less
            ==> float_total_cmp(a, c) == Ordering::Less,
{
}

/// `f32::total_cmp` read off the bit patterns: patterns with the sign bit
/// clear are ordered as unsigned integers; every pattern with the sign bit set
/// comes before them; among those, a larger pattern (a larger magnitude) comes first.
pub proof fn lemma_total_cmp_on_bits(a: u32, b: u32)
    ensures
        a < 0x8000_0000u32 && b < 0x8000_0000u32 ==> {
            &&& (float_total_cmp(a, b) == Ordering::Less <==> a < b)
            &&& (float_total_cmp(a, b) == Ordering::Equal <==> a == b)
            &&& (float_total_cmp(a, b) == Ordering::Greater <==> a > b)
        },
        a >= 0x8000_0000u32 && b < 0x8000_0000u32 ==> float_total_cmp(a, b) == Ordering::Less,
        a >= 0x8000_0000u32 && b >= 0x8000_0000u32 ==> {
            &&& (float_total_cmp(a, b) == Ordering::Less <==> a > b)
            &&& (float_total_cmp(a, b) == Ordering::Equal <==> a == b)
            &&& (float_total_cmp(a, b) == Ordering::Greater <==> a < b)
        },
{
}

/// On distances, `partial_cmp` orders as the bit patterns read as unsigned
/// integers, except that `-0.0` (`0x8000_0000`) counts as `+0.0` (`0`).
pub proof fn lemma_partial_cmp_on_distance_bits(a: u32, b: u32)
    requires
        is_valid_distance(a),
        is_valid_distance(b),
    ensures
        ({
            let x: u32 = if a == 0x8000_0000u32 { 0u32 } else { a };
            let y: u32 = if b == 0x8000_0000u32 { 0u32 } else { b };
            &&& (float_partial_cmp(a, b) == Some(Ordering::Less) <==> x < y)
            &&& (float_partial_cmp(a, b) == Some(Ordering::Equal) <==> x == y)
            &&& (float_partial_cmp(a, b) == Some(Ordering::Greater) <==> x > y)
        }),
{
}

/// On distances (numbers not below zero), `partial_cmp` always gives an order,
/// and it is the order of `total_cmp` except that `-0.0` and `+0.0` are equal.
pub proof fn lemma_partial_cmp_agrees_with_total_cmp(a: u32, b: u32)
    requires
        is_valid_distance(a),
        is_valid_distance(b),
    ensures
        float_partial_cmp(a, b) is Some,
        is_zero_bits(a) && is_zero_bits(b) ==> float_partial_cmp(a, b) == Some(Ordering::Equal),
        !(is_zero_bits(a) && is_zero_bits(b)) ==> float_partial_cmp(a, b) == Some(float_total_cmp(a, b)),
{
}

/// Neighbors are equal when they point at the same item; this equality is
/// reflexive, symmetric and transitive whatever their distances.
pub proof fn lemma_neighbor_eq_is_equivalence(a: NeighborWithDistance, b: NeighborWithDistance, c: NeighborWithDistance)
    ensures
        a.eq_spec(&a),
        a.eq_spec(&b) == b.eq_spec(&a),
        a.eq_spec(&b) && b.eq_spec(&c) ==> a.eq_spec(&c),
        a.eq_spec(&b) <==> a.spec_index_pointer() == b.spec_index_pointer(),
{
}

/// A neighbor of a node together with its distance from that node.
/// Two of them are equal when they point at the same item, whatever their distances.
#[derive(Clone, Copy, Debug)]
pub struct NeighborWithDistance {
    index_pointer: IndexPointer,
    distance: u32,
}

impl NeighborWithDistance {
    #[verifier::type_invariant]
    spec fn distance_is_valid(self) -> bool {
        is_valid_distance(self.distance)
    }

    pub closed spec fn spec_index_pointer(self) -> IndexPointer {
        self.index_pointer
    }

    /// The bit pattern of the distance.
    pub closed spec fn spec_distance(self) -> u32 {
        self.distance
    }

    /// A neighbor at `distance` (given by its bit pattern), which must be a
    /// number and not below zero.
    pub fn new(neighbor_index_pointer: ItemPointer, distance: u32) -> (result: Self)
        requires
            is_valid_distance(distance),
        ensures
            result.spec_index_pointer() == neighbor_index_pointer,
            result.spec_distance() == distance,
    {
        NeighborWithDistance { index_pointer: neighbor_index_pointer, distance }
    }

    pub fn get_index_pointer_to_neighbor(&self) -> (result: ItemPointer)
        ensures
            result == self.spec_index_pointer(),
    {
        self.index_pointer
    }

    /// The bit pattern of the distance.
    pub fn get_distance(&self) -> (result: u32)
        ensures
            result == self.spec_distance(),
            is_valid_distance(result),
    {
        proof {
            use_type_invariant(self);
        }
        self.distance
    }

    /// The order of `f32::total_cmp` on the two distances.
    pub fn cmp(&self, other: &Self) -> (result: Ordering)
        ensures
            result == float_total_cmp(self.spec_distance(), other.spec_distance()),
            self.spec_distance() < 0x8000_0000u32 && other.spec_distance() < 0x8000_0000u32 ==> {
                &&& (result == Ordering::Less <==> self.spec_distance() < other.spec_distance())
                &&& (result == Ordering::Equal <==> self.spec_distance() == other.spec_distance())
            },
    {
        let a = unsigned_total_order_key(self.distance);
        let b = unsigned_total_order_key(other.distance);
        if a < b {
            Ordering::Less
        } else if a == b {
            Ordering::Equal
        } else {
            Ordering::Greater
        }
    }
}

impl PartialEq for NeighborWithDistance {
    fn eq(&self, other: &Self) -> (result: bool) {
        self.index_pointer == other.index_pointer
    }
}

impl vstd::std_specs::cmp::PartialEqSpecImpl for NeighborWithDistance {
    open spec fn obeys_eq_spec() -> bool {
        true
    }

    open spec fn eq_spec(&self, other: &Self) -> bool {
        self.spec_index_pointer() == other.spec_index_pointer()
    }
}

impl Eq for NeighborWithDistance {
}

impl PartialOrd for NeighborWithDistance {
    fn partial_cmp(&self, other: &Self) -> (result: Option<Ordering>) {
        proof {
            use_type_invariant(self);
            use_type_invariant(other);
        }
        if self.distance % NEGATIVE_ZERO_BITS == 0 && other.distance % NEGATIVE_ZERO_BITS == 0 {
            Some(Ordering::Equal)
        } else {
            Some(self.cmp(other))
        }
    }
}

impl vstd::std_specs::cmp::PartialOrdSpecImpl for NeighborWithDistance {
    open spec fn obeys_partial_cmp_spec() -> bool {
        true
    }

    open spec fn partial_cmp_spec(&self, other: &Self) -> Option<Ordering> {
        float_partial_cmp(self.spec_distance(), other.spec_distance())
    }
}

impl core::hash::Hash for NeighborWithDistance {
    /// Hashes the item pointer alone, so that equal neighbors hash alike, by
    /// calling `Hash::hash` of `ItemPointer` (the derived impl) on the hasher.
    /// Nothing is claimed of the hasher's state: the hasher is not modeled.
    #[verifier::external_body]
    fn hash<H: core::hash::Hasher>(&self, state: &mut H) {
        self.index_pointer.hash(state);
    }
}

} // verus!
