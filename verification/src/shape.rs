use vstd::prelude::*;
use ndarray::Array3;

verus! {

/// A three-dimensional `ndarray::Array3<u32>` of subquantizer elements (`f32`
/// bit patterns), held for the caller that builds the quantizer from it. It is
/// opaque here (its declaration as an outside type needs ndarray's `RawData`
/// bound, which cannot be named); `array3_elements` and `array3_shape` say
/// what it holds.
#[verifier::external_body]
pub struct QuantizerArray(pub Array3<u32>);

#[verifier::external_type_specification]
#[verifier::external_body]
pub struct ExShapeError(ndarray::ShapeError);

/// The elements of a three-dimensional array, in logical (row-major) order.
pub uninterp spec fn array3_elements(a: QuantizerArray) -> Seq<u32>;

/// The lengths of the three axes of an array.
pub uninterp spec fn array3_shape(a: QuantizerArray) -> (usize, usize, usize);

/// The product of the axis lengths that are not zero.
pub open spec fn nonzero_axes_product(d0: usize, d1: usize, d2: usize) -> int {
    (if d0 == 0 { 1 } else { d0 as int }) * (if d1 == 0 { 1 } else { d1 as int }) * (if d2 == 0 { 1 } else { d2 as int })
}

/// `ndarray::Array3::from_shape_vec` with the shape `(d0, d1, d2)` in standard
/// order: it succeeds exactly when the product of the nonzero axis lengths is at
/// most `isize::MAX` and the product of all three is the number of elements,
/// and then the array has that shape and holds the elements in order.
#[verifier::external_body]
pub(crate) fn array3_from_shape_vec(d0: usize, d1: usize, d2: usize, v: Vec<u32>) -> (result: Result<QuantizerArray, ndarray::ShapeError>)
    ensures
        result is Ok <==> (nonzero_axes_product(d0, d1, d2) <= isize::MAX && d0 * d1 * d2 == v@.len()),
        result matches Ok(a) ==> array3_elements(a) == v@ && array3_shape(a) == (d0, d1, d2),
{
    Array3::from_shape_vec((d0, d1, d2), v).map(QuantizerArray)
}

} // verus!
