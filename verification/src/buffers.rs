use vstd::prelude::*;

verus! {

/// Calls `Vec::into_boxed_slice` of std. The contract claims that the boxed slice
/// holds the elements of the vector, in the same order.
#[verifier::external_body]
pub(crate) fn vec_into_boxed_slice<T>(v: Vec<T>) -> (b: Box<[T]>)
    ensures
        b@ == v@,
{
    v.into_boxed_slice()
}

/// Turns a boxed slice into a vector of the same elements, without copying them.
pub fn boxed_slice_into_vec<T>(b: Box<[T]>) -> (v: Vec<T>)
    ensures
        v@ == b@,
{
    b.into_vec()
}


/// Calls the conversion of std from a vector into an array, `TryFrom<Vec<T>>` for
/// `[T; N]`. The contract claims what its documentation says: a vector of
/// exactly `N` elements becomes the array of these elements in the same order,
/// and any other vector comes back as it was.
#[verifier::external_body]
pub(crate) fn vec_into_array<T, const N: usize>(v: Vec<T>) -> (r: Result<[T; N], Vec<T>>)
    ensures
        match r {
            Ok(array) => v@.len() == N && array@ == v@,
            Err(back) => v@.len() != N && back@ == v@,
        },
{
    <[T; N]>::try_from(v)
}

} // verus!
