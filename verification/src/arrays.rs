//! Fixed-size arrays as mathematical values.
//!
//! A contract that speaks of a whole device names arrays by their contents:
//! [`with`] replaces one element and [`array_of`] is the array that holds a
//! given sequence.

use vstd::prelude::*;

verus! {

/// `array` with element `index` replaced by `value`.
pub open spec fn with<T, const N: usize>(array: [T; N], index: int, value: T) -> [T; N] {
    vstd::array::spec_array_update(array, index, value)
}

/// An array whose first `count` elements are those of `contents`.
pub open spec fn array_prefix<T, const N: usize>(contents: Seq<T>, count: nat) -> [T; N]
    decreases count,
{
    if count == 0 {
        arbitrary()
    } else {
        with(
            array_prefix::<T, N>(contents, (count - 1) as nat),
            count - 1,
            contents[count - 1],
        )
    }
}

/// The array that holds `contents`, which has exactly `N` elements.
pub open spec fn array_of<T, const N: usize>(contents: Seq<T>) -> [T; N] {
    array_prefix::<T, N>(contents, N as nat)
}

proof fn lemma_array_prefix<T, const N: usize>(contents: Seq<T>, count: nat)
    requires
        count <= N,
    ensures
        forall|i: int| 0 <= i < count ==> array_prefix::<T, N>(contents, count)@[i] == contents[i],
    decreases count,
{
    if count > 0 {
        lemma_array_prefix::<T, N>(contents, (count - 1) as nat);
        let shorter = array_prefix::<T, N>(contents, (count - 1) as nat);
        assert(with(shorter, count - 1, contents[count - 1])@ == shorter@.update(
            count - 1,
            contents[count - 1],
        ));
    }
}

/// [`array_of`] holds the sequence that it is built from.
pub proof fn lemma_array_of<T, const N: usize>(contents: Seq<T>)
    requires
        contents.len() == N,
    ensures
        array_of::<T, N>(contents)@ == contents,
{
    lemma_array_prefix::<T, N>(contents, N as nat);
}

/// An array is determined by the sequence of its elements.
pub proof fn lemma_array_is<T, const N: usize>(array: [T; N], contents: Seq<T>)
    requires
        array@ == contents,
    ensures
        array == array_of::<T, N>(contents),
{
    lemma_array_of::<T, N>(contents);
    let built = array_of::<T, N>(contents);
    assert forall|i: int| 0 <= i < N implies array[i] == built[i] by {
        assert(array@[i] == built@[i]);
    }
    assert(array =~= built);
}

} // verus!
