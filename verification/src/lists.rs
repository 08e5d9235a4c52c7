//! The texts that lists of strings hold.

use vstd::prelude::*;

verus! {

/// The texts of a list of character slices.
#[verifier::opaque]
pub open spec fn slice_texts(v: Seq<&[char]>) -> Seq<Seq<char>> {
    Seq::new(v.len(), |i: int| v[i]@)
}

/// The texts of a list of strings.
#[verifier::opaque]
pub open spec fn texts(v: Seq<String>) -> Seq<Seq<char>> {
    Seq::new(v.len(), |i: int| v[i]@)
}

pub broadcast proof fn texts_len(v: Seq<String>)
    ensures
        (#[trigger] texts(v)).len() == v.len(),
{
    reveal(texts);
}

pub broadcast proof fn texts_at(v: Seq<String>, i: int)
    requires
        0 <= i < v.len(),
    ensures
        (#[trigger] texts(v)[i]) == v[i]@,
{
    reveal(texts);
}

pub broadcast proof fn slice_texts_len(v: Seq<&[char]>)
    ensures
        (#[trigger] slice_texts(v)).len() == v.len(),
{
    reveal(slice_texts);
}

pub broadcast proof fn slice_texts_at(v: Seq<&[char]>, i: int)
    requires
        0 <= i < v.len(),
    ensures
        (#[trigger] slice_texts(v)[i]) == v[i]@,
{
    reveal(slice_texts);
}

/// What the lists of texts hold, element by element.
pub broadcast group group_texts {
    texts_len,
    texts_at,
    slice_texts_len,
    slice_texts_at,
}

} // verus!
