//! Small ambient facts about concatenation of character sequences,
//! used throughout the rendering proofs.

use vstd::prelude::*;

verus! {

/// Concatenation of character sequences is associative.
pub broadcast proof fn lemma_cat_assoc(a: Seq<char>, b: Seq<char>, c: Seq<char>)
    ensures
        #[trigger] ((a + b) + c) == a + (b + c),
{
    assert((a + b) + c =~= a + (b + c));
}

/// The empty sequence is a right identity of concatenation.
pub broadcast proof fn lemma_cat_empty(a: Seq<char>)
    ensures
        #[trigger] (a + Seq::<char>::empty()) == a,
{
    assert(a + Seq::<char>::empty() =~= a);
}

/// The empty sequence is a left identity of concatenation.
pub broadcast proof fn lemma_cat_empty_left(a: Seq<char>)
    ensures
        #[trigger] (Seq::<char>::empty() + a) == a,
{
    assert(Seq::<char>::empty() + a =~= a);
}

} // verus!
