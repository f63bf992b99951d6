use vstd::prelude::*;

verus! {

/// The index of the first element of `s` that is `wanted`, or the length of
/// `s` if there is none.
pub open spec fn first_index<T>(s: Seq<T>, wanted: spec_fn(T) -> bool) -> int
    decreases s.len(),
{
    if s.len() == 0 {
        0
    } else if wanted(s[0]) {
        0
    } else {
        1 + first_index(s.skip(1), wanted)
    }
}

/// The first element of `s` that is `wanted`, if there is one.
pub open spec fn first_match<T>(s: Seq<T>, wanted: spec_fn(T) -> bool) -> Option<T> {
    let i = first_index(s, wanted);
    if i < s.len() {
        Some(s[i])
    } else {
        None
    }
}

/// `first_index` is an index at which a wanted element stands, with none
/// before it; or the length of `s`, and no element is wanted.
pub proof fn lemma_first_index<T>(s: Seq<T>, wanted: spec_fn(T) -> bool)
    ensures
        0 <= first_index(s, wanted) <= s.len(),
        first_index(s, wanted) < s.len() ==> wanted(s[first_index(s, wanted)]),
        forall|j: int| 0 <= j < first_index(s, wanted) ==> !wanted(#[trigger] s[j]),
    decreases s.len(),
{
    if s.len() != 0 && !wanted(s[0]) {
        let rest = s.skip(1);
        lemma_first_index(rest, wanted);
        assert forall|j: int| 0 <= j < first_index(s, wanted) implies !wanted(#[trigger] s[j]) by {
            if j > 0 {
                assert(s[j] == rest[j - 1]);
            }
        }
    }
}

/// An index at which a wanted element stands, with none before it, is
/// `first_index`; so is the length of a sequence without a wanted element.
pub proof fn lemma_first_index_is<T>(s: Seq<T>, wanted: spec_fn(T) -> bool, i: int)
    requires
        0 <= i <= s.len(),
        i < s.len() ==> wanted(s[i]),
        forall|j: int| 0 <= j < i ==> !wanted(#[trigger] s[j]),
    ensures
        first_index(s, wanted) == i,
    decreases s.len(),
{
    if s.len() != 0 && i > 0 {
        let rest = s.skip(1);
        assert(!wanted(s[0]));
        assert forall|j: int| 0 <= j < i - 1 implies !wanted(#[trigger] rest[j]) by {
            assert(rest[j] == s[j + 1]);
        }
        lemma_first_index_is(rest, wanted, i - 1);
    }
}

} // verus!
