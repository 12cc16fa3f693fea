//! The first element of a sequence that meets a condition.

use vstd::prelude::*;

verus! {

/// The least index of `s` at which `wanted` holds, or `None` where it holds nowhere.
pub open spec fn first_where<A>(s: Seq<A>, wanted: spec_fn(A) -> bool) -> Option<int>
    decreases s.len(),
{
    if s.len() == 0 {
        None
    } else if wanted(s[0]) {
        Some(0)
    } else {
        match first_where(s.drop_first(), wanted) {
            Some(i) => Some(i + 1),
            None => None,
        }
    }
}

/// What [`first_where`] answers: the index of a wanted element with none before
/// it, or `None` if no element is wanted.
pub proof fn lemma_first_where<A>(s: Seq<A>, wanted: spec_fn(A) -> bool)
    ensures
        match first_where(s, wanted) {
            Some(i) => {
                &&& 0 <= i < s.len()
                &&& wanted(s[i])
                &&& forall|j: int| 0 <= j < i ==> !wanted(#[trigger] s[j])
            },
            None => forall|j: int| 0 <= j < s.len() ==> !wanted(#[trigger] s[j]),
        },
    decreases s.len(),
{
    if s.len() > 0 && !wanted(s[0]) {
        let rest = s.drop_first();
        lemma_first_where(rest, wanted);
        let bound = match first_where(rest, wanted) {
            Some(i) => i + 1,
            None => s.len() as int,
        };
        assert forall|j: int| 0 <= j < bound implies !wanted(#[trigger] s[j]) by {
            if j > 0 {
                assert(rest[j - 1] == s[j]);
            }
        }
    }
}

/// An index that meets the condition, with none before it, is the one that
/// [`first_where`] answers.
pub proof fn lemma_first_where_at<A>(s: Seq<A>, wanted: spec_fn(A) -> bool, i: int)
    requires
        0 <= i < s.len(),
        wanted(s[i]),
        forall|j: int| 0 <= j < i ==> !wanted(#[trigger] s[j]),
    ensures
        first_where(s, wanted) == Some(i),
{
    lemma_first_where(s, wanted);
}

/// Where no element meets the condition, [`first_where`] answers `None`.
pub proof fn lemma_first_where_none<A>(s: Seq<A>, wanted: spec_fn(A) -> bool)
    requires
        forall|j: int| 0 <= j < s.len() ==> !wanted(#[trigger] s[j]),
    ensures
        first_where(s, wanted) == None::<int>,
{
    lemma_first_where(s, wanted);
}

} // verus!
