//! Selections from sequences.

use vstd::prelude::*;

verus! {

/// The elements of `s` that `keep` holds of, in the order they have in `s`.
pub open spec fn kept<T>(s: Seq<T>, keep: spec_fn(T) -> bool) -> Seq<T>
    decreases s.len(),
{
    if s.len() == 0 {
        Seq::empty()
    } else if keep(s.last()) {
        kept(s.drop_last(), keep).push(s.last())
    } else {
        kept(s.drop_last(), keep)
    }
}

/// Every element of a selection is an element of the sequence, and `keep`
/// holds of it.
pub proof fn lemma_kept_elements<T>(s: Seq<T>, keep: spec_fn(T) -> bool)
    ensures
        kept(s, keep).len() <= s.len(),
        forall|i: int|
            0 <= i < kept(s, keep).len() ==> keep(#[trigger] kept(s, keep)[i]) && s.contains(
                kept(s, keep)[i],
            ),
    decreases s.len(),
{
    if s.len() > 0 {
        lemma_kept_elements(s.drop_last(), keep);
        let before = kept(s.drop_last(), keep);
        assert forall|i: int| 0 <= i < kept(s, keep).len() implies keep(
            #[trigger] kept(s, keep)[i],
        ) && s.contains(kept(s, keep)[i]) by {
            if i < before.len() {
                let j = choose|j: int| 0 <= j < s.drop_last().len() && s.drop_last()[j] == before[i];
                assert(s[j] == before[i]);
            } else {
                assert(s[s.len() - 1] == s.last());
            }
        }
    }
}

/// Every element of the sequence that `keep` holds of is in the selection.
pub proof fn lemma_kept_complete<T>(s: Seq<T>, keep: spec_fn(T) -> bool, i: int)
    requires
        0 <= i < s.len(),
        keep(s[i]),
    ensures
        kept(s, keep).contains(s[i]),
    decreases s.len(),
{
    if i == s.len() - 1 {
        let all = kept(s, keep);
        assert(all[all.len() - 1] == s[i]);
    } else {
        lemma_kept_complete(s.drop_last(), keep, i);
        let before = kept(s.drop_last(), keep);
        let j = choose|j: int| 0 <= j < before.len() && before[j] == s.drop_last()[i];
        assert(kept(s, keep)[j] == s[i]);
    }
}

} // verus!
