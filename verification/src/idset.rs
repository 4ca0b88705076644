//! Sets of identifiers.

use crate::text::{same_text, views};
use vstd::prelude::*;

verus! {

/// A finite set of identifiers. The set holds each identifier once, and hands
/// them out in the order in which they were first inserted.
#[derive(Debug)]
pub struct IdSet {
    items: Vec<String>,
}

impl View for IdSet {
    type V = Set<Seq<char>>;

    closed spec fn view(&self) -> Set<Seq<char>> {
        views(self.items@).to_set()
    }
}

impl IdSet {
    /// The set holds no identifier twice.
    #[verifier::type_invariant]
    spec fn distinct(self) -> bool {
        views(self.items@).no_duplicates()
    }

    /// The identifiers of the set, in the order in which they were inserted.
    pub closed spec fn in_order(&self) -> Seq<Seq<char>> {
        views(self.items@)
    }

    /// A set holds the identifiers of its ordered form.
    pub proof fn lemma_view_of_order(&self)
        ensures
            self@ == self.in_order().to_set(),
    {
    }

    /// The empty set.
    pub fn new() -> (s: IdSet)
        ensures
            s@ == Set::<Seq<char>>::empty(),
            s.in_order() == Seq::<Seq<char>>::empty(),
    {
        let s = IdSet { items: Vec::new() };
        assert(s@ =~= Set::<Seq<char>>::empty());
        assert(s.in_order() =~= Seq::<Seq<char>>::empty());
        s
    }

    /// Whether `id` is in the set.
    pub fn contains(&self, id: &str) -> (b: bool)
        ensures
            b == self@.contains(id@),
    {
        let mut i: usize = 0;
        while i < self.items.len()
            invariant
                i <= self.items.len(),
                forall|j: int| 0 <= j < i ==> (#[trigger] views(self.items@)[j]) != id@,
            decreases self.items.len() - i,
        {
            if same_text(self.items[i].as_str(), id) {
                assert(views(self.items@)[i as int] == id@);
                return true;
            }
            i += 1;
        }
        false
    }

    /// Puts `id` into the set, and tells whether it was new.
    pub fn insert(&mut self, id: String) -> (added: bool)
        ensures
            final(self)@ == old(self)@.insert(id@),
            added == !old(self)@.contains(id@),
            final(self).in_order() == if added {
                old(self).in_order().push(id@)
            } else {
                old(self).in_order()
            },
    {
        proof {
            use_type_invariant(&*self);
        }
        if self.contains(id.as_str()) {
            assert(self@.insert(id@) =~= self@);
            return false;
        }
        let ghost before = views(self.items@);
        let ghost text = id@;
        let mut taken = IdSet { items: Vec::new() };
        core::mem::swap(self, &mut taken);
        let IdSet { items: mut items } = taken;
        items.push(id);
        proof {
            assert(views(items@) =~= before.push(text));
            before.lemma_push_to_set_commute(text);
            assert forall|i: int, j: int|
                0 <= i < before.push(text).len() && 0 <= j < before.push(text).len() && i
                    != j implies before.push(text)[i] != before.push(text)[j] by {
                if i == before.len() {
                    assert(before.contains(before[j]));
                } else if j == before.len() {
                    assert(before.contains(before[i]));
                }
            }
        }
        *self = IdSet { items };
        true
    }

    /// The number of identifiers in the set.
    pub fn len(&self) -> (n: usize)
        ensures
            n == self@.len(),
            self@.finite(),
    {
        proof {
            use_type_invariant(self);
            views(self.items@).unique_seq_to_set();
            vstd::seq_lib::seq_to_set_is_finite(views(self.items@));
        }
        self.items.len()
    }

    /// Whether the set holds no identifier.
    pub fn is_empty(&self) -> (b: bool)
        ensures
            b == (self@.len() == 0),
            self@.finite(),
    {
        self.len() == 0
    }

    /// The identifiers of the set, in the order in which they were inserted.
    pub fn to_vec(&self) -> (v: Vec<String>)
        ensures
            views(v@) == self.in_order(),
            views(v@).no_duplicates(),
            views(v@).to_set() == self@,
    {
        proof {
            use_type_invariant(self);
        }
        let mut v: Vec<String> = Vec::new();
        let mut i: usize = 0;
        while i < self.items.len()
            invariant
                i <= self.items.len(),
                v@.len() == i,
                forall|j: int| 0 <= j < i ==> (#[trigger] v@[j])@ == self.items@[j]@,
            decreases self.items.len() - i,
        {
            let id = self.items[i].clone();
            v.push(id);
            i += 1;
        }
        assert(views(v@) =~= views(self.items@));
        v
    }
}

} // verus!
