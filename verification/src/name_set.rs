//! A set of names that keeps its names in ascending order.

use crate::qualified::texts_of;
use crate::text_order::{
    ascending_names, is_ascending, lemma_ascending_names, lemma_ascending_no_duplicates,
    lemma_text_lt_connected, lemma_text_lt_irreflexive, lemma_text_lt_transitive, text_less,
    text_lt,
};
use vstd::prelude::*;

verus! {

/// A finite set of names. Its view is the `Set` of the names, as text.
#[derive(Debug)]
pub struct NameSet {
    names: Vec<String>,
}

impl View for NameSet {
    type V = Set<Seq<char>>;

    closed spec fn view(&self) -> Set<Seq<char>> {
        texts_of(self.names@).to_set()
    }
}

/// Putting `x` into an ascending list, behind the names that come before it
/// and in front of the first that comes after it, leaves the list ascending
/// and adds `x` to its names.
proof fn lemma_insert_keeps_ascending(s: Seq<Seq<char>>, p: int, x: Seq<char>)
    requires
        is_ascending(s),
        0 <= p <= s.len(),
        forall|j: int| 0 <= j < p ==> text_lt(#[trigger] s[j], x),
        p < s.len() ==> text_lt(x, s[p]),
    ensures
        is_ascending(s.insert(p, x)),
        s.insert(p, x).to_set() == s.to_set().insert(x),
        !s.contains(x),
{
    let t = s.insert(p, x);
    assert forall|j: int| p <= j < s.len() implies text_lt(x, #[trigger] s[j]) by {
        if j > p {
            assert(text_lt(s[p], s[j]));
            lemma_text_lt_transitive(x, s[p], s[j]);
        }
    }
    assert forall|i: int, j: int| 0 <= i < j < t.len() implies text_lt(
        #[trigger] t[i],
        #[trigger] t[j],
    ) by {
        let i0 = if i < p { i } else { i - 1 };
        let j0 = if j < p { j } else { j - 1 };
        if i == p {
            assert(t[j] == s[j0]);
        } else if j == p {
            assert(t[i] == s[i0]);
        } else {
            assert(t[i] == s[i0] && t[j] == s[j0]);
            assert(text_lt(s[i0], s[j0]));
        }
    }
    assert forall|y: Seq<char>| t.to_set().contains(y) <==> s.to_set().insert(x).contains(y) by {
        if t.contains(y) {
            let i = choose|i: int| 0 <= i < t.len() && t[i] == y;
            if i != p {
                let i0 = if i < p { i } else { i - 1 };
                assert(s[i0] == y);
            }
        }
        if s.contains(y) {
            let i = choose|i: int| 0 <= i < s.len() && s[i] == y;
            let i1 = if i < p { i } else { i + 1 };
            assert(t[i1] == y);
        }
        if y == x {
            assert(t[p] == y);
        }
    }
    assert(t.to_set() =~= s.to_set().insert(x));
    if s.contains(x) {
        let i = choose|i: int| 0 <= i < s.len() && s[i] == x;
        lemma_text_lt_irreflexive(x);
    }
}

impl NameSet {
    #[verifier::type_invariant]
    spec fn ascending(self) -> bool {
        is_ascending(texts_of(self.names@))
    }

    pub fn new() -> (s: Self)
        ensures
            s@ == Set::<Seq<char>>::empty(),
    {
        let s = NameSet { names: Vec::new() };
        assert(s@ =~= Set::<Seq<char>>::empty());
        s
    }

    /// The number of names.
    pub fn len(&self) -> (n: usize)
        ensures
            self@.finite(),
            n == self@.len(),
    {
        proof {
            use_type_invariant(self);
            lemma_ascending_no_duplicates(texts_of(self.names@));
            texts_of(self.names@).unique_seq_to_set();
            vstd::seq_lib::seq_to_set_is_finite(texts_of(self.names@));
        }
        self.names.len()
    }

    /// The names in ascending order.
    pub fn names(&self) -> (r: &Vec<String>)
        ensures
            texts_of(r@) == ascending_names(self@),
    {
        proof {
            use_type_invariant(self);
            lemma_ascending_names(texts_of(self.names@), self@);
        }
        &self.names
    }

    /// The first position whose name does not come before `name`.
    fn position(&self, name: &str) -> (p: usize)
        ensures
            p <= self.names@.len(),
            forall|j: int| 0 <= j < p ==> text_lt(#[trigger] texts_of(self.names@)[j], name@),
            p < self.names@.len() ==> !text_lt(texts_of(self.names@)[p as int], name@),
    {
        let mut p: usize = 0;
        while p < self.names.len() && text_less(self.names[p].as_str(), name)
            invariant
                p <= self.names@.len(),
                forall|j: int| 0 <= j < p ==> text_lt(#[trigger] texts_of(self.names@)[j], name@),
            decreases self.names@.len() - p,
        {
            p = p + 1;
        }
        p
    }

    /// Where a name stands at the position of `name`, it is `name` or comes
    /// after it, and `name` is in the set exactly if it stands there.
    proof fn lemma_position(s: Seq<Seq<char>>, p: int, x: Seq<char>)
        requires
            is_ascending(s),
            0 <= p <= s.len(),
            forall|j: int| 0 <= j < p ==> text_lt(#[trigger] s[j], x),
            p < s.len() ==> !text_lt(s[p], x),
        ensures
            s.to_set().contains(x) <==> p < s.len() && s[p] == x,
            p < s.len() && s[p] != x ==> text_lt(x, s[p]),
    {
        if p < s.len() {
            lemma_text_lt_connected(s[p], x);
        }
        if s.contains(x) {
            let k = choose|k: int| 0 <= k < s.len() && s[k] == x;
            lemma_text_lt_irreflexive(x);
            if k < p {
                assert(text_lt(s[k], x));
            } else if k > p {
                assert(text_lt(s[p], s[k]));
            }
        }
        if p < s.len() && s[p] == x {
            assert(s.contains(x));
        }
    }

    pub fn contains(&self, name: &str) -> (r: bool)
        ensures
            r == self@.contains(name@),
    {
        let p = self.position(name);
        proof {
            use_type_invariant(self);
            Self::lemma_position(texts_of(self.names@), p as int, name@);
        }
        if p < self.names.len() {
            !text_less(name, self.names[p].as_str())
        } else {
            false
        }
    }

    /// Adds `name` and says whether it was new.
    pub fn insert(&mut self, name: String) -> (r: bool)
        ensures
            final(self)@ == old(self)@.insert(name@),
            r == !old(self)@.contains(name@),
    {
        let p = self.position(name.as_str());
        let ghost before = texts_of(self.names@);
        proof {
            use_type_invariant(&*self);
            Self::lemma_position(before, p as int, name@);
        }
        let present = if p < self.names.len() {
            !text_less(name.as_str(), self.names[p].as_str())
        } else {
            false
        };
        if present {
            assert(self@ =~= old(self)@.insert(name@));
            return false;
        }
        let mut names: Vec<String> = Vec::new();
        core::mem::swap(&mut names, &mut self.names);
        proof {
            lemma_insert_keeps_ascending(before, p as int, name@);
        }
        names.insert(p, name);
        assert(texts_of(names@) =~= before.insert(p as int, name@));
        self.names = names;
        true
    }
}

} // verus!
