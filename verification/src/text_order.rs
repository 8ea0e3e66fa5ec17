//! The order of names: text is ordered character by character, a proper
//! prefix before what it is a prefix of. Sorting puts names in that order.

use crate::qualified::{texts_of, Qualified, QualifiedName};
use vstd::prelude::*;

verus! {

/// Whether `a` comes before `b`.
pub open spec fn text_lt(a: Seq<char>, b: Seq<char>) -> bool
    decreases a.len(),
{
    if b.len() == 0 {
        false
    } else if a.len() == 0 {
        true
    } else if a[0] != b[0] {
        (a[0] as u32) < (b[0] as u32)
    } else {
        text_lt(a.drop_first(), b.drop_first())
    }
}

/// Different characters have different codes.
proof fn lemma_codes_differ(x: char, y: char)
    requires
        x != y,
    ensures
        (x as u32) != (y as u32),
{
    assert((x as u32) as char == x);
    assert((y as u32) as char == y);
}

/// Nothing comes before itself.
pub proof fn lemma_text_lt_irreflexive(a: Seq<char>)
    ensures
        !text_lt(a, a),
    decreases a.len(),
{
    if a.len() > 0 {
        lemma_text_lt_irreflexive(a.drop_first());
    }
}

/// What comes before something that comes before `c` comes before `c`.
pub proof fn lemma_text_lt_transitive(a: Seq<char>, b: Seq<char>, c: Seq<char>)
    requires
        text_lt(a, b),
        text_lt(b, c),
    ensures
        text_lt(a, c),
    decreases a.len(),
{
    if a.len() > 0 && b.len() > 0 && c.len() > 0 {
        if a[0] == b[0] && b[0] == c[0] {
            lemma_text_lt_transitive(a.drop_first(), b.drop_first(), c.drop_first());
        }
    }
}

/// Of two different texts one comes before the other.
pub proof fn lemma_text_lt_connected(a: Seq<char>, b: Seq<char>)
    ensures
        text_lt(a, b) || text_lt(b, a) || a == b,
    decreases a.len(),
{
    if a.len() > 0 && b.len() > 0 {
        if a[0] == b[0] {
            lemma_text_lt_connected(a.drop_first(), b.drop_first());
            if a.drop_first() == b.drop_first() {
                assert(a =~= seq![a[0]] + a.drop_first());
                assert(b =~= seq![b[0]] + b.drop_first());
            }
        } else {
            lemma_codes_differ(a[0], b[0]);
        }
    } else if a.len() == 0 && b.len() == 0 {
        assert(a =~= b);
    }
}

/// No two texts come before each other.
pub proof fn lemma_text_lt_asymmetric(a: Seq<char>, b: Seq<char>)
    requires
        text_lt(a, b),
    ensures
        !text_lt(b, a),
{
    if text_lt(b, a) {
        lemma_text_lt_transitive(a, b, a);
        lemma_text_lt_irreflexive(a);
    }
}

/// Texts that agree on their first `i` characters are ordered as what
/// follows those characters.
proof fn lemma_text_lt_skip(a: Seq<char>, b: Seq<char>, i: int)
    requires
        0 <= i <= a.len(),
        i <= b.len(),
        forall|j: int| 0 <= j < i ==> a[j] == b[j],
    ensures
        text_lt(a, b) == text_lt(a.skip(i), b.skip(i)),
    decreases i,
{
    if i == 0 {
        assert(a.skip(0) =~= a);
        assert(b.skip(0) =~= b);
    } else {
        lemma_text_lt_skip(a, b, i - 1);
        let x = a.skip(i - 1);
        let y = b.skip(i - 1);
        assert(x[0] == y[0]);
        assert(x.drop_first() =~= a.skip(i));
        assert(y.drop_first() =~= b.skip(i));
    }
}

/// Whether `a` comes before `b`.
pub fn text_less(a: &str, b: &str) -> (r: bool)
    ensures
        r == text_lt(a@, b@),
{
    let n = a.unicode_len();
    let m = b.unicode_len();
    let mut i: usize = 0;
    while i < n && i < m
        invariant
            n == a@.len(),
            m == b@.len(),
            i <= n,
            i <= m,
            forall|j: int| 0 <= j < i ==> a@[j] == b@[j],
        decreases n - i,
    {
        let x = a.get_char(i);
        let y = b.get_char(i);
        if x != y {
            proof {
                lemma_text_lt_skip(a@, b@, i as int);
            }
            return (x as u32) < (y as u32);
        }
        i = i + 1;
    }
    proof {
        lemma_text_lt_skip(a@, b@, i as int);
    }
    i < m
}

/// No name comes before a name that stands earlier in `s`.
pub open spec fn is_sorted(s: Seq<Seq<char>>) -> bool {
    forall|i: int, j: int| 0 <= i < j < s.len() ==> !text_lt(#[trigger] s[j], #[trigger] s[i])
}

/// Each name comes before the names that stand later in `s`.
pub open spec fn is_ascending(s: Seq<Seq<char>>) -> bool {
    forall|i: int, j: int| 0 <= i < j < s.len() ==> text_lt(#[trigger] s[i], #[trigger] s[j])
}

/// The names of `names` in ascending order, each once.
pub open spec fn ascending_names(names: Set<Seq<char>>) -> Seq<Seq<char>> {
    choose|s: Seq<Seq<char>>| is_ascending(s) && s.to_set() == names
}

/// Sorted names without repetition are ascending.
pub proof fn lemma_sorted_distinct_is_ascending(s: Seq<Seq<char>>)
    requires
        is_sorted(s),
        s.no_duplicates(),
    ensures
        is_ascending(s),
{
    assert forall|i: int, j: int| 0 <= i < j < s.len() implies text_lt(
        #[trigger] s[i],
        #[trigger] s[j],
    ) by {
        lemma_text_lt_connected(s[i], s[j]);
    }
}

/// Ascending names hold no name twice.
pub proof fn lemma_ascending_no_duplicates(s: Seq<Seq<char>>)
    requires
        is_ascending(s),
    ensures
        s.no_duplicates(),
{
    assert forall|i: int, j: int| 0 <= i < s.len() && 0 <= j < s.len() && i != j implies s[i]
        != s[j] by {
        lemma_text_lt_irreflexive(s[i]);
        if i < j {
            assert(text_lt(s[i], s[j]));
        } else {
            assert(text_lt(s[j], s[i]));
        }
    }
}

/// Two ascending lists of the same names are the same list.
pub proof fn lemma_ascending_unique(a: Seq<Seq<char>>, b: Seq<Seq<char>>)
    requires
        is_ascending(a),
        is_ascending(b),
        a.to_set() == b.to_set(),
    ensures
        a == b,
    decreases a.len(),
{
    lemma_ascending_no_duplicates(a);
    lemma_ascending_no_duplicates(b);
    a.unique_seq_to_set();
    b.unique_seq_to_set();
    if a.len() == 0 {
        assert(a =~= b);
    } else {
        assert(a.to_set().contains(a[0]));
        assert(b.to_set().contains(b[0]));
        assert(b.contains(a[0]));
        assert(a.contains(b[0]));
        let i = choose|i: int| 0 <= i < b.len() && b[i] == a[0];
        let j = choose|j: int| 0 <= j < a.len() && a[j] == b[0];
        if i != 0 {
            assert(text_lt(b[0], b[i]));
            if j != 0 {
                assert(text_lt(a[0], a[j]));
                lemma_text_lt_asymmetric(a[0], b[0]);
            } else {
                lemma_text_lt_irreflexive(a[0]);
            }
        }
        assert(a[0] == b[0]);
        let a1 = a.drop_first();
        let b1 = b.drop_first();
        assert forall|x: Seq<char>| a1.to_set().contains(x) <==> b1.to_set().contains(x) by {
            if a1.contains(x) {
                let k = choose|k: int| 0 <= k < a1.len() && a1[k] == x;
                assert(a[k + 1] == x);
                assert(a.to_set().contains(x));
                assert(b.contains(x));
                let l = choose|l: int| 0 <= l < b.len() && b[l] == x;
                assert(l != 0);
                assert(b1[l - 1] == x);
            }
            if b1.contains(x) {
                let k = choose|k: int| 0 <= k < b1.len() && b1[k] == x;
                assert(b[k + 1] == x);
                assert(b.to_set().contains(x));
                assert(a.contains(x));
                let l = choose|l: int| 0 <= l < a.len() && a[l] == x;
                assert(l != 0);
                assert(a1[l - 1] == x);
            }
        }
        assert(a1.to_set() =~= b1.to_set());
        assert(is_ascending(a1)) by {
            assert forall|p: int, q: int| 0 <= p < q < a1.len() implies text_lt(
                #[trigger] a1[p],
                #[trigger] a1[q],
            ) by {
                assert(text_lt(a[p + 1], a[q + 1]));
            }
        }
        assert(is_ascending(b1)) by {
            assert forall|p: int, q: int| 0 <= p < q < b1.len() implies text_lt(
                #[trigger] b1[p],
                #[trigger] b1[q],
            ) by {
                assert(text_lt(b[p + 1], b[q + 1]));
            }
        }
        lemma_ascending_unique(a1, b1);
        assert(a =~= seq![a[0]] + a1);
        assert(b =~= seq![b[0]] + b1);
    }
}

/// An ascending list of the names of `names` is the list of them in
/// ascending order.
pub proof fn lemma_ascending_names(s: Seq<Seq<char>>, names: Set<Seq<char>>)
    requires
        is_ascending(s),
        s.to_set() == names,
    ensures
        ascending_names(names) == s,
{
    let t = ascending_names(names);
    lemma_ascending_unique(t, s);
}

/// Putting `x` into a sorted list, behind the names that come before it and
/// in front of the first that does not, leaves the list sorted.
proof fn lemma_insert_keeps_sorted(s: Seq<Seq<char>>, p: int, x: Seq<char>)
    requires
        is_sorted(s),
        0 <= p <= s.len(),
        forall|j: int| 0 <= j < p ==> text_lt(#[trigger] s[j], x),
        p < s.len() ==> !text_lt(s[p], x),
    ensures
        is_sorted(s.insert(p, x)),
{
    let t = s.insert(p, x);
    assert forall|i: int, j: int| 0 <= i < j < t.len() implies !text_lt(
        #[trigger] t[j],
        #[trigger] t[i],
    ) by {
        if j < p {
            assert(t[i] == s[i] && t[j] == s[j]);
        } else if j == p {
            assert(t[i] == s[i]);
            lemma_text_lt_asymmetric(s[i], x);
        } else if i == p {
            let y = s[j - 1];
            assert(t[j] == y);
            if text_lt(y, x) {
                lemma_text_lt_connected(s[p], y);
                if text_lt(s[p], y) {
                    lemma_text_lt_transitive(s[p], y, x);
                }
                assert(j - 1 > p ==> !text_lt(s[j - 1], s[p]));
            }
        } else if i < p {
            assert(t[i] == s[i] && t[j] == s[j - 1]);
        } else {
            assert(t[i] == s[i - 1] && t[j] == s[j - 1]);
        }
    }
}

/// Sorts names: the same names, each as often as before, none before a name
/// that stands earlier.
pub fn sort_names(names: Vec<String>) -> (r: Vec<String>)
    ensures
        is_sorted(texts_of(r@)),
        texts_of(r@).to_multiset() == texts_of(names@).to_multiset(),
{
    let ghost all = texts_of(names@);
    let mut input = names;
    let mut sorted: Vec<String> = Vec::new();
    proof {
        assert(texts_of(sorted@) =~= Seq::<Seq<char>>::empty());
        assert(texts_of(sorted@).to_multiset().add(texts_of(input@).to_multiset())
            =~= all.to_multiset()) by {
            broadcast use vstd::multiset::group_multiset_axioms;
            broadcast use vstd::seq_lib::group_to_multiset_ensures;

        }
    }
    while input.len() > 0
        invariant
            is_sorted(texts_of(sorted@)),
            texts_of(sorted@).to_multiset().add(texts_of(input@).to_multiset())
                == all.to_multiset(),
        decreases input@.len(),
    {
        let ghost rest_before = texts_of(input@);
        let ghost sorted_before = texts_of(sorted@);
        let popped = input.pop();
        match popped {
            Some(name) => {
                let mut p: usize = 0;
                while p < sorted.len() && text_less(sorted[p].as_str(), name.as_str())
                    invariant
                        p <= sorted@.len(),
                        forall|j: int| 0 <= j < p ==> text_lt(#[trigger] sorted@[j]@, name@),
                    decreases sorted@.len() - p,
                {
                    p = p + 1;
                }
                proof {
                    assert forall|j: int| 0 <= j < p implies text_lt(
                        #[trigger] sorted_before[j],
                        name@,
                    ) by {
                        assert(sorted_before[j] == sorted@[j]@);
                    }
                    lemma_insert_keeps_sorted(sorted_before, p as int, name@);
                    vstd::seq_lib::to_multiset_insert(sorted_before, p as int, name@);
                    assert(rest_before =~= texts_of(input@).push(name@));
                    vstd::seq_lib::to_multiset_build(texts_of(input@), name@);
                }
                sorted.insert(p, name);
                proof {
                    assert(texts_of(sorted@) =~= sorted_before.insert(p as int, name@));
                    assert(texts_of(sorted@).to_multiset().add(texts_of(input@).to_multiset())
                        =~= all.to_multiset()) by {
                        broadcast use vstd::multiset::group_multiset_axioms;

                    }
                }
            },
            None => {},
        }
    }
    proof {
        assert(texts_of(input@) =~= Seq::<Seq<char>>::empty());
        assert(texts_of(sorted@).to_multiset() =~= all.to_multiset()) by {
            broadcast use vstd::multiset::group_multiset_axioms;
            broadcast use vstd::seq_lib::group_to_multiset_ensures;

        }
    }
    sorted
}

/// Names that were sorted from a list without repetition are the ascending
/// list of the names of that list.
pub proof fn lemma_sorted_names(sorted: Seq<Seq<char>>, names: Seq<Seq<char>>)
    requires
        is_sorted(sorted),
        sorted.to_multiset() == names.to_multiset(),
        names.no_duplicates(),
    ensures
        sorted == ascending_names(names.to_set()),
{
    broadcast use vstd::seq_lib::to_multiset_contains;

    names.lemma_multiset_has_no_duplicates();
    sorted.lemma_multiset_has_no_duplicates_conv();
    assert forall|x: Seq<char>| sorted.to_set().contains(x) <==> names.to_set().contains(x) by {
        assert(sorted.contains(x) <==> sorted.to_multiset().count(x) > 0);
        assert(names.contains(x) <==> names.to_multiset().count(x) > 0);
    }
    assert(sorted.to_set() =~= names.to_set());
    lemma_sorted_distinct_is_ascending(sorted);
    lemma_ascending_names(sorted, names.to_set());
}

/// Whether the name at `j` does not come before `x`.
pub open spec fn not_before_at(s: Seq<Seq<char>>, x: Seq<char>) -> spec_fn(int) -> bool {
    |j: int| !text_lt(s[j], x)
}

/// The names of a finite set can be listed in ascending order, and that list
/// holds them all and nothing else.
pub proof fn lemma_ascending_names_of_finite(names: Set<Seq<char>>)
    requires
        names.finite(),
    ensures
        is_ascending(ascending_names(names)),
        ascending_names(names).to_set() == names,
        ascending_names(names).len() == names.len(),
    decreases names.len(),
{
    if names.len() == 0 {
        let empty = Seq::<Seq<char>>::empty();
        assert(names =~= Set::empty());
        assert(empty.to_set() =~= names);
        assert(is_ascending(empty));
        lemma_ascending_names(empty, names);
    } else {
        let x = names.choose();
        let rest = names.remove(x);
        lemma_ascending_names_of_finite(rest);
        let t = ascending_names(rest);
        lemma_ascending_no_duplicates(t);
        let bad = not_before_at(t, x);
        crate::search::lemma_first_index(t.len() as int, bad);
        let p = match crate::search::first_index(t.len() as int, bad) {
            Some(i) => i,
            None => t.len() as int,
        };
        assert forall|j: int| 0 <= j < p implies text_lt(#[trigger] t[j], x) by {
            assert(!bad(j));
        }
        if p < t.len() {
            assert(bad(p));
        }
        assert(is_sorted(t)) by {
            assert forall|i: int, j: int| 0 <= i < j < t.len() implies !text_lt(
                #[trigger] t[j],
                #[trigger] t[i],
            ) by {
                lemma_text_lt_asymmetric(t[i], t[j]);
            }
        }
        lemma_insert_keeps_sorted(t, p, x);
        let u = t.insert(p, x);
        assert(!t.contains(x)) by {
            if t.contains(x) {
                assert(t.to_set().contains(x));
            }
        }
        assert(u.no_duplicates()) by {
            assert forall|i: int, j: int| 0 <= i < u.len() && 0 <= j < u.len() && i != j implies u[i]
                != u[j] by {
                let i0 = if i < p { i } else { i - 1 };
                let j0 = if j < p { j } else { j - 1 };
                if i != p && j != p {
                    assert(u[i] == t[i0] && u[j] == t[j0]);
                } else if i == p {
                    assert(u[j] == t[j0]);
                    assert(t.contains(t[j0]));
                } else {
                    assert(u[i] == t[i0]);
                    assert(t.contains(t[i0]));
                }
            }
        }
        assert forall|y: Seq<char>| u.to_set().contains(y) <==> names.contains(y) by {
            if u.contains(y) {
                let i = choose|i: int| 0 <= i < u.len() && u[i] == y;
                if i != p {
                    let i0 = if i < p { i } else { i - 1 };
                    assert(t[i0] == y);
                    assert(t.to_set().contains(y));
                }
            }
            if names.contains(y) {
                if y == x {
                    assert(u[p] == y);
                } else {
                    assert(rest.contains(y));
                    assert(t.to_set().contains(y));
                    let i = choose|i: int| 0 <= i < t.len() && t[i] == y;
                    let i1 = if i < p { i } else { i + 1 };
                    assert(u[i1] == y);
                }
            }
        }
        assert(u.to_set() =~= names);
        lemma_sorted_distinct_is_ascending(u);
        lemma_ascending_names(u, names);
    }
}

/// Whether the qualified name `a` comes before `b`: by subgraph first, and
/// within one subgraph by name.
pub open spec fn qualified_lt(a: QualifiedName, b: QualifiedName) -> bool {
    text_lt(a.subgraph, b.subgraph) || (a.subgraph == b.subgraph && text_lt(a.name, b.name))
}

impl Qualified {
    /// Whether this qualified name comes before `other`.
    pub fn precedes(&self, other: &Qualified) -> (r: bool)
        ensures
            r == qualified_lt(self@, other@),
    {
        if text_less(self.subgraph.as_str(), other.subgraph.as_str()) {
            true
        } else if self.subgraph == other.subgraph {
            text_less(self.name.as_str(), other.name.as_str())
        } else {
            false
        }
    }
}

/// Qualified names are in a strict total order: none comes before itself,
/// what comes before something that comes before a third comes before the
/// third, and of two different ones one comes before the other.
pub proof fn law_qualified_names_are_totally_ordered(
    a: QualifiedName,
    b: QualifiedName,
    c: QualifiedName,
)
    ensures
        !qualified_lt(a, a),
        qualified_lt(a, b) && qualified_lt(b, c) ==> qualified_lt(a, c),
        qualified_lt(a, b) || qualified_lt(b, a) || a == b,
{
    lemma_text_lt_irreflexive(a.subgraph);
    lemma_text_lt_irreflexive(a.name);
    lemma_text_lt_connected(a.subgraph, b.subgraph);
    lemma_text_lt_connected(a.name, b.name);
    if qualified_lt(a, b) && qualified_lt(b, c) {
        if text_lt(a.subgraph, b.subgraph) && text_lt(b.subgraph, c.subgraph) {
            lemma_text_lt_transitive(a.subgraph, b.subgraph, c.subgraph);
        }
        if a.subgraph == b.subgraph && b.subgraph == c.subgraph {
            lemma_text_lt_transitive(a.name, b.name, c.name);
        }
    }
}

} // verus!
