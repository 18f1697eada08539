//! Laws of sequences: first occurrences, distinct values, and what a condition keeps.

use vstd::prelude::*;
use vstd::seq_lib::group_to_multiset_ensures;

verus! {

/// `i` is the position of the first `c` in `s`.
pub open spec fn is_first_occurrence<A>(s: Seq<A>, c: A, i: int) -> bool {
    &&& 0 <= i < s.len()
    &&& s[i] == c
    &&& forall|j: int| 0 <= j < i ==> #[trigger] s[j] != c
}

/// `s` with every value kept where it first occurs and dropped where it recurs.
pub open spec fn distinct<A>(s: Seq<A>) -> Seq<A>
    decreases s.len(),
{
    if s.len() == 0 {
        Seq::empty()
    } else {
        let before = distinct(s.drop_last());
        if before.contains(s.last()) {
            before
        } else {
            before.push(s.last())
        }
    }
}

/// The values that are present in `s`, in order.
pub open spec fn present<A>(s: Seq<Option<A>>) -> Seq<A>
    decreases s.len(),
{
    if s.len() == 0 {
        Seq::empty()
    } else {
        match s.last() {
            Some(x) => present(s.drop_last()).push(x),
            None => present(s.drop_last()),
        }
    }
}

/// The distinct values of a sequence are exactly its values, each once, in the
/// order in which the values first occur.
pub proof fn lemma_distinct_first_seen<A>(s: Seq<A>)
    ensures
        distinct(s).no_duplicates(),
        forall|x: A| distinct(s).contains(x) <==> s.contains(x),
        forall|i: int, j: int, a: int, b: int|
            0 <= i < j < distinct(s).len() && is_first_occurrence(s, distinct(s)[i], a)
                && is_first_occurrence(s, distinct(s)[j], b) ==> a < b,
    decreases s.len(),
{
    if s.len() > 0 {
        let before = s.drop_last();
        let d = distinct(before);
        lemma_distinct_first_seen(before);
        assert forall|x: A| distinct(s).contains(x) <==> s.contains(x) by {
            if s.contains(x) {
                let k = choose|k: int| 0 <= k < s.len() && s[k] == x;
                if k < before.len() {
                    assert(before[k] == x);
                    assert(before.contains(x));
                    assert(d.contains(x));
                    let m = choose|m: int| 0 <= m < d.len() && d[m] == x;
                    assert(distinct(s)[m] == x);
                } else {
                    if d.contains(x) {
                        let m = choose|m: int| 0 <= m < d.len() && d[m] == x;
                        assert(distinct(s)[m] == x);
                    } else {
                        assert(distinct(s)[d.len() as int] == x);
                    }
                }
            }
            if distinct(s).contains(x) {
                let m = choose|m: int| 0 <= m < distinct(s).len() && distinct(s)[m] == x;
                if m < d.len() {
                    assert(d[m] == x);
                    assert(d.contains(x));
                    assert(before.contains(x));
                    let k = choose|k: int| 0 <= k < before.len() && before[k] == x;
                    assert(s[k] == x);
                } else {
                    assert(s[s.len() - 1] == x);
                }
            }
        }
        assert forall|i: int, j: int, a: int, b: int|
            0 <= i < j < distinct(s).len() && is_first_occurrence(s, distinct(s)[i], a)
                && is_first_occurrence(s, distinct(s)[j], b) implies a < b by {
            assert(d[i] == distinct(s)[i]);
            assert(d.contains(d[i]));
            assert(before.contains(d[i]));
            let k = choose|k: int| 0 <= k < before.len() && before[k] == d[i];
            assert(s[k] == d[i]);
            assert(a <= k);
            assert(is_first_occurrence(before, d[i], a)) by {
                assert forall|m: int| 0 <= m < a implies #[trigger] before[m] != d[i] by {
                    assert(s[m] != d[i]);
                }
            }
            if j < d.len() {
                assert(d[j] == distinct(s)[j]);
                assert(d.contains(d[j]));
                assert(before.contains(d[j]));
                let k2 = choose|k: int| 0 <= k < before.len() && before[k] == d[j];
                assert(s[k2] == d[j]);
                assert(b <= k2);
                assert(is_first_occurrence(before, d[j], b)) by {
                    assert forall|m: int| 0 <= m < b implies #[trigger] before[m] != d[j] by {
                        assert(s[m] != d[j]);
                    }
                }
            } else {
                if b < before.len() {
                    assert(before[b] == s.last());
                    assert(before.contains(s.last()));
                }
            }
        }
    }
}

/// A condition that holds of every value keeps them all.
pub proof fn lemma_filter_all<A>(s: Seq<A>, p: spec_fn(A) -> bool)
    requires
        forall|i: int| 0 <= i < s.len() ==> p(#[trigger] s[i]),
    ensures
        s.filter(p) == s,
    decreases s.len(),
{
    reveal(Seq::filter);
    if s.len() > 0 {
        assert forall|i: int| 0 <= i < s.drop_last().len() implies p(#[trigger] s.drop_last()[i]) by {
            assert(s.drop_last()[i] == s[i]);
        }
        lemma_filter_all(s.drop_last(), p);
        assert(s.drop_last().push(s.last()) == s);
    }
}

/// A condition that holds of no value keeps none.
pub proof fn lemma_filter_none<A>(s: Seq<A>, p: spec_fn(A) -> bool)
    requires
        forall|i: int| 0 <= i < s.len() ==> !p(#[trigger] s[i]),
    ensures
        s.filter(p) == Seq::<A>::empty(),
    decreases s.len(),
{
    reveal(Seq::filter);
    if s.len() > 0 {
        assert forall|i: int| 0 <= i < s.drop_last().len() implies !p(#[trigger] s.drop_last()[i]) by {
            assert(s.drop_last()[i] == s[i]);
        }
        lemma_filter_none(s.drop_last(), p);
    }
}

/// Two conditions that exclude each other split what either of them keeps.
pub proof fn lemma_filter_split<A>(
    s: Seq<A>,
    p: spec_fn(A) -> bool,
    q: spec_fn(A) -> bool,
    either: spec_fn(A) -> bool,
)
    requires
        forall|x: A| #[trigger] either(x) == (p(x) || q(x)),
        forall|x: A| !(#[trigger] p(x) && q(x)),
    ensures
        s.filter(either).to_multiset() == s.filter(p).to_multiset().add(s.filter(q).to_multiset()),
    decreases s.len(),
{
    reveal(Seq::filter);
    broadcast use group_to_multiset_ensures;

    if s.len() == 0 {
        assert(s.filter(either).to_multiset() =~= s.filter(p).to_multiset().add(
            s.filter(q).to_multiset(),
        ));
    } else {
        lemma_filter_split(s.drop_last(), p, q, either);
        let x = s.last();
        assert(either(x) == (p(x) || q(x)));
        assert(!(p(x) && q(x)));
        assert(s.filter(either).to_multiset() =~= s.filter(p).to_multiset().add(
            s.filter(q).to_multiset(),
        ));
    }
}

} // verus!
