//! Stable insertion order on sequences, and sorted sets of names.

use vstd::prelude::*;
use vstd::multiset::Multiset;
use crate::text::{lex_lt, lemma_lex_lt_irreflexive, lemma_lex_lt_transitive, lemma_lex_lt_total};

verus! {

/// `s` with `x` placed just before the first element that `x` comes before,
/// or at the end if there is none: after every element it does not precede.
pub open spec fn insert_by<T>(s: Seq<T>, x: T, before: spec_fn(T, T) -> bool) -> Seq<T>
    decreases s.len(),
{
    if s.len() == 0 {
        seq![x]
    } else if before(x, s[0]) {
        seq![x] + s
    } else {
        seq![s[0]] + insert_by(s.drop_first(), x, before)
    }
}

/// The stable sort of `s` by `before`: elements are inserted one after another
/// in their input order, so that elements neither of which comes before
/// the other keep their input order.
pub open spec fn sort_by<T>(s: Seq<T>, before: spec_fn(T, T) -> bool) -> Seq<T>
    decreases s.len(),
{
    if s.len() == 0 {
        s
    } else {
        insert_by(sort_by(s.drop_last(), before), s.last(), before)
    }
}

/// No element comes before an element that precedes it in `s`.
pub open spec fn sorted_by<T>(s: Seq<T>, before: spec_fn(T, T) -> bool) -> bool {
    forall|i: int, j: int| 0 <= i < j < s.len() ==> !before(#[trigger] s[j], #[trigger] s[i])
}

/// Each element comes before every element that follows it in `s`.
pub open spec fn strictly_sorted_by<T>(s: Seq<T>, before: spec_fn(T, T) -> bool) -> bool {
    forall|i: int, j: int| 0 <= i < j < s.len() ==> before(#[trigger] s[i], #[trigger] s[j])
}

/// `before` is a strict partial order.
pub open spec fn is_strict_order<T>(before: spec_fn(T, T) -> bool) -> bool {
    &&& forall|a: T, b: T| #[trigger] before(a, b) ==> !before(b, a)
    &&& forall|a: T, b: T, c: T| #[trigger] before(a, b) && #[trigger] before(b, c) ==> before(a, c)
}

/// Placing `x` at index `pos`, where it precedes the element at `pos` and
/// no element before `pos`, is what `insert_by` does.
pub proof fn lemma_insert_by_position<T>(s: Seq<T>, x: T, before: spec_fn(T, T) -> bool, pos: int)
    requires
        0 <= pos <= s.len(),
        forall|i: int| 0 <= i < pos ==> !before(x, #[trigger] s[i]),
        pos == s.len() || before(x, s[pos]),
    ensures
        insert_by(s, x, before) == s.insert(pos, x),
    decreases s.len(),
{
    if s.len() == 0 {
        assert(s.insert(pos, x) =~= seq![x]);
    } else if pos == 0 {
        assert(s.insert(pos, x) =~= seq![x] + s);
    } else {
        assert(!before(x, s[0]));
        let t = s.drop_first();
        assert forall|i: int| 0 <= i < pos - 1 implies !before(x, #[trigger] t[i]) by {
            assert(t[i] == s[i + 1]);
        }
        lemma_insert_by_position(t, x, before, pos - 1);
        assert(s.insert(pos, x) =~= seq![s[0]] + t.insert(pos - 1, x));
    }
}

/// `insert_by` adds exactly one occurrence of `x`.
pub proof fn lemma_insert_by_multiset<T>(s: Seq<T>, x: T, before: spec_fn(T, T) -> bool)
    ensures
        insert_by(s, x, before).to_multiset() == s.to_multiset().insert(x),
        insert_by(s, x, before).len() == s.len() + 1,
    decreases s.len(),
{
    broadcast use vstd::seq_lib::group_to_multiset_ensures;
    if s.len() == 0 {
        assert(seq![x] =~= Seq::<T>::empty().push(x));
    } else if before(x, s[0]) {
        assert(seq![x] + s =~= s.insert(0, x));
        s.insert_ensures(0, x);
        assert(s.insert(0, x).to_multiset() =~= s.to_multiset().insert(x)) by {
            vstd::seq_lib::lemma_seq_union_to_multiset_commutative(seq![x], s);
            vstd::seq_lib::lemma_multiset_commutative(seq![x], s);
        }
    } else {
        let t = s.drop_first();
        lemma_insert_by_multiset(t, x, before);
        vstd::seq_lib::lemma_multiset_commutative(seq![s[0]], insert_by(t, x, before));
        vstd::seq_lib::lemma_multiset_commutative(seq![s[0]], t);
        assert(seq![s[0]] + t =~= s);
        assert(seq![s[0]].to_multiset() =~= Multiset::<T>::empty().insert(s[0]));
    }
}

/// Inserting into a sorted sequence keeps it sorted.
pub proof fn lemma_insert_by_sorted<T>(s: Seq<T>, x: T, before: spec_fn(T, T) -> bool)
    requires
        is_strict_order(before),
        sorted_by(s, before),
    ensures
        sorted_by(insert_by(s, x, before), before),
    decreases s.len(),
{
    if s.len() == 0 {
    } else if before(x, s[0]) {
        let r = seq![x] + s;
        assert forall|i: int, j: int| 0 <= i < j < r.len() implies !before(#[trigger] r[j], #[trigger] r[i]) by {
            if i == 0 {
                if j > 1 {
                    assert(!before(s[j - 1], s[0]));
                }
                if before(r[j], x) {
                    assert(before(s[j - 1], s[0]));
                }
            } else {
                assert(r[i] == s[i - 1] && r[j] == s[j - 1]);
            }
        }
    } else {
        let t = s.drop_first();
        assert(sorted_by(t, before)) by {
            assert forall|i: int, j: int| 0 <= i < j < t.len() implies !before(#[trigger] t[j], #[trigger] t[i]) by {
                assert(t[i] == s[i + 1] && t[j] == s[j + 1]);
            }
        }
        lemma_insert_by_sorted(t, x, before);
        lemma_insert_by_multiset(t, x, before);
        let u = insert_by(t, x, before);
        let r = seq![s[0]] + u;
        assert forall|i: int, j: int| 0 <= i < j < r.len() implies !before(#[trigger] r[j], #[trigger] r[i]) by {
            if i == 0 {
                let y = u[j - 1];
                assert(u.to_multiset().count(y) > 0) by {
                    broadcast use vstd::seq_lib::group_to_multiset_ensures;
                    assert(u.contains(y));
                }
                assert(t.to_multiset().insert(x).count(y) > 0);
                if y != x {
                    assert(t.to_multiset().count(y) > 0);
                    broadcast use vstd::seq_lib::group_to_multiset_ensures;
                    let k = choose|k: int| 0 <= k < t.len() && t[k] == y;
                    assert(s[k + 1] == y);
                    assert(!before(s[k + 1], s[0]));
                }
            } else {
                assert(r[i] == u[i - 1] && r[j] == u[j - 1]);
            }
        }
    }
}

/// `sort_by` keeps every element and gives a sorted sequence.
pub proof fn lemma_sort_by<T>(s: Seq<T>, before: spec_fn(T, T) -> bool)
    requires
        is_strict_order(before),
    ensures
        sorted_by(sort_by(s, before), before),
        sort_by(s, before).to_multiset() == s.to_multiset(),
        sort_by(s, before).len() == s.len(),
    decreases s.len(),
{
    if s.len() > 0 {
        lemma_sort_by(s.drop_last(), before);
        lemma_insert_by_sorted(sort_by(s.drop_last(), before), s.last(), before);
        lemma_insert_by_multiset(sort_by(s.drop_last(), before), s.last(), before);
        broadcast use vstd::seq_lib::group_to_multiset_ensures;
        assert(s.drop_last().push(s.last()) =~= s);
    }
}

/// Sorting commutes with a map that keeps the order between elements.
pub proof fn lemma_sort_by_map<T, U>(
    s: Seq<T>,
    f: spec_fn(T) -> U,
    before: spec_fn(T, T) -> bool,
    before_u: spec_fn(U, U) -> bool,
)
    requires
        forall|a: T, b: T| #[trigger] before_u(f(a), f(b)) == before(a, b),
    ensures
        sort_by(s.map_values(f), before_u) == sort_by(s, before).map_values(f),
    decreases s.len(),
{
    if s.len() > 0 {
        lemma_sort_by_map(s.drop_last(), f, before, before_u);
        assert(s.map_values(f).drop_last() =~= s.drop_last().map_values(f));
        lemma_insert_by_map(sort_by(s.drop_last(), before), s.last(), f, before, before_u);
    } else {
        assert(s.map_values(f) =~= Seq::<U>::empty());
    }
}

/// Inserting commutes with a map that keeps the order between elements.
pub proof fn lemma_insert_by_map<T, U>(
    s: Seq<T>,
    x: T,
    f: spec_fn(T) -> U,
    before: spec_fn(T, T) -> bool,
    before_u: spec_fn(U, U) -> bool,
)
    requires
        forall|a: T, b: T| #[trigger] before_u(f(a), f(b)) == before(a, b),
    ensures
        insert_by(s.map_values(f), f(x), before_u) == insert_by(s, x, before).map_values(f),
    decreases s.len(),
{
    if s.len() == 0 {
        assert(seq![x].map_values(f) =~= seq![f(x)]);
    } else {
        assert(s.map_values(f)[0] == f(s[0]));
        assert(s.map_values(f).drop_first() =~= s.drop_first().map_values(f));
        if before(x, s[0]) {
            assert((seq![x] + s).map_values(f) =~= seq![f(x)] + s.map_values(f));
        } else {
            lemma_insert_by_map(s.drop_first(), x, f, before, before_u);
            assert((seq![s[0]] + insert_by(s.drop_first(), x, before)).map_values(f) =~= seq![f(s[0])]
                + insert_by(s.drop_first(), x, before).map_values(f));
        }
    }
}

// ------------------------------------------------------------- sorted names

/// The order of names: `lex_lt`.
pub open spec fn name_order() -> spec_fn(Seq<char>, Seq<char>) -> bool {
    |a: Seq<char>, b: Seq<char>| lex_lt(a, b)
}

/// `s` with `x` added, unless it is there already.
pub open spec fn add_name(s: Seq<Seq<char>>, x: Seq<char>) -> Seq<Seq<char>> {
    if s.contains(x) {
        s
    } else {
        insert_by(s, x, name_order())
    }
}

/// The distinct names of `s`, in increasing `lex_lt` order.
pub open spec fn sorted_names(s: Seq<Seq<char>>) -> Seq<Seq<char>>
    decreases s.len(),
{
    if s.len() == 0 {
        Seq::empty()
    } else {
        add_name(sorted_names(s.drop_last()), s.last())
    }
}

/// `lex_lt` is a strict order.
pub proof fn lemma_name_order_strict()
    ensures
        is_strict_order(name_order()),
{
    assert forall|a: Seq<char>, b: Seq<char>| #[trigger] name_order()(a, b) implies !name_order()(b, a) by {
        lemma_lex_lt_total(a, b);
    }
    assert forall|a: Seq<char>, b: Seq<char>, c: Seq<char>| #[trigger] name_order()(a, b) && #[trigger] name_order()(b, c) implies name_order()(a, c) by {
        lemma_lex_lt_transitive(a, b, c);
    }
}

/// The names of `sorted_names(s)` are those of `s`, each once, in strictly increasing order.
pub proof fn lemma_sorted_names(s: Seq<Seq<char>>)
    ensures
        strictly_sorted_by(sorted_names(s), name_order()),
        sorted_names(s).to_set() == s.to_set(),
    decreases s.len(),
{
    if s.len() == 0 {
        assert(sorted_names(s).to_set() =~= s.to_set());
    } else {
        let prev = sorted_names(s.drop_last());
        let x = s.last();
        lemma_sorted_names(s.drop_last());
        lemma_name_order_strict();
        assert(s =~= s.drop_last().push(x));
        if prev.contains(x) {
            assert(sorted_names(s).to_set() =~= s.to_set()) by {
                assert forall|y: Seq<char>| s.to_set().contains(y) implies prev.to_set().contains(y) by {
                    if y != x {
                        let k = choose|k: int| 0 <= k < s.len() && s[k] == y;
                        assert(s.drop_last()[k] == y);
                    }
                }
                assert forall|y: Seq<char>| prev.to_set().contains(y) implies s.to_set().contains(y) by {
                    assert(s.drop_last().to_set().contains(y));
                    let k = choose|k: int| 0 <= k < s.drop_last().len() && s.drop_last()[k] == y;
                    assert(s[k] == y);
                }
            }
        } else {
            // the first position whose name comes after x
            let pos = first_after(prev, x, 0);
            lemma_first_after(prev, x, 0);
            lemma_insert_by_position(prev, x, name_order(), pos);
            let r = prev.insert(pos, x);
            assert forall|i: int, j: int| 0 <= i < j < r.len() implies name_order()(#[trigger] r[i], #[trigger] r[j]) by {
                if j < pos {
                    assert(r[i] == prev[i] && r[j] == prev[j]);
                } else if j == pos {
                    assert(r[i] == prev[i]);
                    assert(!lex_lt(x, prev[i]));
                    assert(prev[i] != x);
                    lemma_lex_lt_total(x, prev[i]);
                } else if i == pos {
                    assert(r[j] == prev[j - 1]);
                    if j - 1 > pos {
                        assert(lex_lt(prev[pos], prev[j - 1]));
                        lemma_lex_lt_transitive(x, prev[pos], prev[j - 1]);
                    }
                } else if i < pos {
                    assert(r[i] == prev[i] && r[j] == prev[j - 1]);
                } else {
                    assert(r[i] == prev[i - 1] && r[j] == prev[j - 1]);
                }
            }
            assert(r.to_set() =~= s.to_set()) by {
                assert forall|y: Seq<char>| r.to_set().contains(y) <==> s.to_set().contains(y) by {
                    if r.contains(y) {
                        let k = choose|k: int| 0 <= k < r.len() && r[k] == y;
                        if k != pos {
                            let m = if k < pos { k } else { k - 1 };
                            assert(prev[m] == y);
                            assert(prev.to_set().contains(y));
                            let q = choose|q: int| 0 <= q < s.drop_last().len() && s.drop_last()[q] == y;
                            assert(s[q] == y);
                        } else {
                            assert(s[s.len() - 1] == y);
                        }
                    }
                    if s.contains(y) {
                        let k = choose|k: int| 0 <= k < s.len() && s[k] == y;
                        if k == s.len() - 1 {
                            assert(r[pos] == y);
                        } else {
                            assert(s.drop_last()[k] == y);
                            assert(prev.to_set().contains(y));
                            let m = choose|m: int| 0 <= m < prev.len() && prev[m] == y;
                            if m < pos {
                                assert(r[m] == y);
                            } else {
                                assert(r[m + 1] == y);
                            }
                        }
                    }
                }
            }
        }
    }
}

/// The index of the first name of `s`, from `from` on, that `x` comes before.
pub open spec fn first_after(s: Seq<Seq<char>>, x: Seq<char>, from: int) -> int
    decreases s.len() - from,
{
    if from >= s.len() {
        s.len() as int
    } else if lex_lt(x, s[from]) {
        from
    } else {
        first_after(s, x, from + 1)
    }
}

proof fn lemma_first_after(s: Seq<Seq<char>>, x: Seq<char>, from: int)
    requires
        0 <= from <= s.len(),
        forall|i: int| 0 <= i < from ==> !lex_lt(x, #[trigger] s[i]),
    ensures
        from <= first_after(s, x, from) <= s.len(),
        forall|i: int| 0 <= i < first_after(s, x, from) ==> !name_order()(x, #[trigger] s[i]),
        first_after(s, x, from) == s.len() || name_order()(x, s[first_after(s, x, from)]),
    decreases s.len() - from,
{
    if from < s.len() && !lex_lt(x, s[from]) {
        lemma_first_after(s, x, from + 1);
    }
}

/// Two strictly sorted sequences of names with the same names are equal.
pub proof fn lemma_strictly_sorted_unique(a: Seq<Seq<char>>, b: Seq<Seq<char>>)
    requires
        strictly_sorted_by(a, name_order()),
        strictly_sorted_by(b, name_order()),
        a.to_set() == b.to_set(),
    ensures
        a == b,
    decreases a.len(),
{
    if a.len() == 0 {
        if b.len() > 0 {
            assert(b.to_set().contains(b[0]));
        }
        assert(a =~= b);
    } else if b.len() == 0 {
        assert(a.to_set().contains(a[0]));
    } else {
        // the first elements are the least of the common set
        assert(a.to_set().contains(a[0]));
        assert(b.to_set().contains(b[0]));
        let ka = choose|k: int| 0 <= k < b.len() && b[k] == a[0];
        let kb = choose|k: int| 0 <= k < a.len() && a[k] == b[0];
        if ka > 0 {
            assert(lex_lt(b[0], b[ka]));
            if kb > 0 {
                assert(lex_lt(a[0], a[kb]));
                lemma_lex_lt_total(a[0], b[0]);
            } else {
                lemma_lex_lt_irreflexive(a[0]);
            }
        } else if kb > 0 {
            lemma_lex_lt_irreflexive(b[0]);
        }
        assert(a[0] == b[0]);
        let ta = a.drop_first();
        let tb = b.drop_first();
        assert forall|y: Seq<char>| ta.to_set().contains(y) <==> tb.to_set().contains(y) by {
            if ta.contains(y) {
                let k = choose|k: int| 0 <= k < ta.len() && ta[k] == y;
                assert(a[k + 1] == y);
                assert(lex_lt(a[0], y));
                assert(b.to_set().contains(y));
                let m = choose|m: int| 0 <= m < b.len() && b[m] == y;
                if m == 0 {
                    lemma_lex_lt_irreflexive(y);
                }
                assert(tb[m - 1] == y);
            }
            if tb.contains(y) {
                let k = choose|k: int| 0 <= k < tb.len() && tb[k] == y;
                assert(b[k + 1] == y);
                assert(lex_lt(b[0], y));
                assert(a.to_set().contains(y));
                let m = choose|m: int| 0 <= m < a.len() && a[m] == y;
                if m == 0 {
                    lemma_lex_lt_irreflexive(y);
                }
                assert(ta[m - 1] == y);
            }
        }
        assert(ta.to_set() =~= tb.to_set());
        assert forall|i: int, j: int| 0 <= i < j < ta.len() implies name_order()(#[trigger] ta[i], #[trigger] ta[j]) by {
            assert(ta[i] == a[i + 1] && ta[j] == a[j + 1]);
        }
        assert forall|i: int, j: int| 0 <= i < j < tb.len() implies name_order()(#[trigger] tb[i], #[trigger] tb[j]) by {
            assert(tb[i] == b[i + 1] && tb[j] == b[j + 1]);
        }
        lemma_strictly_sorted_unique(ta, tb);
        assert(a =~= seq![a[0]] + ta);
        assert(b =~= seq![b[0]] + tb);
    }
}


/// `sorted_names` depends only on which names occur.
pub proof fn lemma_sorted_names_same_set(a: Seq<Seq<char>>, b: Seq<Seq<char>>)
    requires
        a.to_set() == b.to_set(),
    ensures
        sorted_names(a) == sorted_names(b),
{
    lemma_sorted_names(a);
    lemma_sorted_names(b);
    lemma_strictly_sorted_unique(sorted_names(a), sorted_names(b));
}

} // verus!
