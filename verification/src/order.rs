//! Stable ordering of items by a text key, as `sort_by` with `String::cmp`
//! orders them.

use vstd::prelude::*;

verus! {

/// `a` comes strictly before `b` in the order of `String::cmp` (code point
/// by code point, a proper prefix first).
pub open spec fn lex_lt(a: Seq<char>, b: Seq<char>) -> bool
    decreases a.len(),
{
    if a.len() == 0 {
        b.len() > 0
    } else if b.len() == 0 {
        false
    } else if a[0] != b[0] {
        (a[0] as u32) < (b[0] as u32)
    } else {
        lex_lt(a.drop_first(), b.drop_first())
    }
}

/// Whether `a` comes strictly before `b`.
pub fn lex_less(a: &[char], b: &[char]) -> (r: bool)
    ensures
        r == lex_lt(a@, b@),
{
    let mut i: usize = 0;
    assert(a@.subrange(0, a.len() as int) =~= a@);
    assert(b@.subrange(0, b.len() as int) =~= b@);
    while i < a.len() && i < b.len() && a[i] == b[i]
        invariant
            i <= a.len(),
            i <= b.len(),
            lex_lt(a@, b@) == lex_lt(a@.subrange(i as int, a.len() as int), b@.subrange(
                i as int,
                b.len() as int,
            )),
        decreases a.len() - i,
    {
        let ghost x = a@.subrange(i as int, a.len() as int);
        let ghost y = b@.subrange(i as int, b.len() as int);
        assert(x.drop_first() =~= a@.subrange(i + 1, a.len() as int));
        assert(y.drop_first() =~= b@.subrange(i + 1, b.len() as int));
        i = i + 1;
    }
    if i == a.len() {
        i < b.len()
    } else if i == b.len() {
        false
    } else {
        assert(a@.subrange(i as int, a.len() as int)[0] == a@[i as int]);
        assert(b@.subrange(i as int, b.len() as int)[0] == b@[i as int]);
        (a[i] as u32) < (b[i] as u32)
    }
}

/// `s`, ordered by key, with `x` placed after every item whose key does not
/// come after `x`'s.
pub open spec fn insert_lex<T>(s: Seq<(Seq<char>, T)>, x: (Seq<char>, T)) -> Seq<(Seq<char>, T)>
    decreases s.len(),
{
    if s.len() == 0 {
        seq![x]
    } else if lex_lt(x.0, s[0].0) {
        seq![x] + s
    } else {
        seq![s[0]] + insert_lex(s.drop_first(), x)
    }
}

/// The items ordered by key, items with equal keys in their original order.
pub open spec fn sort_lex<T>(s: Seq<(Seq<char>, T)>) -> Seq<(Seq<char>, T)>
    decreases s.len(),
{
    if s.len() == 0 {
        s
    } else {
        insert_lex(sort_lex(s.drop_last()), s.last())
    }
}

/// The view of keyed items.
pub open spec fn keyed_view<T>(s: Seq<(Vec<char>, T)>) -> Seq<(Seq<char>, T)> {
    s.map_values(|p: (Vec<char>, T)| (p.0@, p.1))
}

proof fn lemma_insert_lex_at<T>(s: Seq<(Seq<char>, T)>, x: (Seq<char>, T), p: int)
    requires
        0 <= p <= s.len(),
        forall|k: int| 0 <= k < p ==> !lex_lt(x.0, #[trigger] s[k].0),
        p == s.len() || lex_lt(x.0, s[p].0),
    ensures
        insert_lex(s, x) == s.insert(p, x),
    decreases p,
{
    if p == 0 {
        if s.len() == 0 {
            assert(s.insert(0, x) =~= seq![x]);
        } else {
            assert(s.insert(0, x) =~= seq![x] + s);
        }
    } else {
        let t = s.drop_first();
        assert forall|k: int| 0 <= k < p - 1 implies !lex_lt(x.0, #[trigger] t[k].0) by {
            assert(t[k] == s[k + 1]);
        }
        if p < s.len() {
            assert(t[p - 1] == s[p]);
        }
        lemma_insert_lex_at(t, x, p - 1);
        assert(seq![s[0]] + t.insert(p - 1, x) =~= s.insert(p, x));
    }
}

/// Stable sort of keyed items by ascending key.
pub fn sort_by_text<T>(items: Vec<(Vec<char>, T)>) -> (r: Vec<(Vec<char>, T)>)
    ensures
        keyed_view(r@) == sort_lex(keyed_view(items@)),
{
    let mut input = items;
    let ghost orig = input@;
    let total = input.len();
    let mut out: Vec<(Vec<char>, T)> = Vec::new();
    let mut n: usize = 0;
    assert(keyed_view(orig).take(0) =~= Seq::<(Seq<char>, T)>::empty());
    assert(keyed_view(out@) =~= Seq::<(Seq<char>, T)>::empty());
    while input.len() > 0
        invariant
            n + input@.len() == orig.len(),
            orig.len() == total,
            input@ == orig.subrange(n as int, orig.len() as int),
            keyed_view(out@) == sort_lex(keyed_view(orig).take(n as int)),
        decreases input.len(),
    {
        let x = input.remove(0);
        let mut p: usize = 0;
        while p < out.len() && !lex_less(x.0.as_slice(), out[p].0.as_slice())
            invariant
                p <= out@.len(),
                forall|k: int| 0 <= k < p ==> !lex_lt(x.0@, #[trigger] out@[k].0@),
            decreases out.len() - p,
        {
            p = p + 1;
        }
        proof {
            let vs = keyed_view(out@);
            let xv = (x.0@, x.1);
            assert forall|k: int| 0 <= k < p implies !lex_lt(xv.0, #[trigger] vs[k].0) by {
                assert(vs[k].0 == out@[k].0@);
            }
            if p < out@.len() {
                assert(vs[p as int].0 == out@[p as int].0@);
            }
            lemma_insert_lex_at(vs, xv, p as int);
            let ov = keyed_view(orig);
            assert(ov.take(n + 1).drop_last() =~= ov.take(n as int));
            assert(ov.take(n + 1).last() == xv);
            assert(input@ =~= orig.subrange(n + 1, orig.len() as int));
        }
        let ghost before = out@;
        out.insert(p, x);
        proof {
            assert(keyed_view(out@) =~= keyed_view(before).insert(p as int, (x.0@, x.1)));
        }
        n = n + 1;
    }
    proof {
        assert(keyed_view(orig).take(n as int) =~= keyed_view(orig));
    }
    out
}


/// Keyed items with `g` applied to each item.
pub open spec fn map_second<T, U>(s: Seq<(Seq<char>, T)>, g: spec_fn(T) -> U) -> Seq<
    (Seq<char>, U),
> {
    s.map_values(|p: (Seq<char>, T)| (p.0, g(p.1)))
}

proof fn lemma_insert_lex_map<T, U>(s: Seq<(Seq<char>, T)>, x: (Seq<char>, T), g: spec_fn(T) -> U)
    ensures
        map_second(insert_lex(s, x), g) == insert_lex(map_second(s, g), (x.0, g(x.1))),
    decreases s.len(),
{
    if s.len() == 0 {
        assert(map_second(seq![x], g) =~= seq![(x.0, g(x.1))]);
    } else if lex_lt(x.0, s[0].0) {
        assert(map_second(seq![x] + s, g) =~= seq![(x.0, g(x.1))] + map_second(s, g));
    } else {
        lemma_insert_lex_map(s.drop_first(), x, g);
        assert(map_second(s, g).drop_first() =~= map_second(s.drop_first(), g));
        assert(map_second(seq![s[0]] + insert_lex(s.drop_first(), x), g) =~= seq![
            (s[0].0, g(s[0].1)),
        ] + map_second(insert_lex(s.drop_first(), x), g));
    }
}

/// Sorting by key commutes with changing the items: the order depends on the
/// keys alone.
pub proof fn lemma_sort_lex_map<T, U>(s: Seq<(Seq<char>, T)>, g: spec_fn(T) -> U)
    ensures
        map_second(sort_lex(s), g) == sort_lex(map_second(s, g)),
    decreases s.len(),
{
    if s.len() > 0 {
        lemma_sort_lex_map(s.drop_last(), g);
        assert(map_second(s, g).drop_last() =~= map_second(s.drop_last(), g));
        lemma_insert_lex_map(sort_lex(s.drop_last()), s.last(), g);
    }
}

/// `s`, ordered by descending key, with `x` placed after every item whose
/// key is at least `x`'s.
pub open spec fn insert_desc<T>(s: Seq<(i128, T)>, x: (i128, T)) -> Seq<(i128, T)>
    decreases s.len(),
{
    if s.len() == 0 {
        seq![x]
    } else if s[0].0 < x.0 {
        seq![x] + s
    } else {
        seq![s[0]] + insert_desc(s.drop_first(), x)
    }
}

/// The items ordered by descending key, items with equal keys in their
/// original order (what a stable `sort_by(|a, b| b.0.cmp(&a.0))` gives).
pub open spec fn sort_desc<T>(s: Seq<(i128, T)>) -> Seq<(i128, T)>
    decreases s.len(),
{
    if s.len() == 0 {
        s
    } else {
        insert_desc(sort_desc(s.drop_last()), s.last())
    }
}

proof fn lemma_insert_desc_at<T>(s: Seq<(i128, T)>, x: (i128, T), p: int)
    requires
        0 <= p <= s.len(),
        forall|k: int| 0 <= k < p ==> !(#[trigger] s[k].0 < x.0),
        p == s.len() || s[p].0 < x.0,
    ensures
        insert_desc(s, x) == s.insert(p, x),
    decreases p,
{
    if p == 0 {
        if s.len() == 0 {
            assert(s.insert(0, x) =~= seq![x]);
        } else {
            assert(s.insert(0, x) =~= seq![x] + s);
        }
    } else {
        let t = s.drop_first();
        assert forall|k: int| 0 <= k < p - 1 implies !(#[trigger] t[k].0 < x.0) by {
            assert(t[k] == s[k + 1]);
        }
        if p < s.len() {
            assert(t[p - 1] == s[p]);
        }
        lemma_insert_desc_at(t, x, p - 1);
        assert(seq![s[0]] + t.insert(p - 1, x) =~= s.insert(p, x));
    }
}

/// Stable sort of keyed items by descending key.
pub fn sort_by_key_desc<T>(items: Vec<(i128, T)>) -> (r: Vec<(i128, T)>)
    ensures
        r@ == sort_desc(items@),
{
    let mut input = items;
    let ghost orig = input@;
    let total = input.len();
    let mut out: Vec<(i128, T)> = Vec::new();
    let mut n: usize = 0;
    assert(orig.take(0) =~= Seq::<(i128, T)>::empty());
    while input.len() > 0
        invariant
            n + input@.len() == orig.len(),
            orig.len() == total,
            input@ == orig.subrange(n as int, orig.len() as int),
            out@ == sort_desc(orig.take(n as int)),
        decreases input.len(),
    {
        let x = input.remove(0);
        let mut p: usize = 0;
        while p < out.len() && !(out[p].0 < x.0)
            invariant
                p <= out@.len(),
                forall|k: int| 0 <= k < p ==> !(#[trigger] out@[k].0 < x.0),
            decreases out.len() - p,
        {
            p = p + 1;
        }
        proof {
            lemma_insert_desc_at(out@, x, p as int);
            assert(orig.take(n + 1).drop_last() =~= orig.take(n as int));
            assert(orig.take(n + 1).last() == x);
            assert(input@ =~= orig.subrange(n + 1, orig.len() as int));
        }
        out.insert(p, x);
        n = n + 1;
    }
    proof {
        assert(orig.take(n as int) =~= orig);
    }
    out
}

/// Keyed items with `g` applied to each item.
pub open spec fn map_item<T, U>(s: Seq<(i128, T)>, g: spec_fn(T) -> U) -> Seq<(i128, U)> {
    s.map_values(|p: (i128, T)| (p.0, g(p.1)))
}

proof fn lemma_insert_desc_map<T, U>(s: Seq<(i128, T)>, x: (i128, T), g: spec_fn(T) -> U)
    ensures
        map_item(insert_desc(s, x), g) == insert_desc(map_item(s, g), (x.0, g(x.1))),
    decreases s.len(),
{
    if s.len() == 0 {
        assert(map_item(seq![x], g) =~= seq![(x.0, g(x.1))]);
    } else if s[0].0 < x.0 {
        assert(map_item(seq![x] + s, g) =~= seq![(x.0, g(x.1))] + map_item(s, g));
    } else {
        lemma_insert_desc_map(s.drop_first(), x, g);
        assert(map_item(s, g).drop_first() =~= map_item(s.drop_first(), g));
        assert(map_item(seq![s[0]] + insert_desc(s.drop_first(), x), g) =~= seq![
            (s[0].0, g(s[0].1)),
        ] + map_item(insert_desc(s.drop_first(), x), g));
    }
}

/// Sorting by descending key commutes with changing the items.
pub proof fn lemma_sort_desc_map<T, U>(s: Seq<(i128, T)>, g: spec_fn(T) -> U)
    ensures
        map_item(sort_desc(s), g) == sort_desc(map_item(s, g)),
    decreases s.len(),
{
    if s.len() > 0 {
        lemma_sort_desc_map(s.drop_last(), g);
        assert(map_item(s, g).drop_last() =~= map_item(s.drop_last(), g));
        lemma_insert_desc_map(sort_desc(s.drop_last()), s.last(), g);
    }
}

/// Where `insert_desc` places `x`: before the first item with a smaller key.
pub open spec fn insert_pos<T>(s: Seq<(i128, T)>, x: (i128, T)) -> int
    decreases s.len(),
{
    if s.len() == 0 {
        0
    } else if s[0].0 < x.0 {
        0
    } else {
        1 + insert_pos(s.drop_first(), x)
    }
}

proof fn lemma_insert_desc_pos<T>(s: Seq<(i128, T)>, x: (i128, T))
    ensures
        0 <= insert_pos(s, x) <= s.len(),
        insert_desc(s, x) == s.insert(insert_pos(s, x), x),
    decreases s.len(),
{
    if s.len() == 0 {
        assert(s.insert(0, x) =~= seq![x]);
    } else if s[0].0 < x.0 {
        assert(s.insert(0, x) =~= seq![x] + s);
    } else {
        lemma_insert_desc_pos(s.drop_first(), x);
        assert(seq![s[0]] + s.drop_first().insert(insert_pos(s.drop_first(), x), x) =~= s.insert(
            insert_pos(s, x),
            x,
        ));
    }
}

proof fn lemma_insert_desc_multiset<T>(s: Seq<(i128, T)>, x: (i128, T))
    ensures
        insert_desc(s, x).to_multiset() =~= s.to_multiset().insert(x),
{
    broadcast use vstd::seq_lib::group_to_multiset_ensures;
    broadcast use vstd::multiset::group_multiset_axioms;
    lemma_insert_desc_pos(s, x);
    let p = insert_pos(s, x);
    let t = s.insert(p, x);
    assert(t.remove(p) =~= s);
    assert(t[p] == x);
    assert(t.contains(x));
}

/// Sorting by descending key keeps every item, as often as it occurs.
pub proof fn lemma_sort_desc_permutation<T>(s: Seq<(i128, T)>)
    ensures
        sort_desc(s).to_multiset() =~= s.to_multiset(),
    decreases s.len(),
{
    broadcast use vstd::seq_lib::group_to_multiset_ensures;
    if s.len() == 0 {
        assert(s.to_multiset() =~= vstd::multiset::Multiset::<(i128, T)>::empty());
    } else {
        lemma_sort_desc_permutation(s.drop_last());
        lemma_insert_desc_multiset(sort_desc(s.drop_last()), s.last());
        assert(s.drop_last().push(s.last()) =~= s);
    }
}

/// Every item of the sorted sequence is an item of the input.
pub proof fn lemma_sort_desc_member<T>(s: Seq<(i128, T)>, k: int)
    requires
        0 <= k < sort_desc(s).len(),
    ensures
        exists|j: int| 0 <= j < s.len() && s[j] == sort_desc(s)[k],
{
    broadcast use vstd::seq_lib::group_to_multiset_ensures;
    lemma_sort_desc_permutation(s);
    let y = sort_desc(s)[k];
    assert(sort_desc(s).contains(y));
    assert(sort_desc(s).to_multiset().count(y) > 0);
    assert(s.to_multiset().count(y) > 0);
    assert(s.contains(y));
}

proof fn lemma_lex_irreflexive(a: Seq<char>)
    ensures
        !lex_lt(a, a),
    decreases a.len(),
{
    if a.len() > 0 {
        lemma_lex_irreflexive(a.drop_first());
    }
}

proof fn lemma_lex_transitive(a: Seq<char>, b: Seq<char>, c: Seq<char>)
    requires
        lex_lt(a, b),
        lex_lt(b, c),
    ensures
        lex_lt(a, c),
    decreases a.len(),
{
    if a.len() > 0 && b.len() > 0 && c.len() > 0 && a[0] == b[0] && b[0] == c[0] {
        lemma_lex_transitive(a.drop_first(), b.drop_first(), c.drop_first());
    }
}

/// Whether keyed items are in ascending order of key.
pub open spec fn lex_sorted<T>(s: Seq<(Seq<char>, T)>) -> bool {
    forall|i: int, j: int| #![trigger s[i], s[j]] 0 <= i < j < s.len() ==> !lex_lt(s[j].0, s[i].0)
}

proof fn lemma_insert_lex_sorted<T>(s: Seq<(Seq<char>, T)>, x: (Seq<char>, T))
    requires
        lex_sorted(s),
    ensures
        lex_sorted(insert_lex(s, x)),
        insert_lex(s, x).len() == s.len() + 1,
        forall|k: int| 0 <= k < insert_lex(s, x).len() ==> #[trigger] insert_lex(s, x)[k] == x || s.contains(
            insert_lex(s, x)[k],
        ),
    decreases s.len(),
{
    let r = insert_lex(s, x);
    if s.len() == 0 {
    } else if lex_lt(x.0, s[0].0) {
        assert forall|i: int, j: int| #![trigger r[i], r[j]] 0 <= i < j < r.len() implies !lex_lt(r[j].0, r[i].0) by {
            assert(r[j] == s[j - 1]);
            if i == 0 {
                if lex_lt(s[j - 1].0, x.0) {
                    lemma_lex_transitive(s[j - 1].0, x.0, s[0].0);
                    if j - 1 == 0 {
                        lemma_lex_irreflexive(s[0].0);
                    }
                }
            } else {
                assert(r[i] == s[i - 1]);
            }
        }
        assert forall|k: int| 0 <= k < r.len() implies #[trigger] r[k] == x || s.contains(r[k]) by {
            if k > 0 {
                assert(r[k] == s[k - 1]);
            }
        }
    } else {
        let t = s.drop_first();
        assert forall|i: int, j: int| #![trigger t[i], t[j]] 0 <= i < j < t.len() implies !lex_lt(t[j].0, t[i].0) by {
            assert(t[i] == s[i + 1]);
            assert(t[j] == s[j + 1]);
        }
        lemma_insert_lex_sorted(t, x);
        let u = insert_lex(t, x);
        assert forall|i: int, j: int| #![trigger r[i], r[j]] 0 <= i < j < r.len() implies !lex_lt(r[j].0, r[i].0) by {
            assert(r[j] == u[j - 1]);
            if i == 0 {
                if u[j - 1] != x {
                    assert(t.contains(u[j - 1]));
                    let m = choose|m: int| 0 <= m < t.len() && t[m] == u[j - 1];
                    assert(t[m] == s[m + 1]);
                }
            } else {
                assert(r[i] == u[i - 1]);
            }
        }
        assert forall|k: int| 0 <= k < r.len() implies #[trigger] r[k] == x || s.contains(r[k]) by {
            if k > 0 {
                assert(r[k] == u[k - 1]);
                if u[k - 1] != x {
                    assert(t.contains(u[k - 1]));
                    let m = choose|m: int| 0 <= m < t.len() && t[m] == u[k - 1];
                    assert(s[m + 1] == t[m]);
                }
            }
        }
    }
}

/// Sorting by text orders the items by ascending key, and every item it
/// gives is one of the input's.
pub proof fn lemma_sort_lex_sorted<T>(s: Seq<(Seq<char>, T)>)
    ensures
        lex_sorted(sort_lex(s)),
        sort_lex(s).len() == s.len(),
        forall|k: int| 0 <= k < sort_lex(s).len() ==> s.contains(#[trigger] sort_lex(s)[k]),
    decreases s.len(),
{
    if s.len() > 0 {
        let t = s.drop_last();
        lemma_sort_lex_sorted(t);
        lemma_insert_lex_sorted(sort_lex(t), s.last());
        let r = sort_lex(s);
        assert forall|k: int| 0 <= k < r.len() implies s.contains(#[trigger] r[k]) by {
            if r[k] == s.last() {
                assert(s[s.len() - 1] == s.last());
            } else {
                assert(sort_lex(t).contains(r[k]));
                let m = choose|m: int| 0 <= m < sort_lex(t).len() && sort_lex(t)[m] == r[k];
                assert(t.contains(sort_lex(t)[m]));
                let n = choose|n: int| 0 <= n < t.len() && t[n] == sort_lex(t)[m];
                assert(s[n] == t[n]);
            }
        }
    }
}

/// Whether keyed items are in descending order of key.
pub open spec fn desc_sorted<T>(s: Seq<(i128, T)>) -> bool {
    forall|i: int, j: int| #![trigger s[i], s[j]] 0 <= i < j < s.len() ==> s[j].0 <= s[i].0
}

proof fn lemma_insert_desc_sorted<T>(s: Seq<(i128, T)>, x: (i128, T))
    requires
        desc_sorted(s),
    ensures
        desc_sorted(insert_desc(s, x)),
        insert_desc(s, x).len() == s.len() + 1,
        forall|k: int| 0 <= k < insert_desc(s, x).len() ==> #[trigger] insert_desc(s, x)[k] == x || s.contains(
            insert_desc(s, x)[k],
        ),
    decreases s.len(),
{
    let r = insert_desc(s, x);
    if s.len() == 0 {
    } else if s[0].0 < x.0 {
        assert forall|i: int, j: int| #![trigger r[i], r[j]] 0 <= i < j < r.len() implies r[j].0 <= r[i].0 by {
            assert(r[j] == s[j - 1]);
            if i > 0 {
                assert(r[i] == s[i - 1]);
            } else if j - 1 > 0 {
                assert(s[j - 1].0 <= s[0].0);
            }
        }
        assert forall|k: int| 0 <= k < r.len() implies #[trigger] r[k] == x || s.contains(r[k]) by {
            if k > 0 {
                assert(r[k] == s[k - 1]);
            }
        }
    } else {
        let t = s.drop_first();
        assert forall|i: int, j: int| #![trigger t[i], t[j]] 0 <= i < j < t.len() implies t[j].0 <= t[i].0 by {
            assert(t[i] == s[i + 1]);
            assert(t[j] == s[j + 1]);
        }
        lemma_insert_desc_sorted(t, x);
        let u = insert_desc(t, x);
        assert forall|i: int, j: int| #![trigger r[i], r[j]] 0 <= i < j < r.len() implies r[j].0 <= r[i].0 by {
            assert(r[j] == u[j - 1]);
            if i == 0 {
                if u[j - 1] != x {
                    assert(t.contains(u[j - 1]));
                    let m = choose|m: int| 0 <= m < t.len() && t[m] == u[j - 1];
                    assert(t[m] == s[m + 1]);
                }
            } else {
                assert(r[i] == u[i - 1]);
            }
        }
        assert forall|k: int| 0 <= k < r.len() implies #[trigger] r[k] == x || s.contains(r[k]) by {
            if k > 0 {
                assert(r[k] == u[k - 1]);
                if u[k - 1] != x {
                    assert(t.contains(u[k - 1]));
                    let m = choose|m: int| 0 <= m < t.len() && t[m] == u[k - 1];
                    assert(s[m + 1] == t[m]);
                }
            }
        }
    }
}

/// Sorting by descending key orders the items by descending key.
pub proof fn lemma_sort_desc_sorted<T>(s: Seq<(i128, T)>)
    ensures
        desc_sorted(sort_desc(s)),
        sort_desc(s).len() == s.len(),
    decreases s.len(),
{
    if s.len() > 0 {
        lemma_sort_desc_sorted(s.drop_last());
        lemma_insert_desc_sorted(sort_desc(s.drop_last()), s.last());
    }
}

} // verus!
