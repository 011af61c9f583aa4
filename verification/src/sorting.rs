//! Ordering of text and a stable insertion sort keyed by text.

use vstd::prelude::*;
use crate::text::{seq_lt, seq_le, vec_lt, chars_of};

verus! {

/// No sequence comes strictly before itself.
pub proof fn lemma_lt_irreflexive(a: Seq<char>)
    ensures
        !seq_lt(a, a),
    decreases a.len(),
{
    if a.len() > 0 {
        lemma_lt_irreflexive(a.drop_first());
    }
}

/// Lexicographic order is transitive.
pub proof fn lemma_lt_transitive(a: Seq<char>, b: Seq<char>, c: Seq<char>)
    requires
        seq_lt(a, b),
        seq_lt(b, c),
    ensures
        seq_lt(a, c),
    decreases a.len(),
{
    if a.len() > 0 && b.len() > 0 && c.len() > 0 && a[0] == b[0] && b[0] == c[0] {
        lemma_lt_transitive(a.drop_first(), b.drop_first(), c.drop_first());
    }
}

/// Of two different sequences, one comes strictly before the other.
pub proof fn lemma_lt_total(a: Seq<char>, b: Seq<char>)
    requires
        a != b,
    ensures
        seq_lt(a, b) || seq_lt(b, a),
    decreases a.len(),
{
    if a.len() > 0 && b.len() > 0 && a[0] == b[0] {
        if a.drop_first() == b.drop_first() {
            assert(a =~= seq![a[0]] + a.drop_first());
            assert(b =~= seq![b[0]] + b.drop_first());
        }
        lemma_lt_total(a.drop_first(), b.drop_first());
    } else if a.len() == 0 && b.len() == 0 {
        assert(a =~= b);
    }
}


/// Rearranging a sequence rearranges any mapping of it in the same way.
pub proof fn lemma_map_preserves_multiset<A, B>(s1: Seq<A>, s2: Seq<A>, f: spec_fn(A) -> B)
    requires
        s1.to_multiset() == s2.to_multiset(),
    ensures
        s1.map_values(f).to_multiset() == s2.map_values(f).to_multiset(),
    decreases s1.len(),
{
    broadcast use vstd::seq_lib::group_to_multiset_ensures;
    broadcast use vstd::multiset::group_multiset_axioms;
    if s1.len() == 0 {
        assert(s1.to_multiset().len() == s1.len());
        assert(s2.to_multiset().len() == s2.len());
        assert(s2.len() == 0);
        assert(s1.map_values(f) =~= s2.map_values(f));
    } else {
        let a = s1.last();
        let n = s1.len() - 1;
        assert(s1.to_multiset().count(a) > 0) by {
            assert(s1.contains(a)) by { assert(s1[n] == a); }
        }
        assert(s2.contains(a));
        let i = choose|i: int| 0 <= i < s2.len() && s2[i] == a;
        let t1 = s1.drop_last();
        let t2 = s2.remove(i);
        assert(t1 =~= s1.remove(n));
        assert(t1.to_multiset() == s1.to_multiset().remove(a));
        assert(t2.to_multiset() == s2.to_multiset().remove(a));
        lemma_map_preserves_multiset(t1, t2, f);
        let m1 = s1.map_values(f);
        let m2 = s2.map_values(f);
        assert(m1 =~= t1.map_values(f).push(f(a)));
        assert(m2.remove(i) =~= t2.map_values(f));
        assert(m2[i] == f(a));
        assert(m2.remove(i).to_multiset() == m2.to_multiset().remove(f(a)));
        assert(m2.to_multiset().count(f(a)) > 0) by {
            assert(m2.contains(f(a)));
        }
        assert(m1.to_multiset() =~= m2.to_multiset());
    }
}

/// The keys of a keyed list, as character sequences.
pub open spec fn keys_of<T>(s: Seq<(String, T)>) -> Seq<Seq<char>> {
    s.map_values(|p: (String, T)| p.0@)
}

/// The keys appear in non-decreasing lexicographic order.
pub open spec fn sorted_keys(k: Seq<Seq<char>>) -> bool {
    forall|i: int, j: int| 0 <= i < j < k.len() ==> seq_le(k[i], k[j])
}

/// The items of a keyed list whose key is `k`, in order.
pub open spec fn with_text_key<T>(s: Seq<(String, T)>, k: Seq<char>) -> Seq<(String, T)> {
    s.filter(|e: (String, T)| e.0@ == k)
}

/// Sorts `items` by their text keys, keeping items with equal keys in their original order.
pub fn sort_by_text_key<T>(items: Vec<(String, T)>) -> (r: Vec<(String, T)>)
    ensures
        sorted_keys(keys_of(r@)),
        r@.to_multiset() == items@.to_multiset(),
        forall|k: Seq<char>| #[trigger] with_text_key(r@, k) == with_text_key(items@, k),
{
    let mut r: Vec<(String, T)> = Vec::new();
    let ghost orig = items@;
    let mut rest = items;
    let mut consumed: usize = 0;
    proof {
        assert(orig.take(0) =~= r@);
        assert(orig.len() == rest.len());
    }
    while rest.len() > 0
        invariant
            orig.len() == consumed + rest.len(),
            orig.len() <= usize::MAX,
            rest@ == orig.subrange(consumed as int, orig.len() as int),
            sorted_keys(keys_of(r@)),
            r@.to_multiset() == orig.take(consumed as int).to_multiset(),
            forall|k: Seq<char>| #[trigger] with_text_key(r@, k) == with_text_key(orig.take(consumed as int), k),
        decreases rest.len(),
    {
        let item = rest.remove(0);
        let key = chars_of(item.0.as_str());
        let mut pos: usize = 0;
        while pos < r.len()
            invariant
                pos <= r.len(),
                key@ == item.0@,
                forall|j: int| 0 <= j < pos ==> seq_le(#[trigger] keys_of(r@)[j], key@),
            ensures
                pos <= r.len(),
                forall|j: int| 0 <= j < pos ==> seq_le(#[trigger] keys_of(r@)[j], key@),
                pos < r.len() ==> seq_lt(key@, keys_of(r@)[pos as int]),
            decreases r.len() - pos,
        {
            let other = chars_of(r[pos].0.as_str());
            if vec_lt(&key, &other) {
                assert(keys_of(r@)[pos as int] == other@);
                break;
            }
            proof {
                if other@ != key@ {
                    lemma_lt_total(other@, key@);
                }
                assert(keys_of(r@)[pos as int] == other@);
            }
            pos = pos + 1;
        }
        let ghost old_r = r@;
        proof {
            if pos < r.len() {
                assert(keys_of(r@)[pos as int] == r@[pos as int].0@);
                assert(seq_lt(item.0@, keys_of(r@)[pos as int]));
            }
        }
        r.insert(pos, item);
        proof {
            let k_old = keys_of(old_r);
            let k_new = keys_of(r@);
            assert forall|a: int, b: int| 0 <= a < b < k_new.len() implies seq_le(k_new[a], k_new[b]) by {
                assert(k_new[pos as int] == item.0@);
                if a < pos && b == pos {
                    assert(k_new[a] == k_old[a]);
                } else if a < pos && b > pos {
                    assert(k_new[a] == k_old[a]);
                    assert(k_new[b] == k_old[b - 1]);
                } else if a == pos && b > pos {
                    assert(k_new[b] == k_old[b - 1]);
                    assert(seq_le(k_old[pos as int], k_old[b - 1]));
                    if k_old[pos as int] != k_old[b - 1] {
                        lemma_lt_transitive(item.0@, k_old[pos as int], k_old[b - 1]);
                    }
                } else if b < pos {
                    assert(k_new[a] == k_old[a]);
                    assert(k_new[b] == k_old[b]);
                } else {
                    assert(k_new[a] == k_old[a - 1]);
                    assert(k_new[b] == k_old[b - 1]);
                }
            }
            assert(orig.take(consumed + 1) =~= orig.take(consumed as int).push(item));
            assert(r@ =~= old_r.insert(pos as int, item));
            vstd::seq_lib::to_multiset_insert(old_r, pos as int, item);
            orig.take(consumed as int).to_multiset_ensures();
            assert forall|k: Seq<char>| #[trigger] with_text_key(r@, k) == with_text_key(orig.take(consumed + 1), k) by {
                let p = |e: (String, T)| e.0@ == k;
                if k == item.0@ {
                    assert forall|j: int| pos <= j < old_r.len() implies !p(#[trigger] old_r[j]) by {
                        assert(k_old[j] == old_r[j].0@);
                        assert(seq_lt(item.0@, k_old[pos as int]));
                        if pos < j {
                            assert(seq_le(k_old[pos as int], k_old[j]));
                            if k_old[pos as int] != k_old[j] {
                                lemma_lt_transitive(item.0@, k_old[pos as int], k_old[j]);
                            }
                        }
                        lemma_lt_irreflexive(item.0@);
                    }
                }
                lemma_filter_insert(old_r, pos as int, item, p);
                lemma_filter_push(orig.take(consumed as int), item, p);
                assert(with_text_key(old_r, k) == with_text_key(orig.take(consumed as int), k));
                assert(with_text_key(old_r, k) == old_r.filter(p));
                assert(with_text_key(r@, k) == r@.filter(p));
                assert(with_text_key(orig.take(consumed + 1), k) == orig.take(consumed + 1).filter(p));
            }
        }
        consumed = consumed + 1;
        proof {
            assert(rest@ =~= orig.subrange(consumed as int, orig.len() as int));
        }
    }
    proof {
        assert(orig.take(orig.len() as int) =~= orig);
    }
    r
}


/// The values of a keyed list, in order.
pub fn values_of<T>(items: Vec<(String, T)>) -> (r: Vec<T>)
    ensures
        r@ == items@.map_values(|p: (String, T)| p.1),
{
    let ghost all = items@;
    let mut r: Vec<T> = Vec::new();
    for p in it: items.into_iter()
        invariant
            it.seq() == all,
            r@ == all.take(it.index() as int).map_values(|p: (String, T)| p.1),
    {
        r.push(p.1);
        proof {
            let k = it.index() as int;
            assert(all.take(k + 1) =~= all.take(k).push(all[k]));
            assert(r@ =~= all.take(k + 1).map_values(|p: (String, T)| p.1));
        }
    }
    assert(all.take(all.len() as int) =~= all);
    r
}

/// Order on pairs of texts: by the first text, then by the second.
pub open spec fn pair_lt(a: (Seq<char>, Seq<char>), b: (Seq<char>, Seq<char>)) -> bool {
    seq_lt(a.0, b.0) || (a.0 == b.0 && seq_lt(a.1, b.1))
}

/// `a` comes no later than `b` in the order on pairs of texts.
pub open spec fn pair_le(a: (Seq<char>, Seq<char>), b: (Seq<char>, Seq<char>)) -> bool {
    a == b || pair_lt(a, b)
}

/// The order on pairs of texts is transitive.
pub proof fn lemma_pair_lt_transitive(a: (Seq<char>, Seq<char>), b: (Seq<char>, Seq<char>), c: (Seq<char>, Seq<char>))
    requires
        pair_lt(a, b),
        pair_lt(b, c),
    ensures
        pair_lt(a, c),
{
    if seq_lt(a.0, b.0) && seq_lt(b.0, c.0) {
        lemma_lt_transitive(a.0, b.0, c.0);
    } else if a.0 == b.0 && b.0 == c.0 {
        lemma_lt_transitive(a.1, b.1, c.1);
    }
}

/// Of two different pairs of texts, one comes strictly before the other.
pub proof fn lemma_pair_lt_total(a: (Seq<char>, Seq<char>), b: (Seq<char>, Seq<char>))
    requires
        a != b,
    ensures
        pair_lt(a, b) || pair_lt(b, a),
{
    if a.0 != b.0 {
        lemma_lt_total(a.0, b.0);
    } else {
        lemma_lt_total(a.1, b.1);
    }
}

/// The pair keys of a list keyed by two texts.
pub open spec fn pair_keys_of<T>(s: Seq<(String, String, T)>) -> Seq<(Seq<char>, Seq<char>)> {
    s.map_values(|p: (String, String, T)| (p.0@, p.1@))
}

/// The pair keys appear in non-decreasing order.
pub open spec fn sorted_pairs(k: Seq<(Seq<char>, Seq<char>)>) -> bool {
    forall|i: int, j: int| 0 <= i < j < k.len() ==> pair_le(k[i], k[j])
}

/// The items of a list keyed by two texts whose key is `k`, in order.
pub open spec fn with_pair_key<T>(s: Seq<(String, String, T)>, k: (Seq<char>, Seq<char>)) -> Seq<(String, String, T)> {
    s.filter(|e: (String, String, T)| (e.0@, e.1@) == k)
}

/// No pair of texts comes strictly before itself.
pub proof fn lemma_pair_lt_irreflexive(a: (Seq<char>, Seq<char>))
    ensures
        !pair_lt(a, a),
{
    lemma_lt_irreflexive(a.0);
    lemma_lt_irreflexive(a.1);
}

/// Filtering a sequence with one more element at the end.
pub proof fn lemma_filter_push<A>(s: Seq<A>, x: A, p: spec_fn(A) -> bool)
    ensures
        s.push(x).filter(p) == (if p(x) { s.filter(p).push(x) } else { s.filter(p) }),
{
    reveal(Seq::filter);
    assert(s.push(x).drop_last() =~= s);
}

/// Inserting an element at a position after which nothing passes the filter adds it to the
/// end of the filtered sequence, when it passes.
pub proof fn lemma_filter_insert<A>(s: Seq<A>, pos: int, x: A, p: spec_fn(A) -> bool)
    requires
        0 <= pos <= s.len(),
        p(x) ==> forall|j: int| pos <= j < s.len() ==> !p(#[trigger] s[j]),
    ensures
        s.insert(pos, x).filter(p) == (if p(x) { s.filter(p).push(x) } else { s.filter(p) }),
    decreases s.len() - pos,
{
    if pos == s.len() {
        assert(s.insert(pos, x) =~= s.push(x));
        lemma_filter_push(s, x, p);
    } else {
        let t = s.drop_last();
        assert(s.insert(pos, x) =~= t.insert(pos, x).push(s.last()));
        assert(s =~= t.push(s.last()));
        assert(p(x) ==> forall|j: int| pos <= j < t.len() ==> !p(#[trigger] t[j])) by {
            if p(x) {
                assert forall|j: int| pos <= j < t.len() implies !p(#[trigger] t[j]) by {
                    assert(t[j] == s[j]);
                }
            }
        }
        lemma_filter_insert(t, pos, x, p);
        lemma_filter_push(t.insert(pos, x), s.last(), p);
        lemma_filter_push(t, s.last(), p);
        if p(x) {
            assert(!p(s[s.len() - 1]));
        }
    }
}

/// Filtering by predicates that agree on every element gives the same sequence.
pub proof fn lemma_filter_congruent<A>(s: Seq<A>, p: spec_fn(A) -> bool, q: spec_fn(A) -> bool)
    requires
        forall|i: int| 0 <= i < s.len() ==> p(#[trigger] s[i]) == q(s[i]),
    ensures
        s.filter(p) == s.filter(q),
    decreases s.len(),
{
    reveal(Seq::filter);
    if s.len() > 0 {
        let t = s.drop_last();
        assert forall|i: int| 0 <= i < t.len() implies p(#[trigger] t[i]) == q(t[i]) by {
            assert(t[i] == s[i]);
        }
        lemma_filter_congruent(t, p, q);
        assert(p(s[s.len() - 1]) == q(s[s.len() - 1]));
    }
}

/// Filtering a mapped sequence is mapping the sequence filtered through the map.
pub proof fn lemma_filter_map<A, B>(s: Seq<A>, f: spec_fn(A) -> B, q: spec_fn(B) -> bool)
    ensures
        s.map_values(f).filter(q) == s.filter(|a: A| q(f(a))).map_values(f),
    decreases s.len(),
{
    reveal(Seq::filter);
    if s.len() > 0 {
        let t = s.drop_last();
        lemma_filter_map(t, f, q);
        assert(s.map_values(f).drop_last() =~= t.map_values(f));
        lemma_filter_push(t.map_values(f), f(s.last()), q);
        assert(s.map_values(f) =~= t.map_values(f).push(f(s.last())));
        assert(s =~= t.push(s.last()));
        lemma_filter_push(t, s.last(), |a: A| q(f(a)));
        if q(f(s.last())) {
            assert(t.filter(|a: A| q(f(a))).push(s.last()).map_values(f)
                =~= t.filter(|a: A| q(f(a))).map_values(f).push(f(s.last())));
        }
    } else {
        assert(s.map_values(f).filter(q) =~= s.filter(|a: A| q(f(a))).map_values(f));
    }
}

/// Whether the pair `(a0, a1)` comes strictly before `(b0, b1)`.
fn pair_before(a0: &Vec<char>, a1: &Vec<char>, b0: &Vec<char>, b1: &Vec<char>) -> (r: bool)
    ensures
        r == pair_lt((a0@, a1@), (b0@, b1@)),
{
    if vec_lt(a0, b0) {
        return true;
    }
    if vec_lt(b0, a0) {
        proof { lemma_lt_irreflexive(a0@); }
        return false;
    }
    proof {
        if a0@ != b0@ {
            lemma_lt_total(a0@, b0@);
        }
    }
    vec_lt(a1, b1)
}

/// Sorts `items` by their two text keys, the first deciding and the second breaking ties.
pub fn sort_by_text_pair<T>(items: Vec<(String, String, T)>) -> (r: Vec<(String, String, T)>)
    ensures
        sorted_pairs(pair_keys_of(r@)),
        r@.to_multiset() == items@.to_multiset(),
        forall|k: (Seq<char>, Seq<char>)| #[trigger] with_pair_key(r@, k) == with_pair_key(items@, k),
{
    let mut r: Vec<(String, String, T)> = Vec::new();
    let ghost orig = items@;
    let mut rest = items;
    let mut consumed: usize = 0;
    proof {
        assert(orig.take(0) =~= r@);
        assert(orig.len() == rest.len());
    }
    while rest.len() > 0
        invariant
            orig.len() == consumed + rest.len(),
            orig.len() <= usize::MAX,
            rest@ == orig.subrange(consumed as int, orig.len() as int),
            sorted_pairs(pair_keys_of(r@)),
            r@.to_multiset() == orig.take(consumed as int).to_multiset(),
            forall|k: (Seq<char>, Seq<char>)| #[trigger] with_pair_key(r@, k) == with_pair_key(orig.take(consumed as int), k),
        decreases rest.len(),
    {
        let item = rest.remove(0);
        let k0 = chars_of(item.0.as_str());
        let k1 = chars_of(item.1.as_str());
        let ghost key = (item.0@, item.1@);
        let mut pos: usize = 0;
        while pos < r.len()
            invariant
                pos <= r.len(),
                k0@ == item.0@,
                k1@ == item.1@,
                key == (item.0@, item.1@),
                forall|j: int| 0 <= j < pos ==> pair_le(#[trigger] pair_keys_of(r@)[j], key),
            ensures
                pos <= r.len(),
                forall|j: int| 0 <= j < pos ==> pair_le(#[trigger] pair_keys_of(r@)[j], key),
                pos < r.len() ==> pair_lt(key, pair_keys_of(r@)[pos as int]),
            decreases r.len() - pos,
        {
            let o0 = chars_of(r[pos].0.as_str());
            let o1 = chars_of(r[pos].1.as_str());
            assert(pair_keys_of(r@)[pos as int] == (o0@, o1@));
            if pair_before(&k0, &k1, &o0, &o1) {
                break;
            }
            proof {
                if (o0@, o1@) != key {
                    lemma_pair_lt_total((o0@, o1@), key);
                }
            }
            pos = pos + 1;
        }
        let ghost old_r = r@;
        r.insert(pos, item);
        proof {
            let k_old = pair_keys_of(old_r);
            let k_new = pair_keys_of(r@);
            assert forall|a: int, b: int| 0 <= a < b < k_new.len() implies pair_le(k_new[a], k_new[b]) by {
                assert(k_new[pos as int] == key);
                if a < pos && b == pos {
                    assert(k_new[a] == k_old[a]);
                } else if a < pos && b > pos {
                    assert(k_new[a] == k_old[a]);
                    assert(k_new[b] == k_old[b - 1]);
                } else if a == pos && b > pos {
                    assert(k_new[b] == k_old[b - 1]);
                    assert(pair_le(k_old[pos as int], k_old[b - 1]));
                    if k_old[pos as int] != k_old[b - 1] {
                        lemma_pair_lt_transitive(key, k_old[pos as int], k_old[b - 1]);
                    }
                } else if b < pos {
                    assert(k_new[a] == k_old[a]);
                    assert(k_new[b] == k_old[b]);
                } else {
                    assert(k_new[a] == k_old[a - 1]);
                    assert(k_new[b] == k_old[b - 1]);
                }
            }
            assert(orig.take(consumed + 1) =~= orig.take(consumed as int).push(item));
            assert(r@ =~= old_r.insert(pos as int, item));
            vstd::seq_lib::to_multiset_insert(old_r, pos as int, item);
            orig.take(consumed as int).to_multiset_ensures();
            assert forall|k: (Seq<char>, Seq<char>)| #[trigger] with_pair_key(r@, k) == with_pair_key(orig.take(consumed + 1), k) by {
                let p = |e: (String, String, T)| (e.0@, e.1@) == k;
                if k == key {
                    assert forall|j: int| pos <= j < old_r.len() implies !p(#[trigger] old_r[j]) by {
                        assert(k_old[j] == (old_r[j].0@, old_r[j].1@));
                        assert(pair_lt(key, k_old[pos as int]));
                        if pos < j {
                            assert(pair_le(k_old[pos as int], k_old[j]));
                            if k_old[pos as int] != k_old[j] {
                                lemma_pair_lt_transitive(key, k_old[pos as int], k_old[j]);
                            }
                        }
                        lemma_pair_lt_irreflexive(key);
                    }
                }
                lemma_filter_insert(old_r, pos as int, item, p);
                lemma_filter_push(orig.take(consumed as int), item, p);
                assert(with_pair_key(old_r, k) == with_pair_key(orig.take(consumed as int), k));
                assert(with_pair_key(old_r, k) == old_r.filter(p));
                assert(with_pair_key(r@, k) == r@.filter(p));
                assert(with_pair_key(orig.take(consumed + 1), k) == orig.take(consumed + 1).filter(p));
                assert(p(item) == (k == key));
            }
            assert forall|k: (Seq<char>, Seq<char>)| #[trigger] with_pair_key(r@, k) == with_pair_key(orig.take(consumed + 1), k) by {
                let p = |e: (String, String, T)| (e.0@, e.1@) == k;
                if k == key {
                    assert forall|j: int| pos <= j < old_r.len() implies !p(#[trigger] old_r[j]) by {
                        assert(k_old[j] == (old_r[j].0@, old_r[j].1@));
                        assert(pair_lt(key, k_old[pos as int]));
                        if pos < j {
                            assert(pair_le(k_old[pos as int], k_old[j]));
                            if k_old[pos as int] != k_old[j] {
                                lemma_pair_lt_transitive(key, k_old[pos as int], k_old[j]);
                            }
                        }
                        lemma_pair_lt_irreflexive(key);
                    }
                }
                lemma_filter_insert(old_r, pos as int, item, p);
                lemma_filter_push(orig.take(consumed as int), item, p);
                assert(with_pair_key(old_r, k) == with_pair_key(orig.take(consumed as int), k));
                assert(with_pair_key(old_r, k) == old_r.filter(p));
                assert(with_pair_key(r@, k) == r@.filter(p));
                assert(with_pair_key(orig.take(consumed + 1), k) == orig.take(consumed + 1).filter(p));
                assert(p(item) == (k == key));
            }
        }
        consumed = consumed + 1;
        proof {
            assert(rest@ =~= orig.subrange(consumed as int, orig.len() as int));
        }
    }
    proof {
        assert(orig.take(orig.len() as int) =~= orig);
    }
    r
}

} // verus!
