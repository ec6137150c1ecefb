//! Lexicographic order of character sequences (the order of `String`), and
//! sorted, duplicate-free collections of names.
use vstd::prelude::*;
use crate::text::seqs;

verus! {

/// `a` sorts strictly before `b` in lexicographic order of character codes.
pub open spec fn lex_lt(a: Seq<char>, b: Seq<char>) -> bool
    decreases a.len(),
{
    if a.len() == 0 {
        b.len() > 0
    } else if b.len() == 0 {
        false
    } else if a[0] != b[0] {
        (a[0] as u32) < (b[0] as u32)
    } else {
        lex_lt(a.drop_first(), b.drop_first())
    }
}

proof fn lemma_char_code_injective(a: char, b: char)
    requires
        a != b,
    ensures
        (a as u32) != (b as u32),
{
}

pub proof fn lemma_lex_irreflexive(a: Seq<char>)
    ensures
        !lex_lt(a, a),
    decreases a.len(),
{
    if a.len() > 0 {
        lemma_lex_irreflexive(a.drop_first());
    }
}

pub proof fn lemma_lex_trichotomy(a: Seq<char>, b: Seq<char>)
    ensures
        a == b || lex_lt(a, b) || lex_lt(b, a),
        !(lex_lt(a, b) && lex_lt(b, a)),
    decreases a.len(),
{
    if a.len() > 0 && b.len() > 0 {
        if a[0] == b[0] {
            lemma_lex_trichotomy(a.drop_first(), b.drop_first());
            if a.drop_first() == b.drop_first() {
                assert(a =~= b) by {
                    assert forall|i: int| 0 <= i < a.len() implies a[i] == b[i] by {
                        if i > 0 {
                            assert(a[i] == a.drop_first()[i - 1]);
                            assert(b[i] == b.drop_first()[i - 1]);
                        }
                    }
                }
            }
        } else {
            lemma_char_code_injective(a[0], b[0]);
        }
    } else if a.len() == 0 && b.len() == 0 {
        assert(a =~= b);
    }
}

pub proof fn lemma_lex_transitive(a: Seq<char>, b: Seq<char>, c: Seq<char>)
    requires
        lex_lt(a, b),
        lex_lt(b, c),
    ensures
        lex_lt(a, c),
    decreases a.len(),
{
    if a.len() > 0 && b.len() > 0 && c.len() > 0 {
        if a[0] == b[0] && b[0] == c[0] {
            lemma_lex_transitive(a.drop_first(), b.drop_first(), c.drop_first());
        }
    }
}

/// Whether `a` sorts strictly before `b`.
pub fn lex_lt_exec(a: &[char], b: &[char]) -> (r: bool)
    ensures
        r == lex_lt(a@, b@),
{
    let mut i: usize = 0;
    assert(a@.skip(0) =~= a@);
    assert(b@.skip(0) =~= b@);
    while i < a.len() && i < b.len() && a[i] == b[i]
        invariant
            i <= a.len(),
            i <= b.len(),
            lex_lt(a@, b@) == lex_lt(a@.skip(i as int), b@.skip(i as int)),
        decreases a.len() - i,
    {
        assert(a@.skip(i as int).drop_first() =~= a@.skip(i + 1));
        assert(b@.skip(i as int).drop_first() =~= b@.skip(i + 1));
        i += 1;
    }
    if i == a.len() {
        i < b.len()
    } else if i == b.len() {
        false
    } else {
        assert(a@.skip(i as int)[0] == a@[i as int]);
        assert(b@.skip(i as int)[0] == b@[i as int]);
        (a[i] as u32) < (b[i] as u32)
    }
}

/// Strictly increasing, hence free of duplicates.
pub open spec fn strictly_sorted(s: Seq<Seq<char>>) -> bool {
    forall|i: int, j: int| 0 <= i < j < s.len() ==> lex_lt(#[trigger] s[i], #[trigger] s[j])
}

/// Inserts `x` into a strictly sorted collection unless it is already there.
pub fn insert_sorted_unique(v: &mut Vec<Vec<char>>, x: Vec<char>)
    requires
        strictly_sorted(seqs(old(v)@)),
    ensures
        strictly_sorted(seqs(final(v)@)),
        forall|y: Seq<char>| #[trigger] seqs(final(v)@).contains(y) <==> (seqs(old(v)@).contains(y)
            || y == x@),
{
    let ghost old_s = seqs(v@);
    let mut p: usize = 0;
    while p < v.len() && lex_lt_exec(v[p].as_slice(), x.as_slice())
        invariant
            p <= v.len(),
            old_s == seqs(v@),
            forall|i: int| 0 <= i < p ==> lex_lt(#[trigger] old_s[i], x@),
        decreases v.len() - p,
    {
        assert(old_s[p as int] == v@[p as int]@);
        p += 1;
    }
    if p < v.len() {
        assert(old_s[p as int] == v@[p as int]@);
        proof {
            lemma_lex_trichotomy(old_s[p as int], x@);
        }
        if crate::collectors::ports::chars_eq(v[p].as_slice(), x.as_slice()) {
            assert forall|y: Seq<char>| #[trigger] seqs(v@).contains(y) <==> (old_s.contains(y)
                || y == x@) by {
                if y == x@ {
                    assert(old_s[p as int] == y);
                }
            }
            return;
        }
    }
    let ghost xv = x@;
    v.insert(p, x);
    let ghost new_s = seqs(v@);
    assert(new_s =~= old_s.insert(p as int, xv));
    assert forall|i: int, j: int| 0 <= i < j < new_s.len() implies lex_lt(
        #[trigger] new_s[i],
        #[trigger] new_s[j],
    ) by {
        if j < p {
            assert(new_s[i] == old_s[i] && new_s[j] == old_s[j]);
        } else if j == p {
            assert(new_s[i] == old_s[i]);
        } else if i == p {
            assert(new_s[j] == old_s[j - 1]);
            if j - 1 > p {
                assert(lex_lt(old_s[p as int], old_s[j - 1]));
                lemma_lex_transitive(xv, old_s[p as int], old_s[j - 1]);
            }
        } else if i < p {
            assert(new_s[i] == old_s[i] && new_s[j] == old_s[j - 1]);
        } else {
            assert(new_s[i] == old_s[i - 1] && new_s[j] == old_s[j - 1]);
        }
    }
    assert forall|y: Seq<char>| #[trigger] new_s.contains(y) <==> (old_s.contains(y) || y == xv) by {
        if old_s.contains(y) {
            let k = choose|k: int| 0 <= k < old_s.len() && old_s[k] == y;
            if k < p {
                assert(new_s[k] == y);
            } else {
                assert(new_s[k + 1] == y);
            }
        }
        if y == xv {
            assert(new_s[p as int] == y);
        }
        if new_s.contains(y) {
            let k = choose|k: int| 0 <= k < new_s.len() && new_s[k] == y;
            if k < p {
                assert(old_s[k] == y);
            } else if k > p {
                assert(old_s[k - 1] == y);
            }
        }
    }
}


/// `x` placed after the last element of `s`, counting from the end, whose
/// key does not sort after the key of `x`: one step of a stable insertion
/// sort.
pub open spec fn insort_by<T>(s: Seq<T>, x: T, key: spec_fn(T) -> Seq<char>) -> Seq<T>
    decreases s.len(),
{
    if s.len() == 0 {
        seq![x]
    } else if lex_lt(key(x), key(s.last())) {
        insort_by(s.drop_last(), x, key).push(s.last())
    } else {
        s.push(x)
    }
}

/// Stable sort by key: elements with equal keys keep their order.
pub open spec fn sort_by_key<T>(s: Seq<T>, key: spec_fn(T) -> Seq<char>) -> Seq<T>
    decreases s.len(),
{
    if s.len() == 0 {
        s
    } else {
        insort_by(sort_by_key(s.drop_last(), key), s.last(), key)
    }
}

/// Ordered by key, equal keys allowed.
pub open spec fn sorted_by_key<T>(s: Seq<T>, key: spec_fn(T) -> Seq<char>) -> bool {
    forall|i: int, j: int| 0 <= i < j < s.len() ==> !lex_lt(key(#[trigger] s[j]), key(#[trigger] s[i]))
}

/// Inserting `x` just before the elements at the end whose keys sort after
/// its own.
pub proof fn lemma_insort_by_at<T>(s: Seq<T>, x: T, key: spec_fn(T) -> Seq<char>, j: int)
    requires
        0 <= j <= s.len(),
        forall|k: int| j <= k < s.len() ==> lex_lt(key(x), key(#[trigger] s[k])),
        j == 0 || !lex_lt(key(x), key(s[j - 1])),
    ensures
        insort_by(s, x, key) == s.take(j) + seq![x] + s.skip(j),
    decreases s.len(),
{
    if s.len() == 0 {
        assert(s.take(j) + seq![x] + s.skip(j) =~= seq![x]);
    } else if lex_lt(key(x), key(s.last())) {
        assert(j < s.len());
        let t = s.drop_last();
        assert forall|k: int| j <= k < t.len() implies lex_lt(key(x), key(#[trigger] t[k])) by {
            assert(t[k] == s[k]);
        }
        if j > 0 {
            assert(t[j - 1] == s[j - 1]);
        }
        lemma_insort_by_at(t, x, key, j);
        assert((t.take(j) + seq![x] + t.skip(j)).push(s.last()) =~= s.take(j) + seq![x] + s.skip(j));
    } else {
        assert(j == s.len());
        assert(s.push(x) =~= s.take(j) + seq![x] + s.skip(j));
    }
}

proof fn lemma_insort_by<T>(s: Seq<T>, x: T, key: spec_fn(T) -> Seq<char>)
    requires
        sorted_by_key(s, key),
    ensures
        sorted_by_key(insort_by(s, x, key), key),
        insort_by(s, x, key).to_multiset() == s.to_multiset().insert(x),
        insort_by(s, x, key).len() == s.len() + 1,
        forall|i: int|
            0 <= i < insort_by(s, x, key).len() ==> #[trigger] insort_by(s, x, key)[i] == x || s.contains(
                insort_by(s, x, key)[i],
            ),
    decreases s.len(),
{
    broadcast use vstd::seq_lib::group_to_multiset_ensures;

    let r = insort_by(s, x, key);
    if s.len() == 0 {
        assert(seq![x] =~= Seq::<T>::empty().push(x));
        vstd::seq_lib::to_multiset_build(Seq::<T>::empty(), x);
        assert(s =~= Seq::<T>::empty());
    } else {
        let t = s.drop_last();
        let last = s.last();
        assert(s =~= t.push(last));
        vstd::seq_lib::to_multiset_build(t, last);
        assert(sorted_by_key(t, key)) by {
            assert forall|i: int, j: int| 0 <= i < j < t.len() implies !lex_lt(key(#[trigger] t[j]), key(#[trigger] t[i])) by {
                assert(t[i] == s[i] && t[j] == s[j]);
            }
        }
        if lex_lt(key(x), key(last)) {
            lemma_insort_by(t, x, key);
            let u = insort_by(t, x, key);
            vstd::seq_lib::to_multiset_build(u, last);
            assert(r == u.push(last));
            assert forall|i: int| 0 <= i < u.len() implies !lex_lt(key(last), key(#[trigger] u[i])) by {
                if u[i] == x {
                    lemma_lex_trichotomy(key(x), key(last));
                } else {
                    let q = choose|q: int| 0 <= q < t.len() && t[q] == u[i];
                    assert(s[q] == t[q]);
                    assert(s[s.len() - 1] == last);
                }
            }
            assert forall|i: int, j: int| 0 <= i < j < r.len() implies !lex_lt(key(#[trigger] r[j]), key(#[trigger] r[i])) by {
                if j < u.len() {
                    assert(r[i] == u[i] && r[j] == u[j]);
                } else {
                    assert(r[j] == last);
                    assert(r[i] == u[i]);
                }
            }
            assert forall|i: int| 0 <= i < r.len() implies #[trigger] r[i] == x || s.contains(r[i]) by {
                if i < u.len() {
                    assert(r[i] == u[i]);
                    if u[i] != x {
                        let q = choose|q: int| 0 <= q < t.len() && t[q] == u[i];
                        assert(s[q] == t[q]);
                    }
                } else {
                    assert(s[s.len() - 1] == r[i]);
                }
            }
        } else {
            vstd::seq_lib::to_multiset_build(s, x);
            assert forall|i: int, j: int| 0 <= i < j < r.len() implies !lex_lt(key(#[trigger] r[j]), key(#[trigger] r[i])) by {
                if j < s.len() {
                    assert(r[i] == s[i] && r[j] == s[j]);
                } else {
                    assert(r[j] == x && r[i] == s[i]);
                    if i < s.len() - 1 {
                        assert(!lex_lt(key(s[s.len() - 1]), key(s[i])));
                    }
                    lemma_lex_trichotomy(key(s[i]), key(last));
                    if lex_lt(key(x), key(s[i])) {
                        if lex_lt(key(s[i]), key(last)) {
                            lemma_lex_transitive(key(x), key(s[i]), key(last));
                        }
                    }
                }
            }
            assert forall|i: int| 0 <= i < r.len() implies #[trigger] r[i] == x || s.contains(r[i]) by {
                if i < s.len() {
                    assert(r[i] == s[i]);
                }
            }
        }
    }
}

/// A stable sort by key orders its output by key and keeps every element
/// exactly as often as it was given.
pub proof fn lemma_sort_by_key<T>(s: Seq<T>, key: spec_fn(T) -> Seq<char>)
    ensures
        sorted_by_key(sort_by_key(s, key), key),
        sort_by_key(s, key).to_multiset() == s.to_multiset(),
        sort_by_key(s, key).len() == s.len(),
    decreases s.len(),
{
    if s.len() > 0 {
        let t = s.drop_last();
        lemma_sort_by_key(t, key);
        lemma_insort_by(sort_by_key(t, key), s.last(), key);
        assert(s =~= t.push(s.last()));
        vstd::seq_lib::to_multiset_build(t, s.last());
    }
}


/// A sort key: its text is compared first, letter by letter, then its
/// number. A table ordered by a number leaves the text empty; one ordered by
/// a name leaves the number at zero.
pub struct SortKey {
    pub text: Vec<char>,
    pub number: u64,
}

pub open spec fn key_of(k: SortKey) -> (Seq<char>, u64) {
    (k.text@, k.number)
}

pub open spec fn keys_of(v: Seq<SortKey>) -> Seq<(Seq<char>, u64)> {
    v.map_values(|k: SortKey| key_of(k))
}

/// Key `a` sorts strictly before key `b`.
pub open spec fn key_lt(a: (Seq<char>, u64), b: (Seq<char>, u64)) -> bool {
    lex_lt(a.0, b.0) || (a.0 == b.0 && a.1 < b.1)
}

/// In a stable ordering of the positions of `keys`, ascending or descending,
/// position `i` comes before position `j`: by key, and among equal keys by
/// position.
pub open spec fn listed_before(keys: Seq<(Seq<char>, u64)>, asc: bool, i: int, j: int) -> bool {
    if keys[i] == keys[j] {
        i < j
    } else if asc {
        key_lt(keys[i], keys[j])
    } else {
        key_lt(keys[j], keys[i])
    }
}

/// `order` lists each position of `keys` that `keep` marks, each exactly
/// once and no other, in the stable order by key.
pub open spec fn is_stable_order(
    keys: Seq<(Seq<char>, u64)>,
    asc: bool,
    keep: Seq<bool>,
    order: Seq<usize>,
) -> bool {
    &&& forall|a: int| 0 <= a < order.len() ==> #[trigger] order[a] < keys.len() && keep[order[a] as int]
    &&& forall|k: int| 0 <= k < keys.len() && #[trigger] keep[k] ==> exists|a: int| 0 <= a < order.len() && order[a] == k
    &&& forall|a: int, b: int|
        0 <= a < b < order.len() ==> listed_before(keys, asc, #[trigger] order[a] as int, #[trigger] order[b] as int)
}

proof fn lemma_key_lt_total(x: (Seq<char>, u64), y: (Seq<char>, u64))
    ensures
        x == y || key_lt(x, y) || key_lt(y, x),
        !(key_lt(x, y) && key_lt(y, x)),
        !key_lt(x, x),
{
    lemma_lex_trichotomy(x.0, y.0);
    lemma_lex_irreflexive(x.0);
}

proof fn lemma_key_lt_transitive(x: (Seq<char>, u64), y: (Seq<char>, u64), z: (Seq<char>, u64))
    requires
        key_lt(x, y),
        key_lt(y, z),
    ensures
        key_lt(x, z),
{
    if lex_lt(x.0, y.0) && lex_lt(y.0, z.0) {
        lemma_lex_transitive(x.0, y.0, z.0);
    }
}

/// `listed_before` is a strict total order on the positions.
proof fn lemma_listed_before(keys: Seq<(Seq<char>, u64)>, asc: bool, i: int, j: int)
    requires
        0 <= i < keys.len(),
        0 <= j < keys.len(),
    ensures
        i != j ==> listed_before(keys, asc, i, j) || listed_before(keys, asc, j, i),
        !(listed_before(keys, asc, i, j) && listed_before(keys, asc, j, i)),
        !listed_before(keys, asc, i, i),
{
    lemma_key_lt_total(keys[i], keys[j]);
    lemma_key_lt_total(keys[i], keys[i]);
}

proof fn lemma_listed_before_transitive(keys: Seq<(Seq<char>, u64)>, asc: bool, i: int, j: int, k: int)
    requires
        0 <= i < keys.len(),
        0 <= j < keys.len(),
        0 <= k < keys.len(),
        listed_before(keys, asc, i, j),
        listed_before(keys, asc, j, k),
    ensures
        listed_before(keys, asc, i, k),
{
    lemma_key_lt_total(keys[i], keys[j]);
    lemma_key_lt_total(keys[j], keys[k]);
    lemma_key_lt_total(keys[i], keys[k]);
    if keys[i] != keys[j] && keys[j] != keys[k] {
        if asc {
            lemma_key_lt_transitive(keys[i], keys[j], keys[k]);
        } else {
            lemma_key_lt_transitive(keys[k], keys[j], keys[i]);
        }
    }
}

/// Whether key `a` sorts strictly before key `b`.
fn key_lt_exec(a: &SortKey, b: &SortKey) -> (r: bool)
    ensures
        r == key_lt(key_of(*a), key_of(*b)),
{
    if lex_lt_exec(a.text.as_slice(), b.text.as_slice()) {
        true
    } else if lex_lt_exec(b.text.as_slice(), a.text.as_slice()) {
        false
    } else {
        proof {
            lemma_lex_trichotomy(a.text@, b.text@);
        }
        a.number < b.number
    }
}

/// The positions of `keys` that `keep` marks, in the stable order by key:
/// ascending when `asc`, else descending, equal keys in the order given.
pub fn stable_order(keys: &Vec<SortKey>, keep: &Vec<bool>, asc: bool) -> (order: Vec<usize>)
    requires
        keys.len() == keep.len(),
    ensures
        is_stable_order(keys_of(keys@), asc, keep@, order@),
{
    let ghost ks = keys_of(keys@);
    let mut order: Vec<usize> = Vec::new();
    let mut i: usize = 0;
    while i < keys.len()
        invariant
            i <= keys.len(),
            keys.len() == keep.len(),
            ks == keys_of(keys@),
            forall|a: int| 0 <= a < order.len() ==> #[trigger] order@[a] < i && keep@[order@[a] as int],
            forall|k: int| 0 <= k < i && #[trigger] keep@[k] ==> exists|a: int| 0 <= a < order.len() && order@[a] == k,
            forall|a: int, b: int|
                0 <= a < b < order.len() ==> listed_before(ks, asc, #[trigger] order@[a] as int, #[trigger] order@[b] as int),
        decreases keys.len() - i,
    {
        if keep[i] {
            let mut p: usize = 0;
            while p < order.len()
                invariant
                    p <= order.len(),
                    i < keys.len(),
                    ks == keys_of(keys@),
                    forall|a: int| 0 <= a < order.len() ==> #[trigger] order@[a] < i,
                    forall|q: int| 0 <= q < p ==> listed_before(ks, asc, #[trigger] order@[q] as int, i as int),
                ensures
                    p <= order.len(),
                    forall|q: int| 0 <= q < p ==> listed_before(ks, asc, #[trigger] order@[q] as int, i as int),
                    p < order.len() ==> listed_before(ks, asc, i as int, order@[p as int] as int),
                decreases order.len() - p,
            {
                let j = order[p];
                assert(ks[i as int] == key_of(keys@[i as int]) && ks[j as int] == key_of(keys@[j as int]));
                let first = if asc {
                    key_lt_exec(&keys[i], &keys[j])
                } else {
                    key_lt_exec(&keys[j], &keys[i])
                };
                proof {
                    lemma_listed_before(ks, asc, i as int, j as int);
                    lemma_key_lt_total(ks[i as int], ks[j as int]);
                }
                if first {
                    break;
                }
                p += 1;
            }
            let ghost old_order = order@;
            order.insert(p, i);
            assert(order@ =~= old_order.insert(p as int, i));
            assert forall|a: int, b: int| 0 <= a < b < order.len() implies listed_before(
                ks,
                asc,
                #[trigger] order@[a] as int,
                #[trigger] order@[b] as int,
            ) by {
                if b < p {
                    assert(order@[a] == old_order[a] && order@[b] == old_order[b]);
                } else if b == p {
                    assert(order@[a] == old_order[a]);
                } else if a == p {
                    assert(order@[b] == old_order[b - 1]);
                    if b - 1 > p {
                        assert(listed_before(ks, asc, old_order[p as int] as int, old_order[b - 1] as int));
                        lemma_listed_before_transitive(ks, asc, i as int, old_order[p as int] as int, old_order[b - 1] as int);
                    }
                } else if a < p {
                    assert(order@[a] == old_order[a] && order@[b] == old_order[b - 1]);
                } else {
                    assert(order@[a] == old_order[a - 1] && order@[b] == old_order[b - 1]);
                }
            }
            assert forall|a: int| 0 <= a < order.len() implies #[trigger] order@[a] < i + 1 && keep@[order@[a] as int] by {
                if a < p {
                    assert(order@[a] == old_order[a]);
                } else if a > p {
                    assert(order@[a] == old_order[a - 1]);
                }
            }
            assert forall|k: int| 0 <= k < i + 1 && #[trigger] keep@[k] implies exists|a: int|
                0 <= a < order.len() && order@[a] == k by {
                if k == i {
                    assert(order@[p as int] == k);
                } else {
                    let a0 = choose|a: int| 0 <= a < old_order.len() && old_order[a] == k;
                    if a0 < p {
                        assert(order@[a0] == k);
                    } else {
                        assert(order@[a0 + 1] == k);
                    }
                }
            }
        }
        i += 1;
    }
    order
}

proof fn lemma_stable_orders_agree(
    keys: Seq<(Seq<char>, u64)>,
    asc: bool,
    keep: Seq<bool>,
    o1: Seq<usize>,
    o2: Seq<usize>,
    n: int,
)
    requires
        is_stable_order(keys, asc, keep, o1),
        is_stable_order(keys, asc, keep, o2),
        keep.len() == keys.len(),
        0 <= n <= o1.len(),
        n <= o2.len(),
    ensures
        forall|c: int| 0 <= c < n ==> o1[c] == o2[c],
    decreases n,
{
    if n > 0 {
        let a = n - 1;
        lemma_stable_orders_agree(keys, asc, keep, o1, o2, a);
        let x = o1[a];
        let y = o2[a];
        if x != y {
            assert(keep[x as int]);
            let b = choose|b: int| 0 <= b < o2.len() && o2[b] == x as int;
            let b1 = choose|b: int| 0 <= b < o1.len() && o1[b] == y as int;
            if b < a {
                assert(o1[b] == o2[b]);
                lemma_listed_before(keys, asc, x as int, x as int);
                assert(listed_before(keys, asc, o1[b] as int, o1[a] as int));
            } else if b1 < a {
                assert(o1[b1] == o2[b1]);
                lemma_listed_before(keys, asc, y as int, y as int);
                assert(listed_before(keys, asc, o2[b1] as int, o2[a] as int));
            } else {
                assert(listed_before(keys, asc, o2[a] as int, o2[b] as int));
                assert(listed_before(keys, asc, o1[a] as int, o1[b1] as int));
                lemma_listed_before(keys, asc, x as int, y as int);
            }
        }
    }
}

/// There is only one stable order of the kept positions: whatever computes
/// one gives the same rows in the same order.
pub proof fn law_stable_order_unique(
    keys: Seq<(Seq<char>, u64)>,
    asc: bool,
    keep: Seq<bool>,
    o1: Seq<usize>,
    o2: Seq<usize>,
)
    requires
        keep.len() == keys.len(),
        is_stable_order(keys, asc, keep, o1),
        is_stable_order(keys, asc, keep, o2),
    ensures
        o1 == o2,
{
    let n = if o1.len() <= o2.len() { o1.len() as int } else { o2.len() as int };
    lemma_stable_orders_agree(keys, asc, keep, o1, o2, n);
    if o1.len() > o2.len() {
        let x = o1[n];
        let b = choose|b: int| 0 <= b < o2.len() && o2[b] == x as int;
        assert(o1[b] == o2[b]);
        lemma_listed_before(keys, asc, x as int, x as int);
        assert(listed_before(keys, asc, o1[b] as int, o1[n] as int));
    } else if o2.len() > o1.len() {
        let x = o2[n];
        let b = choose|b: int| 0 <= b < o1.len() && o1[b] == x as int;
        assert(o1[b] == o2[b]);
        lemma_listed_before(keys, asc, x as int, x as int);
        assert(listed_before(keys, asc, o2[b] as int, o2[n] as int));
    }
    assert(o1 =~= o2);
}


/// A stable order lists each position at most once, and lists exactly the
/// kept ones.
pub proof fn lemma_stable_order_members(keys: Seq<(Seq<char>, u64)>, asc: bool, keep: Seq<bool>, order: Seq<usize>)
    requires
        keep.len() == keys.len(),
        is_stable_order(keys, asc, keep, order),
    ensures
        order.no_duplicates(),
        forall|x: usize| #[trigger] order.contains(x) <==> (x < keys.len() && keep[x as int]),
{
    assert forall|a: int, b: int| 0 <= a < order.len() && 0 <= b < order.len() && a != b implies order[a]
        != order[b] by {
        if a < b {
            assert(listed_before(keys, asc, order[a] as int, order[b] as int));
        } else {
            assert(listed_before(keys, asc, order[b] as int, order[a] as int));
        }
        lemma_listed_before(keys, asc, order[a] as int, order[a] as int);
    }
    assert forall|x: usize| #[trigger] order.contains(x) <==> (x < keys.len() && keep[x as int]) by {
        if order.contains(x) {
            let a = choose|a: int| 0 <= a < order.len() && order[a] == x;
            assert(order[a] < keys.len() && keep[order[a] as int]);
        }
        if x < keys.len() && keep[x as int] {
            assert(keep[x as int]);
            let a = choose|a: int| 0 <= a < order.len() && order[a] == x as int;
            assert(order[a] == x);
        }
    }
}

} // verus!
