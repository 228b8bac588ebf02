//! Records kept in key order, each key once: the ordered maps of the control
//! plane.
use vstd::prelude::*;
use crate::text::{utf8, str_lt, str_less, str_equal, lemma_lt_total, lemma_lt_transitive,
    lemma_lt_irreflexive};
use crate::order::{insert_by, adjacent_sorted, text_lt, lemma_insert_by_at,
    lemma_insert_keeps_adjacent};

verus! {

/// A record with a text key.
pub trait Keyed {
    /// The key.
    spec fn key_of(&self) -> Seq<char>;

    /// The key.
    fn key(&self) -> (res: &str)
        ensures
            res@ == self.key_of();
}

/// The keys of records, in order.
pub open spec fn keys_of<T: Keyed>(s: Seq<T>) -> Seq<Seq<char>> {
    s.map_values(|x: T| x.key_of())
}

/// Records ordered by key.
pub open spec fn by_key<T: Keyed>() -> spec_fn(T, T) -> bool {
    |a: T, b: T| str_lt(a.key_of(), b.key_of())
}

/// Keys strictly increase from each record to the next.
pub open spec fn table_ok<T: Keyed>(s: Seq<T>) -> bool {
    adjacent_sorted(keys_of(s), text_lt())
}

/// Whether some record has key `k`.
pub open spec fn has_key<T: Keyed>(s: Seq<T>, k: Seq<char>) -> bool {
    keys_of(s).contains(k)
}

/// Where a record with key `k` is, when some record has it.
pub open spec fn key_index<T: Keyed>(s: Seq<T>, k: Seq<char>) -> int {
    choose|i: int| 0 <= i < s.len() && #[trigger] s[i].key_of() == k
}

/// The record with key `k`, if any.
pub open spec fn lookup<T: Keyed>(s: Seq<T>, k: Seq<char>) -> Option<T> {
    if has_key(s, k) {
        Some(s[key_index(s, k)])
    } else {
        None
    }
}

/// Distinct texts compare one way or the other.
pub proof fn lemma_str_total(a: Seq<char>, b: Seq<char>)
    ensures
        a != b ==> str_lt(a, b) || str_lt(b, a),
{
    vstd::utf8::encode_utf8_decode_utf8(a);
    vstd::utf8::encode_utf8_decode_utf8(b);
    lemma_lt_total(utf8(a), utf8(b));
}

/// In a table, keys that are apart are ordered, so all keys differ.
pub proof fn lemma_keys_increase<T: Keyed>(s: Seq<T>, i: int, j: int)
    requires
        table_ok(s),
        0 <= i < j < s.len(),
    ensures
        str_lt(s[i].key_of(), s[j].key_of()),
        s[i].key_of() != s[j].key_of(),
    decreases j - i,
{
    assert(keys_of(s)[i] == s[i].key_of());
    assert(keys_of(s)[j] == s[j].key_of());
    if j == i + 1 {
        assert((text_lt())(keys_of(s)[i], keys_of(s)[i + 1]));
    } else {
        lemma_keys_increase(s, i, j - 1);
        assert(keys_of(s)[j - 1] == s[j - 1].key_of());
        assert((text_lt())(keys_of(s)[j - 1], keys_of(s)[j]));
        lemma_lt_transitive(utf8(s[i].key_of()), utf8(s[j - 1].key_of()), utf8(s[j].key_of()));
    }
    lemma_lt_irreflexive(utf8(s[i].key_of()));
}

/// In a table, the record found at a key is the one `lookup` gives.
pub proof fn lemma_lookup_at<T: Keyed>(s: Seq<T>, i: int)
    requires
        table_ok(s),
        0 <= i < s.len(),
    ensures
        lookup(s, s[i].key_of()) == Some(s[i]),
{
    let k = s[i].key_of();
    assert(keys_of(s)[i] == k);
    assert(has_key(s, k));
    assert(s[i].key_of() == k);
    let c = key_index(s, k);
    assert(0 <= c < s.len() && s[c].key_of() == k);
    if c < i {
        lemma_keys_increase(s, c, i);
    } else if c > i {
        lemma_keys_increase(s, i, c);
    }
    assert(c == i);
}

/// The index of the record with key `key`, if any.
pub fn find<T: Keyed>(v: &Vec<T>, key: &str) -> (res: Option<usize>)
    ensures
        res matches Some(i) ==> i < v@.len() && v@[i as int].key_of() == key@,
        res is None <==> !has_key(v@, key@),
{
    let mut i: usize = 0;
    while i < v.len()
        invariant
            0 <= i <= v@.len(),
            forall|k: int| 0 <= k < i ==> keys_of(v@)[k] != key@,
        decreases v@.len() - i,
    {
        if str_equal(v[i].key(), key) {
            assert(keys_of(v@)[i as int] == key@);
            return Some(i);
        }
        i = i + 1;
    }
    None
}

/// Where a record with key `key` goes: before the first larger key.
fn position<T: Keyed>(v: &Vec<T>, key: &str) -> (j: usize)
    ensures
        0 <= j <= v@.len(),
        forall|q: int| 0 <= q < j ==> !str_lt(key@, #[trigger] keys_of(v@)[q]),
        j < v@.len() ==> str_lt(key@, keys_of(v@)[j as int]),
{
    let mut j: usize = 0;
    while j < v.len()
        invariant
            0 <= j <= v@.len(),
            forall|q: int| 0 <= q < j ==> !str_lt(key@, #[trigger] keys_of(v@)[q]),
        decreases v@.len() - j,
    {
        if str_less(key, v[j].key()) {
            return j;
        }
        j = j + 1;
    }
    j
}

/// Inserts a record whose key is new, in key order.
pub fn insert<T: Keyed>(v: &mut Vec<T>, x: T) -> (j: usize)
    requires
        table_ok(old(v)@),
        !has_key(old(v)@, x.key_of()),
    ensures
        table_ok(final(v)@),
        final(v)@ == insert_by(old(v)@, x, by_key()),
        j <= old(v)@.len(),
        final(v)@ == old(v)@.take(j as int).push(x) + old(v)@.skip(j as int),
        has_key(final(v)@, x.key_of()),
        lookup(final(v)@, x.key_of()) == Some(x),
        forall|k: Seq<char>| k != x.key_of() ==> #[trigger] lookup(final(v)@, k) == lookup(old(v)@, k),
{
    let j = position(v, x.key());
    let ghost before = v@;
    let ghost kb = keys_of(before);
    let ghost xk = x.key_of();
    proof {
        if j > 0 {
            assert(!str_lt(xk, kb[j - 1]));
            assert(kb[j - 1] != xk);
            lemma_str_total(kb[j - 1], xk);
        }
        lemma_insert_keeps_adjacent(kb, xk, text_lt(), j as int);
        assert forall|q: int| 0 <= q < j implies !(by_key::<T>())(x, #[trigger] before[q]) by {
            assert(kb[q] == before[q].key_of());
        }
        if j < before.len() {
            assert(kb[j as int] == before[j as int].key_of());
        }
        lemma_insert_by_at(before, x, by_key(), j as int);
    }
    v.insert(j, x);
    proof {
        assert(v@ =~= before.take(j as int).push(x) + before.skip(j as int));
        assert(keys_of(v@) =~= kb.take(j as int).push(xk) + kb.skip(j as int));
        assert(v@[j as int] == x);
        assert(keys_of(v@)[j as int] == xk);
        lemma_lookup_at(v@, j as int);
        assert forall|k: Seq<char>| k != xk implies #[trigger] lookup(v@, k) == lookup(before, k) by {
            if has_key(before, k) {
                let p = choose|p: int| 0 <= p < kb.len() && kb[p] == k;
                lemma_lookup_at(before, p);
                if p < j {
                    assert(v@[p] == before[p]);
                    lemma_lookup_at(v@, p);
                } else {
                    assert(v@[p + 1] == before[p]);
                    lemma_lookup_at(v@, p + 1);
                }
            } else {
                if has_key(v@, k) {
                    let p = choose|p: int| 0 <= p < keys_of(v@).len() && keys_of(v@)[p] == k;
                    if p < j {
                        assert(kb[p] == k);
                    } else if p > j {
                        assert(kb[p - 1] == k);
                    }
                }
            }
        }
    }
    j
}

/// Replaces the record at `i` by one with the same key.
pub fn replace<T: Keyed>(v: &mut Vec<T>, i: usize, x: T)
    requires
        table_ok(old(v)@),
        i < old(v)@.len(),
        old(v)@[i as int].key_of() == x.key_of(),
    ensures
        table_ok(final(v)@),
        final(v)@ == old(v)@.update(i as int, x),
        lookup(final(v)@, x.key_of()) == Some(x),
        forall|k: Seq<char>| k != x.key_of() ==> #[trigger] lookup(final(v)@, k) == lookup(old(v)@, k),
{
    let ghost before = v@;
    v.set(i, x);
    proof {
        assert(keys_of(v@) =~= keys_of(before));
        lemma_lookup_at(v@, i as int);
        assert forall|k: Seq<char>| k != x.key_of() implies #[trigger] lookup(v@, k) == lookup(
            before,
            k,
        ) by {
            if has_key(before, k) {
                let p = choose|p: int| 0 <= p < keys_of(before).len() && keys_of(before)[p] == k;
                lemma_lookup_at(before, p);
                assert(p != i);
                assert(v@[p] == before[p]);
                lemma_lookup_at(v@, p);
            }
        }
    }
}

} // verus!
