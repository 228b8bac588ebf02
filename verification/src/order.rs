//! Canonical orderings: stable insertion order, and sorted sets without
//! repetition, over strings compared byte by byte.
use vstd::prelude::*;
use crate::text::{str_lt, str_less, str_equal};

verus! {

/// Inserts `x` before the first element that `x` sorts before.
pub open spec fn insert_by<A>(s: Seq<A>, x: A, lt: spec_fn(A, A) -> bool) -> Seq<A>
    decreases s.len(),
{
    if s.len() == 0 {
        seq![x]
    } else if lt(x, s[0]) {
        seq![x] + s
    } else {
        seq![s[0]] + insert_by(s.drop_first(), x, lt)
    }
}

/// The stable sort of `s` under `lt`: each element inserted in turn.
pub open spec fn sort_by<A>(s: Seq<A>, lt: spec_fn(A, A) -> bool) -> Seq<A>
    decreases s.len(),
{
    if s.len() == 0 {
        seq![]
    } else {
        insert_by(sort_by(s.drop_last(), lt), s.last(), lt)
    }
}

/// The sorted elements of `s` under `lt`, each once.
pub open spec fn sort_dedup_by<A>(s: Seq<A>, lt: spec_fn(A, A) -> bool) -> Seq<A>
    decreases s.len(),
{
    if s.len() == 0 {
        seq![]
    } else {
        let r = sort_dedup_by(s.drop_last(), lt);
        if r.contains(s.last()) {
            r
        } else {
            insert_by(r, s.last(), lt)
        }
    }
}

/// Each neighbour pair strictly increasing: the check `windows(2)` makes.
pub open spec fn adjacent_sorted<A>(s: Seq<A>, lt: spec_fn(A, A) -> bool) -> bool {
    forall|i: int| 0 <= i < s.len() - 1 ==> lt(#[trigger] s[i], s[i + 1])
}

/// String order as a closure.
pub open spec fn text_lt() -> spec_fn(Seq<char>, Seq<char>) -> bool {
    |a: Seq<char>, b: Seq<char>| str_lt(a, b)
}

/// The views of a vector of strings.
pub open spec fn texts(v: Seq<String>) -> Seq<Seq<char>> {
    v.map_values(|s: String| s@)
}

/// Where `insert_by` puts `x`: before the first element that `x` sorts before.
pub proof fn lemma_insert_by_at<A>(s: Seq<A>, x: A, lt: spec_fn(A, A) -> bool, j: int)
    requires
        0 <= j <= s.len(),
        forall|k: int| 0 <= k < j ==> !lt(x, #[trigger] s[k]),
        j < s.len() ==> lt(x, s[j]),
    ensures
        insert_by(s, x, lt) == s.take(j).push(x) + s.skip(j),
    decreases s.len(),
{
    if s.len() == 0 {
        assert(s.take(j).push(x) + s.skip(j) =~= seq![x]);
    } else if j == 0 {
        assert(s.take(0).push(x) + s.skip(0) =~= seq![x] + s);
    } else {
        assert forall|k: int| 0 <= k < j - 1 implies !lt(x, #[trigger] s.drop_first()[k]) by {
            assert(s.drop_first()[k] == s[k + 1]);
        }
        lemma_insert_by_at(s.drop_first(), x, lt, j - 1);
        assert(seq![s[0]] + (s.drop_first().take(j - 1).push(x) + s.drop_first().skip(j - 1))
            =~= s.take(j).push(x) + s.skip(j));
    }
}

/// Inserting `x` between a smaller and a larger neighbour keeps each
/// neighbour pair strictly increasing.
pub proof fn lemma_insert_keeps_adjacent<A>(s: Seq<A>, x: A, lt: spec_fn(A, A) -> bool, j: int)
    requires
        adjacent_sorted(s, lt),
        0 <= j <= s.len(),
        j > 0 ==> lt(s[j - 1], x),
        j < s.len() ==> lt(x, s[j]),
    ensures
        adjacent_sorted(s.take(j).push(x) + s.skip(j), lt),
{
    let t = s.take(j).push(x) + s.skip(j);
    assert(t.len() == s.len() + 1);
    assert forall|p: int| 0 <= p < t.len() - 1 implies lt(#[trigger] t[p], t[p + 1]) by {
        if p < j - 1 {
            assert(t[p] == s[p] && t[p + 1] == s[p + 1]);
        } else if p == j - 1 {
            assert(t[p] == s[j - 1] && t[p + 1] == x);
        } else if p == j {
            assert(t[p] == x && t[p + 1] == s[j]);
        } else {
            assert(t[p] == s[p - 1] && t[p + 1] == s[p]);
        }
    }
}

/// Where `x` goes among sorted strings: before the first one it sorts before.
fn position_after(sorted: &Vec<String>, x: &String) -> (j: usize)
    ensures
        0 <= j <= sorted@.len(),
        forall|k: int| 0 <= k < j ==> !str_lt(x@, #[trigger] texts(sorted@)[k]),
        j < sorted@.len() ==> str_lt(x@, texts(sorted@)[j as int]),
{
    let mut j: usize = 0;
    while j < sorted.len()
        invariant
            0 <= j <= sorted@.len(),
            forall|k: int| 0 <= k < j ==> !str_lt(x@, #[trigger] texts(sorted@)[k]),
        decreases sorted@.len() - j,
    {
        if str_less(x.as_str(), sorted[j].as_str()) {
            return j;
        }
        j = j + 1;
    }
    j
}

/// Whether `v` holds a string equal to `x`.
pub fn contains_str(v: &Vec<String>, x: &str) -> (res: bool)
    ensures
        res == texts(v@).contains(x@),
{
    let mut i: usize = 0;
    while i < v.len()
        invariant
            0 <= i <= v@.len(),
            forall|k: int| 0 <= k < i ==> texts(v@)[k] != x@,
        decreases v@.len() - i,
    {
        if str_equal(v[i].as_str(), x) {
            assert(texts(v@)[i as int] == x@);
            return true;
        }
        i = i + 1;
    }
    assert(!texts(v@).contains(x@));
    false
}

/// Stable sort of strings by their bytes: what `Vec::<String>::sort` gives.
pub fn sort_strings(v: &Vec<String>) -> (res: Vec<String>)
    ensures
        texts(res@) == sort_by(texts(v@), text_lt()),
{
    let mut res: Vec<String> = Vec::new();
    let mut i: usize = 0;
    while i < v.len()
        invariant
            0 <= i <= v@.len(),
            texts(res@) == sort_by(texts(v@).take(i as int), text_lt()),
        decreases v@.len() - i,
    {
        let x = v[i].clone();
        let j = position_after(&res, &x);
        let ghost before = texts(res@);
        res.insert(j, x);
        proof {
            lemma_insert_by_at(before, x@, text_lt(), j as int);
            assert(texts(res@) =~= before.take(j as int).push(x@) + before.skip(j as int));
            assert(texts(v@).take(i + 1).drop_last() =~= texts(v@).take(i as int));
            assert(texts(v@).take(i + 1).last() == x@);
        }
        i = i + 1;
    }
    assert(texts(v@).take(v@.len() as int) =~= texts(v@));
    res
}

/// Sorted strings without repetition: what `sort` then `dedup` gives.
pub fn sort_dedup_strings(v: &Vec<String>) -> (res: Vec<String>)
    ensures
        texts(res@) == sort_dedup_by(texts(v@), text_lt()),
{
    let mut res: Vec<String> = Vec::new();
    let mut i: usize = 0;
    while i < v.len()
        invariant
            0 <= i <= v@.len(),
            texts(res@) == sort_dedup_by(texts(v@).take(i as int), text_lt()),
        decreases v@.len() - i,
    {
        let x = v[i].clone();
        proof {
            assert(texts(v@).take(i + 1).drop_last() =~= texts(v@).take(i as int));
            assert(texts(v@).take(i + 1).last() == x@);
        }
        if !contains_str(&res, x.as_str()) {
            let j = position_after(&res, &x);
            let ghost before = texts(res@);
            res.insert(j, x);
            proof {
                lemma_insert_by_at(before, x@, text_lt(), j as int);
                assert(texts(res@) =~= before.take(j as int).push(x@) + before.skip(j as int));
            }
        }
        i = i + 1;
    }
    assert(texts(v@).take(v@.len() as int) =~= texts(v@));
    res
}

/// Whether neighbouring strings strictly increase: the negation of the
/// `windows(2).any(|pair| pair[0] >= pair[1])` check.
pub fn strings_strictly_increasing(v: &Vec<String>) -> (res: bool)
    ensures
        res == adjacent_sorted(texts(v@), text_lt()),
{
    if v.len() < 2 {
        return true;
    }
    let mut i: usize = 0;
    while i < v.len() - 1
        invariant
            v@.len() >= 2,
            0 <= i <= v@.len() - 1,
            forall|k: int| 0 <= k < i ==> str_lt(#[trigger] texts(v@)[k], texts(v@)[k + 1]),
        decreases v@.len() - i,
    {
        if !str_less(v[i].as_str(), v[i + 1].as_str()) {
            assert(!(text_lt())(texts(v@)[i as int], texts(v@)[i + 1]));
            return false;
        }
        i = i + 1;
    }
    true
}

} // verus!
