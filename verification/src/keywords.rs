//! Keyword analysis: how often each keyword occurs, most frequent first.

use vstd::prelude::*;

use crate::text::strs;

verus! {

/// How many times `k` occurs in `s`.
pub open spec fn count_of(s: Seq<Seq<char>>, k: Seq<char>) -> nat
    decreases s.len(),
{
    if s.len() == 0 {
        0
    } else {
        count_of(s.drop_last(), k) + if s.last() == k {
            1nat
        } else {
            0nat
        }
    }
}

/// Where `k` first occurs in `s` (for a `k` that occurs in it).
pub open spec fn first_index(s: Seq<Seq<char>>, k: Seq<char>) -> int
    decreases s.len(),
{
    if s.len() == 0 {
        0
    } else if s.drop_last().contains(k) {
        first_index(s.drop_last(), k)
    } else {
        s.len() - 1
    }
}

/// The keywords of a ranking.
pub open spec fn ranked_keys(r: Seq<(String, usize)>) -> Seq<Seq<char>> {
    r.map_values(|p: (String, usize)| p.0@)
}

/// Whether entry `a` comes before entry `b` in a ranking of `s`: a higher
/// count first, and among equal counts the keyword that occurs first in `s`.
pub open spec fn ranks_before(s: Seq<Seq<char>>, a: (String, usize), b: (String, usize)) -> bool {
    a.1 > b.1 || (a.1 == b.1 && first_index(s, a.0@) < first_index(s, b.0@))
}

/// Where `x` stands among `keys`, if it does.
fn find_key(keys: &Vec<String>, x: &String) -> (r: Option<usize>)
    ensures
        r matches Some(j) ==> j < keys.len() && keys@[j as int]@ == x@,
        r is None ==> forall|m: int| 0 <= m < keys.len() ==> #[trigger] keys@[m]@ != x@,
{
    let mut j: usize = 0;
    while j < keys.len()
        invariant
            j <= keys.len(),
            forall|m: int| 0 <= m < j ==> #[trigger] keys@[m]@ != x@,
        decreases keys.len() - j,
    {
        if keys[j] == *x {
            return Some(j);
        }
        j = j + 1;
    }
    None
}

/// The distinct keywords of `keywords`, in order of first occurrence, with
/// how often each occurs.
fn count_keywords(keywords: &Vec<String>) -> (r: (Vec<String>, Vec<usize>))
    ensures
        r.0.len() == r.1.len(),
        strs(r.0@).no_duplicates(),
        strs(r.0@).to_set() == strs(keywords@).to_set(),
        forall|j: int| 0 <= j < r.0.len() ==> #[trigger] r.1@[j] == count_of(strs(keywords@), r.0@[j]@),
        forall|a: int, b: int|
            0 <= a < b < r.0.len() ==> first_index(strs(keywords@), #[trigger] r.0@[a]@)
                < first_index(strs(keywords@), #[trigger] r.0@[b]@),
{
    let ghost s = strs(keywords@);
    let mut keys: Vec<String> = Vec::new();
    let mut counts: Vec<usize> = Vec::new();
    let mut i: usize = 0;
    while i < keywords.len()
        invariant
            s == strs(keywords@),
            i <= keywords.len(),
            keys.len() == counts.len(),
            strs(keys@).no_duplicates(),
            strs(keys@).to_set() == s.take(i as int).to_set(),
            forall|j: int| 0 <= j < keys.len() ==> #[trigger] counts@[j] == count_of(s.take(i as int), keys@[j]@),
            forall|j: int| 0 <= j < keys.len() ==> #[trigger] counts@[j] <= i,
            forall|a: int, b: int|
                0 <= a < b < keys.len() ==> first_index(s.take(i as int), #[trigger] keys@[a]@)
                    < first_index(s.take(i as int), #[trigger] keys@[b]@),
            forall|a: int| 0 <= a < keys.len() ==> #[trigger] first_index(s.take(i as int), keys@[a]@) < i,
        decreases keywords.len() - i,
    {
        let ghost pre = s.take(i as int);
        let ghost next = s.take(i + 1);
        let ghost x = keywords@[i as int]@;
        assert(next.drop_last() =~= pre);
        assert(next.last() == x);
        assert(next =~= pre.push(x));
        proof {
            pre.lemma_push_to_set_commute(x);
        }
        let ghost old_keys = keys@;
        let ghost old_counts = counts@;
        match find_key(&keys, &keywords[i]) {
            Some(j) => {
                assert(strs(keys@).to_set().contains(x)) by {
                    assert(strs(keys@)[j as int] == x);
                }
                assert(pre.to_set().contains(x));
                assert(pre.to_set().insert(x) =~= pre.to_set());
                let c = counts[j] + 1;
                counts.set(j, c);
                assert forall|m: int| 0 <= m < keys.len() implies #[trigger] counts@[m] == count_of(next, keys@[m]@) by {
                    if m == j {
                    } else {
                        assert(counts@[m] == old_counts[m]);
                    }
                }
                assert forall|a: int| 0 <= a < keys.len() implies #[trigger] first_index(next, keys@[a]@) == first_index(pre, keys@[a]@) by {
                    assert(strs(keys@)[a] == keys@[a]@);
                    assert(pre.to_set().contains(keys@[a]@));
                }
            },
            None => {
                assert(!pre.contains(x)) by {
                    if pre.contains(x) {
                        assert(pre.to_set().contains(x));
                        assert(strs(keys@).to_set().contains(x));
                        let m = choose|m: int| 0 <= m < strs(keys@).len() && strs(keys@)[m] == x;
                        assert(keys@[m]@ == x);
                    }
                }
                assert forall|a: int| 0 <= a < keys.len() implies #[trigger] first_index(next, keys@[a]@) == first_index(pre, keys@[a]@) by {
                    assert(strs(keys@)[a] == keys@[a]@);
                    assert(pre.to_set().contains(keys@[a]@));
                }
                assert forall|m: int| 0 <= m < keys.len() implies count_of(next, #[trigger] keys@[m]@) == count_of(pre, keys@[m]@) by {
                    assert(keys@[m]@ != x);
                }
                keys.push(keywords[i].clone());
                counts.push(1);
                assert(first_index(next, x) == i);
                assert(count_of(next, x) == count_of(pre, x) + 1);
                assert(count_of(pre, x) == 0) by {
                    lemma_count_absent(pre, x);
                }
                assert(strs(keys@) =~= strs(old_keys).push(x));
                proof {
                    strs(old_keys).lemma_push_to_set_commute(x);
                }
                assert forall|m: int| 0 <= m < keys.len() implies #[trigger] counts@[m] == count_of(next, keys@[m]@) by {
                    if m < old_keys.len() {
                        assert(counts@[m] == old_counts[m]);
                        assert(keys@[m] == old_keys[m]);
                    }
                }
                assert(strs(keys@).no_duplicates()) by {
                    assert forall|a: int, b: int| 0 <= a < strs(keys@).len() && 0 <= b < strs(keys@).len() && a != b implies strs(keys@)[a] != strs(keys@)[b] by {
                        if a < old_keys.len() && b < old_keys.len() {
                            assert(strs(keys@)[a] == strs(old_keys)[a]);
                            assert(strs(keys@)[b] == strs(old_keys)[b]);
                        } else if a < old_keys.len() {
                            assert(strs(keys@)[a] == old_keys[a]@);
                        } else {
                            assert(strs(keys@)[b] == old_keys[b]@);
                        }
                    }
                }
                assert forall|a: int, b: int| 0 <= a < b < keys.len() implies first_index(next, #[trigger] keys@[a]@)
                    < first_index(next, #[trigger] keys@[b]@) by {
                    if b < old_keys.len() {
                        assert(keys@[a] == old_keys[a] && keys@[b] == old_keys[b]);
                    } else {
                        assert(keys@[a] == old_keys[a]);
                    }
                }
            },
        }
        i = i + 1;
    }
    assert(s.take(keywords.len() as int) =~= s);
    (keys, counts)
}

proof fn lemma_count_absent(s: Seq<Seq<char>>, k: Seq<char>)
    requires
        !s.contains(k),
    ensures
        count_of(s, k) == 0,
    decreases s.len(),
{
    if s.len() > 0 {
        assert(!s.drop_last().contains(k)) by {
            if s.drop_last().contains(k) {
                let m = choose|m: int| 0 <= m < s.drop_last().len() && s.drop_last()[m] == k;
                assert(s[m] == k);
            }
        }
        lemma_count_absent(s.drop_last(), k);
    }
}

} // verus!

verus! {

/// Ranks keywords by how often they occur: each distinct keyword once with
/// its count, higher counts first, equal counts in the order the keywords
/// first occur.
pub fn rank_keywords(keywords: &Vec<String>) -> (r: Vec<(String, usize)>)
    ensures
        ranked_keys(r@).no_duplicates(),
        ranked_keys(r@).to_set() == strs(keywords@).to_set(),
        forall|i: int| 0 <= i < r@.len() ==> #[trigger] r@[i].1 == count_of(strs(keywords@), r@[i].0@),
        forall|i: int, j: int|
            0 <= i < j < r@.len() ==> ranks_before(strs(keywords@), #[trigger] r@[i], #[trigger] r@[j]),
{
    let ghost s = strs(keywords@);
    let (keys, counts) = count_keywords(keywords);
    let mut r: Vec<(String, usize)> = Vec::new();
    let mut j: usize = 0;
    while j < keys.len()
        invariant
            s == strs(keywords@),
            j <= keys.len() == counts.len(),
            strs(keys@).no_duplicates(),
            forall|m: int| 0 <= m < keys.len() ==> #[trigger] counts@[m] == count_of(s, keys@[m]@),
            forall|a: int, b: int|
                0 <= a < b < keys.len() ==> first_index(s, #[trigger] keys@[a]@) < first_index(
                    s,
                    #[trigger] keys@[b]@,
                ),
            ranked_keys(r@).no_duplicates(),
            ranked_keys(r@).to_set() == strs(keys@).take(j as int).to_set(),
            forall|i: int| 0 <= i < r@.len() ==> #[trigger] r@[i].1 == count_of(s, r@[i].0@),
            forall|a: int, b: int| 0 <= a < b < r@.len() ==> ranks_before(s, #[trigger] r@[a], #[trigger] r@[b]),
        decreases keys.len() - j,
    {
        let c = counts[j];
        let ghost x = keys@[j as int]@;
        // Every entry so far holds a keyword that occurs before `x`.
        assert forall|i: int| 0 <= i < r@.len() implies first_index(s, #[trigger] r@[i].0@) < first_index(s, x) by {
            assert(ranked_keys(r@)[i] == r@[i].0@);
            assert(strs(keys@).take(j as int).to_set().contains(r@[i].0@));
            let m = choose|m: int| 0 <= m < j && #[trigger] strs(keys@).take(j as int)[m] == r@[i].0@;
            assert(keys@[m]@ == r@[i].0@);
        }
        assert(!ranked_keys(r@).contains(x)) by {
            if ranked_keys(r@).contains(x) {
                let i = choose|i: int| 0 <= i < ranked_keys(r@).len() && ranked_keys(r@)[i] == x;
                assert(r@[i].0@ == x);
                assert(first_index(s, r@[i].0@) < first_index(s, x));
            }
        }
        let mut p: usize = 0;
        while p < r.len() && r[p].1 >= c
            invariant
                p <= r.len(),
                forall|i: int| 0 <= i < p ==> #[trigger] r@[i].1 >= c,
            decreases r.len() - p,
        {
            p = p + 1;
        }
        assert forall|i: int| p <= i < r@.len() implies #[trigger] r@[i].1 < c by {
            if r@[p as int].1 < c && i > p {
                assert(ranks_before(s, r@[p as int], r@[i]));
            }
        }
        let ghost old_r = r@;
        let entry = (keys[j].clone(), c);
        r.insert(p, entry);
        assert(r@ == old_r.insert(p as int, entry));
        assert(ranked_keys(r@) =~= ranked_keys(old_r).insert(p as int, x));
        assert(strs(keys@).take(j + 1) =~= strs(keys@).take(j as int).push(x));
        proof {
            strs(keys@).take(j as int).lemma_push_to_set_commute(x);
            assert(ranked_keys(r@).to_set() =~= ranked_keys(old_r).to_set().insert(x)) by {
                assert forall|k: Seq<char>| ranked_keys(r@).contains(k) <==> ranked_keys(old_r).contains(k)
                    || k == x by {
                    if ranked_keys(r@).contains(k) {
                        let i = choose|i: int| 0 <= i < ranked_keys(r@).len() && ranked_keys(r@)[i] == k;
                        if i < p {
                            assert(ranked_keys(old_r)[i] == k);
                        } else if i > p {
                            assert(ranked_keys(old_r)[i - 1] == k);
                        }
                    }
                    if ranked_keys(old_r).contains(k) {
                        let i = choose|i: int| 0 <= i < ranked_keys(old_r).len() && ranked_keys(old_r)[i] == k;
                        if i < p {
                            assert(ranked_keys(r@)[i] == k);
                        } else {
                            assert(ranked_keys(r@)[i + 1] == k);
                        }
                    }
                    if k == x {
                        assert(ranked_keys(r@)[p as int] == k);
                    }
                }
            }
        }
        assert forall|a: int, b: int| 0 <= a < b < r@.len() implies ranks_before(s, #[trigger] r@[a], #[trigger] r@[b]) by {
            if a < p && b < p {
                assert(r@[a] == old_r[a] && r@[b] == old_r[b]);
            } else if a < p && b == p {
                assert(r@[a] == old_r[a]);
            } else if a < p {
                assert(r@[a] == old_r[a] && r@[b] == old_r[b - 1]);
            } else if a == p {
                assert(r@[b] == old_r[b - 1]);
            } else {
                assert(r@[a] == old_r[a - 1] && r@[b] == old_r[b - 1]);
            }
        }
        assert(ranked_keys(r@).no_duplicates()) by {
            assert forall|a: int, b: int| 0 <= a < ranked_keys(r@).len() && 0 <= b < ranked_keys(r@).len() && a != b
                implies ranked_keys(r@)[a] != ranked_keys(r@)[b] by {
                let ro = ranked_keys(old_r);
                if a != p && b != p {
                    let a0 = if a < p { a } else { a - 1 };
                    let b0 = if b < p { b } else { b - 1 };
                    assert(ranked_keys(r@)[a] == ro[a0]);
                    assert(ranked_keys(r@)[b] == ro[b0]);
                } else if a == p {
                    let b0 = if b < p { b } else { b - 1 };
                    assert(ranked_keys(r@)[b] == ro[b0]);
                } else {
                    let a0 = if a < p { a } else { a - 1 };
                    assert(ranked_keys(r@)[a] == ro[a0]);
                }
            }
        }
        assert forall|i: int| 0 <= i < r@.len() implies #[trigger] r@[i].1 == count_of(s, r@[i].0@) by {
            if i < p {
                assert(r@[i] == old_r[i]);
            } else if i > p {
                assert(r@[i] == old_r[i - 1]);
            }
        }
        j = j + 1;
    }
    assert(strs(keys@).take(keys.len() as int) =~= strs(keys@));
    r
}

} // verus!
