//! Entries keyed by name, as the interpreter's tables keep them: a name
//! stands once, and setting it again replaces its entry in place.
use vstd::prelude::*;
use crate::text::str_eq;

verus! {

/// Where `k` first stands among the keys of `s`.
pub open spec fn key_index<M>(s: Seq<(Seq<char>, M)>, k: Seq<char>) -> Option<int>
    decreases s.len(),
{
    if s.len() == 0 {
        None
    } else {
        match key_index(s.drop_last(), k) {
            Some(i) => Some(i),
            None => if s.last().0 == k {
                Some(s.len() - 1)
            } else {
                None
            },
        }
    }
}

/// The entry of `k`.
pub open spec fn key_get<M>(s: Seq<(Seq<char>, M)>, k: Seq<char>) -> Option<M> {
    match key_index(s, k) {
        Some(i) => Some(s[i].1),
        None => None,
    }
}

/// The entries with `k` set to `m`: in place where it stood, at the end
/// otherwise.
pub open spec fn key_set<M>(s: Seq<(Seq<char>, M)>, k: Seq<char>, m: M) -> Seq<(Seq<char>, M)> {
    match key_index(s, k) {
        Some(i) => s.update(i, (k, m)),
        None => s.push((k, m)),
    }
}

/// The names of a list of entries.
pub open spec fn keys<X>(v: Seq<(String, X)>) -> Seq<(Seq<char>, ())> {
    v.map_values(|p: (String, X)| (p.0@, ()))
}

proof fn lemma_key_prefix<M>(s: Seq<(Seq<char>, M)>, n: int, k: Seq<char>)
    requires
        0 < n <= s.len(),
        s[n - 1].0 == k,
        key_index(s.take(n - 1), k) is None,
    ensures
        key_index(s, k) == Some(n - 1),
    decreases s.len(),
{
    if n == s.len() {
        assert(s.drop_last() =~= s.take(n - 1));
    } else {
        assert(s.drop_last().take(n - 1) =~= s.take(n - 1));
        lemma_key_prefix(s.drop_last(), n, k);
    }
}

/// Two lists whose entries carry the same names find a name at the same
/// place.
pub proof fn lemma_key_same_names<M, N>(s: Seq<(Seq<char>, M)>, t: Seq<(Seq<char>, N)>, k: Seq<char>)
    requires
        s.len() == t.len(),
        forall|j: int| 0 <= j < s.len() ==> ((#[trigger] s[j]).0 == k) == (t[j].0 == k),
    ensures
        key_index(s, k) == key_index(t, k),
    decreases s.len(),
{
    if s.len() > 0 {
        assert(s.last() == s[s.len() - 1]);
        assert(t.last() == t[t.len() - 1]);
        lemma_key_same_names(s.drop_last(), t.drop_last(), k);
    }
}

/// A name found stands where it is found.
pub proof fn lemma_key_found<M>(s: Seq<(Seq<char>, M)>, k: Seq<char>)
    ensures
        key_index(s, k) matches Some(i) ==> 0 <= i < s.len() && s[i].0 == k,
    decreases s.len(),
{
    if s.len() > 0 {
        lemma_key_found(s.drop_last(), k);
    }
}

/// Setting a name and reading it back gives the entry set; other names read
/// as before.
pub proof fn lemma_key_set_get<M>(s: Seq<(Seq<char>, M)>, k: Seq<char>, other: Seq<char>, m: M)
    ensures
        key_get(key_set(s, k, m), k) == Some(m),
        other != k ==> key_get(key_set(s, k, m), other) == key_get(s, other),
{
    lemma_key_found(s, k);
    lemma_key_found(s, other);
    match key_index(s, k) {
        Some(i) => {
            let t = s.update(i, (k, m));
            assert forall|j: int| 0 <= j < s.len() implies ((#[trigger] s[j]).0 == k) == (t[j].0 == k) by {}
            lemma_key_same_names(s, t, k);
            if other != k {
                assert forall|j: int| 0 <= j < s.len() implies ((#[trigger] s[j]).0 == other) == (t[j].0
                    == other) by {}
                lemma_key_same_names(s, t, other);
            }
        },
        None => {
            assert(s.push((k, m)).drop_last() =~= s);
        },
    }
}

/// Where `k` first stands among the names of `v`.
pub fn find_key<X>(v: &Vec<(String, X)>, k: &str) -> (r: Option<usize>)
    ensures
        r matches Some(i) ==> key_index(keys(v@), k@) == Some(i as int) && i < v@.len(),
        r is None ==> key_index(keys(v@), k@) is None,
{
    let mut i: usize = 0;
    while i < v.len()
        invariant
            i <= v@.len(),
            key_index(keys(v@).take(i as int), k@) is None,
        decreases v@.len() - i,
    {
        proof {
            assert(keys(v@).take(i + 1).drop_last() =~= keys(v@).take(i as int));
        }
        if str_eq(v[i].0.as_str(), k) {
            proof {
                lemma_key_prefix(keys(v@), i as int + 1, k@);
            }
            return Some(i);
        }
        i = i + 1;
    }
    proof {
        assert(keys(v@).take(i as int) =~= keys(v@));
    }
    None
}

} // verus!
