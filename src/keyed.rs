//! Copies that equal their originals, and lists of keyed entries viewed as
//! maps from the key's characters to the entry.
use vstd::prelude::*;
use vstd::string::*;
use crate::text::same_text;

verus! {

/// A value that can hand out a copy of itself equal to the original.
pub trait DeepCopy: Sized {
    fn deep_copy(&self) -> (r: Self)
        ensures
            r == *self,
    ;
}

impl DeepCopy for String {
    fn deep_copy(&self) -> (r: String) {
        self.clone()
    }
}

impl<T: DeepCopy> DeepCopy for Option<T> {
    fn deep_copy(&self) -> (r: Option<T>) {
        match self {
            Some(v) => Some(v.deep_copy()),
            None => None,
        }
    }
}

pub open spec fn has_key<V>(m: Seq<(String, V)>, k: Seq<char>) -> bool {
    exists|i: int| 0 <= i < m.len() && (#[trigger] m[i]).0@ == k
}

pub open spec fn keys_unique<V>(m: Seq<(String, V)>) -> bool {
    forall|i: int, j: int|
        0 <= i < m.len() && 0 <= j < m.len() && i != j ==> (#[trigger] m[i]).0@ != (#[trigger] m[j]).0@
}

pub open spec fn entry_of<V>(m: Seq<(String, V)>, k: Seq<char>) -> V {
    m[choose|i: int| 0 <= i < m.len() && (#[trigger] m[i]).0@ == k].1
}

/// The map that an association list stands for.
pub open spec fn table<V>(m: Seq<(String, V)>) -> Map<Seq<char>, V> {
    Map::new(|k: Seq<char>| has_key(m, k), |k: Seq<char>| entry_of(m, k))
}

pub proof fn lemma_table_at<V>(m: Seq<(String, V)>, i: int)
    requires
        keys_unique(m),
        0 <= i < m.len(),
    ensures
        table(m).contains_key(m[i].0@),
        table(m)[m[i].0@] == m[i].1,
{
    let k = m[i].0@;
    assert(has_key(m, k));
    let j = choose|j: int| 0 <= j < m.len() && (#[trigger] m[j]).0@ == k;
    assert(j == i);
}

/// Copies of all entries, in the list's order.
pub fn entries<V: DeepCopy>(m: &Vec<(String, V)>) -> (r: Vec<V>)
    ensures
        r@ == m@.map_values(|e: (String, V)| e.1),
{
    let mut out: Vec<V> = Vec::new();
    let mut i: usize = 0;
    while i < m.len()
        invariant
            i <= m@.len(),
            out@ == m@.subrange(0, i as int).map_values(|e: (String, V)| e.1),
        decreases m@.len() - i,
    {
        out.push(m[i].1.deep_copy());
        i = i + 1;
        assert(out@ =~= m@.subrange(0, i as int).map_values(|e: (String, V)| e.1));
    }
    assert(m@.subrange(0, m@.len() as int) =~= m@);
    out
}

/// `r` lists the entries of `m` exactly once each, where `key` gives the key
/// that each entry is filed under.
pub open spec fn listing<V>(m: Map<Seq<char>, V>, r: Seq<V>, key: spec_fn(V) -> Seq<char>) -> bool {
    &&& forall|i: int| 0 <= i < r.len() ==> m.contains_key(key(#[trigger] r[i])) && m[key(r[i])] == r[i]
    &&& forall|k: Seq<char>| #[trigger] m.contains_key(k) ==> exists|i: int| 0 <= i < r.len() && key(#[trigger] r[i]) == k
    &&& forall|i: int, j: int| 0 <= i < r.len() && 0 <= j < r.len() && i != j ==> key(#[trigger] r[i]) != key(#[trigger] r[j])
}

/// Every entry of the list is filed under the key that `key` gives it.
pub open spec fn keyed_by<V>(m: Seq<(String, V)>, key: spec_fn(V) -> Seq<char>) -> bool {
    forall|i: int| 0 <= i < m.len() ==> (#[trigger] m[i]).0@ == key(m[i].1)
}

pub proof fn lemma_entries_listing<V>(m: Seq<(String, V)>, key: spec_fn(V) -> Seq<char>)
    requires
        keys_unique(m),
        keyed_by(m, key),
    ensures
        listing(table(m), m.map_values(|e: (String, V)| e.1), key),
{
    let r = m.map_values(|e: (String, V)| e.1);
    assert forall|i: int| 0 <= i < r.len() implies table(m).contains_key(key(#[trigger] r[i])) && table(m)[key(r[i])] == r[i] by {
        assert(r[i] == m[i].1);
        assert(m[i].0@ == key(m[i].1));
        lemma_table_at(m, i);
    }
    assert forall|k: Seq<char>| #[trigger] table(m).contains_key(k) implies exists|i: int| 0 <= i < r.len() && key(#[trigger] r[i]) == k by {
        let i = choose|i: int| 0 <= i < m.len() && (#[trigger] m[i]).0@ == k;
        assert(r[i] == m[i].1);
        assert(m[i].0@ == key(m[i].1));
    }
    assert forall|i: int, j: int| 0 <= i < r.len() && 0 <= j < r.len() && i != j implies key(#[trigger] r[i]) != key(#[trigger] r[j]) by {
        assert(r[i] == m[i].1 && r[j] == m[j].1);
        assert(m[i].0@ == key(m[i].1) && m[j].0@ == key(m[j].1));
    }
}

/// Every entry of the map is filed under the key that `key` gives it.
pub open spec fn filed_by_key<V>(t: Map<Seq<char>, V>, key: spec_fn(V) -> Seq<char>) -> bool {
    forall|k: Seq<char>| #[trigger] t.contains_key(k) ==> key(t[k]) == k
}

pub proof fn lemma_keyed_from_table<V>(m: Seq<(String, V)>, key: spec_fn(V) -> Seq<char>)
    requires
        keys_unique(m),
        filed_by_key(table(m), key),
    ensures
        keyed_by(m, key),
{
    assert forall|i: int| 0 <= i < m.len() implies (#[trigger] m[i]).0@ == key(m[i].1) by {
        lemma_table_at(m, i);
    }
}

/// The listing of a map's entries, taken from a unique-keyed list of them.
pub(crate) fn listed_entries<V: DeepCopy>(pairs: &Vec<(String, V)>, Ghost(t): Ghost<Map<Seq<char>, V>>, Ghost(key): Ghost<spec_fn(V) -> Seq<char>>) -> (r: Vec<V>)
    requires
        keys_unique(pairs@),
        table(pairs@) == t,
        filed_by_key(t, key),
    ensures
        listing(t, r@, key),
{
    proof {
        lemma_keyed_from_table(pairs@, key);
        lemma_entries_listing(pairs@, key);
    }
    entries(pairs)
}

/// `candidate` where no entry has it as key; else the longest key followed
/// by `-`, which is longer than every key and so names no entry either.
pub fn fresh_key<V>(pairs: &Vec<(String, V)>, candidate: String) -> (r: String)
    ensures
        !has_key(pairs@, r@),
        !has_key(pairs@, candidate@) ==> r@ == candidate@,
{
    let mut taken = false;
    let mut longest: usize = 0;
    let mut i: usize = 0;
    while i < pairs.len()
        invariant
            i <= pairs@.len(),
            longest <= i,
            i > 0 ==> longest < pairs@.len(),
            forall|j: int| 0 <= j < i ==> (#[trigger] pairs@[j]).0@.len() <= pairs@[longest as int].0@.len(),
            taken == exists|j: int| 0 <= j < i && (#[trigger] pairs@[j]).0@ == candidate@,
        decreases pairs@.len() - i,
    {
        if same_text(pairs[i].0.as_str(), candidate.as_str()) {
            taken = true;
        }
        if pairs[i].0.unicode_len() > pairs[longest].0.unicode_len() {
            longest = i;
        }
        i = i + 1;
    }
    if !taken {
        return candidate;
    }
    let mut r = pairs[longest].0.clone();
    let ghost before = r@;
    r.append("-");
    proof {
        reveal_strlit("-");
        assert forall|j: int| 0 <= j < pairs@.len() implies (#[trigger] pairs@[j]).0@ != r@ by {
            assert(pairs@[j].0@.len() <= before.len());
        }
    }
    r
}

} // verus!
