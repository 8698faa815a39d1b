//! Sequences of pairs keyed by strings, and the string map built on them.
use vstd::prelude::*;
use vstd::string::*;

verus! {

/// The index of the first pair of `t` whose key is `k`, or -1.
pub open spec fn key_index<V>(t: Seq<(Seq<char>, V)>, k: Seq<char>) -> int
    decreases t.len(),
{
    if t.len() == 0 {
        -1
    } else if t[0].0 == k {
        0
    } else {
        let r = key_index(t.drop_first(), k);
        if r < 0 { -1 } else { r + 1 }
    }
}

/// Characterises `key_index` by the position it designates.
pub proof fn lemma_key_index<V>(t: Seq<(Seq<char>, V)>, k: Seq<char>, i: int)
    requires
        0 <= i <= t.len(),
        forall|j: int| 0 <= j < i ==> (#[trigger] t[j]).0 != k,
        i == t.len() || t[i].0 == k,
    ensures
        key_index(t, k) == (if i == t.len() { -1 } else { i }),
    decreases t.len(),
{
    if t.len() > 0 && i > 0 {
        assert(t[0].0 != k);
        assert forall|j: int| 0 <= j < i - 1 implies (#[trigger] t.drop_first()[j]).0 != k by {
            assert(t.drop_first()[j] == t[j + 1]);
        }
        if i < t.len() {
            assert(t.drop_first()[i - 1] == t[i]);
        }
        lemma_key_index(t.drop_first(), k, i - 1);
    }
}

/// The result of `key_index` is in range and designates a pair with key `k`.
pub proof fn lemma_key_index_shape<V>(t: Seq<(Seq<char>, V)>, k: Seq<char>)
    ensures
        -1 <= key_index(t, k) < t.len(),
        key_index(t, k) >= 0 ==> t[key_index(t, k)].0 == k,
        forall|j: int|
            0 <= j < t.len() && (key_index(t, k) < 0 || j < key_index(t, k)) ==> (
            #[trigger] t[j]).0 != k,
    decreases t.len(),
{
    if t.len() > 0 && t[0].0 != k {
        lemma_key_index_shape(t.drop_first(), k);
        assert forall|j: int|
            0 <= j < t.len() && (key_index(t, k) < 0 || j < key_index(t, k)) implies (
            #[trigger] t[j]).0 != k by {
            if j > 0 {
                assert(t[j] == t.drop_first()[j - 1]);
            }
        }
    }
}


// ---------------------------------------------------------------------------
// String maps
// ---------------------------------------------------------------------------

/// The value that `t` holds for `k`.
pub open spec fn entry_get(t: Seq<(Seq<char>, Seq<char>)>, k: Seq<char>) -> Option<Seq<char>> {
    let i = key_index(t, k);
    if 0 <= i < t.len() {
        Some(t[i].1)
    } else {
        None
    }
}

/// `t` with `k` set to `v`: replaced where `k` is, appended otherwise.
pub open spec fn entry_insert(t: Seq<(Seq<char>, Seq<char>)>, k: Seq<char>, v: Seq<char>) -> Seq<
    (Seq<char>, Seq<char>),
> {
    let i = key_index(t, k);
    if 0 <= i < t.len() {
        t.update(i, (k, v))
    } else {
        t.push((k, v))
    }
}

/// No key occurs twice in `t`.
pub open spec fn distinct_keys(t: Seq<(Seq<char>, Seq<char>)>) -> bool {
    forall|i: int, j: int| 0 <= i < j < t.len() ==> #[trigger] t[i].0 != #[trigger] t[j].0
}

/// A map from strings to strings that keeps its keys in the order they were
/// first set.
#[derive(Clone, Debug)]
pub struct StringMap {
    entries: Vec<(String, String)>,
}

impl View for StringMap {
    type V = Seq<(Seq<char>, Seq<char>)>;

    closed spec fn view(&self) -> Seq<(Seq<char>, Seq<char>)> {
        self.entries@.map_values(|e: (String, String)| (e.0@, e.1@))
    }
}

impl StringMap {
    /// The empty map.
    pub fn new() -> (r: Self)
        ensures
            r@ == Seq::<(Seq<char>, Seq<char>)>::empty(),
    {
        let r = StringMap { entries: Vec::new() };
        assert(r@ =~= Seq::<(Seq<char>, Seq<char>)>::empty());
        r
    }

    /// The number of entries.
    pub fn len(&self) -> (r: usize)
        ensures
            r == self@.len(),
    {
        self.entries.len()
    }

    /// The key and value of the `i`th entry.
    pub fn entry(&self, i: usize) -> (r: (&String, &String))
        requires
            i < self@.len(),
        ensures
            r.0@ == self@[i as int].0,
            r.1@ == self@[i as int].1,
    {
        let e = &self.entries[i];
        (&e.0, &e.1)
    }

    /// The position of `key`, if present.
    fn position(&self, key: &str) -> (r: Option<usize>)
        ensures
            match r {
                Some(i) => key_index(self@, key@) == i && i < self@.len(),
                None => key_index(self@, key@) == -1,
            },
    {
        let k = String::from_str(key);
        let mut i: usize = 0;
        while i < self.entries.len()
            invariant
                i <= self.entries.len(),
                k@ == key@,
                forall|j: int| 0 <= j < i ==> (#[trigger] self@[j]).0 != key@,
            decreases self.entries.len() - i,
        {
            if self.entries[i].0 == k {
                proof {
                    lemma_key_index(self@, key@, i as int);
                }
                return Some(i);
            }
            i = i + 1;
        }
        proof {
            lemma_key_index(self@, key@, self@.len() as int);
        }
        None
    }

    /// The value of `key`, if present.
    pub fn get(&self, key: &str) -> (r: Option<&String>)
        ensures
            match r {
                Some(v) => entry_get(self@, key@) == Some(v@),
                None => entry_get(self@, key@) is None,
            },
    {
        match self.position(key) {
            Some(i) => Some(&self.entries[i].1),
            None => None,
        }
    }

    /// Whether `key` is present.
    pub fn contains_key(&self, key: &str) -> (r: bool)
        ensures
            r == entry_get(self@, key@) is Some,
    {
        self.position(key).is_some()
    }

    /// Sets `key` to `value`, in place if present, at the end otherwise.
    pub fn insert(&mut self, key: String, value: String)
        ensures
            final(self)@ == entry_insert(old(self)@, key@, value@),
    {
        match self.position(key.as_str()) {
            Some(i) => {
                self.entries.set(i, (key, value));
            },
            None => {
                self.entries.push((key, value));
            },
        }
        assert(self@ =~= entry_insert(old(self)@, key@, value@));
    }
}

/// Setting a key and then reading it gives the value set.
pub proof fn law_map_read_after_insert(t: Seq<(Seq<char>, Seq<char>)>, k: Seq<char>, v: Seq<char>)
    ensures
        entry_get(entry_insert(t, k, v), k) == Some(v),
{
    lemma_key_index_shape(t, k);
    let i = key_index(t, k);
    let t2 = entry_insert(t, k, v);
    if 0 <= i < t.len() {
        assert forall|j: int| 0 <= j < i implies (#[trigger] t2[j]).0 != k by {
            assert(t2[j] == t[j]);
        }
        lemma_key_index(t2, k, i);
    } else {
        assert forall|j: int| 0 <= j < t.len() implies (#[trigger] t2[j]).0 != k by {
            assert(t2[j] == t[j]);
        }
        lemma_key_index(t2, k, t.len() as int);
    }
}

/// Setting a key leaves the other keys as they were.
pub proof fn law_map_insert_keeps_others(
    t: Seq<(Seq<char>, Seq<char>)>,
    k: Seq<char>,
    v: Seq<char>,
    other: Seq<char>,
)
    requires
        other != k,
    ensures
        entry_get(entry_insert(t, k, v), other) == entry_get(t, other),
{
    lemma_key_index_shape(t, k);
    lemma_key_index_shape(t, other);
    let t2 = entry_insert(t, k, v);
    let o = key_index(t, other);
    if 0 <= o < t.len() {
        assert(t2[o] == t[o]);
        assert forall|j: int| 0 <= j < o implies (#[trigger] t2[j]).0 != other by {
            assert(t[j].0 != other);
            assert(t2[j].0 == t[j].0 || t2[j].0 == k);
        }
        lemma_key_index(t2, other, o);
    } else {
        assert forall|j: int| 0 <= j < t2.len() implies (#[trigger] t2[j]).0 != other by {
            if j < t.len() {
                assert(t2[j].0 == t[j].0 || t2[j].0 == k);
            }
        }
        lemma_key_index(t2, other, t2.len() as int);
    }
}

/// Setting a key never makes a key occur twice.
pub proof fn law_map_insert_keeps_keys_distinct(
    t: Seq<(Seq<char>, Seq<char>)>,
    k: Seq<char>,
    v: Seq<char>,
)
    requires
        distinct_keys(t),
    ensures
        distinct_keys(entry_insert(t, k, v)),
{
    lemma_key_index_shape(t, k);
    let t2 = entry_insert(t, k, v);
    let i = key_index(t, k);
    assert forall|a: int, b: int| 0 <= a < b < t2.len() implies #[trigger] t2[a].0
        != #[trigger] t2[b].0 by {
        if b == t.len() {
            assert(t[a].0 != k);
        } else if a == i {
            assert(t[b].0 != t[i].0);
        } else if b == i {
            assert(t[a].0 != t[i].0);
        } else {
            assert(t2[a] == t[a] && t2[b] == t[b]);
        }
    }
}

}
