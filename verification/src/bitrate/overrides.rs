//! Per-preset bitrate overrides: a map from keys such as `"720p30"` to a
//! bitrate in kbps.

use vstd::prelude::*;
use crate::text::chars_of;
use crate::subtitle_merge::transcript::chars_eq;

verus! {

/// The map that a list of entries stands for: each entry sets its key, a
/// later entry replacing an earlier one with the same key.
pub open spec fn entries_map(s: Seq<(String, u32)>) -> Map<Seq<char>, u32>
    decreases s.len(),
{
    if s.len() == 0 {
        Map::empty()
    } else {
        entries_map(s.drop_last()).insert(s.last().0@, s.last().1)
    }
}

/// What a map holds at `k`: its value there, or `None`.
pub open spec fn lookup(m: Map<Seq<char>, u32>, k: Seq<char>) -> Option<u32> {
    if m.contains_key(k) {
        Some(m[k])
    } else {
        None
    }
}

/// Every key of the map is the key of some entry.
pub proof fn lemma_entries_map_keys(s: Seq<(String, u32)>, k: Seq<char>)
    requires
        entries_map(s).contains_key(k),
    ensures
        exists|i: int| 0 <= i < s.len() && (#[trigger] s[i]).0@ == k,
    decreases s.len(),
{
    if s.last().0@ != k {
        lemma_entries_map_keys(s.drop_last(), k);
        let i = choose|i: int| 0 <= i < s.drop_last().len() && (#[trigger] s.drop_last()[i]).0@ == k;
        assert(s[i] == s.drop_last()[i]);
    } else {
        assert(s[s.len() - 1].0@ == k);
    }
}

/// No two entries share a key.
pub open spec fn unique_keys(s: Seq<(String, u32)>) -> bool {
    forall|i: int, j: int| 0 <= i < j < s.len() ==> (#[trigger] s[i]).0@ != (#[trigger] s[j]).0@
}

/// With keys unique, each entry's key maps to its value.
pub proof fn lemma_unique_lookup(s: Seq<(String, u32)>, i: int)
    requires
        unique_keys(s),
        0 <= i < s.len(),
    ensures
        entries_map(s).contains_key(s[i].0@),
        entries_map(s)[s[i].0@] == s[i].1,
    decreases s.len(),
{
    if i < s.len() - 1 {
        let t = s.drop_last();
        assert(t[i] == s[i]);
        assert(unique_keys(t)) by {
            assert forall|a: int, b: int| 0 <= a < b < t.len() implies (#[trigger] t[a]).0@ != (
            #[trigger] t[b]).0@ by {
                assert(t[a] == s[a] && t[b] == s[b]);
            }
        }
        lemma_unique_lookup(t, i);
        assert(s[i].0@ != s[s.len() - 1].0@);
    }
}

/// A key that no entry has is not in the map.
pub proof fn lemma_absent_key(s: Seq<(String, u32)>, k: Seq<char>)
    requires
        forall|i: int| 0 <= i < s.len() ==> (#[trigger] s[i]).0@ != k,
    ensures
        !entries_map(s).contains_key(k),
{
    if entries_map(s).contains_key(k) {
        lemma_entries_map_keys(s, k);
    }
}

/// Bitrate overrides keyed by `"{height}p{fps}"`, each key held once.
/// Equality is equality of the maps, whatever order the entries were set in.
#[derive(Debug)]
pub struct BitrateOverrides {
    entries: Vec<(String, u32)>,
}

impl View for BitrateOverrides {
    type V = Map<Seq<char>, u32>;

    closed spec fn view(&self) -> Map<Seq<char>, u32> {
        entries_map(self.entries@)
    }
}

impl BitrateOverrides {
    #[verifier::type_invariant]
    closed spec fn keys_unique(self) -> bool {
        unique_keys(self.entries@)
    }

    /// The position of the entry whose key is `key`.
    fn position(&self, key: &[char]) -> (r: Option<usize>)
        ensures
            match r {
                Some(i) => i < self.entries@.len() && self.entries@[i as int].0@ == key@,
                None => forall|i: int|
                    0 <= i < self.entries@.len() ==> (#[trigger] self.entries@[i]).0@ != key@,
            },
    {
        let mut i: usize = 0;
        while i < self.entries.len()
            invariant
                0 <= i <= self.entries@.len(),
                forall|j: int| 0 <= j < i ==> (#[trigger] self.entries@[j]).0@ != key@,
            decreases self.entries@.len() - i,
        {
            let k = chars_of(self.entries[i].0.as_str());
            if chars_eq(k.as_slice(), key) {
                return Some(i);
            }
            i = i + 1;
        }
        None
    }

    /// No overrides.
    pub fn new() -> (r: Self)
        ensures
            r@ == Map::<Seq<char>, u32>::empty(),
    {
        BitrateOverrides { entries: Vec::new() }
    }

    /// Whether there is no override.
    pub fn is_empty(&self) -> (r: bool)
        ensures
            r == (self@.dom() == Set::<Seq<char>>::empty()),
    {
        if self.entries.len() == 0 {
            assert(self@ =~= Map::<Seq<char>, u32>::empty());
            true
        } else {
            let ghost s = self.entries@;
            assert(self@.contains_key(s.last().0@));
            false
        }
    }

    /// The override for the key whose characters are `key`.
    pub fn get_chars(&self, key: &[char]) -> (r: Option<u32>)
        ensures
            r == lookup(self@, key@),
    {
        let ghost s = self.entries@;
        let mut i = self.entries.len();
        assert(s.take(i as int) =~= s);
        while i > 0
            invariant
                0 <= i <= s.len(),
                s == self.entries@,
                lookup(entries_map(s), key@) == lookup(entries_map(s.take(i as int)), key@),
            decreases i,
        {
            assert(s.take(i as int).drop_last() =~= s.take(i - 1));
            assert(s.take(i as int).last() == s[i - 1]);
            let k = chars_of(self.entries[i - 1].0.as_str());
            if chars_eq(k.as_slice(), key) {
                return Some(self.entries[i - 1].1);
            }
            i = i - 1;
        }
        None
    }

    /// The override for `key`, as `BTreeMap::get` gives it.
    pub fn get(&self, key: &str) -> (r: Option<u32>)
        ensures
            r == lookup(self@, key@),
    {
        let k = chars_of(key);
        self.get_chars(k.as_slice())
    }

    /// Sets the override for `key`, returning the one it replaces, as
    /// `BTreeMap::insert` does.
#[verifier::rlimit(30)]
    pub fn insert(&mut self, key: String, value: u32) -> (r: Option<u32>)
        ensures
            final(self)@ == old(self)@.insert(key@, value),
            r == lookup(old(self)@, key@),
    {
        proof {
            use_type_invariant(&*self);
        }
        let kc = chars_of(key.as_str());
        let pos = self.position(kc.as_slice());
        let mut e: Vec<(String, u32)> = Vec::new();
        std::mem::swap(&mut e, &mut self.entries);
        let ghost s = e@;
        let ghost k = key@;
        assert(unique_keys(s));
        let prev = match pos {
            Some(i) => {
                let old_value = e[i].1;
                proof {
                    lemma_unique_lookup(s, i as int);
                }
                e.set(i, (key, value));
                let ghost t = e@;
                assert(t =~= s.update(i as int, t[i as int]));
                assert(unique_keys(t)) by {
                    assert forall|a: int, b: int| 0 <= a < b < t.len() implies (#[trigger] t[a]).0@
                        != (#[trigger] t[b]).0@ by {
                        if a != i && b != i {
                            assert(t[a] == s[a] && t[b] == s[b]);
                        } else if a == i {
                            assert(t[b] == s[b]);
                        } else {
                            assert(t[a] == s[a]);
                        }
                    }
                }
                assert(entries_map(t) =~= entries_map(s).insert(k, value)) by {
                    assert forall|x: Seq<char>| #[trigger]
                        entries_map(t).contains_key(x) implies entries_map(s).insert(
                        k,
                        value,
                    ).contains_key(x) by {
                        lemma_entries_map_keys(t, x);
                        let j = choose|j: int| 0 <= j < t.len() && (#[trigger] t[j]).0@ == x;
                        if j != i {
                            assert(t[j] == s[j]);
                            lemma_unique_lookup(s, j);
                        }
                    }
                    assert forall|x: Seq<char>| #[trigger]
                        entries_map(s).insert(k, value).contains_key(x) implies entries_map(
                        t,
                    ).contains_key(x) && entries_map(t)[x] == entries_map(s).insert(k, value)[x] by {
                        if x == k {
                            lemma_unique_lookup(t, i as int);
                        } else {
                            lemma_entries_map_keys(s, x);
                            let j = choose|j: int| 0 <= j < s.len() && (#[trigger] s[j]).0@ == x;
                            assert(j != i);
                            assert(t[j] == s[j]);
                            lemma_unique_lookup(s, j);
                            lemma_unique_lookup(t, j);
                        }
                    }
                }
                Some(old_value)
            },
            None => {
                proof {
                    lemma_absent_key(s, k);
                }
                e.push((key, value));
                let ghost t = e@;
                assert(t.drop_last() =~= s);
                assert(unique_keys(t)) by {
                    assert forall|a: int, b: int| 0 <= a < b < t.len() implies (#[trigger] t[a]).0@
                        != (#[trigger] t[b]).0@ by {
                        assert(t[a] == s[a]);
                        if b < s.len() {
                            assert(t[b] == s[b]);
                        }
                    }
                }
                None
            },
        };
        self.entries = e;
        prev
    }

    /// The keys and values, each key once.
    pub fn to_vec(&self) -> (r: Vec<(String, u32)>)
        ensures
            entries_map(r@) == self@,
            unique_keys(r@),
    {
        let mut out = BitrateOverrides::new();
        let mut i: usize = 0;
        let ghost s = self.entries@;
        assert(s.take(0) =~= Seq::<(String, u32)>::empty());
        while i < self.entries.len()
            invariant
                0 <= i <= s.len(),
                s == self.entries@,
                out@ == entries_map(s.take(i as int)),
            decreases s.len() - i,
        {
            assert(s.take(i + 1).drop_last() =~= s.take(i as int));
            let (k, v) = &self.entries[i];
            let key = k.clone();
            out.insert(key, *v);
            i = i + 1;
        }
        assert(s.take(s.len() as int) =~= s);
        proof {
            use_type_invariant(&out);
        }
        out.entries
    }

    /// Every override of `self` is in `other` with the same bitrate.
    fn covered_by(&self, other: &Self) -> (r: bool)
        ensures
            r == (forall|k: Seq<char>|
                #[trigger] self@.contains_key(k) ==> lookup(other@, k) == Some(self@[k])),
    {
        let ghost s = self.entries@;
        let mut i: usize = 0;
        while i < self.entries.len()
            invariant
                0 <= i <= s.len(),
                s == self.entries@,
                forall|j: int|
                    0 <= j < i ==> lookup(other@, (#[trigger] s[j]).0@) == lookup(self@, s[j].0@),
            decreases s.len() - i,
        {
            let k = chars_of(self.entries[i].0.as_str());
            let a = self.get_chars(k.as_slice());
            let b = other.get_chars(k.as_slice());
            proof {
                assert(entries_map(s.take(i + 1)).contains_key(s[i as int].0@)) by {
                    assert(s.take(i + 1).last() == s[i as int]);
                }
                crate::bitrate::overrides::lemma_prefix_key(s, i + 1, s[i as int].0@);
            }
            if a != b {
                assert(self@.contains_key(s[i as int].0@));
                return false;
            }
            i = i + 1;
        }
        assert forall|k: Seq<char>| #[trigger]
            self@.contains_key(k) implies lookup(other@, k) == Some(self@[k]) by {
            lemma_entries_map_keys(s, k);
            let j = choose|j: int| 0 <= j < s.len() && (#[trigger] s[j]).0@ == k;
            assert(lookup(other@, s[j].0@) == lookup(self@, s[j].0@));
        }
        true
    }
}

/// A key set by a prefix of the entries is still set by all of them.
pub proof fn lemma_prefix_key(s: Seq<(String, u32)>, n: int, k: Seq<char>)
    requires
        0 <= n <= s.len(),
        entries_map(s.take(n)).contains_key(k),
    ensures
        entries_map(s).contains_key(k),
    decreases s.len() - n,
{
    if n < s.len() {
        assert(s.take(n + 1).drop_last() =~= s.take(n));
        lemma_prefix_key(s, n + 1, k);
    } else {
        assert(s.take(n) =~= s);
    }
}

impl PartialEq for BitrateOverrides {
#[verifier::rlimit(30)]
    fn eq(&self, other: &Self) -> (r: bool) {
        let a = self.covered_by(other);
        let b = other.covered_by(self);
        proof {
            if a && b {
                assert(self@ =~= other@) by {
                    assert forall|k: Seq<char>| #[trigger]
                        self@.contains_key(k) implies other@.contains_key(k) by {
                        assert(lookup(other@, k) == Some(self@[k]));
                    }
                    assert forall|k: Seq<char>| #[trigger]
                        other@.contains_key(k) implies self@.contains_key(k) by {
                        assert(lookup(self@, k) == Some(other@[k]));
                    }
                    assert forall|k: Seq<char>| #[trigger]
                        self@.contains_key(k) implies other@[k] == self@[k] by {
                        assert(lookup(other@, k) == Some(self@[k]));
                    }
                }
            } else if !a {
                let k = choose|k: Seq<char>|
                    #[trigger] self@.contains_key(k) && lookup(other@, k) != Some(self@[k]);
                assert(self@ != other@) by {
                    if self@ == other@ {
                        assert(lookup(other@, k) == Some(self@[k]));
                    }
                }
            } else {
                let k = choose|k: Seq<char>|
                    #[trigger] other@.contains_key(k) && lookup(self@, k) != Some(other@[k]);
                assert(self@ != other@) by {
                    if self@ == other@ {
                        assert(lookup(self@, k) == Some(other@[k]));
                    }
                }
            }
        }
        a && b
    }
}

impl vstd::std_specs::cmp::PartialEqSpecImpl for BitrateOverrides {
    open spec fn obeys_eq_spec() -> bool {
        true
    }

    open spec fn eq_spec(&self, other: &Self) -> bool {
        self@ == other@
    }
}

impl Clone for BitrateOverrides {
    fn clone(&self) -> (r: Self)
        ensures
            r@ == self@,
    {
        BitrateOverrides { entries: self.to_vec() }
    }
}

impl Eq for BitrateOverrides {

}

impl Default for BitrateOverrides {
    fn default() -> (r: Self)
        ensures
            r@ == Map::<Seq<char>, u32>::empty(),
    {
        BitrateOverrides::new()
    }
}

} // verus!
