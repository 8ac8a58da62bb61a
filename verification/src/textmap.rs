//! A map from texts to values that remembers the order of insertion.

use vstd::prelude::*;
use vstd::string::*;

use crate::text::same_text;

verus! {

/// A map keyed by text. Walking it visits the keys in the order in which they
/// were first inserted.
#[derive(Debug)]
pub struct TextMap<V> {
    entries: Vec<(String, V)>,
}

/// Whether each key occurs once.
pub open spec fn keys_distinct<V>(s: Seq<(String, V)>) -> bool {
    forall|i: int, j: int|
        0 <= i < j < s.len() ==> (#[trigger] s[i]).0@ != (#[trigger] s[j]).0@
}

/// Whether position `i` holds the key `k`.
pub open spec fn holds_at<V>(s: Seq<(String, V)>, k: Seq<char>, i: int) -> bool {
    0 <= i < s.len() && s[i].0@ == k
}

/// The map that a row of entries with distinct keys stands for.
pub open spec fn as_map<V>(s: Seq<(String, V)>) -> Map<Seq<char>, V> {
    Map::new(
        |k: Seq<char>| exists|i: int| holds_at(s, k, i),
        |k: Seq<char>| s[choose|i: int| holds_at(s, k, i)].1,
    )
}

/// Each entry is in the map.
proof fn lemma_entry_in_map<V>(s: Seq<(String, V)>, i: int)
    requires
        keys_distinct(s),
        0 <= i < s.len(),
    ensures
        as_map(s).contains_key(s[i].0@),
        as_map(s)[s[i].0@] == s[i].1,
{
    let k = s[i].0@;
    assert(holds_at(s, k, i));
    let j = choose|j: int| holds_at(s, k, j);
    assert(holds_at(s, k, j));
    if i < j {
        assert(s[i].0@ != s[j].0@);
    } else if j < i {
        assert(s[j].0@ != s[i].0@);
    }
}

impl<V> View for TextMap<V> {
    type V = Map<Seq<char>, V>;

    closed spec fn view(&self) -> Map<Seq<char>, V> {
        as_map(self.entries@)
    }
}

impl<V> TextMap<V> {
    #[verifier::type_invariant]
    spec fn inv(&self) -> bool {
        keys_distinct(self.entries@)
    }

    /// The keys in walking order.
    pub closed spec fn key_order(&self) -> Seq<Seq<char>> {
        Seq::new(self.entries@.len(), |i: int| self.entries@[i].0@)
    }

    /// An empty map.
    pub fn new() -> (r: Self)
        ensures
            r@ == Map::<Seq<char>, V>::empty(),
            r.key_order() == Seq::<Seq<char>>::empty(),
    {
        let r = TextMap { entries: Vec::new() };
        proof {
            assert(r.key_order() =~= Seq::empty());
            assert forall|k: Seq<char>| !r@.contains_key(k) by {}
            assert(r@ =~= Map::empty());
        }
        r
    }

    /// The number of keys. The walk visits each key of the map once, and
    /// nothing else.
    pub fn len(&self) -> (r: usize)
        ensures
            r == self.key_order().len(),
            self.key_order().no_duplicates(),
            forall|k: Seq<char>| self@.contains_key(k) <==> self.key_order().contains(k),
    {
        proof {
            use_type_invariant(self);
            let order = self.key_order();
            assert forall|k: Seq<char>| self@.contains_key(k) implies order.contains(k) by {
                let i = choose|i: int| holds_at(self.entries@, k, i);
                assert(order[i] == k);
            }
            assert forall|k: Seq<char>| order.contains(k) implies self@.contains_key(k) by {
                let i = choose|i: int| 0 <= i < order.len() && order[i] == k;
                lemma_entry_in_map(self.entries@, i);
            }
            assert forall|i: int, j: int|
                0 <= i < order.len() && 0 <= j < order.len() && i != j implies order[i]
                != order[j] by {
                if i < j {
                    assert(self.entries@[i].0@ != self.entries@[j].0@);
                } else {
                    assert(self.entries@[j].0@ != self.entries@[i].0@);
                }
            }
        }
        self.entries.len()
    }

    /// Whether there is no key.
    pub fn is_empty(&self) -> (r: bool)
        ensures
            r == (self.key_order().len() == 0),
            r == (self@ == Map::<Seq<char>, V>::empty()),
    {
        proof {
            use_type_invariant(self);
            if self.entries@.len() == 0 {
                assert forall|k: Seq<char>| !self@.contains_key(k) by {}
                assert(self@ =~= Map::empty());
            } else {
                lemma_entry_in_map(self.entries@, 0);
            }
        }
        self.entries.len() == 0
    }

    /// The position of `key`, if it is there.
    fn position(&self, key: &str) -> (r: Option<usize>)
        ensures
            match r {
                Some(i) => holds_at(self.entries@, key@, i as int),
                None => forall|i: int| !holds_at(self.entries@, key@, i),
            },
    {
        let mut i: usize = 0;
        while i < self.entries.len()
            invariant
                i <= self.entries@.len(),
                forall|k: int| 0 <= k < i ==> !holds_at(self.entries@, key@, k),
            decreases self.entries@.len() - i,
        {
            if same_text(self.entries[i].0.as_str(), key) {
                return Some(i);
            }
            i = i + 1;
        }
        None
    }

    /// The value of `key`.
    pub fn get(&self, key: &str) -> (r: Option<&V>)
        ensures
            match r {
                Some(v) => self@.contains_key(key@) && self@[key@] == *v,
                None => !self@.contains_key(key@),
            },
    {
        proof {
            use_type_invariant(self);
        }
        match self.position(key) {
            Some(i) => {
                proof {
                    lemma_entry_in_map(self.entries@, i as int);
                }
                Some(&self.entries[i].1)
            },
            None => None,
        }
    }

    /// Gives `key` the value `value`. A new key goes to the end of the walk;
    /// a known key keeps its place.
    pub fn insert(&mut self, key: String, value: V)
        ensures
            final(self)@ == old(self)@.insert(key@, value),
            final(self).key_order() == if old(self)@.contains_key(key@) {
                old(self).key_order()
            } else {
                old(self).key_order().push(key@)
            },
    {
        proof {
            use_type_invariant(&*self);
        }
        let at = self.position(key.as_str());
        let ghost before = self.entries@;
        let ghost k = key@;
        let mut entries: Vec<(String, V)> = Vec::new();
        std::mem::swap(&mut entries, &mut self.entries);
        match at {
            Some(i) => {
                proof {
                    lemma_entry_in_map(before, i as int);
                }
                entries[i] = (key, value);
                proof {
                    let after = entries@;
                    assert forall|a: int| 0 <= a < after.len() implies (#[trigger] after[a]).0@
                        == before[a].0@ by {}
                    assert(keys_distinct(after));
                    lemma_updated(before, after, i as int, k, value);
                }
            },
            None => {
                entries.push((key, value));
                proof {
                    let after = entries@;
                    assert forall|a: int, b: int| 0 <= a < b < after.len() implies (
                    #[trigger] after[a]).0@ != (#[trigger] after[b]).0@ by {
                        assert(after[a] == before[a]);
                        assert(!holds_at(before, k, a));
                        if b < before.len() {
                            assert(after[b] == before[b]);
                        }
                    }
                    lemma_appended(before, after, k, value);
                }
            },
        }
        self.entries = entries;
        proof {
            assert(self.key_order() =~= if old(self)@.contains_key(k) {
                old(self).key_order()
            } else {
                old(self).key_order().push(k)
            });
        }
    }

    /// The key at a place of the walk.
    pub fn key_at(&self, i: usize) -> (r: &String)
        requires
            i < self.key_order().len(),
        ensures
            r@ == self.key_order()[i as int],
            self@.contains_key(r@),
    {
        proof {
            use_type_invariant(self);
            lemma_entry_in_map(self.entries@, i as int);
        }
        &self.entries[i].0
    }

    /// The value at a place of the walk.
    pub fn value_at(&self, i: usize) -> (r: &V)
        requires
            i < self.key_order().len(),
        ensures
            self@.contains_key(self.key_order()[i as int]),
            *r == self@[self.key_order()[i as int]],
    {
        proof {
            use_type_invariant(self);
            lemma_entry_in_map(self.entries@, i as int);
        }
        &self.entries[i].1
    }
}

/// Replacing the value of one entry updates the map at its key.
proof fn lemma_updated<V>(
    before: Seq<(String, V)>,
    after: Seq<(String, V)>,
    i: int,
    k: Seq<char>,
    v: V,
)
    requires
        keys_distinct(before),
        keys_distinct(after),
        before.len() == after.len(),
        0 <= i < before.len(),
        before[i].0@ == k,
        after[i].0@ == k,
        after[i].1 == v,
        forall|a: int| 0 <= a < after.len() && a != i ==> after[a] == before[a],
    ensures
        as_map(after) == as_map(before).insert(k, v),
{
    lemma_entry_in_map(after, i);
    let lhs = as_map(after);
    let rhs = as_map(before).insert(k, v);
    assert forall|x: Seq<char>| #[trigger] lhs.dom().contains(x) implies rhs.dom().contains(x)
        && lhs[x] == rhs[x] by {
        let a = choose|a: int| holds_at(after, x, a);
        lemma_entry_in_map(after, a);
        if a != i {
            assert(holds_at(before, x, a));
            lemma_entry_in_map(before, a);
            if a < i {
                assert(after[a].0@ != after[i].0@);
            } else {
                assert(after[i].0@ != after[a].0@);
            }
        }
    }
    assert forall|x: Seq<char>| #[trigger] rhs.dom().contains(x) implies lhs.dom().contains(
        x,
    ) by {
        if x != k {
            let a = choose|a: int| holds_at(before, x, a);
            assert(holds_at(after, x, a));
        }
    }
    assert(lhs.dom() =~= rhs.dom());
    assert(lhs =~= rhs);
}

/// Appending an entry with a new key adds it to the map.
proof fn lemma_appended<V>(
    before: Seq<(String, V)>,
    after: Seq<(String, V)>,
    k: Seq<char>,
    v: V,
)
    requires
        keys_distinct(before),
        keys_distinct(after),
        after.len() == before.len() + 1,
        after[before.len() as int].0@ == k,
        after[before.len() as int].1 == v,
        forall|a: int| 0 <= a < before.len() ==> after[a] == before[a],
        forall|a: int| !holds_at(before, k, a),
    ensures
        as_map(after) == as_map(before).insert(k, v),
{
    lemma_entry_in_map(after, before.len() as int);
    let lhs = as_map(after);
    let rhs = as_map(before).insert(k, v);
    assert forall|x: Seq<char>| #[trigger] lhs.dom().contains(x) implies rhs.dom().contains(x)
        && lhs[x] == rhs[x] by {
        let a = choose|a: int| holds_at(after, x, a);
        lemma_entry_in_map(after, a);
        if a < before.len() {
            assert(holds_at(before, x, a));
            lemma_entry_in_map(before, a);
        }
    }
    assert forall|x: Seq<char>| #[trigger] rhs.dom().contains(x) implies lhs.dom().contains(
        x,
    ) by {
        if x != k {
            let a = choose|a: int| holds_at(before, x, a);
            assert(holds_at(after, x, a));
        }
    }
    assert(lhs.dom() =~= rhs.dom());
    assert(lhs =~= rhs);
}

} // verus!
