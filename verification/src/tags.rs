//! The tags of a map element: a mapping from keys to values, both texts.

use vstd::prelude::*;

verus! {

/// The mathematical form of a tag mapping.
pub type TagMap = Map<Seq<char>, Seq<char>>;

/// The tags of a map element. Each key is held once.
#[derive(Debug)]
pub struct Tags {
    entries: Vec<(String, String)>,
}

/// Whether `entries` hold each key once and are the pairs of `model`, no more
/// and no less.
spec fn consistent(entries: Seq<(String, String)>, model: TagMap) -> bool {
    &&& forall|i: int|
        0 <= i < entries.len() ==> model.contains_pair((#[trigger] entries[i]).0@, entries[i].1@)
    &&& forall|i: int, j: int|
        0 <= i < j < entries.len() ==> (#[trigger] entries[i]).0@ != (#[trigger] entries[j]).0@
    &&& forall|key: Seq<char>| #[trigger]
        model.dom().contains(key) ==> exists|i: int|
            0 <= i < entries.len() && (#[trigger] entries[i]).0@ == key
}

/// Whether `entries` hold each key once.
spec fn distinct_keys(entries: Seq<(String, String)>) -> bool {
    forall|i: int, j: int|
        0 <= i < j < entries.len() ==> (#[trigger] entries[i]).0@ != (#[trigger] entries[j]).0@
}

/// Whether `entries` hold the key `key` at `i`.
spec fn holds_key_at(entries: Seq<(String, String)>, key: Seq<char>, i: int) -> bool {
    0 <= i < entries.len() && entries[i].0@ == key
}

/// The mapping that `entries` stand for.
spec fn model_of(entries: Seq<(String, String)>) -> TagMap {
    Map::new(
        |key: Seq<char>| exists|i: int| holds_key_at(entries, key, i),
        |key: Seq<char>| entries[choose|i: int| holds_key_at(entries, key, i)].1@,
    )
}

/// Entries with distinct keys are the pairs of the mapping they stand for.
proof fn lemma_model_consistent(entries: Seq<(String, String)>)
    requires
        distinct_keys(entries),
    ensures
        consistent(entries, model_of(entries)),
{
    let model = model_of(entries);
    assert forall|i: int| 0 <= i < entries.len() implies model.contains_pair(
        (#[trigger] entries[i]).0@,
        entries[i].1@,
    ) by {
        let key = entries[i].0@;
        assert(holds_key_at(entries, key, i));
        let j = choose|j: int| holds_key_at(entries, key, j);
        assert(j == i) by {
            if j < i {
                assert(entries[j].0@ != entries[i].0@);
            } else if i < j {
                assert(entries[i].0@ != entries[j].0@);
            }
        }
    }
    assert forall|key: Seq<char>| #[trigger] model.dom().contains(key) implies exists|i: int|
        0 <= i < entries.len() && (#[trigger] entries[i]).0@ == key by {
        let i = choose|i: int| holds_key_at(entries, key, i);
        assert(entries[i].0@ == key);
    }
}

/// Only one mapping has the given entries as its pairs.
proof fn lemma_model_determined(entries: Seq<(String, String)>, model: TagMap)
    requires
        consistent(entries, model),
    ensures
        model_of(entries) == model,
{
    let built = model_of(entries);
    assert forall|key: Seq<char>| built.dom().contains(key) <==> model.dom().contains(key) by {
        if built.dom().contains(key) {
            let i = choose|i: int| holds_key_at(entries, key, i);
            assert(model.contains_pair(entries[i].0@, entries[i].1@));
        }
        if model.dom().contains(key) {
            let i = choose|i: int| 0 <= i < entries.len() && (#[trigger] entries[i]).0@ == key;
            assert(holds_key_at(entries, key, i));
        }
    }
    assert forall|key: Seq<char>| built.dom().contains(key) implies built[key] == model[key] by {
        let i = choose|i: int| holds_key_at(entries, key, i);
        assert(holds_key_at(entries, key, i));
        assert(model.contains_pair(entries[i].0@, entries[i].1@));
    }
    assert(built =~= model);
}

impl View for Tags {
    type V = TagMap;

    closed spec fn view(&self) -> TagMap {
        model_of(self.entries@)
    }
}

impl Clone for Tags {
    fn clone(&self) -> (r: Self)
        ensures
            r@ == self@,
    {
        proof {
            use_type_invariant(self);
        }
        let mut entries: Vec<(String, String)> = Vec::new();
        let mut i: usize = 0;
        while i < self.entries.len()
            invariant
                i <= self.entries.len(),
                entries@ == self.entries@.take(i as int),
            decreases self.entries.len() - i,
        {
            entries.push((self.entries[i].0.clone(), self.entries[i].1.clone()));
            assert(entries@ =~= self.entries@.take(i + 1));
            i += 1;
        }
        assert(entries@ =~= self.entries@);
        Tags { entries }
    }
}

impl Tags {
    #[verifier::type_invariant]
    spec fn each_key_once(&self) -> bool {
        distinct_keys(self.entries@)
    }

    /// No tags at all.
    pub fn new() -> (r: Self)
        ensures
            r@ == TagMap::empty(),
    {
        let entries: Vec<(String, String)> = Vec::new();
        proof {
            lemma_model_determined(entries@, TagMap::empty());
        }
        Tags { entries }
    }

    /// Position of the entry for `key`, if there is one.
    fn position(&self, key: &str) -> (r: Option<usize>)
        ensures
            r is Some <==> self@.dom().contains(key@),
            r matches Some(i) ==> i < self.entries@.len() && self.entries@[i as int].0@ == key@
                && self.entries@[i as int].1@ == self@[key@],
    {
        proof {
            use_type_invariant(self);
            lemma_model_consistent(self.entries@);
        }
        let wanted: String = key.to_owned();
        let mut i: usize = 0;
        while i < self.entries.len()
            invariant
                i <= self.entries.len(),
                wanted@ == key@,
                forall|j: int| 0 <= j < i ==> (#[trigger] self.entries@[j]).0@ != key@,
            decreases self.entries.len() - i,
        {
            if self.entries[i].0 == wanted {
                proof {
                    use_type_invariant(self);
                    lemma_model_consistent(self.entries@);
                    assert(self@.contains_pair(
                        self.entries@[i as int].0@,
                        self.entries@[i as int].1@,
                    ));
                }
                return Some(i);
            }
            i += 1;
        }
        None
    }

    /// Whether there is a tag with the key `key`.
    pub fn contains_key(&self, key: &str) -> (r: bool)
        ensures
            r == self@.dom().contains(key@),
    {
        self.position(key).is_some()
    }

    /// The value of the tag with the key `key`, if there is one.
    pub fn get(&self, key: &str) -> (r: Option<&str>)
        ensures
            r is Some <==> self@.dom().contains(key@),
            r matches Some(value) ==> value@ == self@[key@],
    {
        match self.position(key) {
            Some(i) => Some(self.entries[i].1.as_str()),
            None => None,
        }
    }

    /// Sets the tag with the key `key` to `value`, whether or not there was one.
    pub fn insert(&mut self, key: &str, value: &str)
        ensures
            final(self)@ == old(self)@.insert(key@, value@),
    {
        let found = self.position(key);
        let mut taken = Tags::new();
        std::mem::swap(self, &mut taken);
        proof {
            use_type_invariant(&taken);
            lemma_model_consistent(taken.entries@);
        }
        let ghost model = taken@;
        let mut entries = taken.entries;
        let ghost before = entries@;
        match found {
            Some(i) => {
                entries.set(i, (key.to_owned(), value.to_owned()));
            },
            None => {
                entries.push((key.to_owned(), value.to_owned()));
            },
        }
        let ghost after = model.insert(key@, value@);
        proof {
            if found is None {
                assert forall|i: int| 0 <= i < before.len() implies (#[trigger] before[i]).0@
                    != key@ by {
                    assert(model.contains_pair(before[i].0@, before[i].1@));
                }
            }
            assert forall|i: int| 0 <= i < entries@.len() implies after.contains_pair(
                (#[trigger] entries@[i]).0@,
                entries@[i].1@,
            ) by {
                if i < before.len() && !(found is Some && found->0 == i) {
                    assert(model.contains_pair(before[i].0@, before[i].1@));
                    assert(before[i].0@ != key@);
                }
            }
            assert forall|i: int, j: int| 0 <= i < j < entries@.len() implies (
            #[trigger] entries@[i]).0@ != (#[trigger] entries@[j]).0@ by {
                if j < before.len() {
                    assert(before[i].0@ != before[j].0@);
                }
            }
            assert forall|k: Seq<char>| #[trigger] after.dom().contains(k) implies exists|i: int|
                0 <= i < entries@.len() && (#[trigger] entries@[i]).0@ == k by {
                if k == key@ {
                    let at = if found is Some {
                        found->0 as int
                    } else {
                        before.len() as int
                    };
                    assert(entries@[at].0@ == k);
                } else {
                    let at = choose|i: int| 0 <= i < before.len() && (#[trigger] before[i]).0@ == k;
                    assert(entries@[at].0@ == k);
                }
            }
            assert(consistent(entries@, after));
            lemma_model_determined(entries@, after);
        }
        *self = Tags { entries };
    }

    /// The number of tags.
    pub fn len(&self) -> (r: usize)
        ensures
            r == self@.dom().len(),
            self@.dom().finite(),
    {
        proof {
            use_type_invariant(self);
            lemma_counted(self.entries@);
        }
        self.entries.len()
    }
}

/// Entries with distinct keys stand for a mapping of as many keys.
proof fn lemma_counted(entries: Seq<(String, String)>)
    requires
        distinct_keys(entries),
    ensures
        model_of(entries).dom().finite(),
        model_of(entries).dom().len() == entries.len(),
    decreases entries.len(),
{
    if entries.len() == 0 {
        assert(model_of(entries).dom() =~= Set::<Seq<char>>::empty());
    } else {
        let shorter = entries.drop_last();
        let last = entries.last();
        assert(distinct_keys(shorter)) by {
            assert forall|i: int, j: int| 0 <= i < j < shorter.len() implies (
            #[trigger] shorter[i]).0@ != (#[trigger] shorter[j]).0@ by {
                assert(entries[i].0@ != entries[j].0@);
            }
        }
        lemma_counted(shorter);
        assert(!model_of(shorter).dom().contains(last.0@)) by {
            if model_of(shorter).dom().contains(last.0@) {
                let i = choose|i: int| holds_key_at(shorter, last.0@, i);
                assert(entries[i].0@ != entries[entries.len() - 1].0@);
            }
        }
        assert(model_of(entries).dom() =~= model_of(shorter).dom().insert(last.0@)) by {
            assert forall|key: Seq<char>|
                model_of(entries).dom().contains(key) <==> model_of(shorter).dom().insert(
                    last.0@,
                ).contains(key) by {
                if model_of(entries).dom().contains(key) {
                    let i = choose|i: int| holds_key_at(entries, key, i);
                    if i < shorter.len() {
                        assert(holds_key_at(shorter, key, i));
                    }
                }
                if model_of(shorter).dom().contains(key) {
                    let i = choose|i: int| holds_key_at(shorter, key, i);
                    assert(holds_key_at(entries, key, i));
                }
                if key == last.0@ {
                    assert(holds_key_at(entries, key, entries.len() - 1));
                }
            }
        }
    }
}

} // verus!
