//! Association tables keyed by names.
//!
//! A table holds each key at most once; its view is the map from the keys'
//! models to the stored values.

use vstd::prelude::*;

use crate::text::texts_of;
use crate::types::NodeId;

verus! {

/// A key of a [`Table`]: two keys are the same when their models are.
pub trait TableKey: Sized {
    type Model;

    spec fn model(&self) -> Self::Model;

    fn same_key(&self, other: &Self) -> (same: bool)
        ensures
            same == (self.model() == other.model()),
    ;
}

impl TableKey for String {
    type Model = Seq<char>;

    open spec fn model(&self) -> Seq<char> {
        self@
    }

    fn same_key(&self, other: &Self) -> (same: bool) {
        *self == *other
    }
}

impl TableKey for NodeId {
    type Model = Seq<char>;

    open spec fn model(&self) -> Seq<char> {
        self@
    }

    fn same_key(&self, other: &Self) -> (same: bool) {
        self.same(other)
    }
}

/// Whether no two entries share a key.
pub open spec fn distinct_keys<K: TableKey, V>(entries: Seq<(K, V)>) -> bool {
    forall|i: int, j: int|
        #![trigger entries[i], entries[j]]
        0 <= i < j < entries.len() ==> entries[i].0.model() != entries[j].0.model()
}

/// The map that a list of entries stands for.
pub open spec fn entries_map<K: TableKey, V>(entries: Seq<(K, V)>) -> Map<K::Model, V>
    decreases entries.len(),
{
    if entries.len() == 0 {
        Map::empty()
    } else {
        entries_map(entries.drop_last()).insert(entries.last().0.model(), entries.last().1)
    }
}

/// The keys of the map are those of the entries.
pub proof fn lemma_entries_dom<K: TableKey, V>(entries: Seq<(K, V)>)
    ensures
        entries_map(entries).dom().finite(),
        forall|k: K::Model|
            entries_map(entries).dom().contains(k) <==> exists|i: int|
                0 <= i < entries.len() && (#[trigger] entries[i]).0.model() == k,
    decreases entries.len(),
{
    if entries.len() > 0 {
        let rest = entries.drop_last();
        lemma_entries_dom(rest);
        assert forall|k: K::Model| entries_map(entries).dom().contains(k) implies exists|i: int|
            0 <= i < entries.len() && (#[trigger] entries[i]).0.model() == k by {
            if k == entries.last().0.model() {
                assert(entries[entries.len() - 1].0.model() == k);
            } else {
                let i = choose|i: int| 0 <= i < rest.len() && (#[trigger] rest[i]).0.model() == k;
                assert(entries[i] == rest[i]);
            }
        }
        assert forall|k: K::Model|
            (exists|i: int| 0 <= i < entries.len() && (#[trigger] entries[i]).0.model()
                == k) implies entries_map(entries).dom().contains(k) by {
            let i = choose|i: int| 0 <= i < entries.len() && (#[trigger] entries[i]).0.model() == k;
            if i < rest.len() {
                assert(rest[i] == entries[i]);
            }
        }
    }
}

/// The map holds each entry.
pub proof fn lemma_entries_at<K: TableKey, V>(entries: Seq<(K, V)>, i: int)
    requires
        distinct_keys(entries),
        0 <= i < entries.len(),
    ensures
        entries_map(entries).dom().contains(entries[i].0.model()),
        entries_map(entries)[entries[i].0.model()] == entries[i].1,
    decreases entries.len(),
{
    let rest = entries.drop_last();
    assert(distinct_keys(rest)) by {
        assert forall|a: int, b: int|
            #![trigger rest[a], rest[b]]
            0 <= a < b < rest.len() implies rest[a].0.model() != rest[b].0.model() by {
            assert(rest[a] == entries[a] && rest[b] == entries[b]);
        }
    }
    if i < rest.len() {
        lemma_entries_at(rest, i);
        assert(rest[i] == entries[i]);
        assert(entries[i].0.model() != entries[entries.len() - 1].0.model());
    }
}

/// The map has as many keys as there are entries.
pub proof fn lemma_entries_len<K: TableKey, V>(entries: Seq<(K, V)>)
    requires
        distinct_keys(entries),
    ensures
        entries_map(entries).len() == entries.len(),
    decreases entries.len(),
{
    if entries.len() > 0 {
        let rest = entries.drop_last();
        assert forall|a: int, b: int|
            #![trigger rest[a], rest[b]]
            0 <= a < b < rest.len() implies rest[a].0.model() != rest[b].0.model() by {
            assert(rest[a] == entries[a] && rest[b] == entries[b]);
        }
        lemma_entries_len(rest);
        lemma_entries_dom(rest);
        let key = entries.last().0.model();
        if entries_map(rest).dom().contains(key) {
            let i = choose|i: int| 0 <= i < rest.len() && (#[trigger] rest[i]).0.model() == key;
            assert(rest[i] == entries[i]);
            assert(entries[entries.len() - 1].0.model() == key);
        }
    }
}

proof fn lemma_entries_remove<K: TableKey, V>(entries: Seq<(K, V)>, i: int)
    requires
        distinct_keys(entries),
        0 <= i < entries.len(),
    ensures
        distinct_keys(entries.remove(i)),
        entries_map(entries.remove(i)) == entries_map(entries).remove(entries[i].0.model()),
{
    let rest = entries.remove(i);
    let key = entries[i].0.model();
    assert forall|a: int, b: int|
        #![trigger rest[a], rest[b]]
        0 <= a < b < rest.len() implies rest[a].0.model() != rest[b].0.model() by {
        let oa = if a < i { a } else { a + 1 };
        let ob = if b < i { b } else { b + 1 };
        assert(rest[a] == entries[oa] && rest[b] == entries[ob]);
    }
    lemma_entries_dom(entries);
    lemma_entries_dom(rest);
    let whole = entries_map(entries);
    let part = entries_map(rest);
    assert forall|k: K::Model| part.dom().contains(k) <==> whole.remove(key).dom().contains(k) by {
        if part.dom().contains(k) {
            let j = choose|j: int| 0 <= j < rest.len() && (#[trigger] rest[j]).0.model() == k;
            let oj = if j < i { j } else { j + 1 };
            assert(rest[j] == entries[oj]);
            assert(entries[i].0.model() != entries[oj].0.model());
        }
        if whole.remove(key).dom().contains(k) {
            let j = choose|j: int| 0 <= j < entries.len() && (#[trigger] entries[j]).0.model() == k;
            assert(j != i);
            let nj = if j < i { j } else { j - 1 };
            assert(rest[nj] == entries[j]);
        }
    }
    assert forall|k: K::Model| part.dom().contains(k) implies part[k] == whole.remove(key)[k] by {
        let j = choose|j: int| 0 <= j < rest.len() && (#[trigger] rest[j]).0.model() == k;
        let oj = if j < i { j } else { j + 1 };
        assert(rest[j] == entries[oj]);
        lemma_entries_at(rest, j);
        lemma_entries_at(entries, oj);
        assert(entries[i].0.model() != entries[oj].0.model());
    }
    assert(part =~= whole.remove(key));
}

proof fn lemma_entries_push<K: TableKey, V>(entries: Seq<(K, V)>, entry: (K, V))
    requires
        distinct_keys(entries),
        !entries_map(entries).dom().contains(entry.0.model()),
    ensures
        distinct_keys(entries.push(entry)),
        entries_map(entries.push(entry)) == entries_map(entries).insert(entry.0.model(), entry.1),
{
    let more = entries.push(entry);
    lemma_entries_dom(entries);
    assert forall|a: int, b: int|
        #![trigger more[a], more[b]]
        0 <= a < b < more.len() implies more[a].0.model() != more[b].0.model() by {
        assert(more[a] == entries[a]);
        if b < entries.len() {
            assert(more[b] == entries[b]);
        }
    }
    assert(more.drop_last() =~= entries);
}

/// A finite map from keys to values that keeps each key once.
pub struct Table<K: TableKey, V> {
    entries: Vec<(K, V)>,
}

impl<K: TableKey, V> View for Table<K, V> {
    type V = Map<K::Model, V>;

    closed spec fn view(&self) -> Map<K::Model, V> {
        entries_map(self.entries@)
    }
}

impl<K: TableKey, V> Table<K, V> {
    #[verifier::type_invariant]
    spec fn keys_are_distinct(self) -> bool {
        distinct_keys(self.entries@)
    }

    pub fn new() -> (table: Self)
        ensures
            table@ == Map::<K::Model, V>::empty(),
    {
        Table { entries: Vec::new() }
    }

    fn position(&self, key: &K) -> (found: Option<usize>)
        ensures
            match found {
                Some(i) => i < self.entries@.len() && self.entries@[i as int].0.model()
                    == key.model(),
                None => !self@.dom().contains(key.model()),
            },
    {
        let mut i: usize = 0;
        while i < self.entries.len()
            invariant
                i <= self.entries@.len(),
                forall|j: int|
                    0 <= j < i ==> (#[trigger] self.entries@[j]).0.model() != key.model(),
            decreases self.entries@.len() - i,
        {
            if self.entries[i].0.same_key(key) {
                return Some(i);
            }
            i = i + 1;
        }
        proof {
            lemma_entries_dom(self.entries@);
        }
        None
    }

    pub fn contains_key(&self, key: &K) -> (held: bool)
        ensures
            held == self@.dom().contains(key.model()),
    {
        proof {
            use_type_invariant(self);
        }
        match self.position(key) {
            Some(i) => {
                proof {
                    lemma_entries_at(self.entries@, i as int);
                }
                true
            },
            None => false,
        }
    }

    pub fn get(&self, key: &K) -> (value: Option<&V>)
        ensures
            match value {
                Some(v) => self@.dom().contains(key.model()) && *v == self@[key.model()],
                None => !self@.dom().contains(key.model()),
            },
    {
        proof {
            use_type_invariant(self);
        }
        match self.position(key) {
            Some(i) => {
                proof {
                    lemma_entries_at(self.entries@, i as int);
                }
                Some(&self.entries[i].1)
            },
            None => None,
        }
    }

    /// Takes the value out of the table.
    pub fn remove(&mut self, key: &K) -> (value: Option<V>)
        ensures
            final(self)@ == old(self)@.remove(key.model()),
            match value {
                Some(v) => old(self)@.dom().contains(key.model()) && v == old(self)@[key.model()],
                None => !old(self)@.dom().contains(key.model()),
            },
    {
        proof {
            use_type_invariant(&*self);
        }
        match self.position(key) {
            Some(i) => {
                proof {
                    lemma_entries_at(self.entries@, i as int);
                    lemma_entries_remove(self.entries@, i as int);
                }
                let mut entries: Vec<(K, V)> = Vec::new();
                std::mem::swap(&mut entries, &mut self.entries);
                let entry = entries.remove(i);
                self.entries = entries;
                Some(entry.1)
            },
            None => {
                assert(self@ =~= self@.remove(key.model()));
                None
            },
        }
    }

    /// Stores `value` under `key` and returns the value that was there.
    pub fn insert(&mut self, key: K, value: V) -> (previous: Option<V>)
        ensures
            final(self)@ == old(self)@.insert(key.model(), value),
            match previous {
                Some(v) => old(self)@.dom().contains(key.model()) && v == old(self)@[key.model()],
                None => !old(self)@.dom().contains(key.model()),
            },
    {
        let previous = self.remove(&key);
        proof {
            use_type_invariant(&*self);
            lemma_entries_push(self.entries@, (key, value));
        }
        let mut entries: Vec<(K, V)> = Vec::new();
        std::mem::swap(&mut entries, &mut self.entries);
        entries.push((key, value));
        self.entries = entries;
        proof {
            assert(old(self)@.remove(key.model()).insert(key.model(), value) =~= old(self)@.insert(
                key.model(),
                value,
            ));
        }
        previous
    }

    pub fn len(&self) -> (count: usize)
        ensures
            self@.dom().finite(),
            count == self@.len(),
    {
        proof {
            use_type_invariant(self);
            lemma_entries_len(self.entries@);
            lemma_entries_dom(self.entries@);
        }
        self.entries.len()
    }

    /// The entries, in no particular order.
    pub fn entries(&self) -> (entries: &Vec<(K, V)>)
        ensures
            distinct_keys(entries@),
            entries_map(entries@) == self@,
    {
        proof {
            use_type_invariant(self);
        }
        &self.entries
    }

    /// Takes all entries out, in no particular order.
    pub fn take_entries(&mut self) -> (entries: Vec<(K, V)>)
        ensures
            distinct_keys(entries@),
            entries_map(entries@) == old(self)@,
            final(self)@ == Map::<K::Model, V>::empty(),
    {
        proof {
            use_type_invariant(&*self);
        }
        let mut entries: Vec<(K, V)> = Vec::new();
        std::mem::swap(&mut entries, &mut self.entries);
        entries
    }

    pub fn clear(&mut self)
        ensures
            final(self)@ == Map::<K::Model, V>::empty(),
    {
        self.entries = Vec::new();
    }
}

/// A set of names.
pub struct NameSet {
    names: Table<String, ()>,
}

impl View for NameSet {
    type V = Set<Seq<char>>;

    closed spec fn view(&self) -> Set<Seq<char>> {
        self.names@.dom()
    }
}

impl NameSet {
    pub fn new() -> (set: Self)
        ensures
            set@ == Set::<Seq<char>>::empty(),
    {
        NameSet { names: Table::new() }
    }

    pub fn contains(&self, name: &String) -> (held: bool)
        ensures
            held == self@.contains(name@),
    {
        self.names.contains_key(name)
    }

    /// Adds a name. Returns whether it was missing.
    pub fn insert(&mut self, name: String) -> (added: bool)
        ensures
            final(self)@ == old(self)@.insert(name@),
            added == !old(self)@.contains(name@),
    {
        self.names.insert(name, ()).is_none()
    }

    /// Takes a name out. Returns whether it was there.
    pub fn remove(&mut self, name: &String) -> (removed: bool)
        ensures
            final(self)@ == old(self)@.remove(name@),
            removed == old(self)@.contains(name@),
    {
        self.names.remove(name).is_some()
    }

    pub fn clear(&mut self)
        ensures
            final(self)@ == Set::<Seq<char>>::empty(),
    {
        self.names.clear();
        assert(self@ =~= Set::empty());
    }

    /// The names, each once, in no particular order.
    pub fn to_list(&self) -> (names: Vec<String>)
        ensures
            texts_of(names@).to_set() == self@,
            texts_of(names@).no_duplicates(),
    {
        let entries = self.names.entries();
        let mut names: Vec<String> = Vec::new();
        let mut i: usize = 0;
        while i < entries.len()
            invariant
                i <= entries@.len(),
                names@.len() == i,
                forall|j: int| 0 <= j < i ==> #[trigger] names@[j] == entries@[j].0,
            decreases entries@.len() - i,
        {
            names.push(entries[i].0.clone());
            i = i + 1;
        }
        proof {
            lemma_entries_dom(entries@);
            let texts = texts_of(names@);
            assert forall|name: Seq<char>| texts.to_set().contains(name) <==> self@.contains(
                name,
            ) by {
                if texts.contains(name) {
                    let j = choose|j: int| 0 <= j < texts.len() && texts[j] == name;
                    assert(entries@[j].0.model() == name);
                }
                if self@.contains(name) {
                    let j = choose|j: int|
                        0 <= j < entries@.len() && (#[trigger] entries@[j]).0.model() == name;
                    assert(names@[j] == entries@[j].0);
                    assert(texts[j] == name);
                }
            }
            assert(texts.to_set() =~= self@);
            assert forall|a: int, b: int|
                0 <= a < texts.len() && 0 <= b < texts.len() && a != b implies texts[a]
                != texts[b] by {
                assert(names@[a] == entries@[a].0 && names@[b] == entries@[b].0);
            }
        }
        names
    }
}

} // verus!
