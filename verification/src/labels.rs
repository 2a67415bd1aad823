//! Labels: key/value pairs of text, the lists that carry them, and the
//! duplicate-free label map that objects are described by.

use vstd::prelude::*;

verus! {

/// A label list as mathematics: (key, value) pairs in order.
pub type Labels = Seq<(Seq<char>, Seq<char>)>;

/// The index of the first pair at or after `from` whose key is `key`, or the
/// length of the list when there is none.
pub open spec fn position_from(labels: Labels, key: Seq<char>, from: int) -> int
    decreases labels.len() - from,
{
    if from < 0 || from >= labels.len() {
        labels.len() as int
    } else if labels[from].0 == key {
        from
    } else {
        position_from(labels, key, from + 1)
    }
}

/// The index of the first pair whose key is `key`, or the length of the list.
pub open spec fn position(labels: Labels, key: Seq<char>) -> int {
    position_from(labels, key, 0)
}

/// Whether some pair of the list has the key.
pub open spec fn has_key(labels: Labels, key: Seq<char>) -> bool {
    position(labels, key) < labels.len()
}

/// The value of the first pair with the key.
pub open spec fn lookup(labels: Labels, key: Seq<char>) -> Option<Seq<char>> {
    if has_key(labels, key) {
        Some(labels[position(labels, key)].1)
    } else {
        None
    }
}

/// The list after `key` was given `value`: the first pair with that key is
/// overwritten in place, and a key that is new goes to the end.
pub open spec fn put(labels: Labels, key: Seq<char>, value: Seq<char>) -> Labels {
    if has_key(labels, key) {
        labels.update(position(labels, key), (key, value))
    } else {
        labels.push((key, value))
    }
}

/// The list after every pair of `more` was put into it, first to last.
pub open spec fn put_all(labels: Labels, more: Labels) -> Labels
    decreases more.len(),
{
    if more.len() == 0 {
        labels
    } else {
        put(put_all(labels, more.drop_last()), more.last().0, more.last().1)
    }
}

/// The list without its pairs under `key`.
pub open spec fn without_key(labels: Labels, key: Seq<char>) -> Labels {
    labels.filter(|pair: (Seq<char>, Seq<char>)| pair.0 != key)
}

/// The list without its pairs under any of the keys.
pub open spec fn without_keys(labels: Labels, keys: Seq<Seq<char>>) -> Labels
    decreases keys.len(),
{
    if keys.len() == 0 {
        labels
    } else {
        without_key(without_keys(labels, keys.drop_last()), keys.last())
    }
}

/// No key occurs twice.
pub open spec fn distinct_keys(labels: Labels) -> bool {
    forall|i: int, j: int| 0 <= i < j < labels.len() ==> labels[i].0 != labels[j].0
}

/// What `position_from` finds: a pair with the key, and none before it.
pub proof fn lemma_position_from(labels: Labels, key: Seq<char>, from: int)
    requires
        0 <= from <= labels.len(),
    ensures
        from <= position_from(labels, key, from) <= labels.len(),
        position_from(labels, key, from) < labels.len() ==> labels[position_from(
            labels,
            key,
            from,
        )].0 == key,
        forall|j: int| from <= j < position_from(labels, key, from) ==> labels[j].0 != key,
    decreases labels.len() - from,
{
    if from < labels.len() && labels[from].0 != key {
        lemma_position_from(labels, key, from + 1);
    }
}

/// `position` is the one index that holds the key with no earlier pair
/// holding it.
pub proof fn lemma_position_is(labels: Labels, key: Seq<char>, at: int)
    requires
        0 <= at <= labels.len(),
        at < labels.len() ==> labels[at].0 == key,
        forall|j: int| 0 <= j < at ==> labels[j].0 != key,
    ensures
        position(labels, key) == at,
{
    lemma_position_from(labels, key, 0);
}

/// Putting a pair keeps the keys distinct, keeps the other keys' values and
/// gives the key its new value.
pub proof fn lemma_put(labels: Labels, key: Seq<char>, value: Seq<char>)
    ensures
        distinct_keys(labels) ==> distinct_keys(put(labels, key, value)),
        lookup(put(labels, key, value), key) == Some(value),
        forall|other: Seq<char>|
            other != key ==> #[trigger] lookup(put(labels, key, value), other) == lookup(
                labels,
                other,
            ),
{
    let after = put(labels, key, value);
    lemma_position_from(labels, key, 0);
    let at = position(labels, key);
    lemma_position_is(after, key, at);
    assert forall|other: Seq<char>| other != key implies #[trigger] lookup(after, other)
        == lookup(labels, other) by {
        lemma_position_from(labels, other, 0);
        if has_key(labels, other) {
            lemma_position_is(after, other, position(labels, other));
        } else {
            lemma_position_is(after, other, after.len() as int);
        }
    }
}

/// Putting a list of pairs with distinct keys over labels keeps the keys
/// distinct; a key of the list then has the value that the list gives it, and
/// every other key keeps its value.
pub proof fn lemma_put_all(labels: Labels, more: Labels)
    requires
        distinct_keys(more),
    ensures
        distinct_keys(labels) ==> distinct_keys(put_all(labels, more)),
        forall|key: Seq<char>|
            #[trigger] lookup(put_all(labels, more), key) == if has_key(more, key) {
                lookup(more, key)
            } else {
                lookup(labels, key)
            },
    decreases more.len(),
{
    if more.len() == 0 {
        assert forall|key: Seq<char>| !has_key(more, key) by {
            lemma_position_from(more, key, 0);
        }
    } else {
        let front = more.drop_last();
        let last = more.last();
        lemma_put_all(labels, front);
        lemma_put(put_all(labels, front), last.0, last.1);
        assert forall|key: Seq<char>| #[trigger]
            lookup(put_all(labels, more), key) == if has_key(more, key) {
                lookup(more, key)
            } else {
                lookup(labels, key)
            } by {
            lemma_position_from(more, key, 0);
            lemma_position_from(front, key, 0);
            if key == last.0 {
                assert forall|j: int| 0 <= j < front.len() implies more[j].0 != key by {}
                lemma_position_is(more, key, more.len() - 1);
            } else if has_key(front, key) {
                let at = position(front, key);
                assert(front[at] == more[at]);
                assert forall|j: int| 0 <= j < at implies more[j].0 != key by {
                    assert(front[j] == more[j]);
                }
                lemma_position_is(more, key, at);
            } else {
                assert forall|j: int| 0 <= j < more.len() implies more[j].0 != key by {
                    if j < front.len() {
                        assert(front[j] == more[j]);
                    }
                }
                lemma_position_is(more, key, more.len() as int);
            }
        }
    }
}

/// In a list of distinct keys, dropping a key removes the one pair that has
/// it, and nothing when no pair has it.
pub proof fn lemma_without_key(labels: Labels, key: Seq<char>)
    requires
        distinct_keys(labels),
    ensures
        has_key(labels, key) ==> without_key(labels, key) == labels.remove(position(labels, key)),
        !has_key(labels, key) ==> without_key(labels, key) == labels,
        distinct_keys(without_key(labels, key)),
    decreases labels.len(),
{
    reveal(Seq::filter);
    let keep = |pair: (Seq<char>, Seq<char>)| pair.0 != key;
    lemma_position_from(labels, key, 0);
    if labels.len() > 0 {
        let front = labels.drop_last();
        lemma_without_key(front, key);
        lemma_position_from(front, key, 0);
        if has_key(front, key) {
            lemma_position_is(labels, key, position(front, key));
            assert(labels.remove(position(labels, key)) =~= front.remove(position(front, key)).push(
                labels.last(),
            ));
        } else if labels.last().0 == key {
            lemma_position_is(labels, key, labels.len() - 1);
            assert(labels.remove(position(labels, key)) =~= front);
        } else {
            assert forall|j: int| 0 <= j < labels.len() implies labels[j].0 != key by {
                if j < front.len() {
                    assert(front[j] == labels[j]);
                }
            }
            lemma_position_is(labels, key, labels.len() as int);
            assert(front.push(labels.last()) =~= labels);
        }
    }
}

/// A label: a key and its value.
#[derive(Debug)]
pub struct KV {
    pub key: String,
    pub value: String,
}

/// A list of labels.
pub type KVs = Vec<KV>;

impl View for KV {
    type V = (Seq<char>, Seq<char>);

    open spec fn view(&self) -> (Seq<char>, Seq<char>) {
        (self.key@, self.value@)
    }
}

impl Clone for KV {
    fn clone(&self) -> (r: Self)
        ensures
            r@ == self@,
    {
        KV { key: self.key.clone(), value: self.value.clone() }
    }
}

/// The pairs that a list of labels holds.
pub open spec fn kvs_view(kvs: Seq<KV>) -> Labels {
    kvs.map_values(|kv: KV| kv@)
}

/// The text of an optional string.
pub open spec fn text_of(value: Option<String>) -> Option<Seq<char>> {
    match value {
        Some(s) => Some(s@),
        None => None,
    }
}

impl KV {
    /// The value of the first label in `kvs` whose key is `key`.
    pub fn find_value(kvs: &KVs, key: &String) -> (r: Option<String>)
        ensures
            text_of(r) == lookup(kvs_view(kvs@), key@),
    {
        let mut i: usize = 0;
        while i < kvs.len()
            invariant
                i <= kvs.len(),
                forall|j: int| 0 <= j < i ==> kvs_view(kvs@)[j].0 != key@,
            decreases kvs.len() - i,
        {
            if kvs[i].key == *key {
                proof {
                    lemma_position_is(kvs_view(kvs@), key@, i as int);
                }
                return Some(kvs[i].value.clone());
            }
            i += 1;
        }
        proof {
            lemma_position_is(kvs_view(kvs@), key@, kvs.len() as int);
        }
        None
    }

    /// The value of the first label in `kvs` whose key is `key`, or
    /// `default` when no label has that key.
    pub fn find_value_default(kvs: &KVs, key: &String, default: String) -> (r: String)
        ensures
            r@ == match lookup(kvs_view(kvs@), key@) {
                Some(v) => v,
                None => default@,
            },
    {
        match KV::find_value(kvs, key) {
            Some(v) => v,
            None => default,
        }
    }

    /// A label of the given key and value.
    pub fn new(key: String, value: String) -> (r: KV)
        ensures
            r@ == (key@, value@),
    {
        KV { key, value }
    }

    /// A label from a pair of references.
    pub fn from_pair(pair: (&String, &String)) -> (r: KV)
        ensures
            r@ == (pair.0@, pair.1@),
    {
        KV::new(pair.0.clone(), pair.1.clone())
    }

    /// The label as a pair of owned strings.
    pub fn to_pair(&self) -> (r: (String, String))
        ensures
            (r.0@, r.1@) == self@,
    {
        (self.key.clone(), self.value.clone())
    }
}

/// A map from label keys to values, kept as a list in which no key occurs
/// twice; a key keeps the place at which it was first inserted.
#[derive(Debug)]
pub struct LabelMap {
    entries: Vec<KV>,
}

impl View for LabelMap {
    type V = Labels;

    closed spec fn view(&self) -> Labels {
        kvs_view(self.entries@)
    }
}

impl Clone for LabelMap {
    fn clone(&self) -> (r: Self)
        ensures
            r@ == self@,
    {
        proof {
            use_type_invariant(self);
        }
        let mut entries: Vec<KV> = Vec::new();
        let mut i: usize = 0;
        while i < self.entries.len()
            invariant
                i <= self.entries.len(),
                entries@.len() == i,
                kvs_view(entries@) == kvs_view(self.entries@).take(i as int),
                distinct_keys(kvs_view(self.entries@)),
            decreases self.entries.len() - i,
        {
            entries.push(self.entries[i].clone());
            i += 1;
        }
        LabelMap { entries }
    }
}

impl LabelMap {
    #[verifier::type_invariant]
    spec fn keys_are_distinct(&self) -> bool {
        distinct_keys(kvs_view(self.entries@))
    }

    /// Moves the entries out and leaves the map empty.
    fn take_entries(&mut self) -> (r: Vec<KV>)
        ensures
            kvs_view(r@) == old(self)@,
            final(self)@.len() == 0,
    {
        let mut taken = LabelMap { entries: Vec::new() };
        std::mem::swap(self, &mut taken);
        taken.entries
    }

    /// A map without labels.
    pub fn new() -> (r: LabelMap)
        ensures
            r@ == Seq::<(Seq<char>, Seq<char>)>::empty(),
    {
        let r = LabelMap { entries: Vec::new() };
        r
    }

    /// The number of labels.
    pub fn len(&self) -> (r: usize)
        ensures
            r == self@.len(),
            distinct_keys(self@),
    {
        proof {
            use_type_invariant(self);
        }
        self.entries.len()
    }

    /// Whether the map holds no label.
    pub fn is_empty(&self) -> (r: bool)
        ensures
            r == (self@.len() == 0),
    {
        self.entries.len() == 0
    }

    /// The index of the entry under `key`, or the number of entries.
    fn find(&self, key: &String) -> (r: usize)
        ensures
            r == position(self@, key@),
            r <= self@.len(),
            r < self@.len() ==> self@[r as int].0 == key@,
    {
        let mut i: usize = 0;
        while i < self.entries.len()
            invariant
                i <= self.entries.len(),
                forall|j: int| 0 <= j < i ==> self@[j].0 != key@,
            decreases self.entries.len() - i,
        {
            if self.entries[i].key == *key {
                proof {
                    lemma_position_is(self@, key@, i as int);
                }
                return i;
            }
            i += 1;
        }
        proof {
            lemma_position_is(self@, key@, i as int);
        }
        i
    }

    /// Whether a label with the key is present.
    pub fn contains_key(&self, key: &String) -> (r: bool)
        ensures
            r == has_key(self@, key@),
    {
        self.find(key) < self.entries.len()
    }

    /// The value under `key`.
    pub fn get(&self, key: &String) -> (r: Option<String>)
        ensures
            text_of(r) == lookup(self@, key@),
    {
        let at = self.find(key);
        if at < self.entries.len() {
            Some(self.entries[at].value.clone())
        } else {
            None
        }
    }

    /// Gives `key` the value `value`, overwriting the value it had.
    pub fn insert(&mut self, key: String, value: String)
        ensures
            final(self)@ == put(old(self)@, key@, value@),
            distinct_keys(final(self)@),
    {
        proof {
            use_type_invariant(&*self);
            lemma_put(self@, key@, value@);
        }
        let at = self.find(&key);
        let mut entries = self.take_entries();
        if at < entries.len() {
            entries.set(at, KV { key, value });
        } else {
            entries.push(KV { key, value });
        }
        assert(kvs_view(entries@) =~= put(old(self)@, key@, value@));
        *self = LabelMap { entries };
    }

    /// Puts every label of `kvs` into the map, first to last, so that of two
    /// labels with one key the later one stays.
    pub fn insert_all(&mut self, kvs: &KVs)
        ensures
            final(self)@ == put_all(old(self)@, kvs_view(kvs@)),
            distinct_keys(final(self)@),
    {
        proof {
            use_type_invariant(&*self);
        }
        let mut i: usize = 0;
        while i < kvs.len()
            invariant
                i <= kvs.len(),
                self@ == put_all(old(self)@, kvs_view(kvs@).take(i as int)),
                distinct_keys(self@),
            decreases kvs.len() - i,
        {
            self.insert(kvs[i].key.clone(), kvs[i].value.clone());
            i += 1;
            assert(kvs_view(kvs@).take(i as int).drop_last() =~= kvs_view(kvs@).take(i - 1));
        }
        assert(kvs_view(kvs@).take(i as int) =~= kvs_view(kvs@));
    }

    /// Puts every label of `other` into the map, overwriting on equal keys.
    pub fn merge(&mut self, other: &LabelMap)
        ensures
            final(self)@ == put_all(old(self)@, other@),
            distinct_keys(final(self)@),
    {
        self.insert_all(&other.entries);
    }

    /// Takes the label under `key` out of the map.
    pub fn remove(&mut self, key: &String)
        ensures
            final(self)@ == without_key(old(self)@, key@),
            distinct_keys(final(self)@),
    {
        proof {
            use_type_invariant(&*self);
            lemma_without_key(self@, key@);
        }
        let at = self.find(key);
        if at < self.entries.len() {
            let mut entries = self.take_entries();
            entries.remove(at);
            assert(kvs_view(entries@) =~= old(self)@.remove(at as int));
            *self = LabelMap { entries };
        }
    }

    /// Takes the labels under the given keys out of the map.
    pub fn remove_all(&mut self, keys: &Vec<String>)
        ensures
            final(self)@ == without_keys(old(self)@, crate::text::texts(keys@)),
            distinct_keys(final(self)@),
    {
        proof {
            use_type_invariant(&*self);
        }
        let ghost given = crate::text::texts(keys@);
        let mut i: usize = 0;
        while i < keys.len()
            invariant
                i <= keys.len(),
                given == crate::text::texts(keys@),
                self@ == without_keys(old(self)@, given.take(i as int)),
                distinct_keys(self@),
            decreases keys.len() - i,
        {
            proof {
                assert(given.take(i + 1).drop_last() =~= given.take(i as int));
            }
            self.remove(&keys[i]);
            i += 1;
        }
        assert(given.take(i as int) =~= given);
    }

    /// The labels as a list, in the map's order.
    pub fn to_kvs(&self) -> (r: KVs)
        ensures
            kvs_view(r@) == self@,
            distinct_keys(self@),
    {
        proof {
            use_type_invariant(self);
        }
        self.clone().entries
    }

    /// The map that holds the labels of `kvs`; of two labels with one key the
    /// later one stays.
    pub fn from_kvs(kvs: &KVs) -> (r: LabelMap)
        ensures
            r@ == put_all(Seq::empty(), kvs_view(kvs@)),
            distinct_keys(r@),
    {
        let mut r = LabelMap::new();
        r.insert_all(kvs);
        r
    }
}

impl KV {
    /// The map that holds the given labels; of two labels with one key the
    /// later one stays.
    pub fn to_hash_map(kvs: &KVs) -> (r: LabelMap)
        ensures
            r@ == put_all(Seq::empty(), kvs_view(kvs@)),
            distinct_keys(r@),
    {
        LabelMap::from_kvs(kvs)
    }

    /// The labels of a map as a list.
    pub fn from_hash_map(kvs: LabelMap) -> (r: KVs)
        ensures
            kvs_view(r@) == kvs@,
            distinct_keys(kvs@),
    {
        kvs.to_kvs()
    }
}

} // verus!
