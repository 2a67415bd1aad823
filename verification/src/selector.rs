//! Selectors: a label key together with the values it may take, and the
//! rule by which a selector matches the labels of an object.

use vstd::prelude::*;
use crate::labels::LabelMap;
use crate::labels::Labels;
use crate::labels::lookup;
use crate::text::clone_strings;
use crate::text::contains_string;
use crate::text::texts;

verus! {

/// The values after `value` joined them: an absent value goes to the end, a
/// present one changes nothing.
pub open spec fn with_value(values: Seq<Seq<char>>, value: Seq<char>) -> Seq<Seq<char>> {
    if values.contains(value) {
        values
    } else {
        values.push(value)
    }
}

/// The values after each of `more` joined them, first to last.
pub open spec fn with_values(values: Seq<Seq<char>>, more: Seq<Seq<char>>) -> Seq<Seq<char>>
    decreases more.len(),
{
    if more.len() == 0 {
        values
    } else {
        with_value(with_values(values, more.drop_last()), more.last())
    }
}

/// Joining values keeps a duplicate-free list duplicate-free, and the list
/// then holds what it held before and what joined.
pub proof fn law_joined_values(values: Seq<Seq<char>>, more: Seq<Seq<char>>)
    requires
        values.no_duplicates(),
    ensures
        with_values(values, more).no_duplicates(),
        forall|v: Seq<char>|
            with_values(values, more).contains(v) <==> values.contains(v) || more.contains(v),
    decreases more.len(),
{
    if more.len() > 0 {
        let front = more.drop_last();
        law_joined_values(values, front);
        let mid = with_values(values, front);
        let all = with_values(values, more);
        assert forall|v: Seq<char>| all.contains(v) <==> values.contains(v) || more.contains(
            v,
        ) by {
            if all.contains(v) {
                let i = choose|i: int| 0 <= i < all.len() && all[i] == v;
                if i < mid.len() {
                    assert(mid[i] == v);
                    if front.contains(v) {
                        let j = choose|j: int| 0 <= j < front.len() && front[j] == v;
                        assert(more[j] == v);
                    }
                } else {
                    assert(more[more.len() - 1] == v);
                }
            }
            if values.contains(v) {
                assert(mid.contains(v));
                let i = choose|i: int| 0 <= i < mid.len() && mid[i] == v;
                assert(all[i] == v);
            }
            if more.contains(v) {
                let j = choose|j: int| 0 <= j < more.len() && more[j] == v;
                if j < front.len() {
                    assert(front[j] == v);
                    assert(mid.contains(v));
                    let i = choose|i: int| 0 <= i < mid.len() && mid[i] == v;
                    assert(all[i] == v);
                } else if !mid.contains(v) {
                    assert(all[all.len() - 1] == v);
                } else {
                    let i = choose|i: int| 0 <= i < mid.len() && mid[i] == v;
                    assert(all[i] == v);
                }
            }
        }
    }
}

/// One value joining no values is that value alone.
pub proof fn lemma_with_values_one(value: Seq<char>)
    ensures
        with_values(Seq::empty(), seq![value]) == seq![value],
{
    let none = Seq::<Seq<char>>::empty();
    assert(seq![value].drop_last() =~= none);
    assert(with_values(none, seq![value].drop_last()) == none);
    assert(with_values(none, seq![value]) =~= seq![value]);
}

/// A selector as mathematics: its key and its values in order.
pub struct SelectorView {
    pub key: Seq<char>,
    pub values: Seq<Seq<char>>,
}

/// Whether labels satisfy a selector: they hold the selector's key, and the
/// value under it is one of the selector's values.
pub open spec fn selector_matches(selector: SelectorView, labels: Labels) -> bool {
    match lookup(labels, selector.key) {
        Some(value) => selector.values.contains(value),
        None => false,
    }
}

/// Whether labels satisfy every selector of a list.
pub open spec fn all_match(selectors: Seq<SelectorView>, labels: Labels) -> bool {
    forall|i: int| 0 <= i < selectors.len() ==> selector_matches(#[trigger] selectors[i], labels)
}

/// A label key and the set of values it may take. The set is kept as a list
/// without repetition, in the order in which the values arrived.
#[derive(Debug)]
pub struct Selector {
    key: String,
    value: Vec<String>,
}

/// A list of selectors.
pub type Selectors = Vec<Selector>;

impl View for Selector {
    type V = SelectorView;

    closed spec fn view(&self) -> SelectorView {
        SelectorView { key: self.key@, values: texts(self.value@) }
    }
}

/// The selectors that a list holds.
pub open spec fn selectors_view(selectors: Seq<Selector>) -> Seq<SelectorView> {
    selectors.map_values(|s: Selector| s@)
}

impl Clone for Selector {
    fn clone(&self) -> (r: Self)
        ensures
            r@ == self@,
    {
        proof {
            use_type_invariant(self);
        }
        Selector { key: self.key.clone(), value: clone_strings(&self.value) }
    }
}

impl Selector {
    #[verifier::type_invariant]
    spec fn values_are_distinct(&self) -> bool {
        texts(self.value@).no_duplicates()
    }

    /// A selector for `key` that may take the given values; a value given
    /// twice counts once.
    pub fn new(key: String, value: Vec<String>) -> (r: Selector)
        ensures
            r@.key == key@,
            r@.values == with_values(Seq::empty(), texts(value@)),
            r@.values.no_duplicates(),
    {
        let mut r = Selector { key, value: Vec::new() };
        let mut i: usize = 0;
        while i < value.len()
            invariant
                i <= value.len(),
                r@.key == key@,
                r@.values == with_values(Seq::empty(), texts(value@).take(i as int)),
                r@.values.no_duplicates(),
            decreases value.len() - i,
        {
            r.add_value(value[i].clone());
            i += 1;
            assert(texts(value@).take(i as int).drop_last() =~= texts(value@).take(i - 1));
        }
        assert(texts(value@).take(i as int) =~= texts(value@));
        r
    }

    /// Whether the selector has no value yet.
    pub fn is_missing_value(&self) -> (r: bool)
        ensures
            r == (self@.values.len() == 0),
    {
        self.value.len() == 0
    }

    /// The selector's key.
    pub fn get_key(&self) -> (r: String)
        ensures
            r@ == self@.key,
    {
        self.key.clone()
    }

    /// The selector's values, in order.
    pub fn values(&self) -> (r: Vec<String>)
        ensures
            texts(r@) == self@.values,
            self@.values.no_duplicates(),
    {
        proof {
            use_type_invariant(self);
        }
        clone_strings(&self.value)
    }

    /// The number of values.
    pub fn value_count(&self) -> (r: usize)
        ensures
            r == self@.values.len(),
    {
        self.value.len()
    }

    /// Whether `value` is one of the selector's values.
    pub fn has_value(&self, value: &String) -> (r: bool)
        ensures
            r == self@.values.contains(value@),
    {
        contains_string(&self.value, value)
    }

    /// Lets the selector take `value` too.
    pub fn add_value(&mut self, value: String)
        ensures
            final(self)@.key == old(self)@.key,
            final(self)@.values == with_value(old(self)@.values, value@),
            final(self)@.values.no_duplicates(),
    {
        proof {
            use_type_invariant(&*self);
        }
        if !contains_string(&self.value, &value) {
            let mut taken = Selector { key: String::new(), value: Vec::new() };
            std::mem::swap(self, &mut taken);
            let Selector { key, value: mut values } = taken;
            values.push(value);
            assert(texts(values@) =~= texts(old(self).value@).push(value@));
            *self = Selector { key, value: values };
        }
    }

    /// A selector with this one's key that may take the values of both.
    pub fn merge(&self, other: &Selector) -> (r: Selector)
        ensures
            r@.key == self@.key,
            r@.values == with_values(self@.values, other@.values),
            r@.values.no_duplicates(),
    {
        let mut r = self.clone();
        proof {
            use_type_invariant(self);
        }
        let mut i: usize = 0;
        while i < other.value.len()
            invariant
                i <= other.value.len(),
                r@.key == self@.key,
                r@.values == with_values(self@.values, other@.values.take(i as int)),
                r@.values.no_duplicates(),
            decreases other.value.len() - i,
        {
            r.add_value(other.value[i].clone());
            i += 1;
            assert(other@.values.take(i as int).drop_last() =~= other@.values.take(i - 1));
        }
        assert(other@.values.take(i as int) =~= other@.values);
        r
    }

    /// Whether the labels hold the selector's key with one of its values.
    pub fn is_match(&self, kvs: &LabelMap) -> (r: bool)
        ensures
            r == selector_matches(self@, kvs@),
    {
        match kvs.get(&self.key) {
            Some(v) => contains_string(&self.value, &v),
            None => false,
        }
    }

    /// Whether the labels satisfy every selector of the list.
    pub fn is_match_selectors(selectors: &Selectors, kvs: &LabelMap) -> (r: bool)
        ensures
            r == all_match(selectors_view(selectors@), kvs@),
    {
        let mut i: usize = 0;
        while i < selectors.len()
            invariant
                i <= selectors.len(),
                forall|j: int|
                    0 <= j < i ==> selector_matches(
                        #[trigger] selectors_view(selectors@)[j],
                        kvs@,
                    ),
            decreases selectors.len() - i,
        {
            if !selectors[i].is_match(kvs) {
                assert(!selector_matches(selectors_view(selectors@)[i as int], kvs@));
                return false;
            }
            i += 1;
        }
        true
    }
}

/// A copy of a list of selectors.
pub fn clone_selectors(selectors: &Selectors) -> (r: Selectors)
    ensures
        selectors_view(r@) == selectors_view(selectors@),
{
    let mut r: Vec<Selector> = Vec::new();
    let mut i: usize = 0;
    while i < selectors.len()
        invariant
            i <= selectors.len(),
            r@.len() == i,
            forall|j: int| 0 <= j < i ==> r@[j]@ == selectors@[j]@,
        decreases selectors.len() - i,
    {
        r.push(selectors[i].clone());
        i += 1;
    }
    r
}

} // verus!
