//! Label types and their values: which labels exist and which values each
//! may take.

use vstd::prelude::*;
use vstd::string::StringExecFns;
use crate::text::clone_strings;
use crate::text::contains_string;
use crate::text::texts;
use crate::selector::with_values;

verus! {

/// A label type as mathematics: its name and its values in order.
pub struct LabelTypeView {
    pub label: Seq<char>,
    pub values: Seq<Seq<char>>,
}

/// The index of the first type at or after `from` that has the name, or the
/// length of the list when none has.
pub open spec fn type_from(types: Seq<LabelTypeView>, label: Seq<char>, from: int) -> int
    decreases types.len() - from,
{
    if from < 0 || from >= types.len() {
        types.len() as int
    } else if types[from].label == label {
        from
    } else {
        type_from(types, label, from + 1)
    }
}

/// The index of the type of that name, or the length of the list.
pub open spec fn type_index(types: Seq<LabelTypeView>, label: Seq<char>) -> int {
    type_from(types, label, 0)
}

/// Whether a type of that name is defined.
pub open spec fn defined(types: Seq<LabelTypeView>, label: Seq<char>) -> bool {
    type_index(types, label) < types.len()
}

/// The test that a removal of values applies to each value: whether it
/// stays.
pub open spec fn other_test(values: Seq<Seq<char>>) -> spec_fn(Seq<char>) -> bool {
    |value: Seq<char>| !values.contains(value)
}

/// The types after the values were defined for a label: a defined label
/// takes the values it does not have yet, a new one goes to the end with the
/// values, each once.
pub open spec fn define_values(
    types: Seq<LabelTypeView>,
    label: Seq<char>,
    values: Seq<Seq<char>>,
) -> Seq<LabelTypeView> {
    if defined(types, label) {
        let at = type_index(types, label);
        types.update(at, LabelTypeView { label, values: with_values(types[at].values, values) })
    } else {
        types.push(LabelTypeView { label, values: with_values(Seq::empty(), values) })
    }
}

/// The types after the values were taken from a label; a label that is not
/// defined changes nothing.
pub open spec fn remove_values(
    types: Seq<LabelTypeView>,
    label: Seq<char>,
    values: Seq<Seq<char>>,
) -> Seq<LabelTypeView> {
    if defined(types, label) {
        let at = type_index(types, label);
        types.update(
            at,
            LabelTypeView { label, values: types[at].values.filter(other_test(values)) },
        )
    } else {
        types
    }
}

/// Whether a label is defined and still has values, so that it cannot be
/// removed.
pub open spec fn in_use(types: Seq<LabelTypeView>, label: Seq<char>) -> bool {
    defined(types, label) && types[type_index(types, label)].values.len() > 0
}

/// The types after a label without values was removed; a label that is not
/// defined changes nothing.
pub open spec fn remove_type(types: Seq<LabelTypeView>, label: Seq<char>) -> Seq<LabelTypeView> {
    if defined(types, label) {
        types.remove(type_index(types, label))
    } else {
        types
    }
}

/// The names of the types, in order.
pub open spec fn type_names(types: Seq<LabelTypeView>) -> Seq<Seq<char>> {
    types.map_values(|t: LabelTypeView| t.label)
}

/// What holds of every list of label types: no name twice, and no value
/// twice under one name.
pub open spec fn types_wf(types: Seq<LabelTypeView>) -> bool {
    &&& forall|i: int, j: int| 0 <= i < j < types.len() ==> types[i].label != types[j].label
    &&& forall|i: int| 0 <= i < types.len() ==> (#[trigger] types[i]).values.no_duplicates()
}

/// What `type_from` finds: a type of the name, and none before it.
pub proof fn lemma_type_from(types: Seq<LabelTypeView>, label: Seq<char>, from: int)
    requires
        0 <= from <= types.len(),
    ensures
        from <= type_from(types, label, from) <= types.len(),
        type_from(types, label, from) < types.len() ==> types[type_from(types, label, from)].label
            == label,
        forall|j: int| from <= j < type_from(types, label, from) ==> types[j].label != label,
    decreases types.len() - from,
{
    if from < types.len() && types[from].label != label {
        lemma_type_from(types, label, from + 1);
    }
}

/// What a manager holds: the label types, in the manager's order.
pub struct LabelTypesView {
    pub types: Seq<LabelTypeView>,
}

/// Why a request to the label manager failed.
#[derive(Debug, Clone)]
pub enum ManagerError {
    /// The label still has values.
    NotEmpty(String),
    Conflict,
    NotFound,
}

/// A manager's error in words: the error as `Debug` shows it, a colon, and
/// for a label that still has values a space and the label's name.
pub open spec fn manager_error_text(error: ManagerError) -> Seq<char> {
    match error {
        ManagerError::NotEmpty(key) => "NotEmpty("@ + crate::text::debug_quoted(key@) + "): "@
            + key@,
        ManagerError::Conflict => "Conflict:"@,
        ManagerError::NotFound => "NotFound:"@,
    }
}

impl ManagerError {
    /// The error in words.
    pub fn message(&self) -> (r: String)
        ensures
            r@ == manager_error_text(*self),
    {
        match self {
            ManagerError::NotEmpty(key) => {
                let quoted = crate::text::debug_text(key.as_str());
                "NotEmpty(".to_owned().concat(quoted.as_str()).concat("): ").concat(key.as_str())
            },
            ManagerError::Conflict => "Conflict:".to_owned(),
            ManagerError::NotFound => "NotFound:".to_owned(),
        }
    }
}

/// A manager of label types.
///
/// An implementation states the types that it holds, and whether its
/// requests can fail for reasons of its own; a failed request changes
/// nothing.
pub trait Manager {
    /// What the manager holds.
    spec fn contents(&self) -> LabelTypesView;

    /// The label types, in the manager's order.
    open spec fn types(&self) -> Seq<LabelTypeView> {
        self.contents().types
    }

    /// Whether every request that the state allows succeeds.
    spec fn never_fails(&self) -> bool;

    /// Defines a label type; one that is defined stays as it is.
    fn define_label(&mut self, label_type: &String) -> (r: Result<(), ManagerError>)
        ensures
            final(self).never_fails() == old(self).never_fails(),
            r is Ok ==> final(self).types() == define_values(
                old(self).types(),
                label_type@,
                Seq::empty(),
            ),
            r is Err ==> final(self).types() == old(self).types(),
            old(self).never_fails() ==> r is Ok,
    ;

    /// Removes a label type that has no values; one that is not defined is
    /// passed over. `NotEmpty` with the label's name when it has values.
    fn remove_label(&mut self, label_type: &String) -> (r: Result<(), ManagerError>)
        ensures
            final(self).never_fails() == old(self).never_fails(),
            r is Ok ==> !in_use(old(self).types(), label_type@) && final(self).types()
                == remove_type(old(self).types(), label_type@),
            r is Err ==> final(self).types() == old(self).types(),
            in_use(old(self).types(), label_type@) ==> (r matches Err(ManagerError::NotEmpty(key))
                && key@ == label_type@),
            old(self).never_fails() && !in_use(old(self).types(), label_type@) ==> r is Ok,
    ;

    /// Lets a label type take the given values, defining the type if needed.
    fn define_label_value(&mut self, label_type: &String, label_values: &Vec<String>) -> (r:
        Result<(), ManagerError>)
        ensures
            final(self).never_fails() == old(self).never_fails(),
            r is Ok ==> final(self).types() == define_values(
                old(self).types(),
                label_type@,
                texts(label_values@),
            ),
            r is Err ==> final(self).types() == old(self).types(),
            old(self).never_fails() ==> r is Ok,
    ;

    /// Takes the given values from a label type; a type that is not defined
    /// and a value that it does not have are passed over.
    fn remove_label_value(&mut self, label_type: &String, label_values: &Vec<String>) -> (r:
        Result<(), ManagerError>)
        ensures
            final(self).never_fails() == old(self).never_fails(),
            r is Ok ==> final(self).types() == remove_values(
                old(self).types(),
                label_type@,
                texts(label_values@),
            ),
            r is Err ==> final(self).types() == old(self).types(),
            old(self).never_fails() ==> r is Ok,
    ;

    /// The names of the label types.
    fn list_label(&self) -> (r: Result<Vec<String>, ManagerError>)
        ensures
            r matches Ok(names) ==> texts(names@) == type_names(self.types()),
            self.never_fails() ==> r is Ok,
    ;

    /// The values of a label type. `NotFound` when it is not defined.
    fn list_label_value(&self, label: &String) -> (r: Result<Vec<String>, ManagerError>)
        ensures
            r matches Ok(values) ==> defined(self.types(), label@) && texts(values@)
                == self.types()[type_index(self.types(), label@)].values,
            !defined(self.types(), label@) ==> r matches Err(ManagerError::NotFound),
            self.never_fails() && defined(self.types(), label@) ==> r is Ok,
    ;
}

/// A label type with its values, each once.
#[derive(Debug)]
pub struct LabelValue {
    label: String,
    value: Vec<String>,
}

impl View for LabelValue {
    type V = LabelTypeView;

    closed spec fn view(&self) -> LabelTypeView {
        LabelTypeView { label: self.label@, values: texts(self.value@) }
    }
}

impl LabelValue {
    /// A label type without values.
    pub fn new(label: &String) -> (r: Self)
        ensures
            r@ == (LabelTypeView { label: label@, values: Seq::empty() }),
    {
        let r = LabelValue { label: label.clone(), value: Vec::new() };
        assert(r@.values =~= Seq::<Seq<char>>::empty());
        r
    }

    /// Whether the label type has no value.
    pub fn is_empty(&self) -> (r: bool)
        ensures
            r == (self@.values.len() == 0),
    {
        self.value.len() == 0
    }

    /// The type's name.
    pub fn label(&self) -> (r: String)
        ensures
            r@ == self@.label,
    {
        self.label.clone()
    }

    /// The type's values, in order.
    pub fn values(&self) -> (r: Vec<String>)
        ensures
            texts(r@) == self@.values,
    {
        clone_strings(&self.value)
    }

    /// Lets the type take the given values too, each once.
    pub fn extend(&mut self, values: &Vec<String>)
        ensures
            final(self)@.label == old(self)@.label,
            final(self)@.values == with_values(old(self)@.values, texts(values@)),
            old(self)@.values.no_duplicates() ==> final(self)@.values.no_duplicates(),
    {
        let ghost given = texts(values@);
        let mut i: usize = 0;
        while i < values.len()
            invariant
                i <= values.len(),
                given == texts(values@),
                self@.label == old(self)@.label,
                self@.values == with_values(old(self)@.values, given.take(i as int)),
                old(self)@.values.no_duplicates() ==> self@.values.no_duplicates(),
            decreases values.len() - i,
        {
            proof {
                assert(given.take(i + 1).drop_last() =~= given.take(i as int));
            }
            if !contains_string(&self.value, &values[i]) {
                let ghost held = self@.values;
                self.value.push(values[i].clone());
                assert(self@.values =~= held.push(given[i as int]));
            }
            i += 1;
        }
        assert(given.take(i as int) =~= given);
    }

    /// Takes the given values from the type.
    pub fn retain_others(&mut self, values: &Vec<String>)
        ensures
            final(self)@.label == old(self)@.label,
            final(self)@.values == old(self)@.values.filter(other_test(texts(values@))),
            old(self)@.values.no_duplicates() ==> final(self)@.values.no_duplicates(),
    {
        let ghost before = self@.values;
        let ghost staying = other_test(texts(values@));
        let mut kept: Vec<String> = Vec::new();
        let mut i: usize = 0;
        while i < self.value.len()
            invariant
                i <= self.value.len(),
                before == self@.values,
                self@ == old(self)@,
                staying == other_test(texts(values@)),
                texts(kept@) == before.take(i as int).filter(staying),
                forall|j: int|
                    0 <= j < kept@.len() ==> exists|k: int|
                        0 <= k < i && before[k] == #[trigger] texts(kept@)[j],
                before.no_duplicates() ==> texts(kept@).no_duplicates(),
            decreases self.value.len() - i,
        {
            proof {
                let seen = before.take(i as int);
                seen.lemma_filter_push(before[i as int], staying);
                assert(seen.push(before[i as int]) =~= before.take(i + 1));
            }
            if !contains_string(values, &self.value[i]) {
                let ghost held = texts(kept@);
                kept.push(self.value[i].clone());
                assert(texts(kept@) =~= held.push(before[i as int]));
            }
            i += 1;
        }
        assert(before.take(i as int) =~= before);
        self.value = kept;
    }
}

/// The label types that a list holds.
pub open spec fn label_values_view(items: Seq<LabelValue>) -> Seq<LabelTypeView> {
    items.map_values(|item: LabelValue| item@)
}

/// A manager of label types in memory: the types in the order in which they
/// were first defined.
#[derive(Debug)]
pub struct MemManager {
    labels: Vec<LabelValue>,
}

impl MemManager {
    #[verifier::type_invariant]
    spec fn well_formed(&self) -> bool {
        types_wf(self.held())
    }

    /// The label types that the manager holds.
    pub closed spec fn held(&self) -> Seq<LabelTypeView> {
        label_values_view(self.labels@)
    }

    /// A manager without label types.
    pub fn new() -> (r: MemManager)
        ensures
            r.types() == Seq::<LabelTypeView>::empty(),
    {
        let r = MemManager { labels: Vec::new() };
        r
    }

    /// The label types, which leave the manager empty.
    fn take_labels(&mut self) -> (r: Vec<LabelValue>)
        ensures
            label_values_view(r@) == old(self).types(),
            types_wf(old(self).types()),
    {
        proof {
            use_type_invariant(&*self);
        }
        let mut taken = MemManager::new();
        std::mem::swap(self, &mut taken);
        taken.labels
    }

    /// The index of the type of that name, or the number of types.
    fn position(labels: &Vec<LabelValue>, label: &String) -> (r: usize)
        ensures
            r == type_index(label_values_view(labels@), label@),
            r <= labels@.len(),
            r < labels@.len() ==> labels@[r as int]@.label == label@,
    {
        let mut i: usize = 0;
        while i < labels.len()
            invariant
                i <= labels.len(),
                type_index(label_values_view(labels@), label@) == type_from(
                    label_values_view(labels@),
                    label@,
                    i as int,
                ),
            decreases labels.len() - i,
        {
            if labels[i].label == *label {
                return i;
            }
            i += 1;
        }
        i
    }
}

impl Manager for MemManager {
    closed spec fn contents(&self) -> LabelTypesView {
        LabelTypesView { types: self.held() }
    }

    open spec fn never_fails(&self) -> bool {
        true
    }

    fn define_label(&mut self, label_type: &String) -> (r: Result<(), ManagerError>) {
        let none: Vec<String> = Vec::new();
        match self.define_label_value(label_type, &none) {
            Ok(_) => Ok(()),
            Err(e) => Err(e),
        }
    }

    fn remove_label(&mut self, label_type: &String) -> (r: Result<(), ManagerError>) {
        let at = Self::position(&self.labels, label_type);
        if at < self.labels.len() {
            if !self.labels[at].is_empty() {
                return Err(ManagerError::NotEmpty(label_type.clone()));
            }
            let mut labels = self.take_labels();
            let ghost before = label_values_view(labels@);
            labels.remove(at);
            assert(label_values_view(labels@) =~= before.remove(at as int));
            *self = MemManager { labels };
        }
        Ok(())
    }

    fn define_label_value(&mut self, label_type: &String, label_values: &Vec<String>) -> (r:
        Result<(), ManagerError>) {
        let mut labels = self.take_labels();
        let ghost before = label_values_view(labels@);
        proof {
            lemma_type_from(before, label_type@, 0);
        }
        let at = Self::position(&labels, label_type);
        if at < labels.len() {
            assert(before[at as int] == labels@[at as int]@);
            labels[at].extend(label_values);
        } else {
            let mut fresh = LabelValue::new(label_type);
            fresh.extend(label_values);
            labels.push(fresh);
        }
        assert(label_values_view(labels@) =~= define_values(
            before,
            label_type@,
            texts(label_values@),
        ));
        assert(types_wf(label_values_view(labels@))) by {
            let after = label_values_view(labels@);
            assert forall|i: int| 0 <= i < after.len() implies (
            #[trigger] after[i]).values.no_duplicates() by {
                if i < before.len() && i != at {
                    assert(after[i] == before[i]);
                }
            }
            assert forall|i: int, j: int| 0 <= i < j < after.len() implies after[i].label
                != after[j].label by {
                if i < before.len() {
                    assert(after[i].label == before[i].label);
                }
                if j < before.len() {
                    assert(after[j].label == before[j].label);
                }
            }
        }
        *self = MemManager { labels };
        Ok(())
    }

    fn remove_label_value(&mut self, label_type: &String, label_values: &Vec<String>) -> (r:
        Result<(), ManagerError>) {
        let mut labels = self.take_labels();
        let ghost before = label_values_view(labels@);
        proof {
            lemma_type_from(before, label_type@, 0);
        }
        let at = Self::position(&labels, label_type);
        if at < labels.len() {
            assert(before[at as int] == labels@[at as int]@);
            labels[at].retain_others(label_values);
        }
        assert(label_values_view(labels@) =~= remove_values(
            before,
            label_type@,
            texts(label_values@),
        ));
        assert(types_wf(label_values_view(labels@))) by {
            let after = label_values_view(labels@);
            assert forall|i: int| 0 <= i < after.len() implies (
            #[trigger] after[i]).values.no_duplicates() by {
                if i != at {
                    assert(after[i] == before[i]);
                }
            }
            assert forall|i: int, j: int| 0 <= i < j < after.len() implies after[i].label
                != after[j].label by {
                assert(after[i].label == before[i].label);
                assert(after[j].label == before[j].label);
            }
        }
        *self = MemManager { labels };
        Ok(())
    }

    fn list_label(&self) -> (r: Result<Vec<String>, ManagerError>) {
        let mut names: Vec<String> = Vec::new();
        let mut i: usize = 0;
        while i < self.labels.len()
            invariant
                i <= self.labels.len(),
                names@.len() == i,
                forall|j: int| 0 <= j < i ==> (#[trigger] names@[j])@ == self.held()[j].label,
            decreases self.labels.len() - i,
        {
            names.push(self.labels[i].label());
            i += 1;
        }
        Ok(names)
    }

    fn list_label_value(&self, label: &String) -> (r: Result<Vec<String>, ManagerError>) {
        let at = Self::position(&self.labels, label);
        if at < self.labels.len() {
            Ok(self.labels[at].values())
        } else {
            Err(ManagerError::NotFound)
        }
    }
}

} // verus!
