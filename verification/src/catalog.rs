//! The tag catalog: which values a label key takes across the objects of a
//! store, and the contract of a store that answers for it.

use vstd::prelude::*;
use crate::selector::Selector;
use crate::selector::Selectors;
use crate::selector::selectors_view;
use crate::text::texts;
use crate::store::StoreView;

verus! {

/// Why a catalog request failed.
#[derive(Debug, Clone, Copy, PartialEq, Eq)]
pub enum SelectorStorageError {
    NotFound,
}

impl SelectorStorageError {
    /// The error in words.
    pub fn message(&self) -> (r: String)
        ensures
            r@ == "NotFound"@,
    {
        "NotFound".to_owned()
    }
}

/// The keys whose selectors are asked for.
#[derive(Debug, Clone)]
pub struct ListSelectorParams {
    pub key: Vec<String>,
}

/// The declaration of a label key.
#[derive(Debug, Clone)]
pub struct DefineSelectorParams {
    pub key: String,
    pub default_value: String,
    pub set_default_for_history: bool,
}

/// The selectors of the requested keys: with the declared default alone, and
/// with every value observed.
#[derive(Debug, Clone)]
pub struct ListSelectorResult {
    pub default_selector: Selectors,
    pub selectors: Selectors,
}

/// The answer to a declaration.
#[derive(Debug, Clone)]
pub struct DefineSelectorResult {}

/// A store that keeps the tag catalog.
///
/// An implementation states what it holds as a `StoreView`, and whether its
/// requests can fail for reasons of its own; a failed request leaves what it
/// holds as it was.
pub trait SelectorStorage {
    /// What the store holds.
    spec fn store(&self) -> StoreView;

    /// Whether every request that the state allows succeeds.
    spec fn never_fails(&self) -> bool;

    /// Declares a label key with its default value.
    fn define_selector(&mut self, params: &DefineSelectorParams) -> (r: Result<
        DefineSelectorResult,
        SelectorStorageError,
    >)
        ensures
            final(self).never_fails() == old(self).never_fails(),
            r is Ok ==> final(self).store() == old(self).store().define(
                params.key@,
                params.default_value@,
                params.set_default_for_history,
            ),
            r is Err ==> final(self).store() == old(self).store(),
            old(self).never_fails() ==> r is Ok,
    ;

    /// The selectors of the requested keys: for each key, once, the selector
    /// with its declared default alone, and the selector with the default and
    /// every value observed on the objects.
    fn list_selector(&self, params: &ListSelectorParams) -> (r: Result<
        ListSelectorResult,
        SelectorStorageError,
    >)
        ensures
            r matches Ok(res) ==> {
                &&& selectors_view(res.selectors@) == self.store().select(texts(params.key@))
                &&& selectors_view(res.default_selector@) == self.store().select_defaults(
                    texts(params.key@),
                )
            },
            self.never_fails() ==> r is Ok,
    ;

    /// The selector of one key: its default and every value observed.
    /// `NotFound` when the key was never declared, which shows in its default
    /// selector having no value.
    fn get_selector_by_key(&self, key: String) -> (r: Result<Selector, SelectorStorageError>)
        ensures
            r matches Ok(selector) ==> self.store().declared(key@) && selector@
                == self.store().selector_of(key@),
            self.never_fails() ==> (r is Ok <==> self.store().declared(key@)),
    {
        let mut keys: Vec<String> = Vec::new();
        keys.push(key);
        proof {
            assert(texts(keys@) =~= seq![key@]);
            self.store().lemma_select_one(key@);
        }
        let params = ListSelectorParams { key: keys };
        let listing = self.list_selector(&params);
        proof {
            if listing is Ok {
                let found = listing->Ok_0.selectors@;
                let defaults = listing->Ok_0.default_selector@;
                assert(selectors_view(found).len() == found.len());
                assert(selectors_view(defaults).len() == defaults.len());
                assert(selectors_view(found)[0] == found[0]@);
                assert(selectors_view(defaults)[0] == defaults[0]@);
            }
        }
        declared_selector(listing)
    }
}

/// The first selector of a listing; `NotFound` when the listing is empty, and
/// the listing's own error when it failed.
pub fn first_selector(listing: Result<ListSelectorResult, SelectorStorageError>) -> (r: Result<
    Selector,
    SelectorStorageError,
>)
    ensures
        match listing {
            Ok(res) => if res.selectors@.len() > 0 {
                r matches Ok(selector) && selector@ == res.selectors@[0]@
            } else {
                r == Err::<Selector, SelectorStorageError>(SelectorStorageError::NotFound)
            },
            Err(e) => r == Err::<Selector, SelectorStorageError>(e),
        },
{
    match listing {
        Ok(res) => {
            if res.selectors.len() > 0 {
                Ok(res.selectors[0].clone())
            } else {
                Err(SelectorStorageError::NotFound)
            }
        },
        Err(e) => Err(e),
    }
}

/// Whether a listing shows its first key as declared: the first default
/// selector is there and has a value, and the first selector is there.
pub open spec fn shows_declared(res: ListSelectorResult) -> bool {
    &&& res.default_selector@.len() > 0
    &&& res.default_selector@[0]@.values.len() > 0
    &&& res.selectors@.len() > 0
}

/// The first selector of a listing whose first key is declared; `NotFound`
/// when the listing does not show the key as declared, and the listing's own
/// error when it failed.
pub fn declared_selector(listing: Result<ListSelectorResult, SelectorStorageError>) -> (r: Result<
    Selector,
    SelectorStorageError,
>)
    ensures
        match listing {
            Ok(res) => if shows_declared(res) {
                r matches Ok(selector) && selector@ == res.selectors@[0]@
            } else {
                r == Err::<Selector, SelectorStorageError>(SelectorStorageError::NotFound)
            },
            Err(e) => r == Err::<Selector, SelectorStorageError>(e),
        },
{
    match listing {
        Ok(res) => {
            if res.default_selector.len() > 0 && !res.default_selector[0].is_missing_value()
                && res.selectors.len() > 0 {
                Ok(res.selectors[0].clone())
            } else {
                Err(SelectorStorageError::NotFound)
            }
        },
        Err(e) => Err(e),
    }
}

} // verus!
