//! A key binding: modifier flags plus an optional key symbol, named by its
//! canonical key-symbol name.

use vstd::prelude::*;
use crate::keys::Modifiers;

verus! {

/// Mathematical value of a [`Binding`].
pub ghost struct BindingView {
    pub modifiers: Modifiers,
    pub key: Option<Seq<char>>,
}

/// One modifier-set + key combination. A binding is "set" when it carries a
/// key symbol; a binding without one only exists as an empty editor row or as
/// the result of parsing an all-modifier string.
#[derive(Debug)]
pub struct Binding {
    pub modifiers: Modifiers,
    pub key: Option<String>,
}

impl View for Binding {
    type V = BindingView;

    open spec fn view(&self) -> BindingView {
        BindingView {
            modifiers: self.modifiers,
            key: match self.key {
                Some(k) => Some(k@),
                None => None,
            },
        }
    }
}

impl BindingView {
    /// A binding is set when it has a key symbol.
    pub open spec fn is_set(self) -> bool {
        self.key is Some
    }

    /// The unset binding with no modifiers.
    pub open spec fn unset() -> BindingView {
        BindingView {
            modifiers: Modifiers { ctrl: false, alt: false, shift: false, logo: false },
            key: None,
        }
    }
}

impl Binding {
    /// A binding from parts.
    pub fn new(modifiers: Modifiers, key: Option<String>) -> (r: Binding)
        ensures
            r.modifiers == modifiers,
            r@ == (BindingView {
                modifiers,
                key: match key {
                    Some(k) => Some(k@),
                    None => None::<Seq<char>>,
                },
            }),
    {
        Binding { modifiers, key }
    }

    /// The unset binding with no modifiers.
    pub fn unset() -> (r: Binding)
        ensures
            r@ == BindingView::unset(),
    {
        Binding { modifiers: Modifiers::new(), key: None }
    }

    /// Whether this binding carries a key symbol.
    pub fn is_set(&self) -> (r: bool)
        ensures
            r == self@.is_set(),
    {
        self.key.is_some()
    }
}

impl Clone for Binding {
    fn clone(&self) -> (r: Self)
        ensures
            r@ == self@,
    {
        Binding {
            modifiers: self.modifiers,
            key: match &self.key {
                Some(k) => Some(k.clone()),
                None => None,
            },
        }
    }
}

impl PartialEq for Binding {
    fn eq(&self, other: &Self) -> (r: bool) {
        let keys_eq = match (&self.key, &other.key) {
            (Some(a), Some(b)) => *a == *b,
            (None, None) => true,
            _ => false,
        };
        self.modifiers == other.modifiers && keys_eq
    }
}

impl vstd::std_specs::cmp::PartialEqSpecImpl for Binding {
    open spec fn obeys_eq_spec() -> bool {
        true
    }

    open spec fn eq_spec(&self, other: &Self) -> bool {
        self@ == other@
    }
}

impl Eq for Binding {}

} // verus!
