//! What a shortcut triggers: a built-in operation named by an identifier, an
//! arbitrary spawned command, or the `Disable` sentinel that suppresses a
//! system default without assigning a replacement.

use vstd::prelude::*;

verus! {

/// Mathematical value of an [`Action`].
pub ghost enum ActionView {
    Disable,
    Builtin(Seq<char>),
    Spawn(Seq<char>),
}

/// The operation a binding is mapped to.
#[derive(Debug)]
pub enum Action {
    /// Sentinel that suppresses a default binding without a replacement.
    Disable,
    /// A built-in operation, named by its identifier.
    Builtin(String),
    /// A user-defined spawned command.
    Spawn(String),
}

impl View for Action {
    type V = ActionView;

    open spec fn view(&self) -> ActionView {
        match self {
            Action::Disable => ActionView::Disable,
            Action::Builtin(s) => ActionView::Builtin(s@),
            Action::Spawn(s) => ActionView::Spawn(s@),
        }
    }
}

impl Action {
    /// Whether this is the `Disable` sentinel.
    pub fn is_disable(&self) -> (r: bool)
        ensures
            r == (self@ is Disable),
    {
        matches!(self, Action::Disable)
    }

    /// Whether this is a spawned command.
    pub fn is_spawn(&self) -> (r: bool)
        ensures
            r == (self@ is Spawn),
    {
        matches!(self, Action::Spawn(_))
    }

    /// The display label of the action: the identifier of a built-in
    /// operation, the command of a spawned one, and "Disable" for the
    /// sentinel. Localization is a collaborator outside this library.
    pub fn label(&self) -> (r: String)
        ensures
            r@ == self@.label(),
    {
        match self {
            Action::Disable => String::from_str("Disable"),
            Action::Builtin(s) => s.clone(),
            Action::Spawn(s) => s.clone(),
        }
    }
}

impl ActionView {
    /// Display label at the specification level.
    pub open spec fn label(self) -> Seq<char> {
        match self {
            ActionView::Disable => "Disable"@,
            ActionView::Builtin(s) => s,
            ActionView::Spawn(s) => s,
        }
    }
}

impl Clone for Action {
    fn clone(&self) -> (r: Self)
        ensures
            r@ == self@,
    {
        match self {
            Action::Disable => Action::Disable,
            Action::Builtin(s) => Action::Builtin(s.clone()),
            Action::Spawn(s) => Action::Spawn(s.clone()),
        }
    }
}

impl PartialEq for Action {
    fn eq(&self, other: &Self) -> (r: bool) {
        match (self, other) {
            (Action::Disable, Action::Disable) => true,
            (Action::Builtin(a), Action::Builtin(b)) => *a == *b,
            (Action::Spawn(a), Action::Spawn(b)) => *a == *b,
            _ => false,
        }
    }
}

impl vstd::std_specs::cmp::PartialEqSpecImpl for Action {
    open spec fn obeys_eq_spec() -> bool {
        true
    }

    open spec fn eq_spec(&self, other: &Self) -> bool {
        self@ == other@
    }
}

impl Eq for Action {}

} // verus!
