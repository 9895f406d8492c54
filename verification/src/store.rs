//! The persisted side of the configuration: the system "defaults" table and
//! the user "custom" table. Reading and writing the backing files is a
//! collaborator's concern; this value holds what those reads and writes
//! exchange, so that an absent or unreadable custom table is `None` and
//! degrades to the empty table.

use vstd::prelude::*;
use crate::action::ActionView;
use crate::binding::BindingView;
use crate::shortcuts::{merge, Shortcuts};

verus! {

/// The two persisted shortcut tables.
#[derive(Debug)]
pub struct ConfigStore {
    /// The system defaults table.
    pub defaults: Shortcuts,
    /// The user customizations; `None` when the table is absent or could
    /// not be read, which degrades to the empty table.
    pub custom: Option<Shortcuts>,
}

impl ConfigStore {
    /// The custom table as read: absent means empty.
    pub open spec fn custom_view(self) -> Seq<(BindingView, ActionView)> {
        match self.custom {
            Some(c) => c@,
            None => Seq::empty(),
        }
    }

    /// The merged system view: customizations laid over the defaults.
    pub open spec fn merged_view(self) -> Seq<(BindingView, ActionView)> {
        merge(self.defaults@, self.custom_view())
    }

    /// A store with both tables empty.
    pub fn new() -> (r: ConfigStore)
        ensures
            r.defaults@ == Seq::<(BindingView, ActionView)>::empty(),
            r.custom is None,
    {
        ConfigStore { defaults: Shortcuts::new(), custom: None }
    }

    /// Reads the defaults table.
    pub fn get_defaults(&self) -> (r: Shortcuts)
        ensures
            r@ == self.defaults@,
    {
        self.defaults.clone()
    }

    /// Reads the custom table; an absent one reads as empty.
    pub fn get_custom(&self) -> (r: Shortcuts)
        ensures
            r@ == self.custom_view(),
    {
        match &self.custom {
            Some(c) => c.clone(),
            None => Shortcuts::new(),
        }
    }

    /// Writes the custom table.
    pub fn set_custom(&mut self, shortcuts: Shortcuts)
        ensures
            final(self).custom_view() == shortcuts@,
            final(self).defaults == old(self).defaults,
    {
        self.custom = Some(shortcuts);
    }
}

} // verus!
