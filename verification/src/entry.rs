//! The permission entry: one row of a store, as a query reports it.

use vstd::prelude::*;
use vstd::string::*;

verus! {

/// One permission record, read from a store.
#[derive(Debug)]
pub struct TccEntry {
    /// Canonical service key, as the store holds it.
    pub service_raw: String,
    /// The name the service is shown under.
    pub service_display: String,
    /// The controlled program: a path or a bundle identifier.
    pub client: String,
    /// Status code: 0 denied, 2 granted, 3 limited; other values are kept.
    pub auth_value: i32,
    /// Time of the last change, rendered.
    pub last_modified: String,
    /// Whether the row came from the machine-wide store.
    pub is_system: bool,
}

/// The mathematical content of a [`TccEntry`].
pub struct EntryModel {
    pub service_raw: Seq<char>,
    pub service_display: Seq<char>,
    pub client: Seq<char>,
    pub auth_value: int,
    pub last_modified: Seq<char>,
    pub is_system: bool,
}

impl View for TccEntry {
    type V = EntryModel;

    open spec fn view(&self) -> EntryModel {
        EntryModel {
            service_raw: self.service_raw@,
            service_display: self.service_display@,
            client: self.client@,
            auth_value: self.auth_value as int,
            last_modified: self.last_modified@,
            is_system: self.is_system,
        }
    }
}

/// The contents of a list of entries, in the same order.
pub open spec fn models(v: Seq<TccEntry>) -> Seq<EntryModel> {
    Seq::new(v.len(), |i: int| v[i]@)
}

} // verus!
