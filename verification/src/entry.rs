//! Entries: one filesystem child as it was seen during a scan.

use vstd::prelude::*;

verus! {

/// What kind of filesystem object an entry is.
///
/// `Unknown` stands for everything that is neither a regular file nor a
/// directory at the moment it is inspected.
#[derive(Clone, Copy, Debug, PartialEq, Eq, Hash, Structural)]
pub enum EntryType {
    File,
    Directory,
    Unknown,
}

/// One filesystem child observed at scan time.
///
/// Two entries are the same entry exactly when kind, path and size all agree.
#[derive(Debug, Eq, Hash)]
pub struct EntryInfo {
    pub entry_type: EntryType,
    pub path: String,
    pub octets: u64,
}

/// The mathematical value of an [`EntryInfo`]: its identity triple.
pub struct EntryModel {
    pub entry_type: EntryType,
    pub path: Seq<char>,
    pub octets: u64,
}

impl View for EntryInfo {
    type V = EntryModel;

    open spec fn view(&self) -> EntryModel {
        EntryModel { entry_type: self.entry_type, path: self.path@, octets: self.octets }
    }
}

/// Two entries name the same place when kind and path agree, whatever their sizes.
pub open spec fn same_place(a: EntryModel, b: EntryModel) -> bool {
    a.entry_type == b.entry_type && a.path == b.path
}

/// The distance between two sizes.
pub open spec fn octets_distance(a: u64, b: u64) -> int {
    if a >= b {
        a - b
    } else {
        b - a
    }
}

impl PartialEq for EntryInfo {
    /// Equality is full identity: kind, path and size all agree.
    fn eq(&self, other: &EntryInfo) -> (r: bool) {
        self.entry_type == other.entry_type && self.octets == other.octets && self.path
            == other.path
    }
}

impl vstd::std_specs::cmp::PartialEqSpecImpl for EntryInfo {
    open spec fn obeys_eq_spec() -> bool {
        true
    }

    open spec fn eq_spec(&self, other: &EntryInfo) -> bool {
        self@ == other@
    }
}

impl Clone for EntryInfo {
    fn clone(&self) -> (r: Self)
        ensures
            r == *self,
    {
        EntryInfo { entry_type: self.entry_type, path: self.path.clone(), octets: self.octets }
    }
}

impl EntryInfo {
    /// Builds an entry from its three parts.
    pub fn new(entry_type: EntryType, path: String, octets: u64) -> (r: EntryInfo)
        ensures
            r.entry_type == entry_type,
            r.path == path,
            r.octets == octets,
    {
        EntryInfo { entry_type, path, octets }
    }

    /// Full identity: kind, path and size all agree.
    pub fn same_entry(&self, other: &EntryInfo) -> (r: bool)
        ensures
            r == (self@ == other@),
    {
        *self == *other
    }

    /// Identity without the size: kind and path agree.
    pub fn same_place(&self, other: &EntryInfo) -> (r: bool)
        ensures
            r == same_place(self@, other@),
    {
        self.entry_type == other.entry_type && self.path == other.path
    }
}

/// True when a size or size difference is zero, in which case the persisted
/// form leaves the field out.
pub fn octets_is_zero(diff: &u64) -> (r: bool)
    ensures
        r == (*diff == 0),
{
    *diff == 0
}

/// The absolute difference of two sizes.
pub fn octets_between(a: u64, b: u64) -> (r: u64)
    ensures
        r == octets_distance(a, b),
{
    if a >= b {
        a - b
    } else {
        b - a
    }
}

} // verus!
