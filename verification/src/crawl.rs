//! Snapshots: the result of one full scan.

use crate::entry::EntryModel;
use crate::entry_set::EntrySet;
use vstd::prelude::*;

verus! {

/// The format revision written into every snapshot this library produces.
pub const TOOL_REVISION: u32 = 1;

/// The result of one full scan: the entries seen, with the time of the scan,
/// the format revision and the number of entries.
///
/// `entry_count` is persisted next to the entries; a snapshot made by
/// [`Crawl::new`] has it equal to the number of entries, one loaded from
/// elsewhere carries whatever was stored.
#[derive(Debug, Eq)]
pub struct Crawl {
    pub date_time: String,
    pub used_tool_revision: u32,
    pub entry_count: usize,
    pub entries_info: EntrySet,
}

/// The mathematical value of a [`Crawl`].
pub struct CrawlModel {
    pub date_time: Seq<char>,
    pub used_tool_revision: u32,
    pub entry_count: usize,
    pub entries: Set<EntryModel>,
}

impl View for Crawl {
    type V = CrawlModel;

    open spec fn view(&self) -> CrawlModel {
        CrawlModel {
            date_time: self.date_time@,
            used_tool_revision: self.used_tool_revision,
            entry_count: self.entry_count,
            entries: self.entries_info@,
        }
    }
}

/// Two snapshots show the same state when revision, count and entries agree;
/// the time of the scan is not looked at.
pub open spec fn same_state(a: CrawlModel, b: CrawlModel) -> bool {
    &&& a.used_tool_revision == b.used_tool_revision
    &&& a.entry_count == b.entry_count
    &&& a.entries == b.entries
}

impl Crawl {
    /// A snapshot of `entries_info` taken at `date_time`, with the current
    /// format revision and the count of the entries.
    pub fn new(date_time: String, entries_info: EntrySet) -> (r: Crawl)
        ensures
            r.date_time == date_time,
            r.used_tool_revision == TOOL_REVISION,
            r.entry_count == entries_info@.len(),
            r.entry_count == entries_info.order().len(),
            r.entries_info == entries_info,
    {
        let entry_count = entries_info.len();
        Crawl { date_time, used_tool_revision: TOOL_REVISION, entry_count, entries_info }
    }
}

impl PartialEq for Crawl {
    /// Equality of state: the time of the scan is for the reader only.
    fn eq(&self, other: &Crawl) -> (r: bool) {
        self.used_tool_revision == other.used_tool_revision && self.entry_count
            == other.entry_count && self.entries_info.same_set(&other.entries_info)
    }
}

impl vstd::std_specs::cmp::PartialEqSpecImpl for Crawl {
    open spec fn obeys_eq_spec() -> bool {
        true
    }

    open spec fn eq_spec(&self, other: &Crawl) -> bool {
        same_state(self@, other@)
    }
}

impl Clone for Crawl {
    fn clone(&self) -> (r: Self)
        ensures
            r@ == self@,
            r.entries_info.order() == self.entries_info.order(),
    {
        Crawl {
            date_time: self.date_time.clone(),
            used_tool_revision: self.used_tool_revision,
            entry_count: self.entry_count,
            entries_info: self.entries_info.clone(),
        }
    }
}

} // verus!
