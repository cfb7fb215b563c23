//! Comparing two snapshots.
//!
//! Entries are identified by kind, path and size together, so an entry whose
//! size changed between two scans is, to the sets, a different entry. To tell
//! a resized entry from a new one, and to find the removed ones, entries are
//! also looked up by their place: kind and path alone.

use crate::crawl::Crawl;
use crate::entry::{octets_between, octets_distance, EntryInfo, EntryModel, EntryType};
use crate::entry_set::{first_place, has_place, models, EntrySet};
use crate::select::{lemma_select_all, lemma_select_empty, lemma_select_none, lemma_select_push, select};
use vstd::prelude::*;

verus! {

/// What became of an entry between two snapshots.
#[derive(Clone, Copy, Debug, PartialEq, Eq, Structural)]
pub enum EntryDifferenceType {
    /// Nothing was at its place before.
    New,
    /// Nothing is at its place any more.
    Removed,
    /// Something of another size was at its place before.
    SizeChange,
    /// It is in both snapshots, with the same size.
    NoChange,
}

/// One line of a comparison.
#[derive(Debug, PartialEq, Eq)]
pub struct EntryDifference {
    pub entry_type: EntryType,
    pub difference_type: EntryDifferenceType,
    pub path: Option<String>,
    pub octets_difference: u64,
}

/// The mathematical value of an [`EntryDifference`].
pub struct DifferenceModel {
    pub entry_type: EntryType,
    pub difference_type: EntryDifferenceType,
    pub path: Option<Seq<char>>,
    pub octets_difference: u64,
}

impl View for EntryDifference {
    type V = DifferenceModel;

    open spec fn view(&self) -> DifferenceModel {
        DifferenceModel {
            entry_type: self.entry_type,
            difference_type: self.difference_type,
            path: match self.path {
                Some(path) => Some(path@),
                None => None,
            },
            octets_difference: self.octets_difference,
        }
    }
}

/// The result of comparing two snapshots: the time of the comparison and one
/// line for each entry that the comparison speaks of.
#[derive(Debug, PartialEq, Eq)]
pub struct DifferenceAnalysis {
    pub date_time: String,
    pub entries_difference: Vec<EntryDifference>,
}

/// The values of a sequence of lines.
pub open spec fn lines(v: Seq<EntryDifference>) -> Seq<DifferenceModel> {
    v.map_values(|d: EntryDifference| d@)
}

/// The line that says `difference_type` of the entry `e`.
pub open spec fn line(
    e: EntryModel,
    difference_type: EntryDifferenceType,
    octets_difference: u64,
) -> DifferenceModel {
    DifferenceModel {
        entry_type: e.entry_type,
        difference_type,
        path: Some(e.path),
        octets_difference,
    }
}

/// The line of an entry that both snapshots hold.
pub open spec fn unchanged_line(e: EntryModel) -> DifferenceModel {
    line(e, EntryDifferenceType::NoChange, 0)
}

/// The line of an entry that only the later snapshot holds.
///
/// Where the earlier snapshot holds something at its place, the size has
/// changed, and the line carries the distance to the size of the first entry
/// held there. Else the entry is new, and the line carries its size.
pub open spec fn changed_line(before: Seq<EntryModel>, e: EntryModel) -> DifferenceModel {
    if has_place(before, e) {
        line(
            e,
            EntryDifferenceType::SizeChange,
            octets_distance(e.octets, before[first_place(before, e)].octets) as u64,
        )
    } else {
        line(e, EntryDifferenceType::New, e.octets)
    }
}

/// The line of an entry at whose place the later snapshot holds nothing.
pub open spec fn removed_line(e: EntryModel) -> DifferenceModel {
    line(e, EntryDifferenceType::Removed, 0)
}

/// True when `e` is the first entry of `before` at its place and `after`
/// holds nothing there.
pub open spec fn gone(before: Seq<EntryModel>, after: Seq<EntryModel>, e: EntryModel) -> bool {
    &&& !has_place(after, e)
    &&& has_place(before, e)
    &&& before[first_place(before, e)] == e
}

/// The lines of those entries of `part` that `after` holds too.
pub open spec fn unchanged_among(part: Seq<EntryModel>, after: Seq<EntryModel>) -> Seq<
    DifferenceModel,
> {
    select(part, |e: EntryModel| after.contains(e), |e: EntryModel| unchanged_line(e))
}

/// The lines of those entries of `part` that `before` does not hold.
pub open spec fn changed_among(part: Seq<EntryModel>, before: Seq<EntryModel>) -> Seq<
    DifferenceModel,
> {
    select(part, |e: EntryModel| !before.contains(e), |e: EntryModel| changed_line(before, e))
}

/// The lines of those entries of `part` that are gone: one line for each
/// place that `after` no longer holds.
pub open spec fn removed_among(
    part: Seq<EntryModel>,
    before: Seq<EntryModel>,
    after: Seq<EntryModel>,
) -> Seq<DifferenceModel> {
    select(part, |e: EntryModel| gone(before, after, e), |e: EntryModel| removed_line(e))
}

/// The lines of a comparison of `before` with `after`: first the unchanged
/// entries in the order of `before`, then the new and resized ones in the
/// order of `after`, then the removed ones in the order of `before`.
pub open spec fn differences(before: Seq<EntryModel>, after: Seq<EntryModel>) -> Seq<
    DifferenceModel,
> {
    unchanged_among(before, after) + changed_among(after, before) + removed_among(
        before,
        before,
        after,
    )
}

/// Comparing a snapshot with itself gives one `NoChange` line for each entry
/// and nothing else.
pub proof fn lemma_compare_same(a: Seq<EntryModel>)
    ensures
        differences(a, a) == a.map_values(|e: EntryModel| unchanged_line(e)),
        differences(a, a).len() == a.len(),
        forall|i: int|
            0 <= i < a.len() ==> (#[trigger] differences(a, a)[i]).difference_type
                == EntryDifferenceType::NoChange,
{
    lemma_select_all(a, |e: EntryModel| a.contains(e), |e: EntryModel| unchanged_line(e));
    lemma_select_none(a, |e: EntryModel| !a.contains(e), |e: EntryModel| changed_line(a, e));
    assert forall|i: int| 0 <= i < a.len() implies !gone(a, a, #[trigger] a[i]) by {
        assert(crate::entry::same_place(a[i], a[i]));
    }
    lemma_select_none(a, |e: EntryModel| gone(a, a, e), |e: EntryModel| removed_line(e));
    assert(differences(a, a) =~= a.map_values(|e: EntryModel| unchanged_line(e)));
}

/// Every line of a comparison names the path of its entry, and only a line
/// that says `SizeChange` or `New` carries octets.
pub proof fn lemma_lines_shape(before: Seq<EntryModel>, after: Seq<EntryModel>, i: int)
    requires
        0 <= i < differences(before, after).len(),
    ensures
        differences(before, after)[i].path is Some,
        differences(before, after)[i].octets_difference != 0 ==> {
            ||| differences(before, after)[i].difference_type == EntryDifferenceType::SizeChange
            ||| differences(before, after)[i].difference_type == EntryDifferenceType::New
        },
{
    let same = unchanged_among(before, after);
    let changed = changed_among(after, before);
    let removed = removed_among(before, before, after);
    if i < same.len() {
    } else if i < same.len() + changed.len() {
        assert(differences(before, after)[i] == changed[i - same.len()]);
    } else {
        assert(differences(before, after)[i] == removed[i - same.len() - changed.len()]);
    }
}

fn difference(entry: &EntryInfo, difference_type: EntryDifferenceType, octets_difference: u64) -> (r:
    EntryDifference)
    ensures
        r@ == line(entry@, difference_type, octets_difference),
{
    EntryDifference {
        entry_type: entry.entry_type,
        difference_type,
        path: Some(entry.path.clone()),
        octets_difference,
    }
}

/// The `NoChange` lines: one for each entry of `first` that `second` holds too.
pub fn unchanged_entries(first: &EntrySet, second: &EntrySet) -> (r: Vec<EntryDifference>)
    ensures
        lines(r@) == unchanged_among(first.order(), second.order()),
{
    let before = first.entries();
    let mut out: Vec<EntryDifference> = Vec::new();
    proof {
        lemma_select_empty(
            |e: EntryModel| second.order().contains(e),
            |e: EntryModel| unchanged_line(e),
        );
        assert(first.order().take(0) =~= Seq::<EntryModel>::empty());
        assert(lines(out@) =~= Seq::<DifferenceModel>::empty());
    }
    let mut i: usize = 0;
    while i < before.len()
        invariant
            i <= before.len(),
            models(before@) == first.order(),
            lines(out@) == unchanged_among(first.order().take(i as int), second.order()),
        decreases before.len() - i,
    {
        let entry = &before[i];
        proof {
            first.order().lemma_take_succ_push(i as int);
            lemma_select_push(
                first.order().take(i as int),
                first.order()[i as int],
                |e: EntryModel| second.order().contains(e),
                |e: EntryModel| unchanged_line(e),
            );
        }
        if second.contains(entry) {
            let d = difference(entry, EntryDifferenceType::NoChange, 0);
            let ghost held = lines(out@);
            out.push(d);
            assert(lines(out@) =~= held.push(d@));
        }
        i += 1;
    }
    assert(first.order().take(before.len() as int) =~= first.order());
    out
}

/// The `New` and `SizeChange` lines: one for each entry of `second` that
/// `first` does not hold.
pub fn changed_entries(first: &EntrySet, second: &EntrySet) -> (r: Vec<EntryDifference>)
    ensures
        lines(r@) == changed_among(second.order(), first.order()),
{
    let before = first.entries();
    let after = second.entries();
    let mut out: Vec<EntryDifference> = Vec::new();
    proof {
        lemma_select_empty(
            |e: EntryModel| !first.order().contains(e),
            |e: EntryModel| changed_line(first.order(), e),
        );
        assert(second.order().take(0) =~= Seq::<EntryModel>::empty());
        assert(lines(out@) =~= Seq::<DifferenceModel>::empty());
    }
    let mut i: usize = 0;
    while i < after.len()
        invariant
            i <= after.len(),
            models(after@) == second.order(),
            models(before@) == first.order(),
            lines(out@) == changed_among(second.order().take(i as int), first.order()),
        decreases after.len() - i,
    {
        let entry = &after[i];
        proof {
            second.order().lemma_take_succ_push(i as int);
            lemma_select_push(
                second.order().take(i as int),
                second.order()[i as int],
                |e: EntryModel| !first.order().contains(e),
                |e: EntryModel| changed_line(first.order(), e),
            );
        }
        if !first.contains(entry) {
            let d = match first.first_at_place(entry) {
                Some(k) => difference(
                    entry,
                    EntryDifferenceType::SizeChange,
                    octets_between(entry.octets, before[k].octets),
                ),
                None => difference(entry, EntryDifferenceType::New, entry.octets),
            };
            let ghost held = lines(out@);
            out.push(d);
            assert(lines(out@) =~= held.push(d@));
        }
        i += 1;
    }
    assert(second.order().take(after.len() as int) =~= second.order());
    out
}

/// The `Removed` lines: one for each place at which `first` holds an entry
/// and `second` holds none.
pub fn removed_entries(first: &EntrySet, second: &EntrySet) -> (r: Vec<EntryDifference>)
    ensures
        lines(r@) == removed_among(first.order(), first.order(), second.order()),
{
    let before = first.entries();
    let mut out: Vec<EntryDifference> = Vec::new();
    proof {
        lemma_select_empty(
            |e: EntryModel| gone(first.order(), second.order(), e),
            |e: EntryModel| removed_line(e),
        );
        assert(first.order().take(0) =~= Seq::<EntryModel>::empty());
        assert(lines(out@) =~= Seq::<DifferenceModel>::empty());
    }
    let mut i: usize = 0;
    while i < before.len()
        invariant
            i <= before.len(),
            models(before@) == first.order(),
            first.order().no_duplicates(),
            lines(out@) == removed_among(
                first.order().take(i as int),
                first.order(),
                second.order(),
            ),
        decreases before.len() - i,
    {
        let entry = &before[i];
        proof {
            first.order().lemma_take_succ_push(i as int);
            lemma_select_push(
                first.order().take(i as int),
                first.order()[i as int],
                |e: EntryModel| gone(first.order(), second.order(), e),
                |e: EntryModel| removed_line(e),
            );
        }
        let leading = match first.first_at_place(entry) {
            Some(k) => k == i,
            None => false,
        };
        if leading && second.first_at_place(entry).is_none() {
            let d = difference(entry, EntryDifferenceType::Removed, 0);
            let ghost held = lines(out@);
            out.push(d);
            assert(lines(out@) =~= held.push(d@));
        }
        i += 1;
    }
    assert(first.order().take(before.len() as int) =~= first.order());
    out
}

/// Compares the snapshot `first` with the later snapshot `second`, and stamps
/// the result `date_time`.
///
/// An entry that both hold is `NoChange`. An entry that only `second` holds
/// is `SizeChange` where `first` holds something at its place, with the
/// distance between the two sizes, and `New` otherwise. Each place that only
/// `first` holds is `Removed`.
pub fn compare_analysis(first: &Crawl, second: &Crawl, date_time: String) -> (r:
    DifferenceAnalysis)
    ensures
        r.date_time == date_time,
        lines(r.entries_difference@) == differences(
            first.entries_info.order(),
            second.entries_info.order(),
        ),
{
    let mut entries_difference = unchanged_entries(&first.entries_info, &second.entries_info);
    let mut changed = changed_entries(&first.entries_info, &second.entries_info);
    let mut removed = removed_entries(&first.entries_info, &second.entries_info);
    let ghost same_lines = lines(entries_difference@);
    let ghost changed_lines = lines(changed@);
    let ghost removed_lines = lines(removed@);
    entries_difference.append(&mut changed);
    entries_difference.append(&mut removed);
    assert(lines(entries_difference@) =~= same_lines + changed_lines + removed_lines);
    DifferenceAnalysis { date_time, entries_difference }
}

} // verus!
