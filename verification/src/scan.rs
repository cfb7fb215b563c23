//! Turning the listing of one directory into a batch of entries.
//!
//! Listing a directory and inspecting its children is the caller's work; what
//! was found out arrives here as plain values, and the rules that make
//! entries of it are applied here.

use crate::entry::{EntryInfo, EntryModel, EntryType};
use crate::entry_set::models;
use crate::select::{lemma_select_empty, lemma_select_push, select};
use vstd::prelude::*;
use vstd::string::StringExecFns;

verus! {

/// What inspecting one child of a directory found out.
#[derive(Debug)]
pub struct ChildProbe {
    /// Whether the child was still there when it was inspected.
    pub exists: bool,
    /// Whether it is a regular file.
    pub is_file: bool,
    /// Whether it is a directory.
    pub is_dir: bool,
    /// Its absolute path as text, if the path has a text form.
    pub path: Option<String>,
    /// Its length in bytes, if its metadata could be read.
    pub octets: Option<u64>,
}

/// Why a directory could not be listed.
#[derive(Debug, PartialEq, Eq)]
pub enum OpenFailure {
    /// Reading the directory is not permitted.
    PermissionDenied,
    /// Any other failure, with the text of the error.
    Other(String),
}

/// The kind of a child: the file test comes first, then the directory test.
pub open spec fn kind_of(probe: ChildProbe) -> EntryType {
    if probe.is_file {
        EntryType::File
    } else if probe.is_dir {
        EntryType::Directory
    } else {
        EntryType::Unknown
    }
}

/// The path of a child; a path without a text form is replaced by a placeholder.
pub open spec fn path_of(probe: ChildProbe) -> Seq<char> {
    match probe.path {
        Some(path) => path@,
        None => "Invalid path"@,
    }
}

/// The size of a child: zero for a directory and where the metadata could
/// not be read.
pub open spec fn octets_of(probe: ChildProbe) -> u64 {
    match probe.octets {
        Some(octets) if kind_of(probe) != EntryType::Directory => octets,
        _ => 0,
    }
}

/// The entry that stands for a child.
pub open spec fn entry_of(probe: ChildProbe) -> EntryModel {
    EntryModel { entry_type: kind_of(probe), path: path_of(probe), octets: octets_of(probe) }
}

/// A child is reported when it could be listed and was still there when it
/// was inspected.
pub open spec fn reported(child: Option<ChildProbe>) -> bool {
    child matches Some(probe) && probe.exists
}

/// The batch of a listing: one entry for each reported child, in listing order.
pub open spec fn batch_of(children: Seq<Option<ChildProbe>>) -> Seq<EntryModel> {
    select(
        children,
        |child: Option<ChildProbe>| reported(child),
        |child: Option<ChildProbe>| entry_of(child->0),
    )
}

/// Makes the entry of one child.
///
/// Nothing that can go wrong with a single child fails here: an unreadable
/// size becomes zero, an untextable path the placeholder, and whatever is
/// neither file nor directory is `Unknown`.
pub fn classify(probe: ChildProbe) -> (r: EntryInfo)
    ensures
        r@ == entry_of(probe),
{
    let entry_type = if probe.is_file {
        EntryType::File
    } else if probe.is_dir {
        EntryType::Directory
    } else {
        EntryType::Unknown
    };
    let octets: u64 = match probe.octets {
        Some(octets) => if probe.is_dir && !probe.is_file {
            0
        } else {
            octets
        },
        None => 0,
    };
    let path = match probe.path {
        Some(path) => path,
        None => String::from_str("Invalid path"),
    };
    EntryInfo { entry_type, path, octets }
}

/// Makes the batch of one directory from what listing it gave.
///
/// A directory that could not be opened gives the empty batch, and the
/// failure is handed back beside it. Of the children of an opened directory,
/// those that could not be listed or had vanished when they were inspected
/// are passed over; each of the others gives one entry.
pub fn read_path(listing: Result<Vec<Option<ChildProbe>>, OpenFailure>) -> (r: (
    Vec<EntryInfo>,
    Option<OpenFailure>,
))
    ensures
        match listing {
            Ok(children) => models(r.0@) == batch_of(children@) && r.1 is None,
            Err(failure) => r.0@.len() == 0 && r.1 == Some(failure),
        },
{
    let mut entries_info: Vec<EntryInfo> = Vec::new();
    match listing {
        Ok(children) => {
            let ghost all = children@;
            proof {
                lemma_select_empty(
                    |child: Option<ChildProbe>| reported(child),
                    |child: Option<ChildProbe>| entry_of(child->0),
                );
                assert(all.take(0) =~= Seq::<Option<ChildProbe>>::empty());
                assert(models(entries_info@) =~= Seq::<EntryModel>::empty());
            }
            for child in it: children.into_iter()
                invariant
                    it.seq() == all,
                    models(entries_info@) == batch_of(all.take(it.index() as int)),
            {
                proof {
                    all.lemma_take_succ_push(it.index() as int);
                    lemma_select_push(
                        all.take(it.index() as int),
                        child,
                        |child: Option<ChildProbe>| reported(child),
                        |child: Option<ChildProbe>| entry_of(child->0),
                    );
                }
                match child {
                    Some(probe) => {
                        if probe.exists {
                            let ghost before = models(entries_info@);
                            let entry = classify(probe);
                            entries_info.push(entry);
                            assert(models(entries_info@) =~= before.push(entry@));
                        }
                    },
                    None => {},
                }
            }
            assert(all.take(all.len() as int) =~= all);
            (entries_info, None)
        },
        Err(failure) => (entries_info, Some(failure)),
    }
}

} // verus!
