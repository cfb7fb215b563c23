//! Which directories to scan.
//!
//! The directories of a run form a set: each is scanned once. The usual ones
//! are made from the variables that the system sets; the configured ones are
//! read from a JSON text. The set is a vector that holds no directory twice:
//! of std's hash set keyed by a string nothing can be proved.

use crate::distinct::{absorb, lemma_absorb_from_empty, lemma_absorb_push};
use crate::select::{lemma_select_empty, lemma_select_push, select};
use vstd::prelude::*;
use vstd::string::StringExecFns;

verus! {

/// The texts of a sequence of strings.
pub open spec fn texts(v: Seq<String>) -> Seq<Seq<char>> {
    v.map_values(|s: String| s@)
}

/// The texts of the items of an array, where an item that is no string has
/// none.
pub open spec fn item_texts(items: Seq<Option<String>>) -> Seq<Option<Seq<char>>> {
    items.map_values(
        |item: Option<String>|
            match item {
                Some(text) => Some(text@),
                None => None,
            },
    )
}

/// The directories that the items of an array name: the items that are
/// strings, in order. An item that is no string names no directory.
pub open spec fn named_paths(items: Seq<Option<Seq<char>>>) -> Seq<Seq<char>> {
    select(items, |item: Option<Seq<char>>| item is Some, |item: Option<Seq<char>>| item->0)
}

/// The values of the variables that say where the system keeps its files.
#[derive(Debug)]
pub struct SystemFolders {
    /// The drive of the system, such as `C:`.
    pub system_drive: String,
    pub program_data: String,
    pub program_files: String,
    pub program_files_x86: String,
    pub user_profile: String,
    /// The roaming application data of the user.
    pub app_data: String,
    /// The local application data of the user.
    pub local_app_data: String,
}

/// The directories that applications and installers most often write to.
pub open spec fn auto_mode_paths(env: SystemFolders) -> Seq<Seq<char>> {
    seq![
        env.system_drive@ + "\\"@,
        env.program_data@,
        env.program_files@,
        env.program_files_x86@,
        env.user_profile@,
        env.app_data@,
        env.local_app_data@,
        env.user_profile@ + "\\AppData\\LocalLow"@,
    ]
}

/// Why a JSON text gives no directories.
#[derive(Clone, Copy, Debug, PartialEq, Eq, Structural)]
pub enum FoldersError {
    /// The text is not JSON.
    Malformed,
    /// The JSON has no array under `folders`.
    NoFolders,
}

/// `serde_json::Error`, the failure of a parse. It is carried through as it
/// is; nothing inside it is read.
#[verifier::external_type_specification]
#[verifier::external_body]
pub struct ExJsonError(serde_json::Error);

/// What `serde_json` makes of a text and a key: `None` where the text is not
/// JSON; else whether the value under the key is an array and, if it is, for
/// each of its items the string that the item is, or `None` for an item that
/// is no string.
pub uninterp spec fn json_array_strings(text: Seq<char>, key: Seq<char>) -> Option<
    Option<Seq<Option<Seq<char>>>>,
>;

/// Parses `text` with `serde_json::from_str` into a `serde_json::Value`,
/// indexes the value by `key`, takes the result with `Value::as_array`, and
/// asks each item of the array for its string with `Value::as_str`.
///
/// The contract only names the outcome: the same text and key give the same
/// outcome. Indexing a value that is no object, or has no such key, gives
/// null, which is no array. None of the four calls can fail but the parse,
/// whose failure is handed back.
#[verifier::external_body]
fn json_array_member(text: &str, key: &str) -> (r: Result<
    Option<Vec<Option<String>>>,
    serde_json::Error,
>)
    ensures
        match r {
            Ok(Some(items)) => json_array_strings(text@, key@) == Some(Some(item_texts(items@))),
            Ok(None) => json_array_strings(text@, key@) == Some(None::<Seq<Option<Seq<char>>>>),
            Err(_) => json_array_strings(text@, key@) is None,
        },
{
    let value: serde_json::Value = serde_json::from_str(text)?;
    Ok(
        value[key].as_array().map(
            |items| items.iter().map(|item| item.as_str().map(|text| text.to_owned())).collect(),
        ),
    )
}

/// True when `path` is among `paths`.
pub fn contains_path(paths: &Vec<String>, path: &String) -> (r: bool)
    ensures
        r == texts(paths@).contains(path@),
{
    let mut i: usize = 0;
    while i < paths.len()
        invariant
            i <= paths.len(),
            forall|j: int| 0 <= j < i ==> texts(paths@)[j] != path@,
        decreases paths.len() - i,
    {
        if paths[i] == *path {
            assert(texts(paths@)[i as int] == path@);
            return true;
        }
        i += 1;
    }
    false
}

/// The directories of `items`, each once, in order of first occurrence.
pub fn distinct_folders(items: Vec<String>) -> (r: Vec<String>)
    ensures
        texts(r@) == absorb(Seq::<Seq<char>>::empty(), texts(items@)),
        texts(r@).no_duplicates(),
        texts(r@).to_set() == texts(items@).to_set(),
{
    let ghost all = texts(items@);
    let mut folders: Vec<String> = Vec::new();
    assert(texts(folders@) =~= Seq::<Seq<char>>::empty());
    for item in it: items.into_iter()
        invariant
            texts(it.seq()) == all,
            texts(folders@) == absorb(Seq::<Seq<char>>::empty(), all.take(it.index() as int)),
    {
        proof {
            all.lemma_take_succ_push(it.index() as int);
            lemma_absorb_push(Seq::<Seq<char>>::empty(), all.take(it.index() as int), item@);
        }
        if !contains_path(&folders, &item) {
            let ghost held = texts(folders@);
            folders.push(item);
            assert(texts(folders@) =~= held.push(item@));
        }
    }
    proof {
        assert(all.take(all.len() as int) =~= all);
        lemma_absorb_from_empty(all);
    }
    folders
}

/// The usual directories, each once.
pub fn load_auto_mode_folders(env: &SystemFolders) -> (r: Vec<String>)
    ensures
        texts(r@) == absorb(Seq::<Seq<char>>::empty(), auto_mode_paths(*env)),
        texts(r@).no_duplicates(),
        texts(r@).to_set() == auto_mode_paths(*env).to_set(),
{
    let mut system_dir = env.system_drive.clone();
    system_dir.append("\\");
    let mut local_low_app_data = env.user_profile.clone();
    local_low_app_data.append("\\AppData\\LocalLow");
    let mut folders: Vec<String> = Vec::new();
    folders.push(system_dir);
    folders.push(env.program_data.clone());
    folders.push(env.program_files.clone());
    folders.push(env.program_files_x86.clone());
    folders.push(env.user_profile.clone());
    folders.push(env.app_data.clone());
    folders.push(env.local_app_data.clone());
    folders.push(local_low_app_data);
    assert(texts(folders@) =~= auto_mode_paths(*env));
    distinct_folders(folders)
}

/// The items that are strings, in order.
pub fn string_items(items: Vec<Option<String>>) -> (r: Vec<String>)
    ensures
        texts(r@) == named_paths(item_texts(items@)),
{
    let ghost all = item_texts(items@);
    let mut paths: Vec<String> = Vec::new();
    proof {
        lemma_select_empty(
            |item: Option<Seq<char>>| item is Some,
            |item: Option<Seq<char>>| item->0,
        );
        assert(all.take(0) =~= Seq::<Option<Seq<char>>>::empty());
        assert(texts(paths@) =~= Seq::<Seq<char>>::empty());
    }
    for item in it: items.into_iter()
        invariant
            item_texts(it.seq()) == all,
            texts(paths@) == named_paths(all.take(it.index() as int)),
    {
        proof {
            all.lemma_take_succ_push(it.index() as int);
            lemma_select_push(
                all.take(it.index() as int),
                all[it.index() as int],
                |item: Option<Seq<char>>| item is Some,
                |item: Option<Seq<char>>| item->0,
            );
        }
        match item {
            Some(path) => {
                let ghost held = texts(paths@);
                paths.push(path);
                assert(texts(paths@) =~= held.push(path@));
            },
            None => {},
        }
    }
    assert(all.take(all.len() as int) =~= all);
    paths
}

/// Makes the configured directories of what the JSON text held under `folders`.
///
/// A text that is no JSON and a JSON without such an array are told apart.
/// Of the items of the array, those that are strings are taken, each once,
/// in order of first occurrence.
pub fn folders_from(found: Result<Option<Vec<Option<String>>>, serde_json::Error>) -> (r: Result<
    Vec<String>,
    FoldersError,
>)
    ensures
        match found {
            Ok(Some(items)) => r matches Ok(folders) && texts(folders@) == absorb(
                Seq::<Seq<char>>::empty(),
                named_paths(item_texts(items@)),
            ),
            Ok(None) => r == Err::<Vec<String>, FoldersError>(FoldersError::NoFolders),
            Err(_) => r == Err::<Vec<String>, FoldersError>(FoldersError::Malformed),
        },
{
    match found {
        Ok(Some(items)) => Ok(distinct_folders(string_items(items))),
        Ok(None) => Err(FoldersError::NoFolders),
        Err(_) => Err(FoldersError::Malformed),
    }
}

/// The configured directories: the string items of the array under
/// `folders` in the JSON `text`, each once.
pub fn load_manual_mode_folders(text: &str) -> (r: Result<Vec<String>, FoldersError>)
    ensures
        match json_array_strings(text@, "folders"@) {
            Some(Some(items)) => r matches Ok(folders) && texts(folders@) == absorb(
                Seq::<Seq<char>>::empty(),
                named_paths(items),
            ),
            Some(None) => r == Err::<Vec<String>, FoldersError>(FoldersError::NoFolders),
            None => r == Err::<Vec<String>, FoldersError>(FoldersError::Malformed),
        },
{
    folders_from(json_array_member(text, "folders"))
}

impl FoldersError {
    /// What to tell the user.
    pub fn message(&self) -> (r: String)
        ensures
            r@ == match *self {
                FoldersError::Malformed => "Malformated JSON"@,
                FoldersError::NoFolders => "No folders found in JSON"@,
            },
    {
        match self {
            FoldersError::Malformed => String::from_str("Malformated JSON"),
            FoldersError::NoFolders => String::from_str("No folders found in JSON"),
        }
    }
}

} // verus!
