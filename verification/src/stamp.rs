//! The names of the files that carry the time stamp of what they hold.

use vstd::prelude::*;
use vstd::string::StringExecFns;

verus! {

/// The name of the file that holds the snapshot taken at `date_time`.
pub fn record_file_name(date_time: &str) -> (r: String)
    ensures
        r@ == "record_"@ + date_time@ + ".json"@,
{
    let mut name = String::from_str("record_");
    name.append(date_time);
    name.append(".json");
    name
}

/// The name of the file that holds the comparison made at `date_time`.
pub fn analysis_file_name(date_time: &str) -> (r: String)
    ensures
        r@ == "analysis_"@ + date_time@ + ".json"@,
{
    let mut name = String::from_str("analysis_");
    name.append(date_time);
    name.append(".json");
    name
}

} // verus!
