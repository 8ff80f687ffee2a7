//! Folders for releases on their way to a bucket.

use crate::storage::made_safe;
use crate::text::{decimal, decimal_of};
use vstd::prelude::*;
use vstd::string::*;

verus! {

/// The name of a release's staging folder.
pub open spec fn temp_release_dir_of(safe_id: Seq<char>, suffix: u64) -> Seq<char> {
    "bandsnatch-"@ + safe_id + "-"@ + decimal_of(suffix as nat)
}

/// Calls `rand::random`. Nothing is stated of the number: any may come.
#[verifier::external_body]
fn random_suffix() -> u64 {
    rand::random()
}

/// The name of a release's staging folder, made of a file name for the release
/// and a number.
pub fn temp_release_dir_name(safe_id: &str, suffix: u64) -> (name: String)
    ensures
        name@ == temp_release_dir_of(safe_id@, suffix),
{
    let mut name = String::from_str("bandsnatch-");
    name.append(safe_id);
    name.append("-");
    name.append(decimal(suffix).as_str());
    name
}

/// A name for a release's staging folder that other jobs are unlikely to pick:
/// it ends in a random number. `fs_safe` makes file names.
pub fn random_temp_release_dir_name<F: Fn(&str) -> String>(
    release_id: &str,
    fs_safe: F,
) -> (name: String)
    requires
        fs_safe.requires((release_id,)),
    ensures
        exists|safe_id: Seq<char>, suffix: u64|
            made_safe(fs_safe, release_id@, safe_id) && name@ == #[trigger] temp_release_dir_of(
                safe_id,
                suffix,
            ),
{
    let suffix = random_suffix();
    let safe_id = fs_safe(release_id);
    assert(made_safe(fs_safe, release_id@, safe_id@));
    temp_release_dir_name(safe_id.as_str(), suffix)
}

} // verus!
