//! What one run of the downloader does.

use crate::config::S3Config;
use crate::home::{expand_tilde, is_expanded};
use crate::text::{decimal, decimal_of, join, joined, optional_text, same_text, texts};
use vstd::prelude::*;
use vstd::string::*;

verus! {

/// The settings of a run.
pub struct Args {
    pub album: Option<String>,
    pub artist: Option<String>,
    /// The audio format to download the files in.
    pub audio_format: String,
    pub cookies: Option<String>,
    /// Enables some extra debug output in certain scenarios.
    pub debug: bool,
    /// List the releases to be downloaded, without downloading them.
    pub dry_run: bool,
    /// Ignores any found cache file and instead does a from-scratch download
    /// run.
    pub force: bool,
    /// The number of parallel download jobs.
    pub download_jobs: u8,
    /// The number of parallel S3 upload jobs.
    pub upload_jobs: u8,
    /// The largest number of releases to download.
    pub limit: Option<usize>,
    /// The folder to extract downloaded releases to.
    pub output_folder: String,
    /// The S3 endpoint URL, for an output folder on S3.
    pub s3_endpoint: Option<String>,
    /// The S3 region used for signing requests.
    pub s3_region: Option<String>,
    pub s3_access_key_id: Option<String>,
    pub s3_secret_access_key: Option<String>,
    pub s3_session_token: Option<String>,
    /// The user to download releases from.
    pub user: String,
}

/// The warning for a step that failed and was skipped.
pub open spec fn skip_warning_of(error: Seq<char>) -> Seq<char> {
    "An error: "@ + error + "; skipped."@
}

/// Words the warning for a step that failed and was skipped.
pub fn skip_warning(error: &str) -> (text: String)
    ensures
        text@ == skip_warning_of(error@),
{
    let mut text = String::from_str("An error: ");
    text.append(error);
    text.append("; skipped.");
    text
}

/// Whether the cache is dirty after an attempt to add a release to it: it is
/// once an entry was added, and stays so.
pub open spec fn dirty_after_entry(dirty: bool, added: Result<bool, String>) -> bool {
    dirty || added == Ok::<bool, String>(true)
}

/// Takes note of what adding a release to the cache came to: the cache is
/// dirty once an entry was added to it. Returns the warning where adding
/// failed.
pub fn add_cache_entry(added: Result<bool, String>, cache_dirty: &mut bool) -> (warning: Option<
    String,
>)
    ensures
        *final(cache_dirty) == dirty_after_entry(*old(cache_dirty), added),
        optional_text(warning) == match added {
            Ok(_) => None,
            Err(error) => Some(skip_warning_of(error@)),
        },
{
    match added {
        Ok(added) => {
            if added {
                *cache_dirty = true;
            }
            None
        },
        Err(error) => Some(skip_warning(error.as_str())),
    }
}

/// The audio formats that releases come in.
pub fn formats() -> (formats: [&'static str; 8])
    ensures
        formats[0]@ == "flac"@,
        formats[1]@ == "wav"@,
        formats[2]@ == "aac-hi"@,
        formats[3]@ == "mp3-320"@,
        formats[4]@ == "aiff-lossless"@,
        formats[5]@ == "vorbis"@,
        formats[6]@ == "mp3-v0"@,
        formats[7]@ == "alac"@,
{
    ["flac", "wav", "aac-hi", "mp3-320", "aiff-lossless", "vorbis", "mp3-v0", "alac"]
}

/// A number of jobs, at least one.
pub open spec fn at_least_one(jobs: u8) -> u8 {
    if jobs == 0 {
        1u8
    } else {
        jobs
    }
}

impl Args {
    /// The number of download workers, at least one.
    pub fn download_workers(&self) -> (jobs: u8)
        ensures
            jobs == at_least_one(self.download_jobs),
    {
        if self.download_jobs == 0 {
            1
        } else {
            self.download_jobs
        }
    }

    /// The S3 settings, with at least one upload job.
    pub fn s3_config(&self) -> (config: S3Config)
        ensures
            optional_text(config.endpoint) == optional_text(self.s3_endpoint),
            optional_text(config.region) == optional_text(self.s3_region),
            optional_text(config.access_key_id) == optional_text(self.s3_access_key_id),
            optional_text(config.secret_access_key) == optional_text(self.s3_secret_access_key),
            optional_text(config.session_token) == optional_text(self.s3_session_token),
            config.upload_jobs == at_least_one(self.upload_jobs),
    {
        let upload_jobs: u8 = if self.upload_jobs == 0 {
            1
        } else {
            self.upload_jobs
        };
        S3Config {
            endpoint: self.s3_endpoint.clone(),
            region: self.s3_region.clone(),
            access_key_id: self.s3_access_key_id.clone(),
            secret_access_key: self.s3_secret_access_key.clone(),
            session_token: self.s3_session_token.clone(),
            upload_jobs: upload_jobs as usize,
        }
    }

    /// The file to read cookies from, with its tilde expanded to the home
    /// directory.
    pub fn cookies_file(&self, home: &Option<String>) -> (file: Option<String>)
        ensures
            match self.cookies {
                None => file is None,
                Some(cookies) => file matches Some(f) && is_expanded(
                    cookies@,
                    optional_text(*home),
                    f@,
                ),
            },
    {
        match &self.cookies {
            None => None,
            Some(cookies) => Some(expand_tilde(cookies.as_str(), home)),
        }
    }
}

/// The ids of the releases that count as downloaded, by way of what reading
/// the cache gave. A forced run ignores the cache, even one that cannot be
/// read.
pub fn cached_ids(force: bool, content: Result<Vec<String>, String>) -> (ids: Result<
    Vec<String>,
    String,
>)
    ensures
        force ==> (ids matches Ok(v) && v@.len() == 0),
        !force ==> ids == content,
{
    if force {
        Ok(Vec::new())
    } else {
        content
    }
}

/// A release that is to be downloaded: any if forced, else one that the cache
/// does not list.
pub open spec fn is_wanted<T>(release: (String, T), cached: Seq<String>, force: bool) -> bool {
    force || !texts(cached).contains(release.0@)
}

/// The releases that are to be downloaded: those wanted, in the order in which
/// they were found, up to the limit.
pub open spec fn pending_of<T>(
    found: Seq<(String, T)>,
    cached: Seq<String>,
    force: bool,
    limit: Option<usize>,
) -> Seq<(String, T)> {
    let wanted = found.filter(|release: (String, T)| is_wanted(release, cached, force));
    match limit {
        Some(limit) => if limit < wanted.len() {
            wanted.take(limit as int)
        } else {
            wanted
        },
        None => wanted,
    }
}

/// Whether the cache lists a release.
fn lists(cached: &Vec<String>, id: &str) -> (yes: bool)
    ensures
        yes == texts(cached@).contains(id@),
{
    for i in 0..cached.len()
        invariant
            forall|j: int| 0 <= j < i ==> texts(cached@)[j] != id@,
    {
        if same_text(cached[i].as_str(), id) {
            assert(texts(cached@)[i as int] == id@);
            return true;
        }
    }
    false
}

/// Picks the releases that are to be downloaded.
pub fn pending_releases<T>(
    found: Vec<(String, T)>,
    cached: &Vec<String>,
    force: bool,
    limit: Option<usize>,
) -> (pending: Vec<(String, T)>)
    ensures
        pending@ == pending_of(found@, cached@, force, limit),
{
    let limit: usize = match limit {
        Some(limit) => limit,
        None => usize::MAX,
    };
    let mut pending: Vec<(String, T)> = Vec::new();
    let ghost all = found@;
    assert(all.len() == found.len());
    let ghost wanted = |release: (String, T)| is_wanted(release, cached@, force);
    let ghost mut picked: Seq<(String, T)> = seq![];
    proof {
        reveal(Seq::filter);
        assert(all.take(0).filter(wanted) =~= seq![]);
    }
    for release in it: found
        invariant
            it.seq() == all,
            wanted == (|release: (String, T)| is_wanted(release, cached@, force)),
            picked == all.take(it.index() as int).filter(wanted),
            picked.len() <= it.index(),
            pending@ == if limit < picked.len() {
                picked.take(limit as int)
            } else {
                picked
            },
    {
        let ghost before = picked;
        proof {
            reveal(Seq::filter);
            let next = all.take(it.index() + 1);
            assert(next.drop_last() =~= all.take(it.index() as int));
            assert(next.last() == release);
            picked = next.filter(wanted);
        }
        if force || !lists(cached, release.0.as_str()) {
            assert(picked == before.push(release));
            if pending.len() < limit {
                pending.push(release);
            }
        } else {
            assert(picked == before);
        }
        assert(pending@ =~= if limit < picked.len() {
            picked.take(limit as int)
        } else {
            picked
        });
    }
    assert(all.take(all.len() as int) =~= all);
    pending
}

/// The line that a run starts with.
pub open spec fn announcement_of(dry_run: bool, releases: nat) -> Seq<char> {
    if dry_run {
        "Fetching information for "@ + decimal_of(releases) + " found releases"@
    } else {
        "Trying to download "@ + decimal_of(releases) + " releases"@
    }
}

/// Words the line that a run starts with.
pub fn announcement(dry_run: bool, releases: usize) -> (line: String)
    ensures
        line@ == announcement_of(dry_run, releases as nat),
{
    let count = decimal(releases as u64);
    if dry_run {
        let mut line = String::from_str("Fetching information for ");
        line.append(count.as_str());
        line.append(" found releases");
        line
    } else {
        let mut line = String::from_str("Trying to download ");
        line.append(count.as_str());
        line.append(" releases");
        line
    }
}

/// What a run prints at its end: a dry run, the releases it found, one a line;
/// a run without releases, or one that downloads, that it has finished.
pub open spec fn closing_of(dry_run: bool, releases: nat, report: Seq<Seq<char>>) -> Seq<char> {
    if dry_run && releases > 0 {
        joined(report, "\n"@)
    } else {
        "Finished!"@
    }
}

/// Words what a run prints at its end.
pub fn closing(dry_run: bool, releases: usize, report: &Vec<String>) -> (text: String)
    ensures
        text@ == closing_of(dry_run, releases as nat, texts(report@)),
{
    if dry_run && releases > 0 {
        join(report, "\n")
    } else {
        String::from_str("Finished!")
    }
}

} // verus!
