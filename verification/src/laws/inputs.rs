//! The library takes any input: what it asks of a caller is stated here, and is
//! nothing but for header text and for functions that make file names.

use crate::clock::amz_date_now;
use crate::config::{endpoint_text, env_or, region, S3Config, S3Env};
use crate::digest::{hex, sha256_hex};
use crate::error::StorageError;
use crate::headers::{value_text, visible_text};
use crate::home::{home_dir, home_in};
use crate::job::{JobSettings, Outcome, ReleaseJob};
use crate::laws::signatures::{can_be_sent, is_readable, lemma_can_be_sent, lemma_readable};
use crate::percent::encode_key_path;
use crate::plan::{Event, RunPlan};
use crate::requests::{
    address, cache_download_outcome, host_header, upload_outcome, ObjectRequest,
};
use crate::run::{
    add_cache_entry, announcement, cached_ids, closing, formats, pending_releases, skip_warning,
    Args,
};
use crate::staging::{random_temp_release_dir_name, temp_release_dir_name};
use crate::storage::{
    join_key, locate, s3_cache_file, s3_location, OutputTarget, S3Location, S3Target,
};
use crate::upload::{job_count, DirEntry, FileCollector, UploadQueue};
use crate::url_parts::UrlParts;
use vstd::prelude::*;

verus! {

/// Any text, number and byte string can be encoded, hashed and tested.
pub proof fn law_any_text_is_taken(a: &str, b: &str, s: String, bytes: &[u8], n: u64)
    ensures
        call_requires(amz_date_now, ()),
        call_requires(home_dir, ()),
        call_requires(home_in, (s,)),
        call_requires(hex, (bytes,)),
        call_requires(sha256_hex, (bytes,)),
        call_requires(value_text, (a,)),
        call_requires(visible_text, (a,)),
        call_requires(encode_key_path, (a,)),
        call_requires(join_key, (a, b)),
        call_requires(s3_cache_file, (a, None)),
        call_requires(s3_cache_file, (a, Some(b))),
        call_requires(temp_release_dir_name, (a, n)),
        call_requires(skip_warning, (a,)),
{
}

/// Any folder and any settings can be read.
pub proof fn law_any_setting_is_taken(
    folder: &str,
    config: S3Config,
    env: S3Env,
    home: Option<String>,
    setting: Option<String>,
    url: UrlParts,
    location: S3Location,
    found: Option<bool>,
    target: OutputTarget,
    error: StorageError,
)
    ensures
        call_requires(env_or, (&home, &setting)),
        call_requires(region, (&config, &env)),
        call_requires(endpoint_text, (&setting, &env)),
        call_requires(locate, (folder, &url)),
        call_requires(s3_location, (folder,)),
        call_requires(S3Target::endpoint_url, (&setting, &env)),
        call_requires(S3Target::assemble, (location, url, config, &env)),
        call_requires(S3Target::new, (folder, config, &env)),
        call_requires(OutputTarget::parse, (folder, config, &env, &home)),
        call_requires(OutputTarget::ensure_ready, (&target, found)),
        call_requires(OutputTarget::remote, (&target,)),
        call_requires(StorageError::message, (&error,)),
{
}

/// Any folder and any target have a cache file, where file names can be made of
/// any text.
pub proof fn law_any_folder_has_a_cache_file<F: Fn(&str) -> String>(
    folder: &str,
    home: Option<String>,
    target: OutputTarget,
    fs_safe: F,
)
    requires
        forall|text: &str| fs_safe.requires((text,)),
    ensures
        call_requires(S3Target::cache_path_for_output_folder::<F>, (folder, fs_safe)),
        call_requires(
            OutputTarget::cache_path_for_output_folder::<F>,
            (folder, &home, fs_safe),
        ),
        call_requires(OutputTarget::cache_path::<F>, (&target, fs_safe)),
        call_requires(random_temp_release_dir_name::<F>, (folder, fs_safe)),
{
}

/// Any object can be requested, and any request can be signed; only headers by
/// themselves are made of header text alone.
pub proof fn law_any_object_is_requested(
    target: S3Target,
    key: &str,
    method: &str,
    path: &str,
    host: &str,
    hash: &str,
    date: &str,
    text: String,
    url: UrlParts,
    request: ObjectRequest,
    payload: &[u8],
    status: u16,
)
    ensures
        call_requires(S3Target::cache_key, (&target,)),
        call_requires(S3Target::object_path, (&target, key)),
        call_requires(S3Target::object_request, (&target, key)),
        call_requires(S3Target::cache_request, (&target,)),
        call_requires(S3Target::signing_key, (&target, date)),
        call_requires(S3Target::sign_at, (&target, method, &request, payload, date)),
        call_requires(S3Target::sign_upload, (&target, &request, payload)),
        call_requires(S3Target::sign_download, (&target, &request)),
        call_requires(host_header, (&url, host)),
        call_requires(address, (text, text, &url)),
        call_requires(upload_outcome, (key, status, host)),
        call_requires(cache_download_outcome, (key, status, host)),
        can_be_sent(target, host@) && is_readable(hash@) && is_readable(date@) && date@.len() >= 8
            ==> call_requires(S3Target::auth_headers, (&target, method, path, host, hash, date)),
{
    lemma_can_be_sent(target, host@);
    lemma_readable(hash@);
    lemma_readable(date@);
}

/// Any run can be started, and told of any event.
pub proof fn law_any_run_goes_on<T>(
    args: Args,
    home: Option<String>,
    target: OutputTarget,
    remote: bool,
    found: Vec<(String, T)>,
    cached: Vec<String>,
    limit: Option<usize>,
    content: Result<Vec<String>, String>,
    added: Result<bool, String>,
    dirty: &mut bool,
    plan: &mut RunPlan,
    event: Event,
    n: usize,
)
    ensures
        call_requires(formats, ()),
        call_requires(Args::download_workers, (&args,)),
        call_requires(Args::s3_config, (&args,)),
        call_requires(Args::cookies_file, (&args, &home)),
        call_requires(Args::job_settings, (&args, &target)),
        call_requires(cached_ids, (remote, content)),
        call_requires(pending_releases::<T>, (found, &cached, remote, limit)),
        call_requires(announcement, (remote, n)),
        call_requires(closing, (remote, n, &cached)),
        call_requires(add_cache_entry, (added, dirty)),
        call_requires(RunPlan::new, (&args, &home, remote)),
        call_requires(RunPlan::phase, (&*old(plan),)),
        call_requires(RunPlan::task, (&*old(plan),)),
        call_requires(RunPlan::step, (plan, event)),
{
}

/// Any release can be worked on, any folder walked, and any file queued.
pub proof fn law_any_release_is_worked_on<L, P, T>(
    id: &str,
    link: L,
    settings: JobSettings,
    job: &mut ReleaseJob<L, P>,
    outcome: Outcome<P>,
    root: P,
    collector: &mut FileCollector<P>,
    listing: Vec<DirEntry<P>>,
    files: Vec<T>,
    queue: &mut UploadQueue<T>,
    done: UploadQueue<T>,
    message: String,
    m: usize,
    n: usize,
)
    ensures
        call_requires(ReleaseJob::<L, P>::new, (id, link, &settings)),
        call_requires(ReleaseJob::<L, P>::stage, (&*old(job),)),
        call_requires(ReleaseJob::<L, P>::action, (&*old(job),)),
        call_requires(ReleaseJob::<L, P>::step, (job, outcome)),
        call_requires(FileCollector::<P>::new, (root, id)),
        call_requires(FileCollector::<P>::next_directory, (collector,)),
        call_requires(FileCollector::<P>::add_listing, (collector, listing)),
        call_requires(job_count, (m, n)),
        call_requires(UploadQueue::<T>::new, (files,)),
        call_requires(UploadQueue::<T>::take_next, (queue,)),
        call_requires(UploadQueue::<T>::record_failure, (queue, message)),
        call_requires(UploadQueue::<T>::finish, (done,)),
{
}

} // verus!
