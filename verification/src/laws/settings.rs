//! What targets, runs and jobs take from the command line, the environment and
//! the output folder.

use crate::config::{
    access_key_of, endpoint_text, endpoint_text_of, env_or, region, region_of, secret_key_of,
    session_token_of, S3Config, S3Env,
};
use crate::error::StorageError;
use crate::home::{home_dir, home_in};
use crate::job::{JobSettings, Place};
use crate::laws::texts::{is_trimmed, law_trimming_takes_outer_runs};
use crate::run::{cached_ids, formats, Args};
use crate::storage::{
    is_s3_cache_file, locate, made_safe, s3_cache_file, s3_cache_file_of, s3_location, CachePath,
    LocationView, OutputTarget, Readiness, S3Location, S3Target,
};
use crate::text::{optional_text, trim_of};
use crate::url_parts::{url_parse, UrlParts, UrlView};
use vstd::prelude::*;

verus! {

/// `text` is the choice at `i`, and none before it is set.
pub open spec fn is_set_first_at(choices: Seq<Option<String>>, i: int, text: Seq<char>) -> bool {
    &&& 0 <= i < choices.len()
    &&& choices[i] matches Some(choice) && choice@ == text
    &&& forall|j: int| 0 <= j < i ==> (#[trigger] choices[j]) is None
}

/// No choice is set.
pub open spec fn none_is_set(choices: Seq<Option<String>>) -> bool {
    forall|i: int| 0 <= i < choices.len() ==> (#[trigger] choices[i]) is None
}

/// `text` is the first choice that is set.
pub open spec fn is_set_first(choices: Seq<Option<String>>, text: Seq<char>) -> bool {
    exists|i: int| #[trigger] is_set_first_at(choices, i, text)
}

/// Where an access key comes from, first choice first.
pub open spec fn access_key_choices(config: S3Config, env: S3Env) -> Seq<Option<String>> {
    seq![config.access_key_id, env.aws_access_key_id, env.bs_s3_access_key_id]
}

/// Where a secret key comes from, first choice first.
pub open spec fn secret_key_choices(config: S3Config, env: S3Env) -> Seq<Option<String>> {
    seq![config.secret_access_key, env.aws_secret_access_key, env.bs_s3_secret_access_key]
}

/// Where a session token comes from, first choice first.
pub open spec fn session_token_choices(config: S3Config, env: S3Env) -> Seq<Option<String>> {
    seq![config.session_token, env.aws_session_token, env.bs_s3_session_token]
}

/// Where a region comes from, first choice first.
pub open spec fn region_choices(config: S3Config, env: S3Env) -> Seq<Option<String>> {
    seq![config.region, env.aws_region, env.bs_s3_region, env.aws_default_region]
}

/// Where an endpoint comes from, first choice first.
pub open spec fn endpoint_choices(endpoint: Option<String>, env: S3Env) -> Seq<Option<String>> {
    seq![endpoint, env.aws_endpoint_url, env.bs_s3_endpoint, env.aws_endpoint_url_s3]
}

/// Where the region of Amazon's endpoint comes from, first choice first.
pub open spec fn endpoint_region_choices(env: S3Env) -> Seq<Option<String>> {
    seq![env.aws_region, env.aws_default_region]
}

/// `text` is the text of an endpoint: the first choice that is set, or else
/// Amazon's for the first region that is set, which goes without saying for
/// `us-east-1`.
pub open spec fn is_endpoint_text(
    text: Seq<char>,
    endpoint: Option<String>,
    env: S3Env,
) -> bool {
    let regions = endpoint_region_choices(env);
    &&& !none_is_set(endpoint_choices(endpoint, env)) ==> is_set_first(
        endpoint_choices(endpoint, env),
        text,
    )
    &&& none_is_set(endpoint_choices(endpoint, env)) ==> {
        ||| text == "https://s3.amazonaws.com"@ && (none_is_set(regions) || is_set_first(
            regions,
            "us-east-1"@,
        ))
        ||| exists|region: Seq<char>| #[trigger]
            is_set_first(regions, region) && region != "us-east-1"@ && text == "https://s3."@
                + region + ".amazonaws.com"@
    }
}

/// Of two settings the first one that is set counts.
pub proof fn law_first_setting_counts(
    primary: Option<String>,
    fallback: Option<String>,
    setting: Option<String>,
)
    requires
        call_ensures(env_or, (&primary, &fallback), setting),
    ensures
        setting is None <==> none_is_set(seq![primary, fallback]),
        setting matches Some(text) ==> is_set_first(seq![primary, fallback], text@),
{
    let choices = seq![primary, fallback];
    assert(choices[0] == primary && choices[1] == fallback);
    if let Some(text) = setting {
        assert(is_set_first_at(choices, if primary is Some { 0 } else { 1 }, text@));
    }
}

/// The region is the first one that is set, on the command line or in
/// `AWS_REGION`, `BS_S3_REGION` or `AWS_DEFAULT_REGION`, or else `us-east-1`.
pub proof fn law_region_is_the_first_set(config: S3Config, env: S3Env, text: String)
    requires
        call_ensures(region, (&config, &env), text),
    ensures
        !none_is_set(region_choices(config, env)) ==> is_set_first(
            region_choices(config, env),
            text@,
        ),
        none_is_set(region_choices(config, env)) ==> text@ == "us-east-1"@,
{
    lemma_first_region(config, env, text@);
}

proof fn lemma_first_region(config: S3Config, env: S3Env, text: Seq<char>)
    requires
        text == region_of(config, env),
    ensures
        !none_is_set(region_choices(config, env)) ==> is_set_first(
            region_choices(config, env),
            text,
        ),
        none_is_set(region_choices(config, env)) ==> text == "us-east-1"@,
{
    let choices = region_choices(config, env);
    assert(choices[0] == config.region && choices[1] == env.aws_region && choices[2]
        == env.bs_s3_region && choices[3] == env.aws_default_region);
    let i: int = if config.region is Some {
        0
    } else if env.aws_region is Some {
        1
    } else if env.bs_s3_region is Some {
        2
    } else {
        3
    };
    if !none_is_set(choices) {
        assert(choices[i] is Some);
        assert(is_set_first_at(choices, i, text));
    }
}

/// The endpoint is the first one that is set, on the command line or in
/// `AWS_ENDPOINT_URL`, `BS_S3_ENDPOINT` or `AWS_ENDPOINT_URL_S3`, or else
/// Amazon's.
pub proof fn law_endpoint_is_the_first_set(
    endpoint: Option<String>,
    env: S3Env,
    text: String,
)
    requires
        call_ensures(endpoint_text, (&endpoint, &env), text),
    ensures
        is_endpoint_text(text@, endpoint, env),
{
    lemma_first_endpoint(endpoint, env);
}

proof fn lemma_first_endpoint(endpoint: Option<String>, env: S3Env)
    ensures
        is_endpoint_text(
            endpoint_text_of(optional_text(endpoint), env),
            endpoint,
            env,
        ),
{
    let text = endpoint_text_of(optional_text(endpoint), env);
    let choices = endpoint_choices(endpoint, env);
    assert(choices[0] == endpoint && choices[1] == env.aws_endpoint_url && choices[2]
        == env.bs_s3_endpoint && choices[3] == env.aws_endpoint_url_s3);
    let i: int = if endpoint is Some {
        0
    } else if env.aws_endpoint_url is Some {
        1
    } else if env.bs_s3_endpoint is Some {
        2
    } else {
        3
    };
    let regions = endpoint_region_choices(env);
    assert(regions[0] == env.aws_region && regions[1] == env.aws_default_region);
    if !none_is_set(choices) {
        assert(choices[i] is Some);
        assert(is_set_first_at(choices, i, text));
    } else if !none_is_set(regions) {
        let j: int = if env.aws_region is Some {
            0
        } else {
            1
        };
        let region = (regions[j]->0)@;
        assert(is_set_first_at(regions, j, region));
        assert(is_set_first(regions, region));
        if region == "us-east-1"@ {
            assert(is_set_first(regions, "us-east-1"@));
        }
    }
}

/// The parts of a URL that was parsed.
pub open spec fn are_parts_of(parts: UrlParts, url: UrlView) -> bool {
    &&& parts.scheme@ == url.scheme
    &&& parts.host is None <==> url.host is None
    &&& parts.host matches Some(host) ==> url.host == Some(host@)
    &&& parts.port == url.port
    &&& parts.known_port == url.known_port
    &&& parts.path@ == url.path
}

/// The endpoint's URL is what parsing the endpoint's text gives.
pub proof fn law_endpoint_is_parsed(
    endpoint: Option<String>,
    env: S3Env,
    text: String,
    result: Result<UrlParts, StorageError>,
)
    requires
        call_ensures(endpoint_text, (&endpoint, &env), text),
        call_ensures(S3Target::endpoint_url, (&endpoint, &env), result),
    ensures
        match url_parse(text@) {
            Ok(url) => result matches Ok(parts) && are_parts_of(parts, url),
            Err(error) => result matches Err(StorageError::InvalidUrl(e)) && e == error,
        },
{
}

/// A target that has what the command line and the environment set.
pub open spec fn takes_settings(target: S3Target, config: S3Config, env: S3Env) -> bool {
    let regions = region_choices(config, env);
    let tokens = session_token_choices(config, env);
    &&& target.upload_jobs == config.upload_jobs
    &&& is_set_first(access_key_choices(config, env), target.access_key@)
    &&& is_set_first(secret_key_choices(config, env), target.secret_key@)
    &&& target.session_token is None <==> none_is_set(tokens)
    &&& target.session_token matches Some(token) ==> is_set_first(tokens, token@)
    &&& !none_is_set(regions) ==> is_set_first(regions, target.region@)
    &&& none_is_set(regions) ==> target.region@ == "us-east-1"@
}

proof fn lemma_first_keys(config: S3Config, env: S3Env)
    ensures
        match access_key_of(config, env) {
            None => none_is_set(access_key_choices(config, env)),
            Some(key) => is_set_first(access_key_choices(config, env), key) && !none_is_set(
                access_key_choices(config, env),
            ),
        },
        match secret_key_of(config, env) {
            None => none_is_set(secret_key_choices(config, env)),
            Some(key) => is_set_first(secret_key_choices(config, env), key) && !none_is_set(
                secret_key_choices(config, env),
            ),
        },
        match session_token_of(config, env) {
            None => none_is_set(session_token_choices(config, env)),
            Some(key) => is_set_first(session_token_choices(config, env), key) && !none_is_set(
                session_token_choices(config, env),
            ),
        },
{
    lemma_first_of_three(
        config.access_key_id,
        env.aws_access_key_id,
        env.bs_s3_access_key_id,
        access_key_of(config, env),
    );
    lemma_first_of_three(
        config.secret_access_key,
        env.aws_secret_access_key,
        env.bs_s3_secret_access_key,
        secret_key_of(config, env),
    );
    lemma_first_of_three(
        config.session_token,
        env.aws_session_token,
        env.bs_s3_session_token,
        session_token_of(config, env),
    );
}

proof fn lemma_first_of_three(
    a: Option<String>,
    b: Option<String>,
    c: Option<String>,
    value: Option<Seq<char>>,
)
    requires
        value == if a is Some {
            optional_text(a)
        } else if b is Some {
            optional_text(b)
        } else {
            optional_text(c)
        },
    ensures
        match value {
            None => none_is_set(seq![a, b, c]),
            Some(text) => is_set_first(seq![a, b, c], text) && !none_is_set(seq![a, b, c]),
        },
{
    let choices = seq![a, b, c];
    assert(choices[0] == a && choices[1] == b && choices[2] == c);
    if let Some(text) = value {
        let i: int = if a is Some {
            0
        } else if b is Some {
            1
        } else {
            2
        };
        assert(choices[i] is Some);
        assert(is_set_first_at(choices, i, text));
    }
}

/// A target is put together from its location, its endpoint and the settings;
/// only a key that is set nowhere is missing, the access key first.
pub proof fn law_targets_take_what_is_set(
    location: S3Location,
    endpoint: UrlParts,
    config: S3Config,
    env: S3Env,
    result: Result<S3Target, StorageError>,
)
    requires
        call_ensures(S3Target::assemble, (location, endpoint, config, &env), result),
    ensures
        result is Err <==> none_is_set(access_key_choices(config, env)) || none_is_set(
            secret_key_choices(config, env),
        ),
        result matches Err(error) ==> {
            &&& error is MissingAccessKey <==> none_is_set(access_key_choices(config, env))
            &&& error is MissingSecretKey <==> !none_is_set(access_key_choices(config, env))
        },
        result matches Ok(target) ==> {
            &&& target.bucket@ == location.bucket@
            &&& target.prefix@ == location.prefix@
            &&& are_parts_of(target.endpoint, endpoint@)
            &&& takes_settings(target, config, env)
        },
{
    lemma_first_keys(config, env);
    lemma_first_region(config, env, region_of(config, env));
}

/// What is wrong with an output folder as the name of a bucket: it is no URL,
/// not one of the scheme `s3`, or one without a host.
pub open spec fn is_location_error(error: StorageError, output_folder: Seq<char>) -> bool {
    match url_parse(output_folder) {
        Err(e) => error matches StorageError::InvalidUrl(f) && e == f,
        Ok(url) => if url.scheme != "s3"@ {
            error is NotS3Url
        } else {
            url.host is None && (error matches StorageError::MissingBucket { output_folder: f }
                && f@ == output_folder)
        },
    }
}

/// A bucket and a prefix are those of an output folder: the host, and the path
/// without the slashes around it.
pub open spec fn is_location_of(
    bucket: Seq<char>,
    prefix: Seq<char>,
    output_folder: Seq<char>,
) -> bool {
    &&& url_parse(output_folder) matches Ok(url)
    &&& url.scheme == "s3"@
    &&& url.host == Some(bucket)
    &&& is_trimmed(url.path, prefix, '/')
}

/// An output folder names the bucket of its host and the prefix of its path.
pub proof fn law_folders_name_bucket_and_prefix(
    output_folder: &str,
    result: Result<S3Location, StorageError>,
)
    requires
        call_ensures(s3_location, (output_folder,), result),
    ensures
        match result {
            Ok(location) => is_location_of(location.bucket@, location.prefix@, output_folder@),
            Err(error) => is_location_error(error, output_folder@),
        },
{
    if let Ok(url) = url_parse(output_folder@) {
        law_trimming_takes_outer_runs(url.path, '/');
    }
}

/// The location in a parsed URL: its host is the bucket, its path without the
/// slashes around it the prefix.
pub proof fn law_urls_name_bucket_and_prefix(
    output_folder: &str,
    url: UrlParts,
    result: Result<S3Location, StorageError>,
)
    requires
        call_ensures(locate, (output_folder, &url), result),
    ensures
        match result {
            Ok(location) => {
                &&& url.scheme@ == "s3"@
                &&& url.host matches Some(host) && host@ == location.bucket@
                &&& is_trimmed(url.path@, location.prefix@, '/')
            },
            Err(error) => if url.scheme@ != "s3"@ {
                error is NotS3Url
            } else {
                url.host is None && (error matches StorageError::MissingBucket { output_folder: f }
                    && f@ == output_folder@)
            },
        },
{
    law_trimming_takes_outer_runs(url.path@, '/');
}

/// A target of an output folder has the folder's bucket and prefix, the
/// endpoint and all else that is set. What is wrong is told in this order: the
/// folder, the endpoint, the access key, the secret key.
pub open spec fn is_target_of(
    result: Result<S3Target, StorageError>,
    output_folder: Seq<char>,
    config: S3Config,
    env: S3Env,
) -> bool {
    match result {
        Ok(target) => {
            &&& is_location_of(target.bucket@, target.prefix@, output_folder)
            &&& exists|text: Seq<char>| #[trigger]
                is_endpoint_text(text, config.endpoint, env) && (url_parse(text) matches Ok(url)
                    && are_parts_of(target.endpoint, url))
            &&& takes_settings(target, config, env)
        },
        Err(error) => {
            ||| is_location_error(error, output_folder)
            ||| {
                &&& url_parse(output_folder) matches Ok(url) && url.scheme == "s3"@
                    && url.host is Some
                &&& exists|text: Seq<char>| #[trigger]
                    is_endpoint_text(text, config.endpoint, env) && match url_parse(text) {
                        Err(e) => error matches StorageError::InvalidUrl(f) && e == f,
                        Ok(_) => {
                            ||| error is MissingAccessKey && none_is_set(
                                access_key_choices(config, env),
                            )
                            ||| error is MissingSecretKey && !none_is_set(
                                access_key_choices(config, env),
                            ) && none_is_set(secret_key_choices(config, env))
                        },
                    }
            }
        },
    }
}

/// A bucket's target is what its folder, the command line and the environment
/// say.
pub proof fn law_targets_are_as_set(
    output_folder: &str,
    config: S3Config,
    env: S3Env,
    result: Result<S3Target, StorageError>,
)
    requires
        call_ensures(S3Target::new, (output_folder, config, &env), result),
    ensures
        is_target_of(result, output_folder@, config, env),
{
    lemma_first_keys(config, env);
    lemma_first_region(config, env, region_of(config, env));
    lemma_first_endpoint(config.endpoint, env);
    let text = endpoint_text_of(optional_text(config.endpoint), env);
    assert(is_endpoint_text(text, config.endpoint, env));
    if let Ok(url) = url_parse(output_folder@) {
        law_trimming_takes_outer_runs(url.path, '/');
    }
}

/// Whether a folder is written as one in a bucket: it starts with `s3://`.
pub open spec fn is_written_as_bucket(folder: Seq<char>) -> bool {
    folder.len() >= 5 && folder.take(5) == "s3://"@
}

/// `out` is `text` with a tilde at its start, alone or before a slash, replaced
/// by the home directory if that is known. Before a backslash either may be.
pub open spec fn is_at_home(text: Seq<char>, home: Option<String>, out: Seq<char>) -> bool {
    let starts = text.len() > 0 && text[0] == '~';
    &&& starts && (text.len() == 1 || text[1] == '/') ==> match home {
        Some(directory) => out == directory@ + text.skip(1),
        None => out == text,
    }
    &&& starts && text.len() > 1 && text[1] == '\\' ==> out == text || (home matches Some(directory)
        && out == directory@ + text.skip(1))
    &&& !starts || text.len() > 1 && text[1] != '/' && text[1] != '\\' ==> out == text
}

/// An output folder that starts with `s3://` is a bucket, with the target that
/// its settings make; any other one is a local folder, at the home directory
/// where it starts with a tilde.
pub proof fn law_output_folders_are_buckets_or_local(
    output_folder: &str,
    config: S3Config,
    env: S3Env,
    home: Option<String>,
    result: Result<OutputTarget, StorageError>,
)
    requires
        call_ensures(OutputTarget::parse, (output_folder, config, &env, &home), result),
    ensures
        is_written_as_bucket(output_folder@) ==> match result {
            Ok(OutputTarget::S3(target)) => is_target_of(
                Ok(target),
                output_folder@,
                config,
                env,
            ),
            Ok(OutputTarget::Local { .. }) => false,
            Err(error) => is_target_of(Err(error), output_folder@, config, env),
        },
        !is_written_as_bucket(output_folder@) ==> (result matches Ok(
            OutputTarget::Local { root },
        ) && is_at_home(output_folder@, home, root@)),
{
    reveal_strlit("s3://");
    assert(output_folder@.len() >= 5 ==> output_folder@.subrange(0, 5) =~= output_folder@.take(5));
    lemma_first_keys(config, env);
    lemma_first_region(config, env, region_of(config, env));
    lemma_first_endpoint(config.endpoint, env);
    let text = endpoint_text_of(optional_text(config.endpoint), env);
    assert(is_endpoint_text(text, config.endpoint, env));
    if let Ok(url) = url_parse(output_folder@) {
        law_trimming_takes_outer_runs(url.path, '/');
    }
}

/// The cookies are read from the file that is set, at the home directory where
/// it starts with a tilde.
pub proof fn law_cookies_come_from_the_file_that_is_set(
    args: Args,
    home: Option<String>,
    file: Option<String>,
)
    requires
        call_ensures(Args::cookies_file, (&args, &home), file),
    ensures
        file is None <==> args.cookies is None,
        args.cookies matches Some(cookies) ==> (file matches Some(f) && is_at_home(
            cookies@,
            home,
            f@,
        )),
{
}

/// What a tilde alone expands to is the home directory, unless the tilde stays.
pub proof fn law_home_is_what_a_tilde_becomes(expanded: String, home: Option<String>)
    requires
        call_ensures(home_in, (expanded,), home),
    ensures
        home is None <==> expanded@ == "~"@,
        home matches Some(directory) ==> directory@ == expanded@,
{
}

/// A setting is passed on as it is.
pub open spec fn is_passed_on(from: Option<String>, to: Option<String>) -> bool {
    &&& from is None <==> to is None
    &&& from matches Some(a) ==> (to matches Some(b) && a@ == b@)
}

/// The S3 settings of a run are those of its command line, with at least one
/// upload job.
pub proof fn law_s3_settings_are_passed_on(args: Args, config: S3Config)
    requires
        call_ensures(Args::s3_config, (&args,), config),
    ensures
        is_passed_on(args.s3_endpoint, config.endpoint),
        is_passed_on(args.s3_region, config.region),
        is_passed_on(args.s3_access_key_id, config.access_key_id),
        is_passed_on(args.s3_secret_access_key, config.secret_access_key),
        is_passed_on(args.s3_session_token, config.session_token),
        config.upload_jobs >= 1,
        args.upload_jobs >= 1 ==> config.upload_jobs == args.upload_jobs,
        args.upload_jobs == 0 ==> config.upload_jobs == 1,
{
}

/// There are as many download workers as are set, and at least one.
pub proof fn law_download_workers_are_as_set(args: Args, workers: u8)
    requires
        call_ensures(Args::download_workers, (&args,), workers),
    ensures
        args.download_jobs >= 1 ==> workers == args.download_jobs,
        args.download_jobs == 0 ==> workers == 1,
{
}

/// The jobs of a run are set as its command line says, for the place where its
/// target keeps releases.
pub proof fn law_jobs_are_set_as_the_run_is(
    args: Args,
    target: OutputTarget,
    settings: JobSettings,
)
    requires
        call_ensures(Args::job_settings, (&args, &target), settings),
    ensures
        settings.dry_run == args.dry_run,
        settings.debug == args.debug,
        settings.audio_format@ == args.audio_format@,
        target matches OutputTarget::Local { root } ==> (settings.place matches Place::Local {
            root: r,
        } && r@ == root@),
        target matches OutputTarget::S3(bucket) ==> (settings.place matches Place::Bucket { prefix }
            && prefix@ == bucket.prefix@),
{
}

/// A forced run counts nothing as downloaded, whatever the cache holds; any
/// other one goes by the cache.
pub proof fn law_forced_runs_ignore_the_cache(
    force: bool,
    content: Result<Vec<String>, String>,
    ids: Result<Vec<String>, String>,
)
    requires
        call_ensures(cached_ids, (force, content), ids),
    ensures
        force ==> (ids matches Ok(v) && v@.len() == 0),
        !force ==> ids == content,
{
}

/// A bucket is always ready; a local folder that is there is ready if it is a
/// folder, and one that is not there is to be created.
pub proof fn law_folders_are_made_ready(
    target: OutputTarget,
    found_directory: Option<bool>,
    result: Result<Readiness, StorageError>,
)
    requires
        call_ensures(OutputTarget::ensure_ready, (&target, found_directory), result),
    ensures
        result matches Ok(Readiness::CreateFolder) <==> target is Local && found_directory is None,
        result matches Ok(Readiness::Ready) <==> target is S3 || found_directory == Some(true),
        result matches Err(StorageError::NotAFolder) <==> target is Local && found_directory
            == Some(false),
{
}

/// Only a bucket is remote.
pub proof fn law_only_buckets_are_remote(target: OutputTarget, remote: Option<&S3Target>)
    requires
        call_ensures(OutputTarget::remote, (&target,), remote),
    ensures
        remote is Some <==> target is S3,
        target matches OutputTarget::S3(bucket) ==> remote == Some(&bucket),
{
}

/// `file` is the cache file of a bucket and a prefix under the names that
/// `fs_safe` makes of them; an empty prefix is left out.
pub open spec fn is_bucket_cache_file<F: Fn(&str) -> String>(
    file: Seq<char>,
    fs_safe: F,
    bucket: Seq<char>,
    prefix: Seq<char>,
) -> bool {
    exists|b: &str, safe_b: String| #[trigger]
        fs_safe.ensures((b,), safe_b) && b@ == bucket && {
            ||| prefix.len() == 0 && file == "bandcamp-collection-downloader."@ + safe_b@
                + ".cache"@
            ||| prefix.len() > 0 && exists|p: &str, safe_p: String| #[trigger]
                fs_safe.ensures((p,), safe_p) && p@ == prefix && file
                    == "bandcamp-collection-downloader."@ + safe_b@ + "."@ + safe_p@ + ".cache"@
        }
}

proof fn lemma_bucket_cache_file<F: Fn(&str) -> String>(
    fs_safe: F,
    location: LocationView,
    file: Seq<char>,
)
    requires
        is_s3_cache_file(fs_safe, location, file),
    ensures
        is_bucket_cache_file(file, fs_safe, location.bucket, location.prefix),
{
    let (safe_bucket, safe_prefix) = choose|
        safe_bucket: Seq<char>,
        safe_prefix: Option<Seq<char>>,
    | #[trigger]
        s3_cache_file_of(safe_bucket, safe_prefix) == file
            && made_safe(fs_safe, location.bucket, safe_bucket) && (
        match safe_prefix {
            Some(prefix) => location.prefix.len() > 0 && made_safe(
                fs_safe,
                location.prefix,
                prefix,
            ),
            None => location.prefix.len() == 0,
        });
    let (b, safe_b) = choose|b: &str, safe_b: String| #[trigger]
        fs_safe.ensures((b,), safe_b) && b@ == location.bucket && safe_b@ == safe_bucket;
    match safe_prefix {
        None => {
            assert(file =~= "bandcamp-collection-downloader."@ + safe_b@ + ".cache"@);
        },
        Some(prefix) => {
            let (p, safe_p) = choose|p: &str, safe_p: String| #[trigger]
                fs_safe.ensures((p,), safe_p) && p@ == location.prefix && safe_p@ == prefix;
            assert(file =~= "bandcamp-collection-downloader."@ + safe_b@ + "."@ + safe_p@
                + ".cache"@);
        },
    }
}

/// The cache of a folder in a bucket is a file in the working directory, named
/// after bucket and prefix; that of a local folder lies in the folder.
pub proof fn law_cache_files_have_their_names<F: Fn(&str) -> String>(
    output_folder: &str,
    home: Option<String>,
    fs_safe: F,
    result: Result<CachePath, StorageError>,
)
    requires
        call_ensures(
            OutputTarget::cache_path_for_output_folder::<F>,
            (output_folder, &home, fs_safe),
            result,
        ),
    ensures
        is_written_as_bucket(output_folder@) ==> match result {
            Ok(path) => path.directory is None && exists|bucket: Seq<char>, prefix: Seq<char>|
                #[trigger]
                is_location_of(bucket, prefix, output_folder@) && is_bucket_cache_file(
                    path.file@,
                    fs_safe,
                    bucket,
                    prefix,
                ),
            Err(error) => is_location_error(error, output_folder@),
        },
        !is_written_as_bucket(output_folder@) ==> (result matches Ok(path)
            && path.directory matches Some(root) && is_at_home(output_folder@, home, root@)
            && path.file@ == "bandcamp-collection-downloader.cache"@),
{
    reveal_strlit("s3://");
    assert(output_folder@.len() >= 5 ==> output_folder@.subrange(0, 5) =~= output_folder@.take(5));
    if let Ok(url) = url_parse(output_folder@) {
        law_trimming_takes_outer_runs(url.path, '/');
        if let Some(bucket) = url.host {
            let prefix = trim_of(url.path, '/');
            if is_written_as_bucket(output_folder@) && result is Ok {
                assert(is_location_of(bucket, prefix, output_folder@));
                lemma_bucket_cache_file(
                    fs_safe,
                    LocationView { bucket, prefix },
                    result->Ok_0.file@,
                );
            }
        }
    }
}

/// The cache of a target lies in the root of a local one, and is a file named
/// after bucket and prefix for a bucket.
pub proof fn law_targets_have_their_cache_files<F: Fn(&str) -> String>(
    target: OutputTarget,
    fs_safe: F,
    path: CachePath,
)
    requires
        call_ensures(OutputTarget::cache_path::<F>, (&target, fs_safe), path),
    ensures
        target matches OutputTarget::Local { root } ==> {
            &&& path.directory matches Some(directory) && directory@ == root@
            &&& path.file@ == "bandcamp-collection-downloader.cache"@
        },
        target matches OutputTarget::S3(bucket) ==> {
            &&& path.directory is None
            &&& is_bucket_cache_file(path.file@, fs_safe, bucket.bucket@, bucket.prefix@)
        },
{
    if let OutputTarget::S3(bucket) = target {
        lemma_bucket_cache_file(
            fs_safe,
            LocationView { bucket: bucket.bucket@, prefix: bucket.prefix@ },
            path.file@,
        );
    }
}

/// The same of the cache of a bucket's folder by itself.
pub proof fn law_buckets_have_their_cache_files<F: Fn(&str) -> String>(
    output_folder: &str,
    fs_safe: F,
    result: Result<CachePath, StorageError>,
)
    requires
        call_ensures(
            S3Target::cache_path_for_output_folder::<F>,
            (output_folder, fs_safe),
            result,
        ),
    ensures
        match result {
            Ok(path) => path.directory is None && exists|bucket: Seq<char>, prefix: Seq<char>|
                #[trigger]
                is_location_of(bucket, prefix, output_folder@) && is_bucket_cache_file(
                    path.file@,
                    fs_safe,
                    bucket,
                    prefix,
                ),
            Err(error) => is_location_error(error, output_folder@),
        },
{
    if let Ok(url) = url_parse(output_folder@) {
        law_trimming_takes_outer_runs(url.path, '/');
        if let Some(bucket) = url.host {
            let prefix = trim_of(url.path, '/');
            if result is Ok {
                assert(is_location_of(bucket, prefix, output_folder@));
                lemma_bucket_cache_file(
                    fs_safe,
                    LocationView { bucket, prefix },
                    result->Ok_0.file@,
                );
            }
        }
    }
}

/// The name of a bucket's cache file is made of those of bucket and prefix.
pub proof fn law_cache_names_hold_bucket_and_prefix(
    bucket: &str,
    prefix: Option<&str>,
    name: String,
)
    requires
        call_ensures(s3_cache_file, (bucket, prefix), name),
    ensures
        prefix is None ==> name@ == "bandcamp-collection-downloader."@ + bucket@ + ".cache"@,
        prefix matches Some(p) ==> name@ == "bandcamp-collection-downloader."@ + bucket@ + "."@ + p@
            + ".cache"@,
{
    match prefix {
        None => {
            assert(name@ =~= "bandcamp-collection-downloader."@ + bucket@ + ".cache"@);
        },
        Some(p) => {
            assert(name@ =~= "bandcamp-collection-downloader."@ + bucket@ + "."@ + p@ + ".cache"@);
        },
    }
}

/// Nothing is set by default.
pub proof fn law_nothing_is_set_by_default(config: S3Config, env: S3Env)
    requires
        call_ensures(<S3Config as Default>::default, (), config),
        call_ensures(<S3Env as Default>::default, (), env),
    ensures
        config.upload_jobs == 0,
        config.endpoint is None,
        none_is_set(access_key_choices(config, env)),
        none_is_set(secret_key_choices(config, env)),
        none_is_set(session_token_choices(config, env)),
        none_is_set(region_choices(config, env)),
        none_is_set(endpoint_choices(config.endpoint, env)),
{
}

/// Releases come in these formats.
pub proof fn law_releases_come_in_these_formats(names: [&'static str; 8], name: Seq<char>)
    requires
        call_ensures(formats, (), names),
    ensures
        (exists|i: int| 0 <= i < 8 && (#[trigger] names@[i])@ == name) <==> {
            ||| name == "flac"@
            ||| name == "wav"@
            ||| name == "aac-hi"@
            ||| name == "mp3-320"@
            ||| name == "aiff-lossless"@
            ||| name == "vorbis"@
            ||| name == "mp3-v0"@
            ||| name == "alac"@
        },
{
    assert(names@[0]@ == "flac"@ && names@[1]@ == "wav"@ && names@[2]@ == "aac-hi"@ && names@[3]@
        == "mp3-320"@ && names@[4]@ == "aiff-lossless"@ && names@[5]@ == "vorbis"@ && names@[6]@
        == "mp3-v0"@ && names@[7]@ == "alac"@);
}

/// A home directory that is known is no tilde.
pub proof fn law_home_is_no_tilde(home: Option<String>)
    requires
        call_ensures(home_dir, (), home),
    ensures
        home matches Some(directory) ==> directory@ != "~"@,
{
}

} // verus!
