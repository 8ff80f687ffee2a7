//! Storage targets: a local folder or an S3 bucket.

use crate::config::{
    access_key_of, endpoint_text, endpoint_text_of, env_or, region, region_of, secret_key_of,
    session_token_of, S3Config, S3Env,
};
use crate::error::{ErrorView, StorageError};
use crate::home::{expand_tilde, is_expanded};
use crate::percent::{encode_key_path, encoded_key};
use crate::text::{
    optional_text, replace, replaced, same_text, starts_with, trim_end_matches, trim_end_of,
    trim_matches, trim_of,
};
use crate::url_parts::{parse_url, url_parse, UrlParts, UrlView};
use vstd::prelude::*;
use vstd::string::*;

verus! {

/// Where downloaded releases are kept.
pub enum OutputTarget {
    Local { root: String },
    S3(S3Target),
}

/// A bucket of an S3 service, with what it takes to sign requests to it.
#[derive(Clone)]
pub struct S3Target {
    pub bucket: String,
    pub prefix: String,
    pub upload_jobs: usize,
    pub endpoint: UrlParts,
    pub region: String,
    pub access_key: String,
    pub secret_key: String,
    pub session_token: Option<String>,
}

/// The model of [`S3Target`].
pub struct TargetView {
    pub bucket: Seq<char>,
    pub prefix: Seq<char>,
    pub upload_jobs: usize,
    pub endpoint: UrlView,
    pub region: Seq<char>,
    pub access_key: Seq<char>,
    pub secret_key: Seq<char>,
    pub session_token: Option<Seq<char>>,
}

impl View for S3Target {
    type V = TargetView;

    open spec fn view(&self) -> TargetView {
        TargetView {
            bucket: self.bucket@,
            prefix: self.prefix@,
            upload_jobs: self.upload_jobs,
            endpoint: self.endpoint@,
            region: self.region@,
            access_key: self.access_key@,
            secret_key: self.secret_key@,
            session_token: optional_text(self.session_token),
        }
    }
}

/// The bucket and the key prefix that an `s3://bucket/prefix` folder names.
#[derive(Debug, PartialEq, Eq)]
pub struct S3Location {
    pub bucket: String,
    pub prefix: String,
}

/// The model of [`S3Location`].
pub struct LocationView {
    pub bucket: Seq<char>,
    pub prefix: Seq<char>,
}

impl View for S3Location {
    type V = LocationView;

    open spec fn view(&self) -> LocationView {
        LocationView { bucket: self.bucket@, prefix: self.prefix@ }
    }
}

/// Where the cache file lies: in a directory, or, without one, in the working
/// directory.
#[derive(Debug, PartialEq, Eq)]
pub struct CachePath {
    pub directory: Option<String>,
    pub file: String,
}

/// The name of the cache file.
pub open spec fn cache_file() -> Seq<char> {
    "bandcamp-collection-downloader.cache"@
}

/// The location that a parsed output folder names. The host is the bucket, the
/// path without its outer slashes is the prefix.
pub open spec fn location_in(output_folder: Seq<char>, url: UrlView) -> Result<
    LocationView,
    ErrorView,
> {
    if url.scheme != "s3"@ {
        Err(ErrorView::NotS3Url)
    } else {
        match url.host {
            None => Err(ErrorView::MissingBucket { output_folder }),
            Some(host) => Ok(LocationView { bucket: host, prefix: trim_of(url.path, '/') }),
        }
    }
}

/// The location that an output folder names, by way of what parsing it gave.
pub open spec fn location_of(
    output_folder: Seq<char>,
    parsed: Result<UrlView, url::ParseError>,
) -> Result<LocationView, ErrorView> {
    match parsed {
        Err(error) => Err(ErrorView::InvalidUrl(error)),
        Ok(url) => location_in(output_folder, url),
    }
}

/// The target at a location, with an endpoint and the settings. Without an
/// access key or a secret key there is none.
pub open spec fn assembled(
    location: LocationView,
    endpoint: UrlView,
    config: S3Config,
    env: S3Env,
) -> Result<TargetView, ErrorView> {
    match access_key_of(config, env) {
        None => Err(ErrorView::MissingAccessKey),
        Some(access_key) => match secret_key_of(config, env) {
            None => Err(ErrorView::MissingSecretKey),
            Some(secret_key) => Ok(
                TargetView {
                    bucket: location.bucket,
                    prefix: location.prefix,
                    upload_jobs: config.upload_jobs,
                    endpoint,
                    region: region_of(config, env),
                    access_key,
                    secret_key,
                    session_token: session_token_of(config, env),
                },
            ),
        },
    }
}

/// The target that an output folder and the settings name, by way of what
/// parsing the folder and the endpoint gave.
pub open spec fn target_of(
    output_folder: Seq<char>,
    parsed: Result<UrlView, url::ParseError>,
    endpoint: Result<UrlView, url::ParseError>,
    config: S3Config,
    env: S3Env,
) -> Result<TargetView, ErrorView> {
    match location_of(output_folder, parsed) {
        Err(error) => Err(error),
        Ok(location) => match endpoint {
            Err(error) => Err(ErrorView::InvalidUrl(error)),
            Ok(endpoint) => assembled(location, endpoint, config, env),
        },
    }
}

/// The model of a location result.
pub open spec fn location_result(result: Result<S3Location, StorageError>) -> Result<
    LocationView,
    ErrorView,
> {
    match result {
        Ok(location) => Ok(location@),
        Err(error) => Err(error@),
    }
}

/// The model of a target result.
pub open spec fn target_result(result: Result<S3Target, StorageError>) -> Result<
    TargetView,
    ErrorView,
> {
    match result {
        Ok(target) => Ok(target@),
        Err(error) => Err(error@),
    }
}

/// The model of an endpoint result.
pub open spec fn endpoint_result(result: Result<UrlParts, StorageError>) -> Result<
    UrlView,
    ErrorView,
> {
    match result {
        Ok(endpoint) => Ok(endpoint@),
        Err(error) => Err(error@),
    }
}

/// The name of the cache file of a bucket, by way of file names for bucket and
/// prefix.
pub open spec fn s3_cache_file_of(
    safe_bucket: Seq<char>,
    safe_prefix: Option<Seq<char>>,
) -> Seq<char> {
    "bandcamp-collection-downloader."@ + safe_bucket + (match safe_prefix {
        Some(prefix) => "."@ + prefix,
        None => seq![],
    }) + ".cache"@
}

/// `out` is what `fs_safe` may make of `text`.
pub open spec fn made_safe<F: Fn(&str) -> String>(
    fs_safe: F,
    text: Seq<char>,
    out: Seq<char>,
) -> bool {
    exists|input: &str, output: String| #[trigger]
        fs_safe.ensures((input,), output) && input@ == text && output@ == out
}

/// `file` is the cache file of the location under the names that `fs_safe`
/// makes.
pub open spec fn is_s3_cache_file<F: Fn(&str) -> String>(
    fs_safe: F,
    location: LocationView,
    file: Seq<char>,
) -> bool {
    exists|safe_bucket: Seq<char>, safe_prefix: Option<Seq<char>>| #[trigger]
        s3_cache_file_of(safe_bucket, safe_prefix) == file && made_safe(
            fs_safe,
            location.bucket,
            safe_bucket,
        ) && (match safe_prefix {
            Some(prefix) => location.prefix.len() > 0 && made_safe(
                fs_safe,
                location.prefix,
                prefix,
            ),
            None => location.prefix.len() == 0,
        })
}

/// The object key of the cache file under a prefix.
pub open spec fn cache_key_of(prefix: Seq<char>) -> Seq<char> {
    joined_key(prefix, cache_file())
}

/// A key below a prefix. The prefix loses its outer slashes; an empty one adds
/// nothing.
pub open spec fn joined_key(prefix: Seq<char>, relative: Seq<char>) -> Seq<char> {
    let prefix = trim_of(prefix, '/');
    if prefix.len() == 0 {
        relative
    } else {
        prefix + "/"@ + relative
    }
}

/// An endpoint's path, with exactly one slash at its end and one at its start.
pub open spec fn endpoint_root(path: Seq<char>) -> Seq<char> {
    let path = trim_end_of(path, '/');
    if path.len() == 0 {
        "/"@
    } else if path[0] == '/' {
        path + "/"@
    } else {
        "/"@ + path + "/"@
    }
}

/// The request path of an object: below the endpoint's path, the bucket and
/// the encoded key.
pub open spec fn object_path_of(target: TargetView, key: Seq<char>) -> Seq<char> {
    endpoint_root(target.endpoint.path) + target.bucket + "/"@ + encoded_key(key)
}

/// Reads the location off a parsed output folder.
pub fn locate(output_folder: &str, url: &UrlParts) -> (result: Result<S3Location, StorageError>)
    ensures
        location_result(result) == location_in(output_folder@, url@),
{
    if !same_text(url.scheme.as_str(), "s3") {
        return Err(StorageError::NotS3Url);
    }
    match &url.host {
        None => Err(StorageError::MissingBucket { output_folder: String::from_str(output_folder) }),
        Some(host) => Ok(
            S3Location { bucket: host.clone(), prefix: trim_matches(url.path.as_str(), '/') },
        ),
    }
}

/// Parses an output folder and reads its location.
pub fn s3_location(output_folder: &str) -> (result: Result<S3Location, StorageError>)
    ensures
        location_result(result) == location_of(output_folder@, url_parse(output_folder@)),
{
    match parse_url(output_folder) {
        Err(error) => Err(StorageError::InvalidUrl(error)),
        Ok(url) => locate(output_folder, &url),
    }
}

/// The name of the cache file of a bucket.
pub fn s3_cache_file(safe_bucket: &str, safe_prefix: Option<&str>) -> (name: String)
    ensures
        name@ == s3_cache_file_of(
            safe_bucket@,
            match safe_prefix {
                Some(prefix) => Some(prefix@),
                None => None,
            },
        ),
{
    let mut name = String::from_str("bandcamp-collection-downloader.");
    name.append(safe_bucket);
    if let Some(prefix) = safe_prefix {
        name.append(".");
        name.append(prefix);
    }
    name.append(".cache");
    proof {
        match safe_prefix {
            Some(prefix) => {
                assert("bandcamp-collection-downloader."@ + safe_bucket@ + ("."@ + prefix@)
                    =~= "bandcamp-collection-downloader."@ + safe_bucket@ + "."@ + prefix@);
            },
            None => {
                assert("bandcamp-collection-downloader."@ + safe_bucket@ + Seq::<char>::empty()
                    =~= "bandcamp-collection-downloader."@ + safe_bucket@);
            },
        }
    }
    name
}

/// A key below a prefix, for a file at a path relative to the prefix's folder;
/// backslashes of the path become slashes.
pub fn join_key(prefix: &str, relative: &str) -> (key: String)
    ensures
        key@ == joined_key(prefix@, replaced(relative@, '\\', '/')),
{
    let relative = replace(relative, '\\', '/');
    let prefix = trim_matches(prefix, '/');
    if prefix.as_str().is_empty() {
        relative
    } else {
        let mut key = prefix;
        key.append("/");
        key.append(relative.as_str());
        key
    }
}

impl S3Target {
    /// The cache file that stands in for the remote cache of an S3 folder,
    /// named after bucket and prefix by `fs_safe`, which makes file names.
    pub fn cache_path_for_output_folder<F: Fn(&str) -> String>(
        output_folder: &str,
        fs_safe: F,
    ) -> (result: Result<CachePath, StorageError>)
        requires
            forall|text: &str| fs_safe.requires((text,)),
        ensures
            is_s3_cache_path(result, output_folder@, fs_safe),
    {
        match s3_location(output_folder) {
            Err(error) => Err(error),
            Ok(location) => Ok(
                s3_cache_path(location.bucket.as_str(), location.prefix.as_str(), fs_safe),
            ),
        }
    }

    /// Parses the endpoint's URL.
    pub fn endpoint_url(endpoint: &Option<String>, env: &S3Env) -> (result: Result<
        UrlParts,
        StorageError,
    >)
        ensures
            endpoint_result(result) == match url_parse(
                endpoint_text_of(optional_text(*endpoint), *env),
            ) {
                Ok(url) => Ok(url),
                Err(error) => Err(ErrorView::InvalidUrl(error)),
            },
    {
        let text = endpoint_text(endpoint, env);
        match parse_url(text.as_str()) {
            Ok(url) => Ok(url),
            Err(error) => Err(StorageError::InvalidUrl(error)),
        }
    }

    /// Puts a target together from its location, its endpoint and the settings.
    pub fn assemble(
        location: S3Location,
        endpoint: UrlParts,
        config: S3Config,
        env: &S3Env,
    ) -> (result: Result<S3Target, StorageError>)
        ensures
            target_result(result) == assembled(location@, endpoint@, config, *env),
    {
        let region = region(&config, env);
        let env_access_key = env_or(&env.aws_access_key_id, &env.bs_s3_access_key_id);
        let access_key = match env_or(&config.access_key_id, &env_access_key) {
            Some(key) => key,
            None => return Err(StorageError::MissingAccessKey),
        };
        let env_secret_key = env_or(&env.aws_secret_access_key, &env.bs_s3_secret_access_key);
        let secret_key = match env_or(&config.secret_access_key, &env_secret_key) {
            Some(key) => key,
            None => return Err(StorageError::MissingSecretKey),
        };
        let env_token = env_or(&env.aws_session_token, &env.bs_s3_session_token);
        let session_token = env_or(&config.session_token, &env_token);
        Ok(
            S3Target {
                bucket: location.bucket,
                prefix: location.prefix,
                upload_jobs: config.upload_jobs,
                endpoint,
                region,
                access_key,
                secret_key,
                session_token,
            },
        )
    }

    /// The target that an `s3://bucket/prefix` folder and the settings name.
    pub fn new(output_folder: &str, config: S3Config, env: &S3Env) -> (result: Result<
        S3Target,
        StorageError,
    >)
        ensures
            target_result(result) == target_of(
                output_folder@,
                url_parse(output_folder@),
                url_parse(endpoint_text_of(optional_text(config.endpoint), *env)),
                config,
                *env,
            ),
    {
        let location = match s3_location(output_folder) {
            Err(error) => return Err(error),
            Ok(location) => location,
        };
        let endpoint = match Self::endpoint_url(&config.endpoint, env) {
            Err(error) => return Err(error),
            Ok(endpoint) => endpoint,
        };
        Self::assemble(location, endpoint, config, env)
    }

    /// The object key of the remote cache.
    pub fn cache_key(&self) -> (key: String)
        ensures
            key@ == cache_key_of(self@.prefix),
    {
        let mut key = trim_matches(self.prefix.as_str(), '/');
        if !key.as_str().is_empty() {
            key.append("/");
        }
        key.append("bandcamp-collection-downloader.cache");
        assert(key@ =~= cache_key_of(self@.prefix));
        key
    }

    /// The request path of an object.
    pub fn object_path(&self, key: &str) -> (path: String)
        ensures
            path@ == object_path_of(self@, key@),
    {
        let trimmed = trim_end_matches(self.endpoint.path.as_str(), '/');
        let mut path = String::new();
        if !starts_with(trimmed.as_str(), "/") {
            path.append("/");
        }
        path.append(trimmed.as_str());
        if !trimmed.as_str().is_empty() {
            path.append("/");
        }
        proof {
            reveal_strlit("/");
            assert("/"@ =~= seq!['/']);
            if trimmed@.len() > 0 {
                assert(trimmed@.subrange(0, 1) =~= seq![trimmed@[0]]);
                assert("/"@.is_prefix_of(trimmed@) == (trimmed@[0] == '/')) by {
                    assert(seq!['/'][0] == '/');
                    assert(seq![trimmed@[0]][0] == trimmed@[0]);
                }
            }
            assert(path@ =~= endpoint_root(self@.endpoint.path));
        }
        path.append(self.bucket.as_str());
        path.append("/");
        path.append(encode_key_path(key).as_str());
        path
    }
}

/// What is left to do before a target can be written to.
#[derive(Debug, PartialEq, Eq)]
pub enum Readiness {
    Ready,
    /// The folder is to be created.
    CreateFolder,
}

/// Whether an output folder lies in a bucket.
pub open spec fn is_remote_folder(output_folder: Seq<char>) -> bool {
    "s3://"@.is_prefix_of(output_folder)
}

/// `result` is what an output folder, the settings and a home directory come
/// to: the bucket's target or what is wrong with it, else the local folder.
pub open spec fn is_output_target(
    result: Result<OutputTarget, StorageError>,
    output_folder: Seq<char>,
    config: S3Config,
    env: S3Env,
    home: Option<Seq<char>>,
) -> bool {
    if is_remote_folder(output_folder) {
        match target_of(
            output_folder,
            url_parse(output_folder),
            url_parse(endpoint_text_of(optional_text(config.endpoint), env)),
            config,
            env,
        ) {
            Ok(target) => result matches Ok(OutputTarget::S3(t)) && t@ == target,
            Err(error) => result matches Err(e) && e@ == error,
        }
    } else {
        result matches Ok(OutputTarget::Local { root }) && is_expanded(output_folder, home, root@)
    }
}

/// `result` is the cache file of a bucket, under a name that `fs_safe` makes of
/// bucket and prefix, or what is wrong with the output folder.
pub open spec fn is_s3_cache_path<F: Fn(&str) -> String>(
    result: Result<CachePath, StorageError>,
    output_folder: Seq<char>,
    fs_safe: F,
) -> bool {
    match location_of(output_folder, url_parse(output_folder)) {
        Err(error) => result matches Err(e) && e@ == error,
        Ok(location) => result matches Ok(path) && path.directory is None && is_s3_cache_file(
            fs_safe,
            location,
            path.file@,
        ),
    }
}

/// `result` is the cache file of an output folder: for a bucket, one in the
/// working directory, else one in the local folder.
pub open spec fn is_cache_path<F: Fn(&str) -> String>(
    result: Result<CachePath, StorageError>,
    output_folder: Seq<char>,
    home: Option<Seq<char>>,
    fs_safe: F,
) -> bool {
    if is_remote_folder(output_folder) {
        is_s3_cache_path(result, output_folder, fs_safe)
    } else {
        result matches Ok(path) && path.directory matches Some(root) && is_expanded(
            output_folder,
            home,
            root@,
        ) && path.file@ == cache_file()
    }
}

/// `path` is the cache file of a target: one in the root of a local target, or
/// one in the working directory, named after bucket and prefix.
pub open spec fn is_target_cache_path<F: Fn(&str) -> String>(
    path: CachePath,
    target: OutputTarget,
    fs_safe: F,
) -> bool {
    match target {
        OutputTarget::Local { root } => optional_text(path.directory) == Some(root@)
            && path.file@ == cache_file(),
        OutputTarget::S3(bucket) => path.directory is None && is_s3_cache_file(
            fs_safe,
            (LocationView { bucket: bucket.bucket@, prefix: bucket.prefix@ }),
            path.file@,
        ),
    }
}

/// The cache file of a bucket and a prefix, under names that `fs_safe` makes.
fn s3_cache_path<F: Fn(&str) -> String>(bucket: &str, prefix: &str, fs_safe: F) -> (path: CachePath)
    requires
        forall|text: &str| fs_safe.requires((text,)),
    ensures
        path.directory is None,
        is_s3_cache_file(fs_safe, (LocationView { bucket: bucket@, prefix: prefix@ }), path.file@),
{
    let safe_bucket = fs_safe(bucket);
    assert(made_safe(fs_safe, bucket@, safe_bucket@));
    if prefix.is_empty() {
        let file = s3_cache_file(safe_bucket.as_str(), None);
        CachePath { directory: None, file }
    } else {
        let safe_prefix = fs_safe(prefix);
        assert(made_safe(fs_safe, prefix@, safe_prefix@));
        let file = s3_cache_file(safe_bucket.as_str(), Some(safe_prefix.as_str()));
        CachePath { directory: None, file }
    }
}

impl OutputTarget {
    /// The target that an output folder names: an S3 bucket for `s3://`, else
    /// a local folder, with its tilde expanded to the home directory.
    pub fn parse(
        output_folder: &str,
        s3_config: S3Config,
        env: &S3Env,
        home: &Option<String>,
    ) -> (result: Result<OutputTarget, StorageError>)
        ensures
            is_output_target(result, output_folder@, s3_config, *env, optional_text(*home)),
    {
        if starts_with(output_folder, "s3://") {
            match S3Target::new(output_folder, s3_config, env) {
                Ok(target) => Ok(OutputTarget::S3(target)),
                Err(error) => Err(error),
            }
        } else {
            Ok(OutputTarget::Local { root: expand_tilde(output_folder, home) })
        }
    }

    /// Where the cache file of an output folder lies: in a local folder
    /// itself, or, for S3, in the working directory, under a name that
    /// `fs_safe` makes of bucket and prefix.
    pub fn cache_path_for_output_folder<F: Fn(&str) -> String>(
        output_folder: &str,
        home: &Option<String>,
        fs_safe: F,
    ) -> (result: Result<CachePath, StorageError>)
        requires
            forall|text: &str| fs_safe.requires((text,)),
        ensures
            is_cache_path(result, output_folder@, optional_text(*home), fs_safe),
    {
        if starts_with(output_folder, "s3://") {
            return S3Target::cache_path_for_output_folder(output_folder, fs_safe);
        }
        Ok(
            CachePath {
                directory: Some(expand_tilde(output_folder, home)),
                file: String::from_str("bandcamp-collection-downloader.cache"),
            },
        )
    }

    /// Where the cache file of the target lies.
    pub fn cache_path<F: Fn(&str) -> String>(&self, fs_safe: F) -> (path: CachePath)
        requires
            forall|text: &str| fs_safe.requires((text,)),
        ensures
            is_target_cache_path(path, *self, fs_safe),
    {
        match self {
            OutputTarget::Local { root } => CachePath {
                directory: Some(root.clone()),
                file: String::from_str("bandcamp-collection-downloader.cache"),
            },
            OutputTarget::S3(bucket) => s3_cache_path(
                bucket.bucket.as_str(),
                bucket.prefix.as_str(),
                fs_safe,
            ),
        }
    }

    /// What is left to do before the target can be written to, by way of
    /// whether its folder was found and is a directory. A bucket is always
    /// ready.
    pub fn ensure_ready(&self, found_directory: Option<bool>) -> (result: Result<
        Readiness,
        StorageError,
    >)
        ensures
            match *self {
                OutputTarget::S3(_) => result == Ok::<Readiness, StorageError>(Readiness::Ready),
                OutputTarget::Local { .. } => match found_directory {
                    Some(true) => result == Ok::<Readiness, StorageError>(Readiness::Ready),
                    Some(false) => result == Err::<Readiness, StorageError>(
                        StorageError::NotAFolder,
                    ),
                    None => result == Ok::<Readiness, StorageError>(Readiness::CreateFolder),
                },
            },
    {
        match self {
            OutputTarget::S3(_) => Ok(Readiness::Ready),
            OutputTarget::Local { .. } => match found_directory {
                Some(is_directory) => {
                    if is_directory {
                        Ok(Readiness::Ready)
                    } else {
                        Err(StorageError::NotAFolder)
                    }
                },
                None => Ok(Readiness::CreateFolder),
            },
        }
    }

    /// The bucket that the cache and the releases are synchronised with; a
    /// local target has none.
    pub fn remote(&self) -> (target: Option<&S3Target>)
        ensures
            match *self {
                OutputTarget::S3(t) => target == Some(&t),
                OutputTarget::Local { .. } => target is None,
            },
    {
        match self {
            OutputTarget::S3(target) => Some(target),
            OutputTarget::Local { .. } => None,
        }
    }
}

} // verus!
