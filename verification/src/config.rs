//! Where the settings of an S3 target come from.

use crate::text::{optional_text, same_text};
use vstd::prelude::*;
use vstd::string::*;

verus! {

/// S3 settings given on the command line.
#[derive(Clone)]
pub struct S3Config {
    pub endpoint: Option<String>,
    pub region: Option<String>,
    pub access_key_id: Option<String>,
    pub secret_access_key: Option<String>,
    pub session_token: Option<String>,
    pub upload_jobs: usize,
}

impl Default for S3Config {
    fn default() -> (config: Self)
        ensures
            config.endpoint is None,
            config.region is None,
            config.access_key_id is None,
            config.secret_access_key is None,
            config.session_token is None,
            config.upload_jobs == 0,
    {
        S3Config {
            endpoint: None,
            region: None,
            access_key_id: None,
            secret_access_key: None,
            session_token: None,
            upload_jobs: 0,
        }
    }
}

/// The environment variables that fill in for missing settings, each under
/// its name in lower case.
pub struct S3Env {
    pub aws_region: Option<String>,
    pub aws_default_region: Option<String>,
    pub bs_s3_region: Option<String>,
    pub aws_access_key_id: Option<String>,
    pub bs_s3_access_key_id: Option<String>,
    pub aws_secret_access_key: Option<String>,
    pub bs_s3_secret_access_key: Option<String>,
    pub aws_session_token: Option<String>,
    pub bs_s3_session_token: Option<String>,
    pub aws_endpoint_url: Option<String>,
    pub aws_endpoint_url_s3: Option<String>,
    pub bs_s3_endpoint: Option<String>,
}

impl Default for S3Env {
    /// An environment that sets none of the variables.
    fn default() -> (env: Self)
        ensures
            env.aws_region is None,
            env.aws_default_region is None,
            env.bs_s3_region is None,
            env.aws_access_key_id is None,
            env.bs_s3_access_key_id is None,
            env.aws_secret_access_key is None,
            env.bs_s3_secret_access_key is None,
            env.aws_session_token is None,
            env.bs_s3_session_token is None,
            env.aws_endpoint_url is None,
            env.aws_endpoint_url_s3 is None,
            env.bs_s3_endpoint is None,
    {
        S3Env {
            aws_region: None,
            aws_default_region: None,
            bs_s3_region: None,
            aws_access_key_id: None,
            bs_s3_access_key_id: None,
            aws_secret_access_key: None,
            bs_s3_secret_access_key: None,
            aws_session_token: None,
            bs_s3_session_token: None,
            aws_endpoint_url: None,
            aws_endpoint_url_s3: None,
            bs_s3_endpoint: None,
        }
    }
}

/// The first of two settings that is there.
pub open spec fn first_set(primary: Option<Seq<char>>, fallback: Option<Seq<char>>) -> Option<
    Seq<char>,
> {
    if primary is Some {
        primary
    } else {
        fallback
    }
}

/// A setting, or else a default.
pub open spec fn set_or(setting: Option<Seq<char>>, default: Seq<char>) -> Seq<char> {
    match setting {
        Some(value) => value,
        None => default,
    }
}

/// The region that requests are signed for: the command line's, `AWS_REGION`,
/// `BS_S3_REGION`, `AWS_DEFAULT_REGION`, or else `us-east-1`.
pub open spec fn region_of(config: S3Config, env: S3Env) -> Seq<char> {
    set_or(
        first_set(
            optional_text(config.region),
            first_set(
                first_set(optional_text(env.aws_region), optional_text(env.bs_s3_region)),
                optional_text(env.aws_default_region),
            ),
        ),
        "us-east-1"@,
    )
}

/// The access key id: the command line's, `AWS_ACCESS_KEY_ID` or
/// `BS_S3_ACCESS_KEY_ID`.
pub open spec fn access_key_of(config: S3Config, env: S3Env) -> Option<Seq<char>> {
    first_set(
        optional_text(config.access_key_id),
        first_set(optional_text(env.aws_access_key_id), optional_text(env.bs_s3_access_key_id)),
    )
}

/// The secret access key: the command line's, `AWS_SECRET_ACCESS_KEY` or
/// `BS_S3_SECRET_ACCESS_KEY`.
pub open spec fn secret_key_of(config: S3Config, env: S3Env) -> Option<Seq<char>> {
    first_set(
        optional_text(config.secret_access_key),
        first_set(
            optional_text(env.aws_secret_access_key),
            optional_text(env.bs_s3_secret_access_key),
        ),
    )
}

/// The session token: the command line's, `AWS_SESSION_TOKEN` or
/// `BS_S3_SESSION_TOKEN`.
pub open spec fn session_token_of(config: S3Config, env: S3Env) -> Option<Seq<char>> {
    first_set(
        optional_text(config.session_token),
        first_set(optional_text(env.aws_session_token), optional_text(env.bs_s3_session_token)),
    )
}

/// Amazon's endpoint for a region.
pub open spec fn amazon_endpoint(region: Seq<char>) -> Seq<char> {
    if region == "us-east-1"@ {
        "https://s3.amazonaws.com"@
    } else {
        "https://s3."@ + region + ".amazonaws.com"@
    }
}

/// The text of the endpoint: the given one, `AWS_ENDPOINT_URL`,
/// `BS_S3_ENDPOINT`, `AWS_ENDPOINT_URL_S3`, or else Amazon's endpoint for the
/// region that `AWS_REGION` or `AWS_DEFAULT_REGION` names.
pub open spec fn endpoint_text_of(endpoint: Option<Seq<char>>, env: S3Env) -> Seq<char> {
    let named = first_set(
        endpoint,
        first_set(
            first_set(optional_text(env.aws_endpoint_url), optional_text(env.bs_s3_endpoint)),
            optional_text(env.aws_endpoint_url_s3),
        ),
    );
    match named {
        Some(text) => text,
        None => amazon_endpoint(
            set_or(
                first_set(optional_text(env.aws_region), optional_text(env.aws_default_region)),
                "us-east-1"@,
            ),
        ),
    }
}

/// The first of two settings that is there.
pub fn env_or(primary: &Option<String>, fallback: &Option<String>) -> (setting: Option<String>)
    ensures
        optional_text(setting) == first_set(optional_text(*primary), optional_text(*fallback)),
{
    match primary {
        Some(value) => Some(value.clone()),
        None => match fallback {
            Some(value) => Some(value.clone()),
            None => None,
        },
    }
}

/// The region that requests are signed for.
pub fn region(config: &S3Config, env: &S3Env) -> (region: String)
    ensures
        region@ == region_of(*config, *env),
{
    let from_env = env_or(
        &env_or(&env.aws_region, &env.bs_s3_region),
        &env.aws_default_region,
    );
    match env_or(&config.region, &from_env) {
        Some(region) => region,
        None => String::from_str("us-east-1"),
    }
}

/// The text of the endpoint, before it is parsed.
pub fn endpoint_text(endpoint: &Option<String>, env: &S3Env) -> (text: String)
    ensures
        text@ == endpoint_text_of(optional_text(*endpoint), *env),
{
    let from_env = env_or(
        &env_or(&env.aws_endpoint_url, &env.bs_s3_endpoint),
        &env.aws_endpoint_url_s3,
    );
    if let Some(text) = env_or(endpoint, &from_env) {
        return text;
    }
    let region = match env_or(&env.aws_region, &env.aws_default_region) {
        Some(region) => region,
        None => String::from_str("us-east-1"),
    };
    if same_text(region.as_str(), "us-east-1") {
        String::from_str("https://s3.amazonaws.com")
    } else {
        let mut text = String::from_str("https://s3.");
        text.append(region.as_str());
        text.append(".amazonaws.com");
        text
    }
}

} // verus!
