use bandsnatch::config::{endpoint_text, env_or, region, S3Config, S3Env};
use bandsnatch::error::StorageError;
use bandsnatch::home::{home_dir, home_in};
use bandsnatch::storage::{
    join_key, locate, s3_cache_file, s3_location, OutputTarget, Readiness, S3Target,
};
use bandsnatch::url_parts::UrlParts;

fn text(s: &str) -> Option<String> {
    Some(s.to_string())
}

fn keys() -> S3Config {
    S3Config {
        access_key_id: text("id"),
        secret_access_key: text("secret"),
        upload_jobs: 3,
        ..S3Config::default()
    }
}

fn target(output_folder: &str, endpoint: &str) -> S3Target {
    let config = S3Config { endpoint: text(endpoint), ..keys() };
    S3Target::new(output_folder, config, &S3Env::default()).ok().unwrap()
}

#[test]
fn the_first_setting_wins() {
    assert_eq!(env_or(&text("a"), &text("b")), text("a"));
    assert_eq!(env_or(&None, &text("b")), text("b"));
    assert_eq!(env_or(&None, &None), None);
}

#[test]
fn region_comes_from_config_then_environment() {
    let mut env = S3Env { aws_default_region: text("d"), ..S3Env::default() };
    let mut config = S3Config::default();
    assert_eq!(region(&config, &S3Env::default()), "us-east-1");
    assert_eq!(region(&config, &env), "d");
    env.bs_s3_region = text("b");
    assert_eq!(region(&config, &env), "b");
    env.aws_region = text("a");
    assert_eq!(region(&config, &env), "a");
    config.region = text("c");
    assert_eq!(region(&config, &env), "c");
}

#[test]
fn endpoint_comes_from_config_then_environment() {
    let mut env = S3Env::default();
    assert_eq!(endpoint_text(&None, &env), "https://s3.amazonaws.com");
    env.bs_s3_region = text("ignored");
    assert_eq!(endpoint_text(&None, &env), "https://s3.amazonaws.com");
    env.aws_default_region = text("eu-north-1");
    assert_eq!(endpoint_text(&None, &env), "https://s3.eu-north-1.amazonaws.com");
    env.aws_region = text("eu-west-1");
    assert_eq!(endpoint_text(&None, &env), "https://s3.eu-west-1.amazonaws.com");
    env.aws_region = text("us-east-1");
    assert_eq!(endpoint_text(&None, &env), "https://s3.amazonaws.com");
    env.aws_endpoint_url_s3 = text("http://three");
    assert_eq!(endpoint_text(&None, &env), "http://three");
    env.bs_s3_endpoint = text("http://two");
    assert_eq!(endpoint_text(&None, &env), "http://two");
    env.aws_endpoint_url = text("http://one");
    assert_eq!(endpoint_text(&None, &env), "http://one");
    assert_eq!(endpoint_text(&text("http://zero"), &env), "http://zero");
}

#[test]
fn endpoint_urls_are_parsed() {
    let env = S3Env::default();
    let url = S3Target::endpoint_url(&text("HTTP://Example.com:9000/base/"), &env).unwrap();
    assert_eq!(
        url,
        UrlParts {
            scheme: "http".to_string(),
            host: text("example.com"),
            port: Some(9000),
            known_port: Some(9000),
            path: "/base/".to_string(),
        }
    );
    let url = S3Target::endpoint_url(&None, &env).unwrap();
    assert_eq!(url.port, None);
    assert_eq!(url.known_port, Some(443));
    assert!(matches!(
        S3Target::endpoint_url(&text("no url"), &env),
        Err(StorageError::InvalidUrl(url::ParseError::RelativeUrlWithoutBase))
    ));
}

#[test]
fn locations_name_bucket_and_prefix() {
    let location = s3_location("s3://bucket/some/prefix/").unwrap();
    assert_eq!(location.bucket, "bucket");
    assert_eq!(location.prefix, "some/prefix");
    let location = s3_location("s3://bucket").unwrap();
    assert_eq!(location.prefix, "");
}

#[test]
fn locations_can_be_refused() {
    assert_eq!(s3_location("https://bucket/x").unwrap_err(), StorageError::NotS3Url);
    assert_eq!(
        s3_location("s3:bucket").unwrap_err(),
        StorageError::MissingBucket { output_folder: "s3:bucket".to_string() }
    );
    assert_eq!(
        s3_location("s3:///prefix").unwrap_err(),
        StorageError::MissingBucket { output_folder: "s3:///prefix".to_string() }
    );
    assert_eq!(
        s3_location("bucket").unwrap_err(),
        StorageError::InvalidUrl(url::ParseError::RelativeUrlWithoutBase)
    );
}

#[test]
fn locations_are_read_off_parts() {
    let mut parts = UrlParts {
        scheme: "s3".to_string(),
        host: text("b"),
        port: None,
        known_port: None,
        path: "//p//".to_string(),
    };
    assert_eq!(locate("x", &parts).unwrap().prefix, "p");
    parts.host = None;
    assert!(locate("x", &parts).is_err());
}

#[test]
fn targets_take_their_settings() {
    let env = S3Env {
        aws_region: text("eu-west-1"),
        bs_s3_session_token: text("token"),
        bs_s3_access_key_id: text("other"),
        ..S3Env::default()
    };
    let target = S3Target::new("s3://music/a/b/", keys(), &env).ok().unwrap();
    assert_eq!(target.bucket, "music");
    assert_eq!(target.prefix, "a/b");
    assert_eq!(target.upload_jobs, 3);
    assert_eq!(target.region, "eu-west-1");
    assert_eq!(target.access_key, "id");
    assert_eq!(target.secret_key, "secret");
    assert_eq!(target.session_token, text("token"));
    assert_eq!(target.endpoint.host, text("s3.eu-west-1.amazonaws.com"));
}

#[test]
fn targets_take_keys_from_the_environment() {
    let env = S3Env {
        aws_access_key_id: text("aws id"),
        bs_s3_access_key_id: text("bs id"),
        bs_s3_secret_access_key: text("bs secret"),
        ..S3Env::default()
    };
    let target = S3Target::new("s3://music", S3Config::default(), &env).ok().unwrap();
    assert_eq!(target.access_key, "aws id");
    assert_eq!(target.secret_key, "bs secret");
    assert_eq!(target.session_token, None);
}

#[test]
fn targets_need_keys() {
    let env = S3Env::default();
    let refused = S3Target::new("s3://music", S3Config::default(), &env);
    assert_eq!(refused.err(), Some(StorageError::MissingAccessKey));
    let config = S3Config { access_key_id: text("id"), ..S3Config::default() };
    let refused = S3Target::new("s3://music", config, &env);
    assert_eq!(refused.err(), Some(StorageError::MissingSecretKey));
}

#[test]
fn a_bad_location_is_reported_before_a_bad_endpoint() {
    let config = S3Config { endpoint: text("nowhere"), ..S3Config::default() };
    let refused = S3Target::new("http://music", config.clone(), &S3Env::default());
    assert_eq!(refused.err(), Some(StorageError::NotS3Url));
    let refused = S3Target::new("s3://music", config, &S3Env::default());
    assert_eq!(
        refused.err(),
        Some(StorageError::InvalidUrl(url::ParseError::RelativeUrlWithoutBase))
    );
}

#[test]
fn output_folders_are_local_or_on_s3() {
    let env = S3Env::default();
    match OutputTarget::parse("./music", S3Config::default(), &env, &None).ok().unwrap() {
        OutputTarget::Local { root } => assert_eq!(root, "./music"),
        OutputTarget::S3(_) => panic!("not on S3"),
    }
    match OutputTarget::parse("s3://music/x", keys(), &env, &None).ok().unwrap() {
        OutputTarget::Local { .. } => panic!("not local"),
        OutputTarget::S3(target) => assert_eq!(target.bucket, "music"),
    }
    let refused = OutputTarget::parse("s3://music/x", S3Config::default(), &env, &None);
    assert_eq!(refused.err(), Some(StorageError::MissingAccessKey));
}

fn local_root(folder: &str, home: &Option<String>) -> String {
    match OutputTarget::parse(folder, S3Config::default(), &S3Env::default(), home) {
        Ok(OutputTarget::Local { root }) => root,
        _ => panic!("not local"),
    }
}

#[test]
fn a_leading_tilde_becomes_the_home_directory() {
    let home = text("/home/me");
    assert_eq!(local_root("~", &home), "/home/me");
    assert_eq!(local_root("~/music", &home), "/home/me/music");
    for folder in ["~someone/music", "music/~", "s3:/music", "", "/~/music"] {
        assert_eq!(local_root(folder, &home), folder);
    }
    assert_eq!(local_root("~/music", &None), "~/music");
}

#[test]
fn the_home_directory_is_that_of_a_tilde() {
    assert_eq!(home_in("/home/me".to_string()), text("/home/me"));
    assert_eq!(home_in("~".to_string()), None);
    let home = home_dir();
    assert_eq!(local_root("~", &home), shellexpand::tilde("~"));
    assert_eq!(local_root("~/music", &home), shellexpand::tilde("~/music"));
}

#[test]
fn the_cache_lies_in_the_root_of_a_local_target() {
    let home = text("/home/me");
    for folder in ["~", "~/music", "music", "~else"] {
        let fs_safe = |text: &str| text.to_string();
        let path = OutputTarget::cache_path_for_output_folder(folder, &home, fs_safe).unwrap();
        assert_eq!(path.directory, Some(local_root(folder, &home)));
    }
}

#[test]
fn targets_know_their_cache_file() {
    let fs_safe = |text: &str| text.replace('/', "_");
    let home = text("/home/me");
    for folder in ["~/music", "~\\music", "music"] {
        let root = local_root(folder, &home);
        let path = OutputTarget::Local { root: root.clone() }.cache_path(fs_safe);
        assert_eq!(path.directory, Some(root));
        assert_eq!(path.file, "bandcamp-collection-downloader.cache");
    }
    for folder in ["s3://b/x/y", "s3://b"] {
        let path = OutputTarget::S3(target(folder, "http://host")).cache_path(fs_safe);
        let named = OutputTarget::cache_path_for_output_folder(folder, &home, fs_safe).unwrap();
        assert_eq!(path, named);
    }
}

#[test]
fn only_buckets_are_remote() {
    let local = OutputTarget::Local { root: "x".to_string() };
    assert!(local.remote().is_none());
    let remote = OutputTarget::S3(target("s3://music", "http://host"));
    assert_eq!(remote.remote().unwrap().bucket, "music");
}

#[test]
fn local_folders_are_made_ready() {
    let local = OutputTarget::Local { root: "x".to_string() };
    assert_eq!(local.ensure_ready(Some(true)), Ok(Readiness::Ready));
    assert_eq!(local.ensure_ready(Some(false)), Err(StorageError::NotAFolder));
    assert_eq!(local.ensure_ready(None), Ok(Readiness::CreateFolder));
    let remote = OutputTarget::S3(target("s3://music", "http://host"));
    assert_eq!(remote.ensure_ready(None), Ok(Readiness::Ready));
}

#[test]
fn cache_files_of_buckets_are_named_after_them() {
    assert_eq!(
        s3_cache_file("bucket", Some("prefix")),
        "bandcamp-collection-downloader.bucket.prefix.cache"
    );
    assert_eq!(s3_cache_file("bucket", None), "bandcamp-collection-downloader.bucket.cache");
}

#[test]
fn cache_paths_follow_the_output_folder() {
    let fs_safe = |text: &str| text.replace('/', "_");
    let path = OutputTarget::cache_path_for_output_folder("s3://b/x/y", &None, fs_safe).unwrap();
    assert_eq!(path.directory, None);
    assert_eq!(path.file, "bandcamp-collection-downloader.b.x_y.cache");
    let path = OutputTarget::cache_path_for_output_folder("s3://b/", &None, fs_safe).unwrap();
    assert_eq!(path.file, "bandcamp-collection-downloader.b.cache");
    let path = OutputTarget::cache_path_for_output_folder("music", &None, fs_safe).unwrap();
    assert_eq!(path.directory, text("music"));
    assert_eq!(path.file, "bandcamp-collection-downloader.cache");
    let refused = S3Target::cache_path_for_output_folder("http://b", fs_safe);
    assert_eq!(refused.unwrap_err(), StorageError::NotS3Url);
}

#[test]
fn keys_are_joined_below_a_prefix() {
    assert_eq!(join_key("/a/b/", "c\\d.flac"), "a/b/c/d.flac");
    assert_eq!(join_key("", "c/d.flac"), "c/d.flac");
    assert_eq!(join_key("//", "d.flac"), "d.flac");
    assert_eq!(join_key("a/b", "x"), join_key("/a/b/", "x"));
    assert_ne!(join_key("a", "b/c"), join_key("a", "b c"));
    assert_eq!(join_key("a", "b\\c"), join_key("a", "b/c"));
}

#[test]
fn the_cache_has_a_key() {
    assert_eq!(
        target("s3://music", "http://host").cache_key(),
        "bandcamp-collection-downloader.cache"
    );
    assert_eq!(
        target("s3://music/a/", "http://host").cache_key(),
        "a/bandcamp-collection-downloader.cache"
    );
}

#[test]
fn object_paths_lie_below_the_endpoint() {
    let plain = target("s3://music", "http://host");
    assert_eq!(plain.object_path("/a b"), "/music/a%20b");
    let nested = target("s3://music", "http://host/minio//");
    assert_eq!(nested.object_path("a"), "/minio/music/a");
    let mut bare = target("s3://music", "http://host");
    bare.endpoint.path = "base".to_string();
    assert_eq!(bare.object_path("a"), "/base/music/a");
    bare.endpoint.path = String::new();
    assert_eq!(bare.object_path("a"), "/music/a");
    assert_ne!(plain.object_path("a b"), plain.object_path("a%20b"));
}

#[test]
fn errors_tell_what_is_wrong() {
    let message = |error: StorageError| error.message();
    assert_eq!(
        message(StorageError::NotS3Url),
        text("expected an `s3://bucket/prefix` output folder")
    );
    assert_eq!(
        message(StorageError::MissingBucket { output_folder: "s3:x".to_string() }),
        text("missing S3 bucket in `s3:x`")
    );
    assert_eq!(
        message(StorageError::MissingAccessKey),
        text("missing S3 access key id (`--s3-access-key-id` or `BS_S3_ACCESS_KEY_ID`)")
    );
    assert_eq!(
        message(StorageError::MissingSecretKey),
        text("missing S3 secret access key (`--s3-secret-access-key` or `BS_S3_SECRET_ACCESS_KEY`)")
    );
    assert!(message(StorageError::NotAFolder).unwrap().starts_with("Cannot use `output-folder`"));
    assert_eq!(message(StorageError::InvalidUrl(url::ParseError::EmptyHost)), None);
}
