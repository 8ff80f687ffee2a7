use bandsnatch::clock::amz_date_now;
use bandsnatch::config::{S3Config, S3Env};
use bandsnatch::digest::{hex, sha256_hex};
use bandsnatch::error::StorageError;
use bandsnatch::headers::{value_text, visible_text};
use bandsnatch::requests::{
    address, cache_download_outcome, host_header, upload_outcome, CacheDownload, ObjectRequest,
};
use bandsnatch::storage::S3Target;
use bandsnatch::url_parts::UrlParts;

fn text(s: &str) -> Option<String> {
    Some(s.to_string())
}

fn target(endpoint: &str, token: Option<String>) -> S3Target {
    let config = S3Config {
        endpoint: text(endpoint),
        region: text("eu-west-1"),
        access_key_id: text("AKID"),
        secret_access_key: text("secret"),
        session_token: token,
        upload_jobs: 1,
    };
    S3Target::new("s3://music/a", config, &S3Env::default()).ok().unwrap()
}

fn parts(scheme: &str, port: Option<u16>, known_port: Option<u16>) -> UrlParts {
    UrlParts {
        scheme: scheme.to_string(),
        host: text("host"),
        port,
        known_port,
        path: "/".to_string(),
    }
}

fn is_timestamp(date: &str) -> bool {
    let bytes = date.as_bytes();
    bytes.len() == 16
        && bytes[8] == b'T'
        && bytes[15] == b'Z'
        && (0..16).all(|i| i == 8 || i == 15 || bytes[i].is_ascii_digit())
}

#[test]
fn signing_keys_follow_the_published_example() {
    let mut target = target("http://host", None);
    target.secret_key = "wJalrXUtnFEMI/K7MDENG+bPxRfiCYEXAMPLEKEY".to_string();
    target.region = "us-east-1".to_string();
    assert_eq!(
        hex(&target.signing_key("20120215")),
        "f22dfcb5da3bb8d6c924d26e9bb28e9f96ba691a1b1791d907c06f10ede94251"
    );
}

#[test]
fn requests_are_signed() {
    let target = target("http://host", None);
    let payload_hash = sha256_hex(b"hello");
    let headers = target.auth_headers(
        "PUT",
        "/music/a%20b/c.flac",
        "s3.eu-west-1.amazonaws.com",
        &payload_hash,
        "20240131T235959Z",
    );
    assert_eq!(headers.len(), 4);
    assert_eq!(headers["host"], "s3.eu-west-1.amazonaws.com");
    assert_eq!(headers["x-amz-content-sha256"], payload_hash.as_str());
    assert_eq!(headers["x-amz-date"], "20240131T235959Z");
    assert_eq!(
        headers["authorization"],
        "AWS4-HMAC-SHA256 Credential=AKID/20240131/eu-west-1/s3/aws4_request, \
         SignedHeaders=host;x-amz-content-sha256;x-amz-date, \
         Signature=3dcbef93318c640882b7c6c3820b80e830b5e95121b6f4b16341a4ffead32fbb"
    );
}

#[test]
fn session_tokens_are_signed_without_outer_blanks() {
    let target = target("http://host", text(" tok en\t"));
    let payload_hash = sha256_hex(b"hello");
    let headers = target.auth_headers(
        "PUT",
        "/music/a%20b/c.flac",
        "s3.eu-west-1.amazonaws.com",
        &payload_hash,
        "20240131T235959Z",
    );
    assert_eq!(headers.len(), 5);
    assert_eq!(headers["x-amz-security-token"], " tok en\t");
    assert_eq!(
        headers["authorization"],
        "AWS4-HMAC-SHA256 Credential=AKID/20240131/eu-west-1/s3/aws4_request, \
         SignedHeaders=host;x-amz-content-sha256;x-amz-date;x-amz-security-token, \
         Signature=51a65809a57dcd4cfd4b666d7bff2dcd3efd61be4dabd75c725e1556af483c15"
    );
}

#[test]
fn signing_at_a_time_matches_signing_the_parts() {
    let target = target("http://host", None);
    let request = ObjectRequest {
        path: "/music/k".to_string(),
        url: "http://host/music/k".to_string(),
        host: "host".to_string(),
    };
    let signed = target.sign_at("GET", &request, b"", "20240131T235959Z").unwrap();
    let expected =
        target.auth_headers("GET", "/music/k", "host", &sha256_hex(b""), "20240131T235959Z");
    assert_eq!(signed, expected);
}

#[test]
fn what_cannot_stand_in_a_header_is_not_signed() {
    let request = |host: &str| ObjectRequest {
        path: "/".to_string(),
        url: "http://host/".to_string(),
        host: host.to_string(),
    };
    let date = "20240131T235959Z";
    let plain = target("http://host", None);
    assert!(plain.sign_at("PUT", &request("host"), b"", date).is_some());
    assert!(plain.sign_at("PUT", &request("h\nost"), b"", date).is_none());
    assert!(plain.sign_at("PUT", &request("h\u{f6}st"), b"", date).is_none());
    assert!(plain.sign_at("PUT", &request("host"), b"", "2024013").is_none());
    assert!(plain.sign_at("PUT", &request("host"), b"", "20240131").is_some());
    assert!(plain.sign_at("PUT", &request("host"), b"", "20240131\r").is_none());
    let token = target("http://host", text("a\nb"));
    assert!(token.sign_at("PUT", &request("host"), b"", date).is_none());
    let mut odd = target("http://host", None);
    odd.access_key = "\u{e9}".to_string();
    assert!(odd.sign_at("PUT", &request("host"), b"", date).is_some());
    odd.access_key = "a\u{7f}".to_string();
    assert!(odd.sign_at("PUT", &request("host"), b"", date).is_none());
    odd.access_key = "a".to_string();
    odd.region = "r\u{0}".to_string();
    assert!(odd.sign_at("PUT", &request("host"), b"", date).is_none());
    assert!(odd.sign_upload(&request("host"), b"").is_none());
    assert!(odd.sign_download(&request("host")).is_none());
}

#[test]
fn header_text_is_told_from_other_text() {
    assert!(value_text("a \t~\u{e9}"));
    assert!(!value_text("a\u{7f}"));
    assert!(!value_text("\n"));
    assert!(visible_text("a \t~"));
    assert!(!visible_text("\u{e9}"));
    assert!(!visible_text("\u{7f}"));
    assert!(visible_text(""));
}

#[test]
fn uploads_are_signed_now() {
    let target = target("http://host", None);
    let request = target.object_request("k").unwrap().unwrap();
    let headers = target.sign_upload(&request, b"hello").unwrap();
    assert_eq!(headers["x-amz-content-sha256"], sha256_hex(b"hello").as_str());
    let date = headers["x-amz-date"].to_str().unwrap().to_string();
    assert!(is_timestamp(&date));
    assert_eq!(headers, target.sign_at("PUT", &request, b"hello", &date).unwrap());
}

#[test]
fn downloads_are_signed_now() {
    let target = target("http://host", None);
    let request = target.cache_request().unwrap().unwrap();
    let headers = target.sign_download(&request).unwrap();
    let date = headers["x-amz-date"].to_str().unwrap().to_string();
    assert_eq!(headers, target.sign_at("GET", &request, b"", &date).unwrap());
}

#[test]
fn the_time_is_a_timestamp() {
    let now = || chrono::Utc::now().format("%Y%m%dT%H%M%SZ").to_string();
    let before = now();
    let date = amz_date_now();
    let after = now();
    assert!(is_timestamp(&date));
    assert!(before <= date && date <= after);
}

#[test]
fn object_requests_name_path_url_and_host() {
    let request = target("https://s3.example.com", None).object_request("x y").unwrap().unwrap();
    assert_eq!(request.path, "/music/x%20y");
    assert_eq!(request.url, "https://s3.example.com/music/x%20y");
    assert_eq!(request.host, "s3.example.com");

    let request = target("http://localhost:9000/base", None).object_request("k").unwrap().unwrap();
    assert_eq!(request.path, "/base/music/k");
    assert_eq!(request.url, "http://localhost:9000/base/music/k");
    assert_eq!(request.host, "localhost:9000");

    let request = target("https://host:443", None).object_request("k").unwrap().unwrap();
    assert_eq!(request.url, "https://host/music/k");
    assert_eq!(request.host, "host");
}

#[test]
fn requests_end_in_the_signed_path() {
    let request = target("http://[::1]:81", None).object_request("a/b").unwrap().unwrap();
    assert!(request.url.ends_with(&request.path));
    assert_eq!(request.host, "[::1]:81");
}

#[test]
fn the_cache_is_requested_under_its_key() {
    let target = target("http://host", None);
    let request = target.cache_request().unwrap().unwrap();
    assert_eq!(request.path, "/music/a/bandcamp-collection-downloader.cache");
    assert_eq!(request, target.object_request(&target.cache_key()).unwrap().unwrap());
}

#[test]
fn endpoints_without_a_host_reach_nothing() {
    let nowhere = target("mailto:someone", None);
    assert_eq!(nowhere.object_request("k"), Ok(None));
    let mut odd = target("http://host", None);
    odd.endpoint.scheme = "9".to_string();
    assert_eq!(
        odd.object_request("k"),
        Err(StorageError::InvalidUrl(url::ParseError::RelativeUrlWithoutBase))
    );
}

#[test]
fn addresses_need_a_host() {
    let mut url = parts("http", None, Some(80));
    let request = address("/p".to_string(), "u".to_string(), &url).unwrap();
    assert_eq!((request.path.as_str(), request.url.as_str()), ("/p", "u"));
    assert_eq!(request.host, "host");
    url.host = None;
    assert!(address("/p".to_string(), "u".to_string(), &url).is_none());
}

#[test]
fn host_headers_leave_default_ports_out() {
    assert_eq!(host_header(&parts("https", None, Some(443)), "host"), "host");
    assert_eq!(host_header(&parts("http", None, Some(80)), "host"), "host");
    assert_eq!(host_header(&parts("http", Some(443), Some(443)), "host"), "host:443");
    assert_eq!(host_header(&parts("https", Some(80), Some(80)), "host"), "host:80");
    assert_eq!(host_header(&parts("ftp", None, Some(21)), "host"), "host:21");
    assert_eq!(host_header(&parts("s3", None, None), "host"), "host");
    assert_eq!(host_header(&parts("http", Some(65535), Some(65535)), "h"), "h:65535");
}

#[test]
fn uploads_succeed_with_any_success_status() {
    assert_eq!(upload_outcome("k", 200, "200 OK"), Ok(()));
    assert_eq!(upload_outcome("k", 299, ""), Ok(()));
    for status in [199, 300, 404, 500] {
        let error = upload_outcome("k", status, "status").unwrap_err();
        assert_eq!(
            error.message(),
            text("S3 upload failed for `k` with status status")
        );
    }
}

#[test]
fn cache_downloads_store_discard_or_fail() {
    assert_eq!(cache_download_outcome("k", 200, "200 OK"), Ok(CacheDownload::Store));
    assert_eq!(cache_download_outcome("k", 404, "404 Not Found"), Ok(CacheDownload::Discard));
    let error = cache_download_outcome("k", 403, "403 Forbidden").unwrap_err();
    assert_eq!(
        error.message(),
        text("S3 cache download failed for `k` with status 403 Forbidden")
    );
}

#[test]
fn authorizations_end_in_64_lower_case_digits() {
    let target = target("https://h", text("TOK"));
    let headers = target.auth_headers("GET", "/b/k", "h", "ab", "20240102T030405Z");
    assert_eq!(headers["host"], "h");
    assert_eq!(headers["x-amz-content-sha256"], "ab");
    assert_eq!(headers["x-amz-date"], "20240102T030405Z");
    assert_eq!(headers["x-amz-security-token"], "TOK");
    let head = "AWS4-HMAC-SHA256 Credential=AKID/20240102/eu-west-1/s3/aws4_request, \
                SignedHeaders=host;x-amz-content-sha256;x-amz-date;x-amz-security-token, \
                Signature=";
    let authorization = headers["authorization"].to_str().unwrap();
    let signature = authorization.strip_prefix(head).unwrap();
    assert_eq!(signature.len(), 64);
    assert!(signature.bytes().all(|b| b.is_ascii_digit() || (b'a'..=b'f').contains(&b)));
}

#[test]
fn signing_keys_are_32_bytes_long() {
    let mut target = target("http://host", None);
    target.secret_key = String::new();
    target.region = String::new();
    assert_eq!(target.signing_key("").len(), 32);
}

#[test]
fn only_signatures_differ() {
    let one = target("http://host", None);
    let mut other = target("https://elsewhere/base", None);
    other.bucket = "other".to_string();
    let date = "20240102T030405Z";
    let a = one.auth_headers("GET", "/p", "h", "ab", date);
    assert_eq!(a, other.auth_headers("GET", "/p", "h", "ab", date));
    other.secret_key = "another".to_string();
    let b = other.auth_headers("PUT", "/q", "h", "ab", date);
    let split = |headers: &reqwest::header::HeaderMap| {
        let text = headers["authorization"].to_str().unwrap().to_string();
        let (head, signature) = text.split_at(text.len() - 64);
        (head.to_string(), signature.to_string())
    };
    assert_eq!(split(&a).0, split(&b).0);
    assert_ne!(split(&a).1, split(&b).1);
    assert_eq!(a["host"], b["host"]);
}

#[test]
fn the_cache_is_uploaded_to_where_it_is_downloaded_from() {
    let writer = target("http://host", None);
    let mut reader = target("http://host", text("token"));
    reader.access_key = "other".to_string();
    let upload = writer.object_request(&writer.cache_key()).unwrap();
    assert_eq!(upload, reader.cache_request().unwrap());
}
