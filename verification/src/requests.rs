//! The requests that a bucket is read and written with.

use crate::clock::{amz_date_now, is_amz_date, lemma_amz_date_is_visible};
use crate::digest::{hex_of, sha256_hex, sha256_of};
use crate::error::{ErrorView, StorageError};
use crate::headers::{header_values, is_value_text, is_visible_text, value_text, visible_text};
use crate::signing::{can_sign, is_signature, signature_of, signed_values, RequestView};
use crate::storage::{cache_key_of, object_path_of, S3Target, TargetView};
use crate::text::{decimal, decimal_of, same_text};
use crate::url_parts::{parse_url, url_parse, UrlParts, UrlView};
use reqwest::header::{HeaderMap, HeaderValue};
use vstd::prelude::*;
use vstd::string::*;

verus! {

/// Where a request for an object goes.
#[derive(Debug, PartialEq, Eq)]
pub struct ObjectRequest {
    pub path: String,
    pub url: String,
    /// The host header.
    pub host: String,
}

/// The model of [`ObjectRequest`].
pub struct ObjectRequestView {
    pub path: Seq<char>,
    pub url: Seq<char>,
    pub host: Seq<char>,
}

impl View for ObjectRequest {
    type V = ObjectRequestView;

    open spec fn view(&self) -> ObjectRequestView {
        ObjectRequestView { path: self.path@, url: self.url@, host: self.host@ }
    }
}

/// The text of an object's URL: the endpoint's scheme, host and port, then the
/// request path.
pub open spec fn object_url(endpoint: UrlView, host: Seq<char>, path: Seq<char>) -> Seq<char> {
    endpoint.scheme + "://"@ + host + (match endpoint.port {
        Some(port) => ":"@ + decimal_of(port as nat),
        None => seq![],
    }) + path
}

/// Whether the port is the one that the scheme stands for anyway.
pub open spec fn is_web_port(scheme: Seq<char>, port: u16) -> bool {
    scheme == "https"@ && port == 443 || scheme == "http"@ && port == 80
}

/// The host header for a URL: the host, and the port where it is known and not
/// the one that the scheme stands for.
pub open spec fn host_header_of(url: UrlView, host: Seq<char>) -> Seq<char> {
    match url.known_port {
        Some(port) => if is_web_port(url.scheme, port) {
            host
        } else {
            host + ":"@ + decimal_of(port as nat)
        },
        None => host,
    }
}

/// A request with a URL, by way of the URL's parts. A URL without a host can
/// be sent nowhere.
pub open spec fn addressed_request(
    path: Seq<char>,
    url: Seq<char>,
    parts: UrlView,
) -> Option<ObjectRequestView> {
    match parts.host {
        None => None,
        Some(host) => Some(ObjectRequestView { path, url, host: host_header_of(parts, host) }),
    }
}

/// The text of the URL of an object, at an endpoint that has a host.
pub open spec fn object_url_of(target: TargetView, key: Seq<char>) -> Seq<char>
    recommends
        target.endpoint.host is Some,
{
    object_url(target.endpoint, target.endpoint.host->0, object_path_of(target, key))
}

/// Where a request for an object goes, by way of what parsing its URL gave.
/// There is none without a host.
pub open spec fn object_request_of(
    target: TargetView,
    key: Seq<char>,
    parsed: Result<UrlView, url::ParseError>,
) -> Result<Option<ObjectRequestView>, ErrorView> {
    match target.endpoint.host {
        None => Ok(None),
        Some(_) => match parsed {
            Err(error) => Err(ErrorView::InvalidUrl(error)),
            Ok(parts) => Ok(
                addressed_request(object_path_of(target, key), object_url_of(target, key), parts),
            ),
        },
    }
}

/// The model of an optional request.
pub open spec fn optional_request(request: Option<ObjectRequest>) -> Option<ObjectRequestView> {
    match request {
        Some(request) => Some(request@),
        None => None,
    }
}

/// The model of a request result.
pub open spec fn request_result(result: Result<Option<ObjectRequest>, StorageError>) -> Result<
    Option<ObjectRequestView>,
    ErrorView,
> {
    match result {
        Ok(request) => Ok(optional_request(request)),
        Err(error) => Err(error@),
    }
}

/// What of a request is signed.
pub open spec fn request_to_sign(
    method: Seq<char>,
    request: ObjectRequestView,
    payload: Seq<u8>,
    amz_date: Seq<char>,
) -> RequestView {
    RequestView {
        method,
        path: request.path,
        host: request.host,
        payload_hash: hex_of(sha256_of(payload)),
        amz_date,
    }
}

/// A request whose host and whose target's settings can stand in headers.
pub open spec fn fits_headers(target: TargetView, host: Seq<char>) -> bool {
    &&& is_visible_text(host)
    &&& target.session_token matches Some(token) ==> is_visible_text(token)
    &&& is_value_text(target.region)
    &&& is_value_text(target.access_key)
}

/// `headers` are those of a request that is signed at some moment. They are
/// there whenever the request fits into headers.
pub open spec fn is_signed_now(
    headers: Option<HeaderMap<HeaderValue>>,
    target: TargetView,
    method: Seq<char>,
    request: ObjectRequestView,
    payload: Seq<u8>,
) -> bool {
    match headers {
        None => !fits_headers(target, request.host),
        Some(headers) => fits_headers(target, request.host) && exists|amz_date: Seq<char>|
            is_amz_date(amz_date) && header_values(headers) == #[trigger] signed_values(
                target,
                request_to_sign(method, request, payload, amz_date),
            ) && is_signature(
                signature_of(target, request_to_sign(method, request, payload, amz_date)),
            ),
    }
}

/// The host header for a URL with a host.
pub fn host_header(url: &UrlParts, host: &str) -> (header: String)
    ensures
        header@ == host_header_of(url@, host@),
{
    let mut header = String::from_str(host);
    if let Some(port) = url.known_port {
        let https = same_text(url.scheme.as_str(), "https") && port == 443;
        let http = same_text(url.scheme.as_str(), "http") && port == 80;
        if !https && !http {
            header.append(":");
            header.append(decimal(port as u64).as_str());
        }
    }
    header
}

/// Puts a request together from its path, its URL and the URL's parts.
pub fn address(path: String, url: String, parts: &UrlParts) -> (request: Option<ObjectRequest>)
    ensures
        optional_request(request) == addressed_request(path@, url@, parts@),
{
    match &parts.host {
        None => None,
        Some(host) => {
            let host = host_header(parts, host.as_str());
            Some(ObjectRequest { path, url, host })
        },
    }
}

/// Hexadecimal can stand in a header and be read back.
proof fn lemma_hex_is_visible(bytes: Seq<u8>)
    ensures
        is_visible_text(hex_of(bytes)),
{
}

impl S3Target {
    /// Where a request for an object goes. There is no such place where the
    /// endpoint, or the URL of the object, has no host.
    pub fn object_request(&self, key: &str) -> (result: Result<
        Option<ObjectRequest>,
        StorageError,
    >)
        ensures
            request_result(result) == object_request_of(
                self@,
                key@,
                url_parse(object_url_of(self@, key@)),
            ),
    {
        let host = match &self.endpoint.host {
            None => return Ok(None),
            Some(host) => host,
        };
        let path = self.object_path(key);
        let mut url = self.endpoint.scheme.clone();
        url.append("://");
        url.append(host.as_str());
        if let Some(port) = self.endpoint.port {
            url.append(":");
            url.append(decimal(port as u64).as_str());
        }
        url.append(path.as_str());
        assert(url@ =~= object_url_of(self@, key@));
        match parse_url(url.as_str()) {
            Err(error) => Err(StorageError::InvalidUrl(error)),
            Ok(parts) => Ok(address(path, url, &parts)),
        }
    }

    /// Where a request for the remote cache goes.
    pub fn cache_request(&self) -> (result: Result<Option<ObjectRequest>, StorageError>)
        ensures
            request_result(result) == object_request_of(
                self@,
                cache_key_of(self@.prefix),
                url_parse(object_url_of(self@, cache_key_of(self@.prefix))),
            ),
    {
        let key = self.cache_key();
        self.object_request(key.as_str())
    }

    /// Signs a request at a given time. There are no headers where a part of
    /// the request cannot stand in one, or where the time holds no day.
    pub fn sign_at(
        &self,
        method: &str,
        request: &ObjectRequest,
        payload: &[u8],
        amz_date: &str,
    ) -> (headers: Option<HeaderMap<HeaderValue>>)
        ensures
            can_sign(self@, request_to_sign(method@, request@, payload@, amz_date@))
                ==> (headers matches Some(h) && header_values(h) == signed_values(
                self@,
                request_to_sign(method@, request@, payload@, amz_date@),
            ) && is_signature(
                signature_of(self@, request_to_sign(method@, request@, payload@, amz_date@)),
            )),
            !can_sign(self@, request_to_sign(method@, request@, payload@, amz_date@))
                ==> headers is None,
    {
        let payload_hash = sha256_hex(payload);
        proof {
            lemma_hex_is_visible(sha256_of(payload@));
        }
        if !visible_text(request.host.as_str()) || !visible_text(amz_date) {
            return None;
        }
        if amz_date.unicode_len() < 8 {
            return None;
        }
        if let Some(token) = &self.session_token {
            if !visible_text(token.as_str()) {
                return None;
            }
        }
        if !value_text(self.region.as_str()) || !value_text(self.access_key.as_str()) {
            return None;
        }
        Some(
            self.auth_headers(
                method,
                request.path.as_str(),
                request.host.as_str(),
                payload_hash.as_str(),
                amz_date,
            ),
        )
    }

    /// Signs a request now.
    fn sign_now(&self, method: &str, request: &ObjectRequest, payload: &[u8]) -> (headers: Option<
        HeaderMap<HeaderValue>,
    >)
        ensures
            is_signed_now(headers, self@, method@, request@, payload@),
    {
        let amz_date = amz_date_now();
        proof {
            lemma_amz_date_is_visible(amz_date@);
            lemma_hex_is_visible(sha256_of(payload@));
        }
        self.sign_at(method, request, payload, amz_date.as_str())
    }

    /// Signs the upload of `payload`, now. There are no headers where a part
    /// of the request cannot stand in one.
    pub fn sign_upload(&self, request: &ObjectRequest, payload: &[u8]) -> (headers: Option<
        HeaderMap<HeaderValue>,
    >)
        ensures
            is_signed_now(headers, self@, "PUT"@, request@, payload@),
    {
        self.sign_now("PUT", request, payload)
    }

    /// Signs a download, now. There are no headers where a part of the request
    /// cannot stand in one.
    pub fn sign_download(&self, request: &ObjectRequest) -> (headers: Option<
        HeaderMap<HeaderValue>,
    >)
        ensures
            is_signed_now(headers, self@, "GET"@, request@, Seq::empty()),
    {
        let payload: Vec<u8> = Vec::new();
        self.sign_now("GET", request, payload.as_slice())
    }
}

/// Whether a status reports success.
pub open spec fn is_success(status: u16) -> bool {
    200 <= status < 300
}

/// What the answer to an upload means.
pub open spec fn upload_outcome_of(key: Seq<char>, status: u16, status_text: Seq<char>) -> Result<
    (),
    ErrorView,
> {
    if is_success(status) {
        Ok(())
    } else {
        Err(ErrorView::UploadFailed { key, status: status_text })
    }
}

/// What the answer to a download of the cache means.
pub open spec fn cache_download_outcome_of(
    key: Seq<char>,
    status: u16,
    status_text: Seq<char>,
) -> Result<CacheDownload, ErrorView> {
    if is_success(status) {
        Ok(CacheDownload::Store)
    } else if status == 404 {
        Ok(CacheDownload::Discard)
    } else {
        Err(ErrorView::CacheDownloadFailed { key, status: status_text })
    }
}

/// The model of an outcome.
pub open spec fn outcome_result<T>(result: Result<T, StorageError>) -> Result<T, ErrorView> {
    match result {
        Ok(value) => Ok(value),
        Err(error) => Err(error@),
    }
}

/// What comes of the answer to an upload.
pub fn upload_outcome(key: &str, status: u16, status_text: &str) -> (result: Result<
    (),
    StorageError,
>)
    ensures
        outcome_result(result) == upload_outcome_of(key@, status, status_text@),
{
    if 200 <= status && status < 300 {
        Ok(())
    } else {
        Err(
            StorageError::UploadFailed {
                key: String::from_str(key),
                status: String::from_str(status_text),
            },
        )
    }
}

/// What is to be done with the local cache file after a download.
#[derive(Debug, PartialEq, Eq)]
pub enum CacheDownload {
    /// The body of the answer becomes the local cache file.
    Store,
    /// There is no remote cache, so a local one is removed.
    Discard,
}

/// What comes of the answer to a download of the cache.
pub fn cache_download_outcome(key: &str, status: u16, status_text: &str) -> (result: Result<
    CacheDownload,
    StorageError,
>)
    ensures
        outcome_result(result) == cache_download_outcome_of(key@, status, status_text@),
{
    if 200 <= status && status < 300 {
        Ok(CacheDownload::Store)
    } else if status == 404 {
        Ok(CacheDownload::Discard)
    } else {
        Err(
            StorageError::CacheDownloadFailed {
                key: String::from_str(key),
                status: String::from_str(status_text),
            },
        )
    }
}

} // verus!
