//! Where objects lie: their keys, their paths, their URLs, and what a service
//! answers.

use crate::error::StorageError;
use crate::laws::texts::{
    is_run_of, is_trimmed, law_decimals_spell_their_number, law_trimming_takes_outer_runs, spells,
};
use crate::percent::{encode_key_path, encoded, percent_triplet, stands_for_itself};
use crate::requests::{
    address, cache_download_outcome, host_header, host_header_of, object_url, object_url_of,
    upload_outcome, CacheDownload, ObjectRequest,
};
use crate::staging::{random_temp_release_dir_name, temp_release_dir_name, temp_release_dir_of};
use crate::storage::{endpoint_root, join_key, made_safe, S3Target};
use crate::text::{decimal_of, replaced, trim_end_of, trim_of, trim_start_of};
use crate::upload::file_key;
use crate::url_parts::{url_parse, UrlParts, UrlView};
use vstd::prelude::*;
use vstd::utf8::*;

verus! {

/// The value of an upper-case hexadecimal digit; none for another character.
pub open spec fn upper_hex_value(c: char) -> Option<int> {
    if '0' <= c <= '9' {
        Some(c as int - '0' as int)
    } else if 'A' <= c <= 'F' {
        Some(c as int - 'A' as int + 10)
    } else {
        None
    }
}

/// Whether a path holds a byte as it is: a letter, a digit, `-`, `.`, `_`, `~`
/// or `/`.
pub open spec fn is_plain(byte: int) -> bool {
    ||| 97 <= byte <= 122
    ||| 65 <= byte <= 90
    ||| 48 <= byte <= 57
    ||| byte == 45
    ||| byte == 46
    ||| byte == 95
    ||| byte == 126
    ||| byte == 47
}

/// The bytes that a path stands for: plain ones for themselves, each other one
/// as a per cent sign and two upper-case hexadecimal digits. None where the
/// path is not written so.
pub open spec fn unescaped(path: Seq<char>) -> Option<Seq<u8>>
    decreases path.len(),
{
    if path.len() == 0 {
        Some(seq![])
    } else if is_plain(path[0] as int) {
        match unescaped(path.drop_first()) {
            Some(rest) => Some(seq![path[0] as u8] + rest),
            None => None,
        }
    } else if path[0] == '%' && path.len() >= 3 && upper_hex_value(path[1]) is Some
        && upper_hex_value(path[2]) is Some {
        let byte = 16 * upper_hex_value(path[1])->0 + upper_hex_value(path[2])->0;
        match unescaped(path.skip(3)) {
            Some(rest) => if is_plain(byte) {
                None
            } else {
                Some(seq![byte as u8] + rest)
            },
            None => None,
        }
    } else {
        None
    }
}

proof fn lemma_unescaped(bytes: Seq<u8>)
    ensures
        unescaped(encoded(bytes)) == Some(bytes),
    decreases bytes.len(),
{
    if bytes.len() == 0 {
        assert(bytes =~= seq![]);
    } else {
        let rest = bytes.drop_first();
        lemma_unescaped(rest);
        let byte = bytes[0];
        let path = encoded(bytes);
        assert(bytes =~= seq![byte] + rest);
        if stands_for_itself(byte) {
            assert(is_plain(byte as int));
            assert(path[0] == byte as char);
            assert(path.drop_first() =~= encoded(rest));
            assert(path[0] as u8 == byte);
        } else {
            assert(!is_plain(byte as int));
            assert(path[0] == '%');
            assert(path[1] == percent_triplet(byte)[1]);
            assert(path[2] == percent_triplet(byte)[2]);
            assert(path.skip(3) =~= encoded(rest));
            assert(upper_hex_value(path[1]) == Some(byte as int / 16));
            assert(upper_hex_value(path[2]) == Some(byte as int % 16));
        }
    }
}

/// An encoded key stands for the bytes of the key, without the slashes in front
/// of it, and is written with no more escapes than it takes.
pub proof fn law_encoded_keys_stand_for_their_bytes(key: &str, path: String)
    requires
        call_ensures(encode_key_path, (key,), path),
    ensures
        exists|slashes: Seq<char>, rest: Seq<char>|
            {
                &&& is_run_of(slashes, '/')
                &&& rest.len() > 0 ==> rest[0] != '/'
                &&& key@ == #[trigger] (slashes + rest)
                &&& unescaped(path@) == Some(encode_utf8(rest))
            },
{
    law_trimming_takes_outer_runs(key@, '/');
    let rest = trim_start_of(key@, '/');
    let slashes = choose|slashes: Seq<char>|
        is_run_of(slashes, '/') && key@ == #[trigger] (slashes + rest);
    lemma_unescaped(encode_utf8(rest));
    assert(key@ == slashes + rest);
}

/// A key is its prefix without the slashes around it, a slash, and the relative
/// path with its backslashes turned into slashes; without a prefix it is that
/// path.
pub proof fn law_keys_are_made_of_prefix_and_path(prefix: &str, relative: &str, key: String)
    requires
        call_ensures(join_key, (prefix, relative), key),
    ensures
        exists|inner: Seq<char>| #[trigger]
            is_trimmed(prefix@, inner, '/') && {
                let start = if inner.len() == 0 {
                    inner
                } else {
                    inner.push('/')
                };
                &&& key@.len() == start.len() + relative@.len()
                &&& start.is_prefix_of(key@)
                &&& forall|i: int|
                    0 <= i < relative@.len() ==> #[trigger] key@[start.len() + i] == (
                    if relative@[i] == '\\' {
                        '/'
                    } else {
                        relative@[i]
                    })
            },
{
    reveal_strlit("/");
    law_trimming_takes_outer_runs(prefix@, '/');
    let inner = trim_of(prefix@, '/');
    assert(is_trimmed(prefix@, inner, '/'));
    let start = if inner.len() == 0 {
        inner
    } else {
        inner.push('/')
    };
    assert(key@ =~= start + replaced(relative@, '\\', '/'));
    assert(key@.subrange(0, start.len() as int) =~= start);
}

/// A file of a release is uploaded under the key that its path makes below the
/// key of the release.
pub proof fn law_files_get_the_keys_of_their_paths(
    release_key: &str,
    relative: &str,
    key: String,
)
    requires
        call_ensures(join_key, (release_key, relative), key),
    ensures
        file_key(release_key@, relative@) == key@,
{
}

/// The cache has the key of a file of its name below the prefix of its target.
pub proof fn law_cache_has_a_key_below_the_prefix(
    target: S3Target,
    key: String,
    prefix: &str,
    name: &str,
    joined: String,
)
    requires
        call_ensures(S3Target::cache_key, (&target,), key),
        prefix@ == target.prefix@,
        name@ == "bandcamp-collection-downloader.cache"@,
        call_ensures(join_key, (prefix, name), joined),
    ensures
        key@ == joined@,
{
    reveal_strlit("bandcamp-collection-downloader.cache");
    assert(replaced(name@, '\\', '/') =~= name@);
}

/// An object's path is the path of the endpoint, with a slash in front and none
/// at its end, then the bucket and the encoded key, with a slash before each.
pub proof fn law_objects_lie_below_endpoint_and_bucket(
    target: S3Target,
    key: &str,
    path: String,
    encoded_path: String,
)
    requires
        call_ensures(S3Target::object_path, (&target, key), path),
        call_ensures(encode_key_path, (key,), encoded_path),
    ensures
        exists|front: Seq<char>, slashes: Seq<char>|
            {
                let base = target.endpoint.path@;
                &&& is_run_of(slashes, '/')
                &&& front.len() > 0 ==> front[0] == '/' && front.last() != '/'
                &&& {
                    ||| base == #[trigger] (front + slashes)
                    ||| base.len() > 0 && base[0] != '/' && seq!['/'] + base == front + slashes
                }
                &&& path@ == front + "/"@ + target.bucket@ + "/"@ + encoded_path@
            },
{
    reveal_strlit("/");
    assert("/"@ =~= seq!['/']);
    let base = target.endpoint.path@;
    law_trimming_takes_outer_runs(base, '/');
    let trimmed = trim_end_of(base, '/');
    let slashes = choose|after: Seq<char>|
        is_run_of(after, '/') && base == #[trigger] (trimmed + after);
    if trimmed.len() == 0 || trimmed[0] == '/' {
        assert(endpoint_root(base) =~= trimmed + "/"@);
        assert(base == trimmed + slashes);
        assert(path@ == trimmed + "/"@ + target.bucket@ + "/"@ + encoded_path@);
    } else {
        let front = seq!['/'] + trimmed;
        assert(endpoint_root(base) =~= front + "/"@);
        assert(front.last() == trimmed.last());
        assert(base[0] == trimmed[0]);
        assert(seq!['/'] + base =~= front + slashes);
        assert(path@ == front + "/"@ + target.bucket@ + "/"@ + encoded_path@);
    }
}

/// The host header: the host, and behind a colon the port in decimal, unless
/// there is none or it is 443 for `https` or 80 for `http`.
pub open spec fn is_host_header(
    header: Seq<char>,
    host: Seq<char>,
    scheme: Seq<char>,
    port: Option<u16>,
) -> bool {
    match port {
        None => header == host,
        Some(port) => {
            let goes_without_saying = scheme == "https"@ && port == 443 || scheme == "http"@ && port
                == 80;
            &&& goes_without_saying ==> header == host
            &&& !goes_without_saying ==> exists|digits: Seq<char>| #[trigger]
                spells(digits, port as nat) && header == host + ":"@ + digits
        },
    }
}

/// A host header names the host, and the port where it has to.
pub proof fn law_host_headers_name_unusual_ports(url: UrlParts, host: &str, header: String)
    requires
        call_ensures(host_header, (&url, host), header),
    ensures
        is_host_header(header@, host@, url.scheme@, url.known_port),
{
    if let Some(port) = url.known_port {
        law_decimals_spell_their_number(port as nat);
        assert(spells(decimal_of(port as nat), port as nat));
    }
}

/// A request goes to a URL with a host, under its path and its host header.
pub proof fn law_requests_need_a_host(
    path: String,
    url: String,
    parts: UrlParts,
    request: Option<ObjectRequest>,
)
    requires
        call_ensures(address, (path, url, &parts), request),
    ensures
        request is None <==> parts.host is None,
        request matches Some(r) ==> {
            &&& r.path@ == path@
            &&& r.url@ == url@
            &&& is_host_header(r.host@, (parts.host->0)@, parts.scheme@, parts.known_port)
        },
{
    if let Some(port) = parts.known_port {
        law_decimals_spell_their_number(port as nat);
        assert(spells(decimal_of(port as nat), port as nat));
    }
}

/// The text of an object's URL: the scheme, the host, the port if it is named,
/// and the path.
pub open spec fn is_object_url(url: Seq<char>, endpoint: UrlParts, path: Seq<char>) -> bool {
    &&& endpoint.host matches Some(host)
    &&& match endpoint.port {
        None => url == endpoint.scheme@ + "://"@ + host@ + path,
        Some(port) => exists|digits: Seq<char>| #[trigger]
            spells(digits, port as nat) && url == endpoint.scheme@ + "://"@ + host@ + ":"@ + digits
                + path,
    }
}

/// A request for an object, by way of its path: sent to the endpoint, with the
/// host header of the URL that it is sent to. It goes nowhere without a host.
pub open spec fn is_request_for(
    result: Result<Option<ObjectRequest>, StorageError>,
    endpoint: UrlParts,
    path: Seq<char>,
) -> bool {
    match endpoint.host {
        None => result matches Ok(None),
        Some(_) => exists|url: Seq<char>| #[trigger]
            is_object_url(url, endpoint, path) && match url_parse(url) {
                Err(error) => result matches Err(StorageError::InvalidUrl(e)) && e == error,
                Ok(parts) => match parts.host {
                    None => result matches Ok(None),
                    Some(host) => result matches Ok(Some(request)) && request.url@ == url
                        && request.path@ == path && is_host_header(
                        request.host@,
                        host,
                        parts.scheme,
                        parts.known_port,
                    ),
                },
            },
    }
}

proof fn lemma_object_url(endpoint: UrlParts, path: Seq<char>)
    requires
        endpoint.host is Some,
    ensures
        is_object_url(object_url(endpoint@, (endpoint.host->0)@, path), endpoint, path),
{
    let host = (endpoint.host->0)@;
    match endpoint.port {
        None => {
            assert(object_url(endpoint@, host, path) =~= endpoint.scheme@ + "://"@ + host + path);
        },
        Some(port) => {
            law_decimals_spell_their_number(port as nat);
            let digits = decimal_of(port as nat);
            assert(spells(digits, port as nat));
            assert(object_url(endpoint@, host, path) =~= endpoint.scheme@ + "://"@ + host + ":"@
                + digits + path);
        },
    }
}

proof fn lemma_host_header(host: Seq<char>, url: UrlView)
    ensures
        is_host_header(host_header_of(url, host), host, url.scheme, url.known_port),
{
    if let Some(port) = url.known_port {
        law_decimals_spell_their_number(port as nat);
        assert(spells(decimal_of(port as nat), port as nat));
    }
}

/// A request for an object goes to the object's path at the endpoint.
pub proof fn law_objects_are_requested_at_their_path(
    target: S3Target,
    key: &str,
    path: String,
    result: Result<Option<ObjectRequest>, StorageError>,
)
    requires
        call_ensures(S3Target::object_path, (&target, key), path),
        call_ensures(S3Target::object_request, (&target, key), result),
    ensures
        is_request_for(result, target.endpoint, path@),
{
    if target.endpoint.host is Some {
        lemma_object_url(target.endpoint, path@);
        let url = object_url(target.endpoint@, (target.endpoint.host->0)@, path@);
        assert(url == object_url_of(target@, key@));
        if let Ok(parts) = url_parse(url) {
            if let Some(host) = parts.host {
                lemma_host_header(host, parts);
            }
        }
        assert(is_object_url(url, target.endpoint, path@));
    }
}

/// The cache is requested at the path of its key.
pub proof fn law_cache_is_requested_at_its_path(
    target: S3Target,
    key: String,
    text: &str,
    path: String,
    result: Result<Option<ObjectRequest>, StorageError>,
)
    requires
        call_ensures(S3Target::cache_key, (&target,), key),
        text@ == key@,
        call_ensures(S3Target::object_path, (&target, text), path),
        call_ensures(S3Target::cache_request, (&target,), result),
    ensures
        is_request_for(result, target.endpoint, path@),
{
    if target.endpoint.host is Some {
        lemma_object_url(target.endpoint, path@);
        let url = object_url(target.endpoint@, (target.endpoint.host->0)@, path@);
        assert(url == object_url_of(target@, key@));
        if let Ok(parts) = url_parse(url) {
            if let Some(host) = parts.host {
                lemma_host_header(host, parts);
            }
        }
        assert(is_object_url(url, target.endpoint, path@));
    }
}

/// An upload succeeds with a status from 200 to 299, and fails with any other
/// one, which the error names with the key.
pub proof fn law_uploads_succeed_by_their_status(
    key: &str,
    status: u16,
    text: &str,
    result: Result<(), StorageError>,
)
    requires
        call_ensures(upload_outcome, (key, status, text), result),
    ensures
        result is Ok <==> 200 <= status <= 299,
        result matches Err(error) ==> (error matches StorageError::UploadFailed {
            key: k,
            status: s,
        } && k@ == key@ && s@ == text@),
{
}

/// A downloaded cache is stored with a status from 200 to 299, discarded with
/// 404, and any other status is an error, which names it with the key.
pub proof fn law_cache_downloads_go_by_their_status(
    key: &str,
    status: u16,
    text: &str,
    result: Result<CacheDownload, StorageError>,
)
    requires
        call_ensures(cache_download_outcome, (key, status, text), result),
    ensures
        result matches Ok(CacheDownload::Store) <==> 200 <= status <= 299,
        result matches Ok(CacheDownload::Discard) <==> status == 404,
        result matches Err(error) ==> (error matches StorageError::CacheDownloadFailed {
            key: k,
            status: s,
        } && k@ == key@ && s@ == text@),
{
}

/// A staging folder is named after its release and its number.
pub open spec fn is_staging_name(name: Seq<char>, safe_id: Seq<char>, suffix: u64) -> bool {
    exists|digits: Seq<char>| #[trigger]
        spells(digits, suffix as nat) && name == "bandsnatch-"@ + safe_id + "-"@ + digits
}

/// The name of a staging folder holds its release and its number.
pub proof fn law_staging_folders_are_named_after_release_and_number(
    safe_id: &str,
    suffix: u64,
    name: String,
)
    requires
        call_ensures(temp_release_dir_name, (safe_id, suffix), name),
    ensures
        is_staging_name(name@, safe_id@, suffix),
{
    law_decimals_spell_their_number(suffix as nat);
    assert(spells(decimal_of(suffix as nat), suffix as nat));
}

/// A staging folder with a random number is named after what `fs_safe` makes of
/// its release.
pub proof fn law_random_staging_folders_are_named_after_their_release<F: Fn(&str) -> String>(
    release_id: &str,
    fs_safe: F,
    name: String,
)
    requires
        call_ensures(random_temp_release_dir_name::<F>, (release_id, fs_safe), name),
    ensures
        exists|id: &str, safe_id: String, suffix: u64|
            #![trigger fs_safe.ensures((id,), safe_id), is_staging_name(name@, safe_id@, suffix)]
            fs_safe.ensures((id,), safe_id) && id@ == release_id@ && is_staging_name(
                name@,
                safe_id@,
                suffix,
            ),
{
    let (text, suffix) = choose|text: Seq<char>, suffix: u64|
        made_safe(fs_safe, release_id@, text) && name@ == #[trigger] temp_release_dir_of(
            text,
            suffix,
        );
    let (id, safe_id) = choose|id: &str, safe_id: String| #[trigger]
        fs_safe.ensures((id,), safe_id) && id@ == release_id@ && safe_id@ == text;
    law_decimals_spell_their_number(suffix as nat);
    assert(spells(decimal_of(suffix as nat), suffix as nat));
    assert(is_staging_name(name@, safe_id@, suffix));
}

} // verus!
