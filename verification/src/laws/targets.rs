//! Settings, locations, keys and signed headers of storage targets.

use crate::clock::{amz_date_of, padded, MomentView};
use crate::config::{
    access_key_of, endpoint_text_of, region_of, secret_key_of, session_token_of, S3Config, S3Env,
};
use crate::error::{ErrorView, StorageError};
use crate::home::{home_of, is_expanded, starts_at_home, starts_at_home_backslash};
use crate::requests::{
    cache_download_outcome_of, host_header_of, is_success, object_request_of, object_url_of,
    request_to_sign, CacheDownload, ObjectRequestView,
};
use crate::signing::{
    authorization_head, authorization_of, is_signature, scope_date, signature_of, signed_values,
    RequestView,
};
use crate::storage::{
    cache_file, cache_key_of, endpoint_root, is_cache_path, is_output_target, is_s3_cache_path,
    is_target_cache_path, joined_key, location_in, object_path_of, CachePath, LocationView,
    OutputTarget, TargetView,
};
use crate::text::{decimal_of, optional_text, trim_end_of, trim_of, trim_start_of};
use crate::url_parts::{default_port, url_parse, UrlView};
use vstd::prelude::*;
use vstd::utf8::*;

verus! {

/// A setting on the command line is used, whatever the environment says.
pub proof fn law_command_line_wins(config: S3Config, env: S3Env)
    ensures
        config.region matches Some(region) ==> region_of(config, env) == region@,
        config.access_key_id matches Some(key) ==> access_key_of(config, env) == Some(key@),
        config.secret_access_key matches Some(key) ==> secret_key_of(config, env) == Some(key@),
        config.session_token matches Some(token) ==> session_token_of(config, env) == Some(token@),
        config.endpoint matches Some(endpoint) ==> endpoint_text_of(
            optional_text(config.endpoint),
            env,
        ) == endpoint@,
{
}

/// Trimming leaves nothing to trim at the end.
proof fn lemma_trim_end(s: Seq<char>, c: char)
    ensures
        trim_end_of(s, c).len() > 0 ==> trim_end_of(s, c).last() != c,
        trim_end_of(s, c).is_prefix_of(s),
        trim_end_of(s, c).len() > 0 ==> trim_end_of(s, c)[0] == s[0],
    decreases s.len(),
{
    if s.len() > 0 && s.last() == c {
        lemma_trim_end(s.drop_last(), c);
        let trimmed = trim_end_of(s, c);
        assert(s.drop_last().subrange(0, trimmed.len() as int) =~= s.subrange(
            0,
            trimmed.len() as int,
        ));
    } else {
        assert(s.subrange(0, s.len() as int) =~= s);
    }
}

/// Trimming leaves nothing to trim at the start.
proof fn lemma_trim_start(s: Seq<char>, c: char)
    ensures
        trim_start_of(s, c).len() > 0 ==> trim_start_of(s, c)[0] != c,
    decreases s.len(),
{
    if s.len() > 0 && s.first() == c {
        lemma_trim_start(s.drop_first(), c);
    }
}

/// Trimmed text starts and ends with something else.
proof fn lemma_trim(s: Seq<char>, c: char)
    ensures
        trim_of(s, c).len() > 0 ==> trim_of(s, c)[0] != c && trim_of(s, c).last() != c,
{
    lemma_trim_start(s, c);
    lemma_trim_end(trim_start_of(s, c), c);
}

/// The prefix that an output folder names neither starts nor ends with a
/// slash.
pub proof fn law_prefix_has_no_outer_slash(
    output_folder: Seq<char>,
    url: UrlView,
    location: LocationView,
)
    requires
        location_in(output_folder, url) == Ok::<LocationView, ErrorView>(location),
    ensures
        location.prefix.len() > 0 ==> location.prefix[0] != '/' && location.prefix.last() != '/',
{
    lemma_trim(url.path, '/');
}

/// Trimming the start again, after more of the same was put in front.
proof fn lemma_trim_start_more(s: Seq<char>, c: char)
    ensures
        trim_start_of(seq![c] + s, c) == trim_start_of(s, c),
{
    assert((seq![c] + s).drop_first() =~= s);
}

/// Trimming the start does not see what comes behind other text.
proof fn lemma_trim_more(s: Seq<char>, c: char)
    ensures
        trim_of(s + seq![c], c) == trim_of(s, c),
    decreases s.len(),
{
    if s.len() == 0 {
        assert(s + seq![c] =~= seq![c]);
        assert(seq![c].drop_first() =~= Seq::<char>::empty());
        assert(trim_start_of(seq![c], c) == trim_start_of(seq![c].drop_first(), c));
        assert(s =~= Seq::<char>::empty());
    } else if s.first() == c {
        lemma_trim_more(s.drop_first(), c);
        assert((s + seq![c]).drop_first() =~= s.drop_first() + seq![c]);
    } else {
        assert((s + seq![c]).drop_last() =~= s);
    }
}

/// Slashes around a prefix make no difference to the keys below it.
pub proof fn law_outer_slashes_do_not_matter(prefix: Seq<char>, relative: Seq<char>)
    ensures
        joined_key(seq!['/'] + prefix, relative) == joined_key(prefix, relative),
        joined_key(prefix + seq!['/'], relative) == joined_key(prefix, relative),
{
    lemma_trim_start_more(prefix, '/');
    lemma_trim_more(prefix, '/');
}

/// The cache lies directly below the prefix: at the top of the bucket without
/// one.
pub proof fn law_cache_lies_below_the_prefix(
    output_folder: Seq<char>,
    url: UrlView,
    location: LocationView,
)
    requires
        location_in(output_folder, url) == Ok::<LocationView, ErrorView>(location),
    ensures
        location.prefix.len() == 0 ==> cache_key_of(location.prefix) == cache_file(),
        location.prefix.len() > 0 ==> cache_key_of(location.prefix) == location.prefix + "/"@
            + cache_file(),
{
    lemma_trim(url.path, '/');
    let prefix = location.prefix;
    assert(trim_start_of(prefix, '/') == prefix);
    assert(trim_end_of(prefix, '/') == prefix);
}

/// Every request path starts with a slash, and the bucket follows one.
pub proof fn law_request_paths_start_with_a_slash(target: TargetView, key: Seq<char>)
    ensures
        object_path_of(target, key).len() > 0,
        object_path_of(target, key)[0] == '/',
        endpoint_root(target.endpoint.path).last() == '/',
{
    reveal_strlit("/");
    let root = endpoint_root(target.endpoint.path);
    assert(root.len() > 0 && root[0] == '/' && root.last() == '/');
    assert(object_path_of(target, key)[0] == root[0]);
}

/// The host header of a web address is the host, followed by the port where
/// the address has one of its own.
pub proof fn law_default_port_is_left_out(url: UrlView, host: Seq<char>)
    requires
        url.scheme == "http"@ || url.scheme == "https"@,
        url.known_port == match url.port {
            Some(port) => Some(port),
            None => default_port(url.scheme),
        },
    ensures
        url.port is None || url.port == default_port(url.scheme) ==> host_header_of(url, host)
            == host,
        url.port matches Some(port) ==> (Some(port) != default_port(url.scheme) ==> host_header_of(
            url,
            host,
        ) == host + ":"@ + decimal_of(port as nat)),
{
    reveal_strlit("http");
    reveal_strlit("https");
    reveal_strlit("ws");
    reveal_strlit("wss");
    reveal_strlit("ftp");
    assert("http"@.len() == 4 && "https"@.len() == 5);
    assert("ws"@.len() == 2 && "wss"@.len() == 3 && "ftp"@.len() == 3);
}

/// A request is sent with every header that its signature covers, with the
/// values that were signed, and with its authorization. A session token is
/// sent if there is one.
pub proof fn law_signed_headers_are_sent(target: TargetView, request: RequestView)
    ensures
        signed_values(target, request)["host"@] == seq![encode_utf8(request.host)],
        signed_values(target, request)["x-amz-content-sha256"@] == seq![
            encode_utf8(request.payload_hash),
        ],
        signed_values(target, request)["x-amz-date"@] == seq![encode_utf8(request.amz_date)],
        signed_values(target, request).contains_key("x-amz-security-token"@)
            <==> target.session_token is Some,
        target.session_token matches Some(token) ==> signed_values(
            target,
            request,
        )["x-amz-security-token"@] == seq![encode_utf8(token)],
        signed_values(target, request)["authorization"@] == seq![
            encode_utf8(authorization_of(target, request)),
        ],
{
    reveal_strlit("host");
    reveal_strlit("x-amz-content-sha256");
    reveal_strlit("x-amz-date");
    reveal_strlit("x-amz-security-token");
    reveal_strlit("authorization");
    assert("x-amz-content-sha256"@[6] == 'c');
    assert("x-amz-security-token"@[6] == 's');
}

/// Requests with the same host, payload and time, signed for the same region,
/// access key and session token, differ in their signatures alone. The secret
/// key, the method and the path show nowhere else, and the bucket, the prefix,
/// the endpoint and the number of upload jobs not at all.
pub proof fn law_signatures_alone_tell_requests_apart(
    a: TargetView,
    x: RequestView,
    b: TargetView,
    y: RequestView,
)
    requires
        a.region == b.region,
        a.access_key == b.access_key,
        a.session_token == b.session_token,
        x.host == y.host,
        x.payload_hash == y.payload_hash,
        x.amz_date == y.amz_date,
    ensures
        signed_values(a, x).remove("authorization"@) == signed_values(b, y).remove(
            "authorization"@,
        ),
        authorization_of(a, x) == authorization_head(a, x.amz_date) + signature_of(a, x),
        authorization_of(b, y) == authorization_head(a, x.amz_date) + signature_of(b, y),
        is_signature(signature_of(a, x)) && is_signature(signature_of(b, y)) ==> {
            let unsigned = authorization_of(a, x).len() - 64;
            &&& authorization_of(b, y).len() == authorization_of(a, x).len()
            &&& authorization_of(b, y).take(unsigned) == authorization_of(a, x).take(unsigned)
        },
        a.secret_key == b.secret_key && x.method == y.method && x.path == y.path ==> signed_values(
            a,
            x,
        ) == signed_values(b, y),
{
    let head = authorization_head(a, x.amz_date);
    assert(authorization_head(b, y.amz_date) == head);
    if is_signature(signature_of(a, x)) && is_signature(signature_of(b, y)) {
        assert(authorization_of(a, x).take(head.len() as int) =~= head);
        assert(authorization_of(b, y).take(head.len() as int) =~= head);
    }
    assert(signed_values(a, x).remove("authorization"@) =~= signed_values(b, y).remove(
        "authorization"@,
    ));
    if a.secret_key == b.secret_key && x.method == y.method && x.path == y.path {
        assert(x == y);
        assert(signature_of(a, x) == signature_of(b, y));
    }
}

/// What is signed as the path of a request is the end of the URL that it is
/// sent to, and both are the object's.
pub proof fn law_signed_path_is_requested(
    target: TargetView,
    key: Seq<char>,
    parsed: Result<UrlView, url::ParseError>,
    request: ObjectRequestView,
    method: Seq<char>,
    payload: Seq<u8>,
    amz_date: Seq<char>,
)
    requires
        object_request_of(target, key, parsed) == Ok::<Option<ObjectRequestView>, ErrorView>(
            Some(request),
        ),
    ensures
        request_to_sign(method, request, payload, amz_date).path == object_path_of(target, key),
        request_to_sign(method, request, payload, amz_date).path.is_suffix_of(request.url),
{
    let path = object_path_of(target, key);
    let url = request.url;
    assert(url.subrange(url.len() - path.len(), url.len() as int) =~= path);
}

/// The cache is downloaded from where it was uploaded to, by any target with
/// the same endpoint, bucket and prefix. A service that gives back what was
/// last put at a URL so gives back the cache that was uploaded, and a
/// successful answer is stored.
pub proof fn law_cache_comes_back(
    writer: TargetView,
    reader: TargetView,
    upload: ObjectRequestView,
    objects: Map<Seq<char>, Seq<u8>>,
    cache: Seq<u8>,
    status: u16,
    status_text: Seq<char>,
)
    requires
        writer.endpoint == reader.endpoint,
        writer.bucket == reader.bucket,
        writer.prefix == reader.prefix,
        object_request_of(
            writer,
            cache_key_of(writer.prefix),
            url_parse(object_url_of(writer, cache_key_of(writer.prefix))),
        ) == Ok::<Option<ObjectRequestView>, ErrorView>(Some(upload)),
        is_success(status),
    ensures
        object_request_of(
            reader,
            cache_key_of(reader.prefix),
            url_parse(object_url_of(reader, cache_key_of(reader.prefix))),
        ) == Ok::<Option<ObjectRequestView>, ErrorView>(Some(upload)),
        upload.url == object_url_of(reader, cache_key_of(reader.prefix)),
        objects.insert(upload.url, cache)[object_url_of(reader, cache_key_of(reader.prefix))]
            == cache,
        cache_download_outcome_of(cache_key_of(reader.prefix), status, status_text) == Ok::<
            CacheDownload,
            ErrorView,
        >(CacheDownload::Store),
{
    let key = cache_key_of(reader.prefix);
    assert(object_path_of(writer, key) == object_path_of(reader, key));
    assert(object_url_of(writer, key) == object_url_of(reader, key));
}

/// A padded number that fits has as many digits as asked for.
proof fn lemma_padded_len(n: nat, width: nat)
    requires
        width == 2 && n < 100 || width == 4 && n < 10000,
    ensures
        padded(n, width).len() == width,
{
    reveal_with_fuel(padded, 5);
    reveal_with_fuel(decimal_of, 2);
}

/// The day that a signature is good for is that of the request, written
/// `YYYYMMDD`, up to the year 9999.
pub proof fn law_scope_is_the_day(m: MomentView)
    requires
        m.year <= 9999,
        m.month < 100,
        m.day < 100,
    ensures
        scope_date(amz_date_of(m)) == padded(m.year, 4) + padded(m.month, 2) + padded(m.day, 2),
{
    lemma_padded_len(m.year, 4);
    lemma_padded_len(m.month, 2);
    lemma_padded_len(m.day, 2);
    let day = padded(m.year, 4) + padded(m.month, 2) + padded(m.day, 2);
    assert(amz_date_of(m).take(8) =~= day);
}

/// A folder that does not start at the home directory is taken as it is.
pub proof fn law_other_folders_stay(
    folder: Seq<char>,
    home: Option<Seq<char>>,
    expanded: Seq<char>,
)
    requires
        is_expanded(folder, home, expanded),
        !starts_at_home(folder),
        !starts_at_home_backslash(folder),
    ensures
        expanded == folder,
{
}

/// The home directory that is read off the expansion of a tilde alone stands
/// for the machine's: every text expands alike with either.
pub proof fn law_home_is_read_off_a_tilde(
    machine: Option<Seq<char>>,
    tilde: Seq<char>,
    text: Seq<char>,
    expanded: Seq<char>,
)
    requires
        is_expanded("~"@, machine, tilde),
    ensures
        is_expanded(text, home_of(tilde), expanded) <==> is_expanded(text, machine, expanded),
{
    reveal_strlit("~");
    assert(starts_at_home("~"@));
    assert("~"@.skip(1) =~= Seq::<char>::empty());
    if let Some(directory) = machine {
        assert(tilde =~= directory);
        if directory == "~"@ && text.len() > 0 && text[0] == '~' {
            assert(directory + text.skip(1) =~= text);
        }
    }
}

/// The cache file goes with the target, whatever the folder: it lies in the
/// root of a local target, and is named after the bucket and the prefix of a
/// remote one. It is the one that the output folder names.
pub proof fn law_cache_path_goes_with_the_target<F: Fn(&str) -> String>(
    output_folder: Seq<char>,
    config: S3Config,
    env: S3Env,
    home: Option<Seq<char>>,
    fs_safe: F,
    target: OutputTarget,
    path: CachePath,
)
    requires
        is_output_target(Ok(target), output_folder, config, env, home),
        is_target_cache_path(path, target, fs_safe),
    ensures
        is_cache_path(Ok(path), output_folder, home, fs_safe),
        target matches OutputTarget::Local { root } ==> optional_text(path.directory) == Some(root@)
            && path.file@ == cache_file(),
        target is S3 ==> is_s3_cache_path(Ok(path), output_folder, fs_safe),
{
}

/// Whatever cache file the output folder of a target names is that of the
/// target. Folders that start with a tilde and a backslash are left out: these
/// are expanded as the system has it.
pub proof fn law_folder_names_the_cache_of_its_target<F: Fn(&str) -> String>(
    output_folder: Seq<char>,
    config: S3Config,
    env: S3Env,
    home: Option<Seq<char>>,
    fs_safe: F,
    target: OutputTarget,
    result: Result<CachePath, StorageError>,
)
    requires
        is_output_target(Ok(target), output_folder, config, env, home),
        is_cache_path(result, output_folder, home, fs_safe),
        !starts_at_home_backslash(output_folder),
    ensures
        result matches Ok(path) && is_target_cache_path(path, target, fs_safe),
{
}

} // verus!
