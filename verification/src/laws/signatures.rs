//! What a signature covers, and where it shows.

use crate::clock::{amz_date_now, amz_date_of, is_amz_date, is_moment, padded, MomentView};
use crate::digest::{hex_of, hmac_sha256_of, sha256_hex, sha256_of};
use crate::headers::{
    header_values, is_value_char, is_value_text, is_visible_char, is_visible_text, trim_blanks_of,
};
use crate::laws::encoding::split_of;
use crate::laws::targets::law_signed_headers_are_sent;
use crate::laws::texts::{
    as_text, is_blank, law_trimming_takes_outer_blanks, lemma_split_line, lemma_split_one,
    number_of,
};
use crate::requests::{fits_headers, request_to_sign, ObjectRequest};
use crate::signing::{
    authorization_of, canonical_request, credential_scope, signature_of, signed_values,
    signing_key_of, string_to_sign, RequestView,
};
use crate::storage::{S3Target, TargetView};
use crate::text::decimal_of;
use reqwest::header::{HeaderMap, HeaderValue};
use vstd::prelude::*;
use vstd::utf8::*;

verus! {

/// The text that is hashed for a signature starts with the method and the path
/// of the request, a line each, and ends with the hash of its payload.
pub proof fn law_signed_text_names_method_path_and_payload(
    request: RequestView,
    token: Option<Seq<char>>,
)
    ensures
        (request.method + "\n"@ + request.path + "\n"@).is_prefix_of(
            canonical_request(request, token),
        ),
        ("\n"@ + request.payload_hash).is_suffix_of(canonical_request(request, token)),
{
    reveal_strlit("\n");
    reveal_strlit("\n\n");
    let text = canonical_request(request, token);
    let head = request.method + "\n"@ + request.path + "\n"@;
    let longer = request.method + "\n"@ + request.path + "\n\n"@;
    assert(text.subrange(0, longer.len() as int) =~= longer);
    assert(longer.subrange(0, head.len() as int) =~= head);
    assert(text.subrange(0, head.len() as int) =~= head);
    let tail = "\n"@ + request.payload_hash;
    assert(text.subrange(text.len() - tail.len(), text.len() as int) =~= tail);
}

/// The lines of the text that is hashed for a signature.
pub open spec fn signed_lines(
    method: Seq<char>,
    path: Seq<char>,
    host: Seq<char>,
    hash_header: Seq<char>,
    amz_date: Seq<char>,
    token: Option<Seq<char>>,
    payload_hash: Seq<char>,
) -> Seq<Seq<char>> {
    match token {
        None => seq![
            method,
            path,
            ""@,
            "host:"@ + host,
            "x-amz-content-sha256:"@ + hash_header,
            "x-amz-date:"@ + amz_date,
            ""@,
            "host;x-amz-content-sha256;x-amz-date"@,
            payload_hash,
        ],
        Some(token) => seq![
            method,
            path,
            ""@,
            "host:"@ + host,
            "x-amz-content-sha256:"@ + hash_header,
            "x-amz-date:"@ + amz_date,
            "x-amz-security-token:"@ + token,
            ""@,
            "host;x-amz-content-sha256;x-amz-date;x-amz-security-token"@,
            payload_hash,
        ],
    }
}

/// Text in one line.
pub open spec fn is_one_line(s: Seq<char>) -> bool {
    !s.contains('\n')
}

/// What is trimmed off a line leaves a line.
proof fn lemma_trimmed_line(s: Seq<char>)
    requires
        is_one_line(s),
    ensures
        is_one_line(trim_blanks_of(s)),
{
    law_trimming_takes_outer_blanks(s);
    let inner = trim_blanks_of(s);
    let (before, after) = choose|before: Seq<char>, after: Seq<char>|
        is_blank(before) && is_blank(after) && s
            == #[trigger] (before + inner + after);
    if inner.contains('\n') {
        let i = choose|i: int| 0 <= i < inner.len() && inner[i] == '\n';
        assert((before + inner + after)[before.len() + i] == '\n');
        assert(s.contains('\n'));
    }
}

/// A line in front of another is a line.
proof fn lemma_line_concat(a: Seq<char>, b: Seq<char>)
    requires
        is_one_line(a),
        is_one_line(b),
    ensures
        is_one_line(a + b),
{
    if (a + b).contains('\n') {
        let i = choose|i: int| 0 <= i < (a + b).len() && (a + b)[i] == '\n';
        if i < a.len() {
            assert(a[i] == '\n');
        } else {
            assert(b[i - a.len()] == '\n');
        }
    }
}

/// The fixed pieces of the signed text are lines.
proof fn lemma_fixed_lines()
    ensures
        is_one_line(""@),
        is_one_line("host:"@),
        is_one_line("x-amz-content-sha256:"@),
        is_one_line("x-amz-date:"@),
        is_one_line("x-amz-security-token:"@),
        is_one_line("host;x-amz-content-sha256;x-amz-date"@),
        is_one_line("host;x-amz-content-sha256;x-amz-date;x-amz-security-token"@),
{
    reveal_strlit("");
    reveal_strlit("host:");
    reveal_strlit("x-amz-content-sha256:");
    reveal_strlit("x-amz-date:");
    reveal_strlit("x-amz-security-token:");
    reveal_strlit("host;x-amz-content-sha256;x-amz-date");
    reveal_strlit("host;x-amz-content-sha256;x-amz-date;x-amz-security-token");
}

proof fn lemma_lines_come_apart(lines: Seq<Seq<char>>)
    requires
        lines.len() > 0,
        forall|i: int| 0 <= i < lines.len() ==> is_one_line(#[trigger] lines[i]),
    ensures
        split_of(as_text(lines), '\n') == lines,
    decreases lines.len(),
{
    if lines.len() == 1 {
        assert(is_one_line(lines[0]));
        lemma_split_one(lines[0], '\n');
        assert(lines =~= seq![lines[0]]);
    } else {
        let front = lines.drop_last();
        assert forall|i: int| 0 <= i < front.len() implies is_one_line(#[trigger] front[i]) by {
            assert(front[i] == lines[i]);
        }
        lemma_lines_come_apart(front);
        assert(is_one_line(lines[lines.len() - 1]));
        lemma_split_line(as_text(front), lines.last(), '\n');
        assert(front.push(lines.last()) =~= lines);
    }
}

/// The lines of the text that is hashed for a signature, for a request.
pub open spec fn lines_of(request: RequestView, token: Option<Seq<char>>) -> Seq<Seq<char>> {
    signed_lines(
        request.method,
        request.path,
        trim_blanks_of(request.host),
        trim_blanks_of(request.payload_hash),
        trim_blanks_of(request.amz_date),
        match token {
            Some(token) => Some(trim_blanks_of(token)),
            None => None,
        },
        request.payload_hash,
    )
}

/// The text that is hashed for a signature holds, a line each, the method, the
/// path, an empty query, each signed header with its value, an empty line, the
/// names of these headers, and the hash of the payload.
pub proof fn law_signed_text_is_these_lines(request: RequestView, token: Option<Seq<char>>)
    ensures
        canonical_request(request, token) == as_text(lines_of(request, token)),
{
    reveal_strlit("\n");
    reveal_strlit("\n\n");
    reveal_strlit("");
    reveal_strlit(":");
    reveal_strlit("host");
    reveal_strlit("host:");
    reveal_strlit("x-amz-content-sha256");
    reveal_strlit("x-amz-content-sha256:");
    reveal_strlit("x-amz-date");
    reveal_strlit("x-amz-date:");
    reveal_strlit("x-amz-security-token");
    reveal_strlit("x-amz-security-token:");
    reveal_strlit("host;x-amz-content-sha256;x-amz-date");
    reveal_strlit(";x-amz-security-token");
    reveal_strlit("host;x-amz-content-sha256;x-amz-date;x-amz-security-token");
    assert("host"@ + ":"@ =~= "host:"@);
    assert("x-amz-content-sha256"@ + ":"@ =~= "x-amz-content-sha256:"@);
    assert("x-amz-date"@ + ":"@ =~= "x-amz-date:"@);
    assert("x-amz-security-token"@ + ":"@ =~= "x-amz-security-token:"@);
    assert("host;x-amz-content-sha256;x-amz-date"@ + ";x-amz-security-token"@
        =~= "host;x-amz-content-sha256;x-amz-date;x-amz-security-token"@);
    let m = request.method;
    let p = request.path;
    let h = trim_blanks_of(request.host);
    let c = trim_blanks_of(request.payload_hash);
    let d = trim_blanks_of(request.amz_date);
    let n = seq!['\n'];
    let front = m + n + p + n + ""@ + n + ("host:"@ + h) + n + ("x-amz-content-sha256:"@ + c) + n
        + ("x-amz-date:"@ + d);
    match token {
        None => {
            let lines = lines_of(request, token);
            let l7 = lines.drop_last();
            let l6 = l7.drop_last();
            lemma_front_text(l6.drop_last(), m, p, h, c, d);
            assert(as_text(lines) == as_text(l7) + n + request.payload_hash);
            assert(as_text(l7) == as_text(l6) + n + "host;x-amz-content-sha256;x-amz-date"@);
            assert(as_text(l6) == as_text(l6.drop_last()) + n + ""@);
            assert(canonical_request(request, token) =~= front + n + ""@ + n
                + "host;x-amz-content-sha256;x-amz-date"@ + n + request.payload_hash);
        },
        Some(token_text) => {
            let t = trim_blanks_of(token_text);
            let lines = lines_of(request, token);
            let l8 = lines.drop_last();
            let l7 = l8.drop_last();
            let l6 = l7.drop_last();
            lemma_front_text(l6.drop_last(), m, p, h, c, d);
            assert(as_text(lines) == as_text(l8) + n + request.payload_hash);
            assert(as_text(l8) == as_text(l7) + n
                + "host;x-amz-content-sha256;x-amz-date;x-amz-security-token"@);
            assert(as_text(l7) == as_text(l6) + n + ""@);
            assert(as_text(l6) == as_text(l6.drop_last()) + n + ("x-amz-security-token:"@ + t));
            assert(canonical_request(request, token) =~= front + n + ("x-amz-security-token:"@ + t)
                + n + ""@ + n + "host;x-amz-content-sha256;x-amz-date;x-amz-security-token"@ + n
                + request.payload_hash);
        },
    }
}

proof fn lemma_front_text(
    lines: Seq<Seq<char>>,
    m: Seq<char>,
    p: Seq<char>,
    h: Seq<char>,
    c: Seq<char>,
    d: Seq<char>,
)
    requires
        lines.len() == 6,
        lines[0] == m,
        lines[1] == p,
        lines[2] == ""@,
        lines[3] == "host:"@ + h,
        lines[4] == "x-amz-content-sha256:"@ + c,
        lines[5] == "x-amz-date:"@ + d,
    ensures
        as_text(lines) == m + seq!['\n'] + p + seq!['\n'] + ""@ + seq!['\n'] + ("host:"@ + h)
            + seq!['\n'] + ("x-amz-content-sha256:"@ + c) + seq!['\n'] + ("x-amz-date:"@ + d),
{
    let l5 = lines.drop_last();
    let l4 = l5.drop_last();
    let l3 = l4.drop_last();
    let l2 = l3.drop_last();
    let l1 = l2.drop_last();
    assert(as_text(l1) == m);
    assert(as_text(l2) == m + seq!['\n'] + p);
    assert(as_text(l3) == as_text(l2) + seq!['\n'] + ""@);
    assert(as_text(l4) == as_text(l3) + seq!['\n'] + ("host:"@ + h));
    assert(as_text(l5) == as_text(l4) + seq!['\n'] + ("x-amz-content-sha256:"@ + c));
}

/// The text that is hashed for a signature comes apart into its lines, where no
/// part of the request goes over more than one.
pub proof fn law_signed_text_line_by_line(request: RequestView, token: Option<Seq<char>>)
    requires
        is_one_line(request.method),
        is_one_line(request.path),
        is_one_line(request.host),
        is_one_line(request.payload_hash),
        is_one_line(request.amz_date),
        token matches Some(text) ==> is_one_line(text),
    ensures
        split_of(canonical_request(request, token), '\n') == lines_of(request, token),
{
    law_signed_text_is_these_lines(request, token);
    lemma_fixed_lines();
    lemma_trimmed_line(request.host);
    lemma_trimmed_line(request.payload_hash);
    lemma_trimmed_line(request.amz_date);
    lemma_line_concat("host:"@, trim_blanks_of(request.host));
    lemma_line_concat("x-amz-content-sha256:"@, trim_blanks_of(request.payload_hash));
    lemma_line_concat("x-amz-date:"@, trim_blanks_of(request.amz_date));
    if let Some(text) = token {
        lemma_trimmed_line(text);
        lemma_line_concat("x-amz-security-token:"@, trim_blanks_of(text));
    }
    lemma_lines_come_apart(lines_of(request, token));
}

/// Requests that differ in their method, their path or the hash of their
/// payload are signed as different texts: no signature of a download is one of
/// an upload.
pub proof fn law_different_requests_are_signed_as_different_texts(
    a: RequestView,
    b: RequestView,
    token: Option<Seq<char>>,
)
    requires
        is_one_line(a.method),
        is_one_line(a.path),
        is_one_line(a.payload_hash),
        is_one_line(b.method),
        is_one_line(b.path),
        is_one_line(b.payload_hash),
        a.host == b.host,
        a.amz_date == b.amz_date,
        is_one_line(a.host),
        is_one_line(a.amz_date),
        token matches Some(text) ==> is_one_line(text),
        canonical_request(a, token) == canonical_request(b, token),
    ensures
        a.method == b.method,
        a.path == b.path,
        a.payload_hash == b.payload_hash,
{
    law_signed_text_line_by_line(a, token);
    law_signed_text_line_by_line(b, token);
    let lines = split_of(canonical_request(a, token), '\n');
    assert(lines[0] == a.method && lines[0] == b.method);
    assert(lines[1] == a.path && lines[1] == b.path);
    assert(lines.last() == a.payload_hash && lines.last() == b.payload_hash);
}

/// A signing key is made of the secret key, the day and the region, in four
/// steps, each with the key of the one before.
pub proof fn law_signing_keys_are_made_in_four_steps(
    target: S3Target,
    date: &str,
    key: Vec<u8>,
    secret_key: Seq<u8>,
    day_key: Seq<u8>,
    region_key: Seq<u8>,
    service_key: Seq<u8>,
)
    requires
        call_ensures(S3Target::signing_key, (&target, date), key),
        secret_key == encode_utf8("AWS4"@ + target.secret_key@),
        day_key == hmac_sha256_of(secret_key, encode_utf8(date@)),
        region_key == hmac_sha256_of(day_key, encode_utf8(target.region@)),
        service_key == hmac_sha256_of(region_key, encode_utf8("s3"@)),
    ensures
        key@ == hmac_sha256_of(service_key, encode_utf8("aws4_request"@)),
        key@.len() == 32,
{
}

/// What is signed is the algorithm, the time, the scope and the hash of the
/// request, a line each; the scope is the day, the region and the service.
pub proof fn law_what_is_signed(target: TargetView, request: RequestView, scope: Seq<char>)
    requires
        scope == request.amz_date.take(8) + "/"@ + target.region + "/s3/aws4_request"@,
    ensures
        credential_scope(target, request.amz_date) == scope,
        string_to_sign(target, request) == "AWS4-HMAC-SHA256"@ + "\n"@ + request.amz_date + "\n"@
            + scope + "\n"@ + hex_of(
            sha256_of(encode_utf8(canonical_request(request, target.session_token))),
        ),
        signature_of(target, request) == hex_of(
            hmac_sha256_of(
                signing_key_of(target, request.amz_date.take(8)),
                encode_utf8(string_to_sign(target, request)),
            ),
        ),
{
    reveal_strlit("AWS4-HMAC-SHA256\n");
    reveal_strlit("AWS4-HMAC-SHA256");
    reveal_strlit("\n");
    assert("AWS4-HMAC-SHA256\n"@ =~= "AWS4-HMAC-SHA256"@ + "\n"@);
}

/// The signing key of a day, as a signature uses it, is the one that
/// [`S3Target::signing_key`] gives.
pub proof fn law_signatures_use_the_key_of_their_day(
    target: S3Target,
    request: RequestView,
    day: &str,
    key: Vec<u8>,
)
    requires
        day@ == request.amz_date.take(8),
        call_ensures(S3Target::signing_key, (&target, day), key),
    ensures
        signature_of(target@, request) == hex_of(
            hmac_sha256_of(key@, encode_utf8(string_to_sign(target@, request))),
        ),
{
}

/// The request that the arguments of a signature describe.
pub open spec fn request_of(
    method: Seq<char>,
    path: Seq<char>,
    host: Seq<char>,
    payload_hash: Seq<char>,
    amz_date: Seq<char>,
) -> RequestView {
    RequestView { method, path, host, payload_hash, amz_date }
}

/// The headers of a signed request are the host, the hash of the payload, the
/// time, the session token if there is one, and the authorization, each once
/// and no other. The authorization names the access key, the scope and the
/// signed headers, and ends with the signature.
pub proof fn law_signed_requests_carry_these_headers(
    target: S3Target,
    method: &str,
    path: &str,
    host: &str,
    payload_hash: &str,
    amz_date: &str,
    headers: HeaderMap<HeaderValue>,
    name: Seq<char>,
)
    requires
        call_ensures(
            S3Target::auth_headers,
            (&target, method, path, host, payload_hash, amz_date),
            headers,
        ),
    ensures
        header_values(headers).contains_key(name) <==> {
            ||| name == "host"@
            ||| name == "x-amz-content-sha256"@
            ||| name == "x-amz-date"@
            ||| name == "x-amz-security-token"@ && target.session_token is Some
            ||| name == "authorization"@
        },
        header_values(headers)["host"@] == seq![encode_utf8(host@)],
        header_values(headers)["x-amz-content-sha256"@] == seq![encode_utf8(payload_hash@)],
        header_values(headers)["x-amz-date"@] == seq![encode_utf8(amz_date@)],
        target.session_token matches Some(token) ==> header_values(
            headers,
        )["x-amz-security-token"@] == seq![encode_utf8(token@)],
        header_values(headers)["authorization"@] == seq![
            encode_utf8(
                "AWS4-HMAC-SHA256 Credential="@ + target.access_key@ + "/"@ + amz_date@.take(8)
                    + "/"@ + target.region@ + "/s3/aws4_request, SignedHeaders="@ + (
                if target.session_token is Some {
                    "host;x-amz-content-sha256;x-amz-date;x-amz-security-token"@
                } else {
                    "host;x-amz-content-sha256;x-amz-date"@
                }) + ", Signature="@ + signature_of(
                    target@,
                    request_of(method@, path@, host@, payload_hash@, amz_date@),
                ),
            ),
        ],
{
    let request = request_of(method@, path@, host@, payload_hash@, amz_date@);
    law_signed_headers_are_sent(target@, request);
    reveal_strlit("host;x-amz-content-sha256;x-amz-date");
    reveal_strlit(";x-amz-security-token");
    reveal_strlit("host;x-amz-content-sha256;x-amz-date;x-amz-security-token");
    reveal_strlit("/s3/aws4_request");
    reveal_strlit(", SignedHeaders=");
    reveal_strlit("/s3/aws4_request, SignedHeaders=");
    assert("host;x-amz-content-sha256;x-amz-date"@ + ";x-amz-security-token"@
        =~= "host;x-amz-content-sha256;x-amz-date;x-amz-security-token"@);
    assert("/s3/aws4_request"@ + ", SignedHeaders="@ =~= "/s3/aws4_request, SignedHeaders="@);
    assert("host;x-amz-content-sha256;x-amz-date"@ + Seq::<char>::empty()
        =~= "host;x-amz-content-sha256;x-amz-date"@);
    assert(authorization_of(target@, request) =~= "AWS4-HMAC-SHA256 Credential="@
        + target.access_key@ + "/"@ + amz_date@.take(8) + "/"@ + target.region@
        + "/s3/aws4_request, SignedHeaders="@ + (if target.session_token is Some {
        "host;x-amz-content-sha256;x-amz-date;x-amz-security-token"@
    } else {
        "host;x-amz-content-sha256;x-amz-date"@
    }) + ", Signature="@ + signature_of(target@, request));
}

/// Signing a request at a time gives the headers for its method, path and host,
/// the hash of its payload and that time.
pub proof fn law_requests_are_signed_as_they_are(
    target: S3Target,
    method: &str,
    request: ObjectRequest,
    payload: &[u8],
    amz_date: &str,
    signed: HeaderMap<HeaderValue>,
    path: &str,
    host: &str,
    payload_hash: String,
    hash: &str,
    headers: HeaderMap<HeaderValue>,
)
    requires
        call_ensures(
            S3Target::sign_at,
            (&target, method, &request, payload, amz_date),
            Some(signed),
        ),
        path@ == request.path@,
        host@ == request.host@,
        call_ensures(sha256_hex, (payload,), payload_hash),
        hash@ == payload_hash@,
        call_ensures(
            S3Target::auth_headers,
            (&target, method, path, host, hash, amz_date),
            headers,
        ),
    ensures
        header_values(signed) == header_values(headers),
{
}

/// Text that a header gives back: tabs, spaces and printable ASCII.
pub open spec fn is_readable(s: Seq<char>) -> bool {
    forall|i: int| 0 <= i < s.len() ==> #[trigger] s[i] as int == 9 || 32 <= s[i] as int <= 126
}

/// Text that a header may hold: no control character but the tab.
pub open spec fn is_header_text(s: Seq<char>) -> bool {
    forall|i: int|
        0 <= i < s.len() ==> #[trigger] s[i] as int == 9 || s[i] as int >= 32 && s[i] as int != 127
}

/// The host, the token, the region and the access key can stand in headers.
pub open spec fn can_be_sent(target: S3Target, host: Seq<char>) -> bool {
    &&& is_readable(host)
    &&& target.session_token matches Some(token) ==> is_readable(token@)
    &&& is_header_text(target.region@)
    &&& is_header_text(target.access_key@)
}

pub(crate) proof fn lemma_readable(s: Seq<char>)
    ensures
        is_visible_text(s) == is_readable(s),
        is_value_text(s) == is_header_text(s),
{
    if is_visible_text(s) {
        assert forall|i: int| 0 <= i < s.len() implies #[trigger] s[i] as int == 9 || 32 <= s[i] as int
            <= 126 by {
            assert(is_visible_char(s[i]));
        }
    }
    if is_readable(s) {
        assert forall|i: int| 0 <= i < s.len() implies is_visible_char(#[trigger] s[i]) by {
            assert(s[i] as int == 9 || 32 <= s[i] as int <= 126);
        }
    }
    if is_value_text(s) {
        assert forall|i: int| 0 <= i < s.len() implies #[trigger] s[i] as int == 9 || s[i] as int >= 32
            && s[i] as int != 127 by {
            assert(is_value_char(s[i]));
        }
    }
    if is_header_text(s) {
        assert forall|i: int| 0 <= i < s.len() implies is_value_char(#[trigger] s[i]) by {
            assert(s[i] as int == 9 || s[i] as int >= 32 && s[i] as int != 127);
        }
    }
}

pub(crate) proof fn lemma_can_be_sent(target: S3Target, host: Seq<char>)
    ensures
        fits_headers(target@, host) == can_be_sent(target, host),
{
    lemma_readable(host);
    lemma_readable(target.region@);
    lemma_readable(target.access_key@);
    if let Some(token) = target.session_token {
        lemma_readable(token@);
    }
}

/// A request is signed exactly where all that becomes a header can stand in
/// one, and the time is readable and holds a day.
pub proof fn law_what_fits_into_headers_is_signed(
    target: S3Target,
    method: &str,
    request: ObjectRequest,
    payload: &[u8],
    amz_date: &str,
    signed: Option<HeaderMap<HeaderValue>>,
)
    requires
        call_ensures(S3Target::sign_at, (&target, method, &request, payload, amz_date), signed),
    ensures
        signed is Some <==> can_be_sent(target, request.host@) && is_readable(amz_date@)
            && amz_date@.len() >= 8,
{
    lemma_can_be_sent(target, request.host@);
    lemma_readable(amz_date@);
    let hash = hex_of(sha256_of(payload@));
    assert forall|i: int| 0 <= i < hash.len() implies is_visible_char(#[trigger] hash[i]) by {}
}

/// An upload is signed as a `PUT` of its payload, at some moment, and exactly
/// where it fits into headers.
pub proof fn law_uploads_are_signed_as_puts(
    target: S3Target,
    request: ObjectRequest,
    payload: &[u8],
    signed: Option<HeaderMap<HeaderValue>>,
)
    requires
        call_ensures(S3Target::sign_upload, (&target, &request, payload), signed),
    ensures
        signed is Some <==> can_be_sent(target, request.host@),
        signed matches Some(headers) ==> exists|amz_date: Seq<char>|
            is_amz_date(amz_date) && header_values(headers) == #[trigger] signed_values(
                target@,
                request_of(
                    "PUT"@,
                    request.path@,
                    request.host@,
                    hex_of(sha256_of(payload@)),
                    amz_date,
                ),
            ),
{
    lemma_can_be_sent(target, request.host@);
    if let Some(headers) = signed {
        let amz_date = choose|amz_date: Seq<char>|
            is_amz_date(amz_date) && header_values(headers) == #[trigger] signed_values(
                target@,
                request_to_sign("PUT"@, request@, payload@, amz_date),
            );
        assert(request_to_sign("PUT"@, request@, payload@, amz_date) == request_of(
            "PUT"@,
            request.path@,
            request.host@,
            hex_of(sha256_of(payload@)),
            amz_date,
        ));
    }
}

/// A download is signed as a `GET` of nothing, at some moment, and exactly
/// where it fits into headers.
pub proof fn law_downloads_are_signed_as_gets(
    target: S3Target,
    request: ObjectRequest,
    signed: Option<HeaderMap<HeaderValue>>,
)
    requires
        call_ensures(S3Target::sign_download, (&target, &request), signed),
    ensures
        signed is Some <==> can_be_sent(target, request.host@),
        signed matches Some(headers) ==> exists|amz_date: Seq<char>|
            is_amz_date(amz_date) && header_values(headers) == #[trigger] signed_values(
                target@,
                request_of(
                    "GET"@,
                    request.path@,
                    request.host@,
                    hex_of(sha256_of(Seq::<u8>::empty())),
                    amz_date,
                ),
            ),
{
    lemma_can_be_sent(target, request.host@);
    if let Some(headers) = signed {
        let amz_date = choose|amz_date: Seq<char>|
            is_amz_date(amz_date) && header_values(headers) == #[trigger] signed_values(
                target@,
                request_to_sign("GET"@, request@, Seq::<u8>::empty(), amz_date),
            );
        assert(request_to_sign("GET"@, request@, Seq::<u8>::empty(), amz_date) == request_of(
            "GET"@,
            request.path@,
            request.host@,
            hex_of(sha256_of(Seq::<u8>::empty())),
            amz_date,
        ));
    }
}

proof fn lemma_padded_number(n: nat, width: nat)
    requires
        width == 2 && n < 100 || width == 4 && n < 10000,
    ensures
        padded(n, width).len() == width,
        number_of(padded(n, width)) == n,
        forall|i: int| 0 <= i < width ==> '0' <= #[trigger] padded(n, width)[i] <= '9',
{
    reveal_with_fuel(padded, 5);
    reveal_with_fuel(decimal_of, 2);
    reveal_with_fuel(number_of, 5);
    let text = padded(n, width);
    if width == 4 {
        assert(text.drop_last() =~= padded(n / 10, 3));
        assert(padded(n / 10, 3).drop_last() =~= padded(n / 100, 2));
        assert(padded(n / 100, 2).drop_last() =~= padded(n / 1000, 1));
        assert(padded(n / 1000, 1).drop_last() =~= Seq::<char>::empty());
    } else {
        assert(text.drop_last() =~= padded(n / 10, 1));
        assert(padded(n / 10, 1).drop_last() =~= Seq::<char>::empty());
    }
}

/// A time, up to the year 9999, is written in sixteen characters: the year, the
/// month and the day in eight digits, a `T`, the hour, the minute and the
/// second in six, and a `Z`.
pub proof fn law_times_are_written_digit_by_digit(m: MomentView)
    requires
        is_moment(m),
        m.year <= 9999,
    ensures
        amz_date_of(m).len() == 16,
        forall|i: int|
            0 <= i < 16 && i != 8 && i != 15 ==> '0' <= #[trigger] amz_date_of(m)[i] <= '9',
        amz_date_of(m)[8] == 'T',
        amz_date_of(m)[15] == 'Z',
        number_of(amz_date_of(m).subrange(0, 4)) == m.year,
        number_of(amz_date_of(m).subrange(4, 6)) == m.month,
        number_of(amz_date_of(m).subrange(6, 8)) == m.day,
        number_of(amz_date_of(m).subrange(9, 11)) == m.hour,
        number_of(amz_date_of(m).subrange(11, 13)) == m.minute,
        number_of(amz_date_of(m).subrange(13, 15)) == m.second,
{
    lemma_padded_number(m.year, 4);
    lemma_padded_number(m.month, 2);
    lemma_padded_number(m.day, 2);
    lemma_padded_number(m.hour, 2);
    lemma_padded_number(m.minute, 2);
    lemma_padded_number(m.second, 2);
    let text = amz_date_of(m);
    assert(text.subrange(0, 4) =~= padded(m.year, 4));
    assert(text.subrange(4, 6) =~= padded(m.month, 2));
    assert(text.subrange(6, 8) =~= padded(m.day, 2));
    assert(text.subrange(9, 11) =~= padded(m.hour, 2));
    assert(text.subrange(11, 13) =~= padded(m.minute, 2));
    assert(text.subrange(13, 15) =~= padded(m.second, 2));
}

/// The time of a request is that of a moment since 1970 on a day of the
/// calendar.
pub proof fn law_requests_are_dated(text: String)
    requires
        call_ensures(amz_date_now, (), text),
    ensures
        exists|m: MomentView|
            {
                &&& text@ == #[trigger] amz_date_of(m)
                &&& 1970 <= m.year && 1 <= m.month <= 12 && 1 <= m.day <= 31
                &&& m.month == 2 ==> m.day <= 29
                &&& m.hour < 24 && m.minute < 60 && m.second < 60
            },
{
    let m = choose|m: MomentView| is_moment(m) && text@ == #[trigger] amz_date_of(m);
    assert(text@ == amz_date_of(m));
}

} // verus!
