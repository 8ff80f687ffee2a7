//! AWS Signature Version 4 for S3 requests.

use crate::digest::{
    hex, hex_of, hmac_sha256, hmac_sha256_of, is_lower_hex_text, sha256_hex, sha256_of,
};
use crate::headers::{
    header_text, header_values, insert_header, is_header_name, is_value_char, is_value_text,
    is_visible_text, lemma_value_text_bytes, lemma_visible_text_bytes, no_headers, trim_blanks,
    trim_blanks_of,
};
use crate::storage::{S3Target, TargetView};
use reqwest::header::{HeaderMap, HeaderValue};
use vstd::prelude::*;
use vstd::string::*;
use vstd::utf8::*;

verus! {

/// The key that a day's requests to a region are signed with.
pub open spec fn signing_key_of(target: TargetView, date: Seq<char>) -> Seq<u8> {
    let date_key = hmac_sha256_of(encode_utf8("AWS4"@ + target.secret_key), encode_utf8(date));
    let region_key = hmac_sha256_of(date_key, encode_utf8(target.region));
    let service_key = hmac_sha256_of(region_key, encode_utf8("s3"@));
    hmac_sha256_of(service_key, encode_utf8("aws4_request"@))
}

/// One line of the canonical headers.
pub open spec fn header_line(name: Seq<char>, value: Seq<char>) -> Seq<char> {
    name + ":"@ + trim_blanks_of(value) + "\n"@
}

/// What of a request is signed besides the target's own settings.
pub struct RequestView {
    pub method: Seq<char>,
    pub path: Seq<char>,
    pub host: Seq<char>,
    pub payload_hash: Seq<char>,
    pub amz_date: Seq<char>,
}

/// The headers that are signed, one line each.
pub open spec fn canonical_headers(
    request: RequestView,
    session_token: Option<Seq<char>>,
) -> Seq<char> {
    header_line("host"@, request.host) + header_line(
        "x-amz-content-sha256"@,
        request.payload_hash,
    ) + header_line("x-amz-date"@, request.amz_date) + match session_token {
        Some(token) => header_line("x-amz-security-token"@, token),
        None => seq![],
    }
}

/// The names of the headers that are signed.
pub open spec fn signed_headers(session_token: Option<Seq<char>>) -> Seq<char> {
    "host;x-amz-content-sha256;x-amz-date"@ + match session_token {
        Some(_) => ";x-amz-security-token"@,
        None => seq![],
    }
}

/// The request in canonical form, with an empty query.
pub open spec fn canonical_request(
    request: RequestView,
    session_token: Option<Seq<char>>,
) -> Seq<char> {
    request.method + "\n"@ + request.path + "\n\n"@ + canonical_headers(request, session_token)
        + "\n"@ + signed_headers(session_token) + "\n"@ + request.payload_hash
}

/// The day of a request: the first eight characters of its time.
pub open spec fn scope_date(amz_date: Seq<char>) -> Seq<char> {
    amz_date.take(8)
}

/// The day, region and service that a signature is good for.
pub open spec fn credential_scope(target: TargetView, amz_date: Seq<char>) -> Seq<char> {
    scope_date(amz_date) + "/"@ + target.region + "/s3/aws4_request"@
}

/// The text whose tag is the signature.
pub open spec fn string_to_sign(target: TargetView, request: RequestView) -> Seq<char> {
    "AWS4-HMAC-SHA256\n"@ + request.amz_date + "\n"@ + credential_scope(target, request.amz_date)
        + "\n"@ + hex_of(
        sha256_of(encode_utf8(canonical_request(request, target.session_token))),
    )
}

/// The signature of a request.
pub open spec fn signature_of(target: TargetView, request: RequestView) -> Seq<char> {
    hex_of(
        hmac_sha256_of(
            signing_key_of(target, scope_date(request.amz_date)),
            encode_utf8(string_to_sign(target, request)),
        ),
    )
}

/// A signature as it is sent: 64 lower-case hexadecimal digits.
pub open spec fn is_signature(s: Seq<char>) -> bool {
    s.len() == 64 && is_lower_hex_text(s)
}

/// The value of the authorization header, up to the signature.
pub open spec fn authorization_head(target: TargetView, amz_date: Seq<char>) -> Seq<char> {
    "AWS4-HMAC-SHA256 Credential="@ + target.access_key + "/"@ + credential_scope(target, amz_date)
        + ", SignedHeaders="@ + signed_headers(target.session_token) + ", Signature="@
}

/// The value of the authorization header.
pub open spec fn authorization_of(target: TargetView, request: RequestView) -> Seq<char> {
    authorization_head(target, request.amz_date) + signature_of(target, request)
}

/// The headers of a signed request.
pub open spec fn signed_values(target: TargetView, request: RequestView) -> Map<
    Seq<char>,
    Seq<Seq<u8>>,
> {
    let dated = Map::empty().insert("host"@, seq![encode_utf8(request.host)]).insert(
        "x-amz-content-sha256"@,
        seq![encode_utf8(request.payload_hash)],
    ).insert("x-amz-date"@, seq![encode_utf8(request.amz_date)]);
    let named = match target.session_token {
        Some(token) => dated.insert("x-amz-security-token"@, seq![encode_utf8(token)]),
        None => dated,
    };
    named.insert("authorization"@, seq![encode_utf8(authorization_of(target, request))])
}

/// A request that can be signed: the parts that become headers are header
/// text, those that are read back are visible, and the time holds a day.
pub open spec fn can_sign(target: TargetView, request: RequestView) -> bool {
    &&& is_visible_text(request.host)
    &&& is_visible_text(request.payload_hash)
    &&& is_visible_text(request.amz_date)
    &&& request.amz_date.len() >= 8
    &&& target.session_token matches Some(token) ==> is_visible_text(token)
    &&& is_value_text(target.region)
    &&& is_value_text(target.access_key)
}

/// The header names in use are header names, and no two are the same.
proof fn lemma_header_names()
    ensures
        is_header_name("host"@),
        is_header_name("x-amz-content-sha256"@),
        is_header_name("x-amz-date"@),
        is_header_name("x-amz-security-token"@),
        is_header_name("authorization"@),
        "host"@ != "x-amz-content-sha256"@,
        "host"@ != "x-amz-date"@,
        "host"@ != "x-amz-security-token"@,
        "x-amz-content-sha256"@ != "x-amz-date"@,
        "x-amz-content-sha256"@ != "x-amz-security-token"@,
        "x-amz-date"@ != "x-amz-security-token"@,
{
    reveal_strlit("host");
    reveal_strlit("x-amz-content-sha256");
    reveal_strlit("x-amz-date");
    reveal_strlit("x-amz-security-token");
    reveal_strlit("authorization");
    assert("x-amz-content-sha256"@[6] == 'c');
    assert("x-amz-security-token"@[6] == 's');
}

/// Header text followed by header text is header text.
proof fn lemma_value_text_concat(a: Seq<char>, b: Seq<char>)
    requires
        is_value_text(a),
        is_value_text(b),
    ensures
        is_value_text(a + b),
{
    assert forall|i: int| 0 <= i < (a + b).len() implies is_value_char(#[trigger] (a + b)[i]) by {
        if i < a.len() {
            assert((a + b)[i] == a[i]);
        } else {
            assert((a + b)[i] == b[i - a.len()]);
        }
    }
}

/// The start of header text is header text.
proof fn lemma_value_text_take(s: Seq<char>, n: int)
    requires
        is_value_text(s),
        0 <= n <= s.len(),
    ensures
        is_value_text(s.take(n)),
{
    assert forall|i: int| 0 <= i < n implies is_value_char(#[trigger] s.take(n)[i]) by {
        assert(s.take(n)[i] == s[i]);
    }
}

/// Hexadecimal is header text.
proof fn lemma_value_text_hex(bytes: Seq<u8>)
    ensures
        is_value_text(hex_of(bytes)),
{
}

/// The authorization of a request that can be signed is header text.
proof fn lemma_authorization_is_value_text(target: TargetView, request: RequestView)
    requires
        can_sign(target, request),
    ensures
        is_value_text(authorization_of(target, request)),
{
    let day = scope_date(request.amz_date);
    let scope = credential_scope(target, request.amz_date);
    let names = signed_headers(target.session_token);
    let signature = signature_of(target, request);
    assert(is_value_text("/"@)) by {
        reveal_strlit("/");
    }
    assert(is_value_text("/s3/aws4_request"@)) by {
        reveal_strlit("/s3/aws4_request");
    }
    assert(is_value_text("AWS4-HMAC-SHA256 Credential="@)) by {
        reveal_strlit("AWS4-HMAC-SHA256 Credential=");
    }
    assert(is_value_text(", SignedHeaders="@)) by {
        reveal_strlit(", SignedHeaders=");
    }
    assert(is_value_text(", Signature="@)) by {
        reveal_strlit(", Signature=");
    }
    assert(is_value_text(names)) by {
        reveal_strlit("host;x-amz-content-sha256;x-amz-date");
        reveal_strlit(";x-amz-security-token");
        assert(is_value_text("host;x-amz-content-sha256;x-amz-date"@));
        match target.session_token {
            Some(_) => {
                assert(is_value_text(";x-amz-security-token"@));
                lemma_value_text_concat(
                    "host;x-amz-content-sha256;x-amz-date"@,
                    ";x-amz-security-token"@,
                );
            },
            None => {
                lemma_value_text_concat("host;x-amz-content-sha256;x-amz-date"@, seq![]);
            },
        }
    }
    lemma_visible_text_bytes(request.amz_date);
    lemma_value_text_take(request.amz_date, 8);
    lemma_value_text_concat(day, "/"@);
    lemma_value_text_concat(day + "/"@, target.region);
    lemma_value_text_concat(day + "/"@ + target.region, "/s3/aws4_request"@);
    let credential = "AWS4-HMAC-SHA256 Credential="@ + target.access_key + "/"@ + scope;
    lemma_value_text_concat("AWS4-HMAC-SHA256 Credential="@, target.access_key);
    lemma_value_text_concat("AWS4-HMAC-SHA256 Credential="@ + target.access_key, "/"@);
    lemma_value_text_concat("AWS4-HMAC-SHA256 Credential="@ + target.access_key + "/"@, scope);
    lemma_value_text_concat(credential, ", SignedHeaders="@);
    lemma_value_text_concat(credential + ", SignedHeaders="@, names);
    lemma_value_text_concat(credential + ", SignedHeaders="@ + names, ", Signature="@);
    lemma_value_text_hex(
        hmac_sha256_of(
            signing_key_of(target, day),
            encode_utf8(string_to_sign(target, request)),
        ),
    );
    lemma_value_text_concat(
        credential + ", SignedHeaders="@ + names + ", Signature="@,
        signature,
    );
}

/// Appends the canonical line of a header, whose value is `value`.
fn append_header_line(
    out: &mut String,
    headers: &HeaderMap<HeaderValue>,
    name: &str,
    Ghost(value): Ghost<Seq<char>>,
)
    requires
        is_header_name(name@),
        is_visible_text(value),
        header_values(*headers).contains_key(name@),
        header_values(*headers)[name@] == seq![encode_utf8(value)],
    ensures
        final(out)@ == old(out)@ + header_line(name@, value),
{
    proof {
        lemma_visible_text_bytes(value);
        assert(seq![encode_utf8(value)][0] == encode_utf8(value));
    }
    let text = header_text(headers, name);
    proof {
        encode_utf8_decode_utf8(text@);
        encode_utf8_decode_utf8(value);
    }
    out.append(name);
    out.append(":");
    out.append(trim_blanks(text.as_str()).as_str());
    out.append("\n");
    assert(out@ =~= old(out)@ + header_line(name@, value));
}

impl S3Target {
    /// The key that a day's requests are signed with.
    pub fn signing_key(&self, date: &str) -> (key: Vec<u8>)
        ensures
            key@ == signing_key_of(self@, date@),
            key@.len() == 32,
    {
        let mut secret = String::from_str("AWS4");
        secret.append(self.secret_key.as_str());
        let date_key = hmac_sha256(secret.as_str().as_bytes(), date.as_bytes());
        let region_key = hmac_sha256(date_key.as_slice(), self.region.as_str().as_bytes());
        let service_key = hmac_sha256(region_key.as_slice(), "s3".as_bytes());
        hmac_sha256(service_key.as_slice(), "aws4_request".as_bytes())
    }

    /// The headers of a signed request, the authorization among them.
    pub fn auth_headers(
        &self,
        method: &str,
        request_path: &str,
        host: &str,
        payload_hash: &str,
        amz_date: &str,
    ) -> (headers: HeaderMap<HeaderValue>)
        requires
            can_sign(
                self@,
                (RequestView {
                    method: method@,
                    path: request_path@,
                    host: host@,
                    payload_hash: payload_hash@,
                    amz_date: amz_date@,
                }),
            ),
        ensures
            header_values(headers) == signed_values(
                self@,
                (RequestView {
                    method: method@,
                    path: request_path@,
                    host: host@,
                    payload_hash: payload_hash@,
                    amz_date: amz_date@,
                }),
            ),
            is_signature(
                signature_of(
                    self@,
                    (RequestView {
                        method: method@,
                        path: request_path@,
                        host: host@,
                        payload_hash: payload_hash@,
                        amz_date: amz_date@,
                    }),
                ),
            ),
    {
        let ghost request = RequestView {
            method: method@,
            path: request_path@,
            host: host@,
            payload_hash: payload_hash@,
            amz_date: amz_date@,
        };
        proof {
            lemma_header_names();
            lemma_visible_text_bytes(host@);
            lemma_visible_text_bytes(payload_hash@);
            lemma_visible_text_bytes(amz_date@);
            lemma_value_text_bytes(host@);
            lemma_value_text_bytes(payload_hash@);
            lemma_value_text_bytes(amz_date@);
        }
        let mut headers = no_headers();
        assert(header_values(headers) =~= Map::empty());
        insert_header(&mut headers, "host", host);
        insert_header(&mut headers, "x-amz-content-sha256", payload_hash);
        insert_header(&mut headers, "x-amz-date", amz_date);
        let mut signed = String::from_str("host;x-amz-content-sha256;x-amz-date");
        if let Some(token) = &self.session_token {
            proof {
                lemma_visible_text_bytes(token@);
                lemma_value_text_bytes(token@);
            }
            insert_header(&mut headers, "x-amz-security-token", token.as_str());
            signed.append(";x-amz-security-token");
        }
        assert(signed@ =~= signed_headers(self@.session_token));

        let mut lines = String::new();
        append_header_line(&mut lines, &headers, "host", Ghost(host@));
        append_header_line(&mut lines, &headers, "x-amz-content-sha256", Ghost(payload_hash@));
        append_header_line(&mut lines, &headers, "x-amz-date", Ghost(amz_date@));
        if let Some(token) = &self.session_token {
            append_header_line(&mut lines, &headers, "x-amz-security-token", Ghost(token@));
        }
        assert(lines@ =~= canonical_headers(request, self@.session_token));

        let mut canonical = String::from_str(method);
        canonical.append("\n");
        canonical.append(request_path);
        canonical.append("\n\n");
        canonical.append(lines.as_str());
        canonical.append("\n");
        canonical.append(signed.as_str());
        canonical.append("\n");
        canonical.append(payload_hash);
        assert(canonical@ == canonical_request(request, self@.session_token));
        let canonical_hash = sha256_hex(canonical.as_str().as_bytes());

        let date = amz_date.substring_char(0, 8);
        assert(date@ == scope_date(amz_date@));
        let mut scope = String::from_str(date);
        scope.append("/");
        scope.append(self.region.as_str());
        scope.append("/s3/aws4_request");
        assert(scope@ == credential_scope(self@, amz_date@));

        let mut to_sign = String::from_str("AWS4-HMAC-SHA256\n");
        to_sign.append(amz_date);
        to_sign.append("\n");
        to_sign.append(scope.as_str());
        to_sign.append("\n");
        to_sign.append(canonical_hash.as_str());
        assert(to_sign@ == string_to_sign(self@, request));
        let key = self.signing_key(date);
        let tag = hmac_sha256(key.as_slice(), to_sign.as_str().as_bytes());
        let signature = hex(tag.as_slice());

        let mut authorization = String::from_str("AWS4-HMAC-SHA256 Credential=");
        authorization.append(self.access_key.as_str());
        authorization.append("/");
        authorization.append(scope.as_str());
        authorization.append(", SignedHeaders=");
        authorization.append(signed.as_str());
        authorization.append(", Signature=");
        authorization.append(signature.as_str());
        proof {
            assert(authorization@ == authorization_of(self@, request));
            lemma_authorization_is_value_text(self@, request);
            lemma_value_text_bytes(authorization@);
        }
        insert_header(&mut headers, "authorization", authorization.as_str());
        headers
    }
}

} // verus!
