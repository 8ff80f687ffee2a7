use bandsnatch::digest::{hex, sha256_hex};
use bandsnatch::percent::encode_key_path;

#[test]
fn hex_writes_two_digits_per_byte() {
    assert_eq!(hex(&[0, 15, 16, 171, 255]), "000f10abff");
    assert_eq!(hex(&[]), "");
}

#[test]
fn hex_tells_bytes_apart() {
    assert_ne!(hex(&[1, 0]), hex(&[0, 1]));
    assert_ne!(hex(&[16]), hex(&[1, 0]));
}

#[test]
fn sha256_of_nothing() {
    assert_eq!(
        sha256_hex(b""),
        "e3b0c44298fc1c149afbf4c8996fb92427ae41e4649b934ca495991b7852b855"
    );
}

#[test]
fn sha256_of_hello() {
    assert_eq!(
        sha256_hex(b"hello"),
        "2cf24dba5fb0a30e26e83b2ac5b9e29e1b161e5c1fa7425e73043362938b9824"
    );
}

#[test]
fn plain_keys_are_kept() {
    assert_eq!(encode_key_path("Artist/Album-1_x.~y"), "Artist/Album-1_x.~y");
    assert_eq!(encode_key_path(""), "");
}

#[test]
fn other_bytes_are_escaped() {
    assert_eq!(encode_key_path("a b/c+d"), "a%20b/c%2Bd");
    assert_eq!(encode_key_path("100%"), "100%25");
    assert_eq!(encode_key_path("\u{e9}\u{1f3b5}"), "%C3%A9%F0%9F%8E%B5");
    assert_eq!(encode_key_path("\u{1}\u{7f}"), "%01%7F");
    assert_eq!(
        encode_key_path("!\"#$%&'()*+,:;=?@[\\]^`{|}<>"),
        "%21%22%23%24%25%26%27%28%29%2A%2B%2C%3A%3B%3D%3F%40%5B%5C%5D%5E%60%7B%7C%7D%3C%3E"
    );
}

#[test]
fn leading_slashes_are_dropped_and_others_kept() {
    assert_eq!(encode_key_path("//a//b/"), "a//b/");
    assert_eq!(encode_key_path("///"), "");
}

#[test]
fn encoded_keys_stay_apart() {
    assert_ne!(encode_key_path("a b"), encode_key_path("a%20b"));
    assert_eq!(encode_key_path("a%20b"), "a%2520b");
}

#[test]
fn encoding_goes_segment_by_segment() {
    let whole = encode_key_path("x y/\u{e9}/z?");
    let parts: Vec<String> = "x y/\u{e9}/z?".split('/').map(encode_key_path).collect();
    assert_eq!(whole, parts.join("/"));
}
