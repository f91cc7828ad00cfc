//! Names of cached objects: digests written in hexadecimal.
use vstd::prelude::*;
use vstd::string::*;
use vstd::utf8::*;
use md5::Digest;

verus! {

/// The MD5 digest of a byte string.
pub uninterp spec fn md5_digest(data: Seq<u8>) -> Seq<u8>;

/// The hexadecimal digit of a number below sixteen, in lower case.
pub open spec fn hex_digit(n: nat) -> char {
    if n < 10 {
        (('0' as nat) + n) as char
    } else {
        (('a' as nat) + (n - 10)) as char
    }
}

/// Two hexadecimal digits for each byte, the higher half of the byte first.
pub open spec fn hex_text(data: Seq<u8>) -> Seq<char> {
    Seq::new(
        2 * data.len(),
        |i: int|
            hex_digit(
                if i % 2 == 0 {
                    data[i / 2] as nat / 16
                } else {
                    data[i / 2] as nat % 16
                },
            ),
    )
}

/// `md5::Md5::digest`: the sixteen bytes of the MD5 digest of `data`.
#[verifier::external_body]
fn md5_of(data: &[u8]) -> (digest: Vec<u8>)
    ensures
        digest@ == md5_digest(data@),
        digest@.len() == 16,
{
    md5::Md5::digest(data).to_vec()
}

/// `hex::encode`: `data` in lower-case hexadecimal.
#[verifier::external_body]
fn hex_of(data: &[u8]) -> (text: String)
    ensures
        text@ == hex_text(data@),
{
    hex::encode(data)
}

/// The name that a digest, or any other byte string, gives a file or an object.
pub fn hex_name(data: &Vec<u8>) -> (name: String)
    ensures
        name@ == hex_text(data@),
{
    hex_of(data.as_slice())
}

/// What the key of a request is the digest of: host, method and path, one after the other.
pub open spec fn key_bytes(method: Seq<char>, host: Seq<char>, url_path: Seq<char>) -> Seq<u8> {
    encode_utf8(host) + encode_utf8(method) + encode_utf8(url_path)
}

/// The key under which the answer to a request is cached.
pub open spec fn object_key(method: Seq<char>, host: Seq<char>, url_path: Seq<char>) -> Seq<char> {
    hex_text(md5_digest(key_bytes(method, host, url_path)))
}

/// The key under which the answer to a request is cached.
pub fn get_hash_v1(method: &str, host: &str, url_path: &str) -> (hash: String)
    ensures
        hash@ == object_key(method@, host@, url_path@),
        hash@.len() == 32,
{
    let mut data: Vec<u8> = Vec::new();
    data.extend_from_slice(host.as_bytes());
    data.extend_from_slice(method.as_bytes());
    data.extend_from_slice(url_path.as_bytes());
    assert(data@ =~= key_bytes(method@, host@, url_path@));
    hex_name(&md5_of(data.as_slice()))
}

/// The name under which the temporary file at `tmp_path` is kept.
pub open spec fn stored_name(tmp_path: Seq<char>) -> Seq<char> {
    hex_text(md5_digest(encode_utf8(tmp_path)))
}

/// The name under which the temporary file at `tmp_path` is kept.
pub fn object_name(tmp_path: &str) -> (name: String)
    ensures
        name@ == stored_name(tmp_path@),
        name@.len() == 32,
{
    hex_name(&md5_of(tmp_path.as_bytes()))
}

/// Hexadecimal text is made of the digits `0` to `9` and `a` to `f`.
pub proof fn law_hex_alphabet(data: Seq<u8>)
    ensures
        hex_text(data).len() == 2 * data.len(),
        forall|i: int|
            0 <= i < hex_text(data).len() ==> {
                ||| '0' <= #[trigger] hex_text(data)[i] <= '9'
                ||| 'a' <= hex_text(data)[i] <= 'f'
            },
{
}

/// Different byte strings have different hexadecimal texts.
pub proof fn law_hex_injective(a: Seq<u8>, b: Seq<u8>)
    requires
        hex_text(a) == hex_text(b),
    ensures
        a == b,
{
    assert(hex_text(a).len() == 2 * a.len());
    assert(hex_text(b).len() == 2 * b.len());
    assert forall|i: int| 0 <= i < a.len() implies a[i] == b[i] by {
        assert(hex_text(a)[2 * i] == hex_digit(a[i] as nat / 16));
        assert(hex_text(b)[2 * i] == hex_digit(b[i] as nat / 16));
        assert(hex_text(a)[2 * i + 1] == hex_digit(a[i] as nat % 16));
        assert(hex_text(b)[2 * i + 1] == hex_digit(b[i] as nat % 16));
        lemma_hex_digit_injective(a[i] as nat / 16, b[i] as nat / 16);
        lemma_hex_digit_injective(a[i] as nat % 16, b[i] as nat % 16);
    }
    assert(a =~= b);
}

proof fn lemma_hex_digit_injective(x: nat, y: nat)
    requires
        x < 16,
        y < 16,
        hex_digit(x) == hex_digit(y),
    ensures
        x == y,
{
}

/// Text is determined by its bytes.
proof fn lemma_encoding_injective(a: Seq<char>, b: Seq<char>)
    requires
        encode_utf8(a) == encode_utf8(b),
    ensures
        a == b,
{
    encode_utf8_decode_utf8(a);
    encode_utf8_decode_utf8(b);
}

/// What the key of a request is the digest of holds all of the request's host, then all of its method,
/// then all of its path, and nothing else.
pub proof fn law_key_covers_the_request(method: Seq<char>, host: Seq<char>, url_path: Seq<char>)
    ensures
        ({
            let bytes = key_bytes(method, host, url_path);
            let h = encode_utf8(host).len();
            let m = encode_utf8(method).len();
            &&& bytes.len() == h + m + encode_utf8(url_path).len()
            &&& bytes.take(h as int) == encode_utf8(host)
            &&& bytes.subrange(h as int, (h + m) as int) == encode_utf8(method)
            &&& bytes.skip((h + m) as int) == encode_utf8(url_path)
        }),
{
    let bytes = key_bytes(method, host, url_path);
    let h = encode_utf8(host).len() as int;
    let m = encode_utf8(method).len() as int;
    assert(bytes.take(h) =~= encode_utf8(host));
    assert(bytes.subrange(h, h + m) =~= encode_utf8(method));
    assert(bytes.skip(h + m) =~= encode_utf8(url_path));
}

/// Requests that differ in one of host, method and path have different bytes to digest.
pub proof fn law_key_tells_requests_apart(
    method: Seq<char>,
    host: Seq<char>,
    url_path: Seq<char>,
    other: Seq<char>,
)
    ensures
        key_bytes(method, host, url_path) == key_bytes(method, host, other) <==> url_path == other,
        key_bytes(method, host, url_path) == key_bytes(other, host, url_path) <==> method == other,
        key_bytes(method, host, url_path) == key_bytes(method, other, url_path) <==> host == other,
{
    law_key_covers_the_request(method, host, url_path);
    law_key_covers_the_request(method, host, other);
    law_key_covers_the_request(other, host, url_path);
    law_key_covers_the_request(method, other, url_path);
    if key_bytes(method, host, url_path) == key_bytes(method, host, other) {
        lemma_encoding_injective(url_path, other);
    }
    if key_bytes(method, host, url_path) == key_bytes(other, host, url_path) {
        lemma_encoding_injective(method, other);
    }
    if key_bytes(method, host, url_path) == key_bytes(method, other, url_path) {
        lemma_encoding_injective(host, other);
    }
}

/// Two requests have the same key exactly where their bytes have the same digest.
pub proof fn law_keys_are_digests(
    method: Seq<char>,
    host: Seq<char>,
    url_path: Seq<char>,
    other_method: Seq<char>,
    other_host: Seq<char>,
    other_path: Seq<char>,
)
    ensures
        object_key(method, host, url_path) == object_key(other_method, other_host, other_path) <==>
            md5_digest(encode_utf8(host) + encode_utf8(method) + encode_utf8(url_path))
            == md5_digest(
            encode_utf8(other_host) + encode_utf8(other_method) + encode_utf8(other_path),
        ),
{
    if object_key(method, host, url_path) == object_key(other_method, other_host, other_path) {
        law_hex_injective(
            md5_digest(key_bytes(method, host, url_path)),
            md5_digest(key_bytes(other_method, other_host, other_path)),
        );
    }
}

/// Two temporary files are kept under the same name exactly where their whole paths have the same
/// digest.
pub proof fn law_stored_names_are_digests(a: Seq<char>, b: Seq<char>)
    ensures
        stored_name(a) == stored_name(b) <==> md5_digest(encode_utf8(a)) == md5_digest(
            encode_utf8(b),
        ),
{
    if stored_name(a) == stored_name(b) {
        law_hex_injective(md5_digest(encode_utf8(a)), md5_digest(encode_utf8(b)));
    }
}

/// The value of a hexadecimal digit.
pub open spec fn hex_value(c: char) -> int {
    if '0' <= c <= '9' {
        c as int - '0' as int
    } else {
        10 + (c as int - 'a' as int)
    }
}

/// Hexadecimal text, read two digits at a time with the higher one first, gives the bytes back.
pub proof fn law_hex_reads_back(data: Seq<u8>, i: int)
    requires
        0 <= i < data.len(),
    ensures
        hex_value(hex_text(data)[2 * i]) * 16 + hex_value(hex_text(data)[2 * i + 1]) == data[i],
{
    let hi = data[i] as nat / 16;
    let lo = data[i] as nat % 16;
    assert(hex_text(data)[2 * i] == hex_digit(hi));
    assert(hex_text(data)[2 * i + 1] == hex_digit(lo));
    assert(hex_value(hex_digit(hi)) == hi);
    assert(hex_value(hex_digit(lo)) == lo);
}

} // verus!
