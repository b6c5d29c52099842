//! Request signing for the REST control API: the canonical string over
//! the `x-bili-` headers, its HMAC-SHA256 signature, and the body
//! records the endpoints take. The caller supplies timestamp and nonce;
//! nothing here reads a clock or talks to the network.
use vstd::prelude::*;

use hmac::{Hmac, KeyInit, Mac};
use md5::{Digest, Md5};
use sha2::Sha256;
use vstd::string::StringExecFns;
use vstd::utf8::encode_utf8;

verus! {

/// The 16-byte digest that the MD5 hash assigns to the input bytes.
pub uninterp spec fn md5_of(b: Seq<u8>) -> Seq<u8>;

/// The 32-byte tag that HMAC-SHA256 assigns to a key and a message.
pub uninterp spec fn hmac_sha256_of(key: Seq<u8>, msg: Seq<u8>) -> Seq<u8>;

/// The lowercase hex digit of a value below 16.
pub open spec fn spec_hex_digit(n: int) -> char {
    if n == 0 {
        '0'
    } else if n == 1 {
        '1'
    } else if n == 2 {
        '2'
    } else if n == 3 {
        '3'
    } else if n == 4 {
        '4'
    } else if n == 5 {
        '5'
    } else if n == 6 {
        '6'
    } else if n == 7 {
        '7'
    } else if n == 8 {
        '8'
    } else if n == 9 {
        '9'
    } else if n == 10 {
        'a'
    } else if n == 11 {
        'b'
    } else if n == 12 {
        'c'
    } else if n == 13 {
        'd'
    } else if n == 14 {
        'e'
    } else {
        'f'
    }
}

/// The lowercase hex spelling of a byte sequence: two digits per byte,
/// high nibble first.
pub open spec fn spec_hex(b: Seq<u8>) -> Seq<char> {
    Seq::new(
        2 * b.len(),
        |i: int|
            if i % 2 == 0 {
                spec_hex_digit(b[i / 2] as int / 16)
            } else {
                spec_hex_digit(b[i / 2] as int % 16)
            },
    )
}

/// Relies on hex::encode: the lowercase hex spelling of the bytes, two
/// digits per byte.
#[verifier::external_body]
fn hex_encode(b: &[u8]) -> (r: String)
    ensures
        r@ == spec_hex(b@),
{
    hex::encode(b)
}

/// Relies on md5's Md5 through the Digest trait: the 16-byte digest is
/// a function of the input bytes alone.
#[verifier::external_body]
fn md5_digest(b: &[u8]) -> (r: Vec<u8>)
    ensures
        r@ == md5_of(b@),
        r@.len() == 16,
{
    let mut hasher = Md5::new();
    Digest::update(&mut hasher, b);
    hasher.finalize().to_vec()
}

/// Relies on hmac's Hmac over sha2's Sha256: the 32-byte tag is a
/// function of key and message alone, and a key of any length is
/// accepted, so `new_from_slice` cannot fail here.
#[verifier::external_body]
fn hmac_sha256(key: &[u8], msg: &[u8]) -> (r: Vec<u8>)
    ensures
        r@ == hmac_sha256_of(key@, msg@),
        r@.len() == 32,
{
    let mut mac: Hmac<Sha256> = Hmac::new_from_slice(key).expect("any key length is accepted");
    Mac::update(&mut mac, msg);
    mac.finalize().into_bytes().to_vec()
}

/// The MD5 digest of a request body, spelled in lowercase hex, as the
/// `x-bili-content-md5` header carries it.
pub fn content_md5_hex(body: &str) -> (r: String)
    ensures
        r@ == spec_hex(md5_of(encode_utf8(body@))),
{
    let digest = md5_digest(body.as_bytes());
    hex_encode(digest.as_slice())
}

/// The canonical string to sign: every `x-bili-` header as `name:value`,
/// in dictionary order of the names, joined by newlines with none at
/// the end.
pub open spec fn spec_signing_string(
    access_key_id: Seq<char>,
    content_md5: Seq<char>,
    nonce: Seq<char>,
    timestamp: Seq<char>,
) -> Seq<char> {
    "x-bili-accesskeyid:"@ + access_key_id + "\nx-bili-content-md5:"@ + content_md5
        + "\nx-bili-signature-method:HMAC-SHA256\nx-bili-signature-nonce:"@ + nonce
        + "\nx-bili-signature-version:1.0\nx-bili-timestamp:"@ + timestamp
}

/// Builds the canonical string to sign from the four varying header
/// values; the method and version headers are fixed.
pub fn build_signing_string(
    access_key_id: &str,
    content_md5: &str,
    nonce: &str,
    timestamp: &str,
) -> (s: String)
    ensures
        s@ == spec_signing_string(access_key_id@, content_md5@, nonce@, timestamp@),
{
    let mut s = String::new();
    s.append("x-bili-accesskeyid:");
    s.append(access_key_id);
    s.append("\nx-bili-content-md5:");
    s.append(content_md5);
    s.append("\nx-bili-signature-method:HMAC-SHA256\nx-bili-signature-nonce:");
    s.append(nonce);
    s.append("\nx-bili-signature-version:1.0\nx-bili-timestamp:");
    s.append(timestamp);
    s
}

/// The request signature: the HMAC-SHA256 tag of the canonical string
/// under the access key secret, spelled in lowercase hex, as the
/// `Authorization` header carries it.
pub fn signature_hex(
    access_key_id: &str,
    content_md5: &str,
    nonce: &str,
    timestamp: &str,
    access_key_secret: &str,
) -> (r: String)
    ensures
        r@ == spec_hex(
            hmac_sha256_of(
                encode_utf8(access_key_secret@),
                encode_utf8(
                    spec_signing_string(access_key_id@, content_md5@, nonce@, timestamp@),
                ),
            ),
        ),
{
    let signing = build_signing_string(access_key_id, content_md5, nonce, timestamp);
    let tag = hmac_sha256(access_key_secret.as_bytes(), signing.as_str().as_bytes());
    hex_encode(tag.as_slice())
}

/// The full header list of a signed request, as name and value pairs:
/// the fixed accept and content-type headers, the six `x-bili-`
/// headers, and the signature.
pub fn signed_headers(
    access_key_id: &str,
    body: &str,
    nonce: &str,
    timestamp: &str,
    access_key_secret: &str,
) -> (headers: Vec<(String, String)>)
    ensures
        headers@.len() == 9,
        headers@[0].0@ == "Accept"@ && headers@[0].1@ == "application/json"@,
        headers@[1].0@ == "Content-Type"@ && headers@[1].1@ == "application/json"@,
        headers@[2].0@ == "x-bili-accesskeyid"@ && headers@[2].1@ == access_key_id@,
        headers@[3].0@ == "x-bili-content-md5"@ && headers@[3].1@ == spec_hex(
            md5_of(encode_utf8(body@)),
        ),
        headers@[4].0@ == "x-bili-signature-method"@ && headers@[4].1@ == "HMAC-SHA256"@,
        headers@[5].0@ == "x-bili-signature-nonce"@ && headers@[5].1@ == nonce@,
        headers@[6].0@ == "x-bili-signature-version"@ && headers@[6].1@ == "1.0"@,
        headers@[7].0@ == "x-bili-timestamp"@ && headers@[7].1@ == timestamp@,
        headers@[8].0@ == "Authorization"@ && headers@[8].1@ == spec_hex(
            hmac_sha256_of(
                encode_utf8(access_key_secret@),
                encode_utf8(
                    spec_signing_string(
                        access_key_id@,
                        spec_hex(md5_of(encode_utf8(body@))),
                        nonce@,
                        timestamp@,
                    ),
                ),
            ),
        ),
{
    let content_md5 = content_md5_hex(body);
    let signature = signature_hex(
        access_key_id,
        content_md5.as_str(),
        nonce,
        timestamp,
        access_key_secret,
    );
    let mut headers: Vec<(String, String)> = Vec::new();
    headers.push((String::from_str("Accept"), String::from_str("application/json")));
    headers.push((String::from_str("Content-Type"), String::from_str("application/json")));
    headers.push((String::from_str("x-bili-accesskeyid"), String::from_str(access_key_id)));
    headers.push((String::from_str("x-bili-content-md5"), content_md5));
    headers.push((String::from_str("x-bili-signature-method"), String::from_str("HMAC-SHA256")));
    headers.push((String::from_str("x-bili-signature-nonce"), String::from_str(nonce)));
    headers.push((String::from_str("x-bili-signature-version"), String::from_str("1.0")));
    headers.push((String::from_str("x-bili-timestamp"), String::from_str(timestamp)));
    headers.push((String::from_str("Authorization"), signature));
    headers
}

/// The body of a session start request: the identification code and the
/// numeric application id, written as a record.
pub fn start_body(code: &str, app_id: &str) -> (s: String)
    ensures
        s@ == "{\"code\":\""@ + code@ + "\",\"app_id\":"@ + app_id@ + "}"@,
{
    let mut s = String::new();
    s.append("{\"code\":\"");
    s.append(code);
    s.append("\",\"app_id\":");
    s.append(app_id);
    s.append("}");
    s
}

/// The body of a session end request: the application id and the game
/// session id, written as a record.
pub fn end_body(app_id: &str, game_id: &str) -> (s: String)
    ensures
        s@ == "{\"app_id\":"@ + app_id@ + ",\"game_id\":\""@ + game_id@ + "\"}"@,
{
    let mut s = String::new();
    s.append("{\"app_id\":");
    s.append(app_id);
    s.append(",\"game_id\":\"");
    s.append(game_id);
    s.append("\"}");
    s
}

/// The body of a keep-alive request for one game session.
pub fn heartbeat_body(game_id: &str) -> (s: String)
    ensures
        s@ == "{\"game_id\":\""@ + game_id@ + "\"}"@,
{
    let mut s = String::new();
    s.append("{\"game_id\":\"");
    s.append(game_id);
    s.append("\"}");
    s
}

/// The quoted game ids joined by commas, as the batch keep-alive body
/// carries them.
pub open spec fn spec_joined_ids(ids: Seq<Seq<char>>) -> Seq<char>
    decreases ids.len(),
{
    if ids.len() == 0 {
        Seq::empty()
    } else if ids.len() == 1 {
        "\""@ + ids[0] + "\""@
    } else {
        spec_joined_ids(ids.drop_last()) + ",\""@ + ids.last() + "\""@
    }
}

/// The body of a batch keep-alive request: every game session id,
/// quoted, in order, inside one array.
pub fn batch_heartbeat_body(game_ids: &Vec<String>) -> (s: String)
    ensures
        s@ == "{\"game_ids\":["@ + spec_joined_ids(game_ids@.map_values(|g: String| g@))
            + "]}"@,
{
    let ghost ids = game_ids@.map_values(|g: String| g@);
    let mut s = String::new();
    s.append("{\"game_ids\":[");
    let mut i: usize = 0;
    while i < game_ids.len()
        invariant
            0 <= i <= game_ids@.len(),
            ids == game_ids@.map_values(|g: String| g@),
            ids.len() == game_ids@.len(),
            s@ == "{\"game_ids\":["@ + spec_joined_ids(ids.subrange(0, i as int)),
        decreases game_ids@.len() - i,
    {
        if i > 0 {
            s.append(",\"");
        } else {
            s.append("\"");
        }
        s.append(game_ids[i].as_str());
        s.append("\"");
        proof {
            let done = ids.subrange(0, i as int + 1);
            assert(done.drop_last() =~= ids.subrange(0, i as int));
            assert(done.last() == ids[i as int]);
            if i == 0 {
                assert(spec_joined_ids(done) == "\""@ + ids[0] + "\""@);
                assert(s@ =~= "{\"game_ids\":["@ + spec_joined_ids(done));
            } else {
                assert(spec_joined_ids(done) == spec_joined_ids(ids.subrange(0, i as int))
                    + ",\""@ + ids[i as int] + "\""@);
                assert(s@ =~= "{\"game_ids\":["@ + spec_joined_ids(done));
            }
        }
        i = i + 1;
    }
    proof {
        assert(ids.subrange(0, ids.len() as int) =~= ids);
    }
    s.append("]}");
    s
}

} // verus!
