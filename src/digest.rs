//! Digests and their text forms: the password verifier and the session key.
use vstd::prelude::*;
use vstd::utf8::encode_utf8;
use sha1::Digest;

verus! {

/// The 16-byte MD5 digest of a byte sequence.
pub uninterp spec fn md5_of(data: Seq<u8>) -> Seq<u8>;

/// The 20-byte SHA-1 digest of a byte sequence.
pub uninterp spec fn sha1_of(data: Seq<u8>) -> Seq<u8>;

/// Lowercase hexadecimal digit of a value below 16.
pub open spec fn hex_digit(n: u8) -> char {
    seq!['0', '1', '2', '3', '4', '5', '6', '7', '8', '9', 'a', 'b', 'c', 'd', 'e', 'f'][n as int]
}

/// Two lowercase hexadecimal digits per byte, high nibble first.
pub open spec fn hex_of(data: Seq<u8>) -> Seq<char>
    decreases data.len(),
{
    if data.len() == 0 {
        seq![]
    } else {
        hex_of(data.drop_last()) + seq![hex_digit(data.last() / 16), hex_digit(data.last() % 16)]
    }
}

/// The text that a session key is derived from: name and password joined by a colon.
pub open spec fn key_material(name: Seq<char>, password: Seq<char>) -> Seq<char> {
    name + seq![':'] + password
}

/// The lowercase hexadecimal MD5 digest of the UTF-8 bytes of a text.
pub open spec fn md5_hex_of(text: Seq<char>) -> Seq<char> {
    hex_of(md5_of(encode_utf8(text)))
}

/// The session key for an account name and a password.
pub open spec fn session_key_of(name: Seq<char>, password: Seq<char>) -> Seq<char> {
    hex_of(sha1_of(encode_utf8(key_material(name, password))))
}

pub proof fn lemma_hex_len(data: Seq<u8>)
    ensures
        hex_of(data).len() == 2 * data.len(),
    decreases data.len(),
{
    if data.len() > 0 {
        lemma_hex_len(data.drop_last());
    }
}

/// Relies on md5::compute and the digest's `LowerHex` format, two lowercase
/// hex digits per byte: the verifier stored for a password is the 32-digit
/// hex text of the MD5 digest of its UTF-8 bytes.
#[verifier::external_body]
pub fn calculate_md5(password: &str) -> (r: String)
    ensures
        r@ == hex_of(md5_of(encode_utf8(password@))),
        r@.len() == 32,
{
    format!("{:x}", md5::compute(password))
}

/// Relies on sha1::Sha1::digest: 20 bytes, a function of the input alone.
#[verifier::external_body]
fn sha1_of_data(data: &[u8]) -> (r: Vec<u8>)
    ensures
        r@ == sha1_of(data@),
        r@.len() == 20,
{
    sha1::Sha1::digest(data).to_vec()
}

/// Relies on hex::encode: each byte becomes two lowercase hex digits, in order.
#[verifier::external_body]
fn hex_encode(data: &Vec<u8>) -> (r: String)
    ensures
        r@ == hex_of(data@),
{
    hex::encode(data)
}

/// Derives the session key of an account from its name and password.
pub fn derive_hkey(name: &str, password: &str) -> (r: String)
    ensures
        r@ == session_key_of(name@, password@),
        r@.len() == 40,
{
    let material = String::from_str(name).concat(":").concat(password);
    proof {
        reveal_strlit(":");
    }
    assert(material@ == key_material(name@, password@));
    let digest = sha1_of_data(material.as_str().as_bytes());
    let r = hex_encode(&digest);
    proof {
        lemma_hex_len(digest@);
    }
    r
}

} // verus!
