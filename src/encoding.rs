//! Calls into base64 and sodiumoxide, and the names of what they compute.
use sodiumoxide::crypto::box_;
use vstd::prelude::*;

verus! {

/// Length of a public or secret key of the box construction, in bytes.
pub const KEY_BYTES: usize = 32;

/// Length of a nonce of the box construction, in bytes.
pub const NONCE_BYTES: usize = 24;

/// Length of the authentication tag that a sealed box carries.
pub const MAC_BYTES: usize = 16;

/// The standard base64 text of a byte string.
pub uninterp spec fn base64_of(b: Seq<u8>) -> Seq<char>;

/// The bytes that a standard base64 text stands for, if it is well formed.
pub uninterp spec fn base64_bytes(s: Seq<char>) -> Option<Seq<u8>>;

/// The plaintext of a sealed box `c` under nonce `n`, the sender's public key
/// `pk` and the receiver's secret key `sk`, if the box authenticates.
pub uninterp spec fn box_opened(c: Seq<u8>, n: Seq<u8>, pk: Seq<u8>, sk: Seq<u8>) -> Option<Seq<u8>>;

/// The public key of the box construction that belongs to the secret key `sk`.
pub uninterp spec fn box_public_key_of(sk: Seq<u8>) -> Seq<u8>;

/// The text that a byte string spells in UTF-8, if it is valid UTF-8.
pub uninterp spec fn utf8_text(b: Seq<u8>) -> Option<Seq<char>>;

#[verifier::external_type_specification]
#[verifier::external_body]
pub struct ExDecodeError(base64::DecodeError);

/// Relies on base64::encode: the standard base64 text of the bytes, which
/// base64::decode turns back into the same bytes.
#[verifier::external_body]
pub(crate) fn encode_base64(b: &Vec<u8>) -> (r: String)
    ensures
        r@ == base64_of(b@),
        base64_bytes(r@) == Some(b@),
{
    base64::encode(b)
}

/// Relies on base64::decode: the bytes of a well-formed standard base64 text,
/// an error otherwise.
#[verifier::external_body]
pub(crate) fn decode_base64(s: &String) -> (r: Result<Vec<u8>, base64::DecodeError>)
    ensures
        r is Ok <==> base64_bytes(s@) is Some,
        r is Ok ==> base64_bytes(s@) == Some(r->Ok_0@),
{
    base64::decode(s)
}

/// Relies on String::from_utf8: the text of valid UTF-8 bytes, an error
/// otherwise.
#[verifier::external_body]
pub(crate) fn text_from_utf8(b: Vec<u8>) -> (r: Option<String>)
    ensures
        r is Some <==> utf8_text(b@) is Some,
        r is Some ==> utf8_text(b@) == Some(r->Some_0@),
{
    String::from_utf8(b).ok()
}

/// Relies on sodiumoxide::crypto::box_::open: it authenticates and decrypts a
/// box; a box shorter than the tag never opens, and a plaintext is the box
/// without its tag in length.
#[verifier::external_body]
pub(crate) fn open_box(c: &Vec<u8>, n: &Vec<u8>, pk: &Vec<u8>, sk: &Vec<u8>) -> (r: Option<Vec<u8>>)
    requires
        n@.len() == NONCE_BYTES,
        pk@.len() == KEY_BYTES,
        sk@.len() == KEY_BYTES,
    ensures
        r is Some <==> box_opened(c@, n@, pk@, sk@) is Some,
        r is Some ==> box_opened(c@, n@, pk@, sk@) == Some(r->Some_0@),
        r is Some ==> r->Some_0@.len() + MAC_BYTES == c@.len(),
        c@.len() < MAC_BYTES ==> r is None,
{
    let n = box_::Nonce::from_slice(n).unwrap();
    let pk = box_::PublicKey::from_slice(pk).unwrap();
    let sk = box_::SecretKey::from_slice(sk).unwrap();
    box_::open(c, &n, &pk, &sk).ok()
}

/// Relies on box_::gen_nonce: a random nonce of the
/// box construction's length.
#[verifier::external_body]
pub(crate) fn random_nonce() -> (r: Vec<u8>)
    ensures
        r@.len() == NONCE_BYTES,
{
    box_::gen_nonce().0.to_vec()
}

/// Relies on sodiumoxide::init: it prepares libsodium, after which its random
/// functions are safe to call from several threads. Its result only says
/// whether this call did the preparing, so it is dropped.
#[verifier::external_body]
pub(crate) fn init_sodium() {
    let _ = sodiumoxide::init();
}

/// Relies on sodiumoxide::crypto::box_::gen_keypair: a random key pair, the
/// public key first, each of the box construction's key length; the public
/// key is the one computed from the secret key.
#[verifier::external_body]
pub(crate) fn random_key_pair() -> (r: (Vec<u8>, Vec<u8>))
    ensures
        r.0@.len() == KEY_BYTES,
        r.1@.len() == KEY_BYTES,
        r.0@ == box_public_key_of(r.1@),
{
    let (pk, sk) = box_::gen_keypair();
    (pk.0.to_vec(), sk.0.to_vec())
}

} // verus!
