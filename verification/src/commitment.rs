//! The commitment of a ledger: a byte string derived once from a payload by
//! hashing it and signing the hash under a key that is used a single time.

use vstd::prelude::*;

verus! {

/// The longest signature, in bytes of its DER encoding.
pub const MAX_DER_LEN: usize = 72;

/// An ASCII digit or one of the letters `a` to `f`.
pub open spec fn is_lower_hex(b: u8) -> bool {
    (0x30 <= b && b <= 0x39) || (0x61 <= b && b <= 0x66)
}

/// The shape of every commitment: two lower-case hexadecimal digits for each
/// byte of a DER-encoded signature.
pub open spec fn is_signature_text(s: Seq<u8>) -> bool {
    &&& s.len() % 2 == 0
    &&& s.len() <= 2 * MAX_DER_LEN
    &&& forall|i: int| 0 <= i < s.len() ==> is_lower_hex(#[trigger] s[i])
}

/// The SHA-256 hash of `data`, as `Message::from_hashed_data` of secp256k1
/// computes it for the hash type `sha256::Hash`.
pub uninterp spec fn sha256_digest(data: Seq<u8>) -> Seq<u8>;

/// Whether `SecretKey::from_slice` of secp256k1 takes `key` for a secret
/// key.
pub uninterp spec fn valid_secret_key(key: Seq<u8>) -> bool;

/// The text of the signature that `Secp256k1::sign_ecdsa` of secp256k1 gives
/// for the 32-byte hash `digest` under the secret key `key`.
pub uninterp spec fn ecdsa_signature_text(digest: Seq<u8>, key: Seq<u8>) -> Seq<u8>;

/// The commitment of the payload `rawdata` under the secret key `key`: the
/// text of the signature, under that key, of the payload's hash.
pub open spec fn commitment_under(rawdata: Seq<u8>, key: Seq<u8>) -> Seq<u8> {
    ecdsa_signature_text(sha256_digest(rawdata), key)
}

/// `commitment` is the commitment of `rawdata` under some secret key.
pub open spec fn is_commitment_of(commitment: Seq<u8>, rawdata: Seq<u8>) -> bool {
    exists|key: Seq<u8>|
        valid_secret_key(key) && commitment == #[trigger] commitment_under(rawdata, key)
}

/// Draws a fresh secret key with `Secp256k1::generate_keypair` of secp256k1,
/// on a context from `Secp256k1::new`, fed by the operating system's random
/// source, drops the public half and hands the secret half out as its 32
/// bytes. Each call may give another key; the contract claims only that the
/// bytes are a secret key: `generate_keypair` keeps drawing until they pass
/// the test that `SecretKey::from_slice` applies. The call does not return
/// if the random source is unavailable.
#[verifier::external_body]
fn fresh_signing_key() -> (key: [u8; 32])
    ensures
        valid_secret_key(key@),
{
    let secp = secp256k1::Secp256k1::new();
    let (key, _) = secp.generate_keypair(&mut secp256k1::rand::rngs::OsRng);
    key.secret_bytes()
}

/// Hashes `rawdata` with SHA-256 through `Message::from_hashed_data` of
/// secp256k1 and hands the message out as its 32 bytes. The contract gives
/// that hash its name.
#[verifier::external_body]
fn payload_digest(rawdata: &Vec<u8>) -> (digest: [u8; 32])
    ensures
        digest@ == sha256_digest(rawdata@),
{
    let msg =
        secp256k1::Message::from_hashed_data::<secp256k1::hashes::sha256::Hash>(rawdata.as_slice());
    let bytes: &[u8; 32] = msg.as_ref();
    *bytes
}

/// Signs the hash `digest` under `key` with `Secp256k1::sign_ecdsa` of
/// secp256k1, on a context from `Secp256k1::new`, which blinds itself with
/// random bytes and does not return if it cannot get them. The key is read
/// with `SecretKey::from_slice`; where that refuses the bytes, nothing is
/// signed. The result is the text that `Display` writes for the signature.
///
/// The contract claims that the text depends on the hash and the key alone
/// (the nonce is the one of RFC 6979, and the blinding does not reach the
/// signature), and that it is the DER encoding, at most 72 bytes, each byte
/// written as two lower-case hexadecimal digits.
#[verifier::external_body]
fn signature_text(digest: &[u8; 32], key: &[u8; 32]) -> (text: Option<Vec<u8>>)
    ensures
        text.is_some() == valid_secret_key(key@),
        text.is_some() ==> text.unwrap()@ == ecdsa_signature_text(digest@, key@),
        text.is_some() ==> is_signature_text(text.unwrap()@),
{
    match secp256k1::SecretKey::from_slice(key) {
        Ok(secret) => {
            let secp = secp256k1::Secp256k1::new();
            let msg = secp256k1::Message::from_digest(*digest);
            Some(secp.sign_ecdsa(&msg, &secret).to_string().as_bytes().to_vec())
        },
        Err(_) => None,
    }
}

/// Derives the commitment of `rawdata` under the secret key `key`: the
/// payload is hashed, and the hash is signed under that key. The same payload
/// and key always give the same commitment. Bytes that are no secret key
/// give `None`.
pub fn derive_under_key(rawdata: &Vec<u8>, key: &[u8; 32]) -> (commitment: Option<Vec<u8>>)
    ensures
        commitment.is_some() == valid_secret_key(key@),
        commitment.is_some() ==> commitment.unwrap()@ == commitment_under(rawdata@, key@),
        commitment.is_some() ==> is_signature_text(commitment.unwrap()@),
{
    let digest = payload_digest(rawdata);
    signature_text(&digest, key)
}

/// Derives a commitment from `rawdata`: the payload is hashed, and the hash
/// is signed under a key drawn for this one derivation and then dropped.
///
/// Because the key is new each time, two derivations from the same payload
/// give different commitments: what is known in advance is that the result
/// is the commitment of the payload under some secret key, and its shape.
pub fn derive(rawdata: &Vec<u8>) -> (commitment: Vec<u8>)
    ensures
        is_commitment_of(commitment@, rawdata@),
        is_signature_text(commitment@),
{
    let key = fresh_signing_key();
    let commitment = derive_under_key(rawdata, &key).unwrap();
    assert(commitment@ == commitment_under(rawdata@, key@));
    commitment
}

/// Decides whether `ext_data` is the commitment `datahash`, byte for byte.
pub fn matches_commitment(datahash: &Vec<u8>, ext_data: &Vec<u8>) -> (r: bool)
    ensures
        r == (datahash@ == ext_data@),
{
    if datahash.len() != ext_data.len() {
        return false;
    }
    let mut i: usize = 0;
    while i < datahash.len()
        invariant
            i <= datahash@.len(),
            datahash@.len() == ext_data@.len(),
            forall|j: int| 0 <= j < i ==> datahash@[j] == ext_data@[j],
        decreases datahash@.len() - i,
    {
        if datahash[i] != ext_data[i] {
            return false;
        }
        i += 1;
    }
    assert(datahash@ =~= ext_data@);
    true
}

} // verus!
