use vstd::prelude::*;

verus! {

use vstd::string::StrSliceExecFns;
use base64::Engine;
use aes::cipher::{block_padding::Pkcs7, BlockModeDecrypt, KeyIvInit};
use crate::condition::{spec_first_dot, lemma_first_dot_props, first_dot};

/// Whether a text is valid standard base64. Stands for what
/// base64 decoding accepts, which depends on the text alone.
pub uninterp spec fn b64_ok(s: Seq<char>) -> bool;

/// The bytes a standard-base64 text decodes to. Stands for what
/// base64 decoding returns, which depends on the text alone.
pub uninterp spec fn b64_bytes(s: Seq<char>) -> Seq<u8>;

/// Relies on base64::Engine::decode with the standard alphabet:
/// whether a text decodes, and to which bytes, depend on the text
/// alone.
#[verifier::external_body]
fn base64_decode(s: &str) -> (r: Option<Vec<u8>>)
    ensures
        r is Some <==> b64_ok(s@),
        r is Some ==> r->Some_0@ == b64_bytes(s@),
{
    match base64::engine::general_purpose::STANDARD.decode(s) {
        Ok(v) => Some(v),
        Err(_) => None,
    }
}

/// Whether AES-128-CBC decryption with PKCS#7 unpadding accepts the
/// key, IV and ciphertext: the key and IV must be the right length
/// and the padding must check out, all functions of the arguments.
pub uninterp spec fn aes_cbc_ok(key: Seq<u8>, iv: Seq<u8>, ct: Seq<u8>) -> bool;

/// The plaintext AES-128-CBC decryption yields, a function of the
/// key, IV and ciphertext alone.
pub uninterp spec fn aes_cbc_plain(key: Seq<u8>, iv: Seq<u8>, ct: Seq<u8>) -> Seq<u8>;

/// Relies on cbc::Decryptor over aes::Aes128 with PKCS#7 unpadding:
/// whether decryption succeeds, and its plaintext, depend on the
/// key, the IV and the ciphertext alone.
#[verifier::external_body]
fn aes128_cbc_decrypt(key: &Vec<u8>, iv: &Vec<u8>, ct: &Vec<u8>) -> (r: Option<Vec<u8>>)
    ensures
        r is Some <==> aes_cbc_ok(key@, iv@, ct@),
        r is Some ==> r->Some_0@ == aes_cbc_plain(key@, iv@, ct@),
{
    let dec = match cbc::Decryptor::<aes::Aes128>::new_from_slices(key, iv) {
        Ok(d) => d,
        Err(_) => return None,
    };
    match dec.decrypt_padded_vec::<Pkcs7>(ct) {
        Ok(pt) => Some(pt),
        Err(_) => None,
    }
}

/// The plaintext bytes of an encrypted feature payload: the part
/// before the first dot is the base64 IV, the rest the base64
/// ciphertext, and the key decodes from base64 too; nothing when any
/// part is malformed or decryption rejects it.
pub open spec fn spec_decrypt_features(payload: Seq<char>, key_b64: Seq<char>) -> Option<Seq<u8>> {
    let d = spec_first_dot(payload);
    if d < 0 || d >= payload.len() {
        None
    } else {
        let iv_s = payload.take(d);
        let ct_s = payload.skip(d + 1);
        if b64_ok(key_b64) && b64_ok(iv_s) && b64_ok(ct_s) {
            let key = b64_bytes(key_b64);
            let iv = b64_bytes(iv_s);
            let ct = b64_bytes(ct_s);
            if aes_cbc_ok(key, iv, ct) {
                Some(aes_cbc_plain(key, iv, ct))
            } else {
                None
            }
        } else {
            None
        }
    }
}

/// Decrypts an `{iv}.{ciphertext}` payload with a base64 AES-128
/// key, yielding the plaintext bytes of the features document.
pub fn decrypt_features(payload: &str, key_b64: &str) -> (r: Option<Vec<u8>>)
    ensures
        match spec_decrypt_features(payload@, key_b64@) {
            Some(pt) => r is Some && r->Some_0@ == pt,
            None => r is None,
        },
{
    proof {
        lemma_first_dot_props(payload@);
    }
    let d = match first_dot(payload) {
        Some(d) => d,
        None => {
            return None;
        },
    };
    let n = payload.unicode_len();
    let iv_s = payload.substring_char(0, d);
    let ct_s = payload.substring_char(d + 1, n);
    proof {
        assert(payload@.subrange(0, d as int) =~= payload@.take(d as int));
        assert(payload@.subrange(d as int + 1, n as int) =~= payload@.skip(d as int + 1));
    }
    let key = match base64_decode(key_b64) {
        Some(k) => k,
        None => {
            return None;
        },
    };
    let iv = match base64_decode(iv_s) {
        Some(v) => v,
        None => {
            return None;
        },
    };
    let ct = match base64_decode(ct_s) {
        Some(c) => c,
        None => {
            return None;
        },
    };
    aes128_cbc_decrypt(&key, &iv, &ct)
}

} // verus!
