use vstd::prelude::*;

verus! {

use vstd::string::StringSliceAdditionalSpecFns;
use vstd::string::StrSliceExecFns;
use vstd::string::StringExecFns;
use crate::text::{spec_dec_nat, u64_to_string};

/// Offset basis of the 32-bit FNV-1a hash.
pub const FNV_OFFSET: u32 = 2166136261;

/// Prime of the 32-bit FNV-1a hash.
pub const FNV_PRIME: u32 = 16777619;

/// Number of fixed-point units in one whole bucket, so that a bucket
/// in `[0, 1)` is an integer in `[0, 1000000)`.
pub const BUCKET_SCALE: u32 = 1000000;

/// One round of FNV-1a: fold a byte in, multiply modulo `2^32`.
pub open spec fn spec_fnv1a_step(h: u32, b: u8) -> u32 {
    ((((h ^ (b as u32)) as int) * (FNV_PRIME as int)) % 0x100000000) as u32
}

/// The 32-bit FNV-1a hash of the remaining bytes, folded onto `h`.
pub open spec fn spec_fnv1a_from(bytes: Seq<u8>, h: u32) -> u32
    decreases bytes.len(),
{
    if bytes.len() == 0 {
        h
    } else {
        spec_fnv1a_from(bytes.skip(1), spec_fnv1a_step(h, bytes[0]))
    }
}

/// The 32-bit FNV-1a hash of a byte sequence.
pub open spec fn spec_fnv1a(bytes: Seq<u8>) -> u32 {
    spec_fnv1a_from(bytes, FNV_OFFSET)
}

/// Bucket of hash version 1: FNV-1a of `value + seed`, reduced to
/// thousandths, expressed in bucket units.
pub open spec fn spec_hash_v1(value: Seq<char>, seed: Seq<char>) -> int {
    (spec_fnv1a(vstd::utf8::encode_utf8(value + seed)) as int % 1000) * 1000
}

/// Bucket of hash version 2: FNV-1a of `seed + value`, hashed again
/// through its decimal form, reduced to ten-thousandths.
pub open spec fn spec_hash_v2(value: Seq<char>, seed: Seq<char>) -> int {
    let inner = spec_fnv1a(vstd::utf8::encode_utf8(seed + value));
    let outer = spec_fnv1a(vstd::utf8::encode_utf8(spec_dec_nat(inner as nat)));
    (outer as int % 10000) * 100
}

/// Bucket for a hash version; an unknown version yields no bucket and
/// the caller treats the user as unmatched.
pub open spec fn spec_hash(value: Seq<char>, seed: Seq<char>, version: int) -> Option<int> {
    if version == 1 {
        Some(spec_hash_v1(value, seed))
    } else if version == 2 {
        Some(spec_hash_v2(value, seed))
    } else {
        None
    }
}

/// The 32-bit FNV-1a hash of the given bytes.
#[verifier::loop_isolation(false)]
pub fn fnv1a(bytes: &Vec<u8>) -> (r: u32)
    ensures
        r == spec_fnv1a(bytes@),
{
    let mut h: u32 = FNV_OFFSET;
    let mut i: usize = 0;
    proof {
        assert(bytes@.skip(0) =~= bytes@);
    }
    while i < bytes.len()
        invariant
            i <= bytes@.len(),
            spec_fnv1a_from(bytes@.skip(i as int), h) == spec_fnv1a(bytes@),
        decreases bytes@.len() - i,
    {
        proof {
            assert(bytes@.skip(i as int)[0] == bytes@[i as int]);
            assert(bytes@.skip(i as int).skip(1) =~= bytes@.skip(i as int + 1));
        }
        let x: u32 = h ^ (bytes[i] as u32);
        let prod: u64 = (x as u64) * (FNV_PRIME as u64);
        h = (prod % 0x100000000u64) as u32;
        i += 1;
    }
    proof {
        assert(bytes@.skip(bytes@.len() as int) =~= Seq::<u8>::empty());
    }
    h
}

/// The FNV-1a hash of a string's UTF-8 bytes.
pub fn fnv1a_str(s: &str) -> (r: u32)
    ensures
        r == spec_fnv1a(vstd::utf8::encode_utf8(s@)),
{
    let bytes = s.as_bytes_vec();
    fnv1a(&bytes)
}

/// Bucket in `[0, 1000000)` for a user value, a seed and a hash
/// version; `None` for a version the hasher does not know, which the
/// caller treats as "no match".
pub fn hash_code(value: &str, seed: &str, version: i64) -> (r: Option<u32>)
    ensures
        match spec_hash(value@, seed@, version as int) {
            Some(b) => r == Some(b as u32),
            None => r is None,
        },
        r is Some ==> (r->Some_0 as int) < 1000000,
{
    if version == 1 {
        let mut joined = String::from_str(value);
        joined.append(seed);
        let h = fnv1a_str(joined.as_str());
        Some((h % 1000) * 1000)
    } else if version == 2 {
        let mut joined = String::from_str(seed);
        joined.append(value);
        let inner = fnv1a_str(joined.as_str());
        let dec = u64_to_string(inner as u64);
        let outer = fnv1a_str(dec.as_str());
        Some((outer % 10000) * 100)
    } else {
        None
    }
}

} // verus!
