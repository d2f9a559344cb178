//! Transaction identifiers: the lowercase hexadecimal SHA-256 digest of a
//! record's fields and its creation timestamp.

use crate::text::{decimal_digits, decimal_string};
use vstd::prelude::*;
use vstd::string::{StrSliceExecFns, StringExecFns};
use vstd::utf8::encode_utf8;

verus! {

/// The SHA-256 digest of a byte string.
pub uninterp spec fn sha256_digest(data: Seq<u8>) -> Seq<u8>;

/// Wraps `near_sdk::env::sha256`, which hashes its argument with SHA-256 and
/// hands the digest back as a vector. The contract names that digest and
/// claims its length, 32 bytes, as the function's source has it (it copies
/// a 32-byte array).
#[verifier::external_body]
pub(crate) fn sha256(data: &Vec<u8>) -> (r: Vec<u8>)
    ensures
        r@ == sha256_digest(data@),
        r@.len() == 32,
{
    near_sdk::env::sha256(data)
}

/// The lowercase hexadecimal digit of a value below 16.
pub open spec fn hex_char(v: nat) -> char {
    if v < 10 {
        crate::text::digit_char(v)
    } else if v == 10 {
        'a'
    } else if v == 11 {
        'b'
    } else if v == 12 {
        'c'
    } else if v == 13 {
        'd'
    } else if v == 14 {
        'e'
    } else {
        'f'
    }
}

/// Two lowercase hexadecimal digits per byte, high half first.
pub open spec fn hex_lower(bytes: Seq<u8>) -> Seq<char> {
    Seq::new(
        2 * bytes.len(),
        |i: int|
            if i % 2 == 0 {
                hex_char((bytes[i / 2] / 16) as nat)
            } else {
                hex_char((bytes[i / 2] % 16) as nat)
            },
    )
}

/// Different byte strings are written differently.
pub proof fn lemma_hex_lower_injective(a: Seq<u8>, b: Seq<u8>)
    requires
        hex_lower(a) == hex_lower(b),
    ensures
        a == b,
{
    assert(hex_lower(a).len() == 2 * a.len());
    assert(hex_lower(b).len() == 2 * b.len());
    assert forall|i: int| 0 <= i < a.len() implies a[i] == b[i] by {
        assert(hex_lower(a)[2 * i] == hex_char((a[i] / 16) as nat));
        assert(hex_lower(b)[2 * i] == hex_char((b[i] / 16) as nat));
        assert(hex_lower(a)[2 * i + 1] == hex_char((a[i] % 16) as nat));
        assert(hex_lower(b)[2 * i + 1] == hex_char((b[i] % 16) as nat));
    }
    assert(a =~= b);
}

/// Wraps `hex::encode`, which by its documentation writes each byte as two
/// lowercase hexadecimal digits, in order. The contract claims exactly
/// that.
#[verifier::external_body]
pub(crate) fn hex_encode(data: &Vec<u8>) -> (r: String)
    ensures
        r@ == hex_lower(data@),
{
    hex::encode(data)
}

/// The text whose UTF-8 bytes are hashed into a transaction identifier:
/// the four fields and the decimal timestamp, one after the other. Nothing
/// stands between them, so two tuples that differ in more than one input
/// may give the same text.
pub open spec fn id_preimage(
    group_id: Seq<char>,
    user_id: Seq<char>,
    file_hash: Seq<char>,
    ipfs_hash: Seq<char>,
    timestamp: u64,
) -> Seq<char> {
    group_id + user_id + file_hash + ipfs_hash + decimal_digits(timestamp as nat)
}

/// The identifier of the record with these fields, created at `timestamp`.
pub open spec fn transaction_id_of(
    group_id: Seq<char>,
    user_id: Seq<char>,
    file_hash: Seq<char>,
    ipfs_hash: Seq<char>,
    timestamp: u64,
) -> Seq<char> {
    hex_lower(sha256_digest(id_preimage_of(group_id, user_id, file_hash, ipfs_hash, timestamp)))
}

/// The bytes that are hashed into the identifier of a record.
pub open spec fn id_preimage_of(
    group_id: Seq<char>,
    user_id: Seq<char>,
    file_hash: Seq<char>,
    ipfs_hash: Seq<char>,
    timestamp: u64,
) -> Seq<u8> {
    encode_utf8(id_preimage(group_id, user_id, file_hash, ipfs_hash, timestamp))
}

/// The bytes that are hashed for a record.
pub fn id_preimage_bytes(
    group_id: &String,
    user_id: &String,
    file_hash: &String,
    ipfs_hash: &String,
    timestamp: u64,
) -> (r: Vec<u8>)
    ensures
        r@ == id_preimage_of(group_id@, user_id@, file_hash@, ipfs_hash@, timestamp),
{
    let stamp = decimal_string(timestamp);
    let text = group_id.clone().concat(user_id.as_str()).concat(file_hash.as_str()).concat(
        ipfs_hash.as_str(),
    ).concat(stamp.as_str());
    text.as_str().as_bytes_vec()
}

/// Writes a digest as a transaction identifier.
pub fn id_from_digest(digest: &Vec<u8>) -> (r: String)
    ensures
        r@ == hex_lower(digest@),
        r@.len() == 2 * digest@.len(),
{
    hex_encode(digest)
}

/// Computes the identifier of a record: a pure function of its fields and
/// of the timestamp.
pub fn transaction_id(
    group_id: &String,
    user_id: &String,
    file_hash: &String,
    ipfs_hash: &String,
    timestamp: u64,
) -> (r: String)
    ensures
        r@ == transaction_id_of(group_id@, user_id@, file_hash@, ipfs_hash@, timestamp),
        r@.len() == 64,
{
    let bytes = id_preimage_bytes(group_id, user_id, file_hash, ipfs_hash, timestamp);
    let digest = sha256(&bytes);
    id_from_digest(&digest)
}

} // verus!
