//! Where the host of a group listens: a unix socket whose name is the SHA3-256 hash of
//! the group's name, in lowercase hex.
use vstd::prelude::*;
use vstd::string::StringExecFns;
use vstd::string::StringSliceAdditionalSpecFns;

verus! {

/// The SHA3-256 digest of `data`.
pub uninterp spec fn sha3_256(data: Seq<u8>) -> Seq<u8>;

/// `<sha3::Sha3_256 as Digest>::digest`, which hashes `data` in one go (as `new`,
/// `update` and `finalize` do in turn). Claimed: the digest is `sha3_256` of the bytes,
/// and it is 32 bytes long (the output type of `Sha3_256` is a 32-byte array).
#[verifier::external_body]
fn sha3_256_digest(data: &[u8]) -> (r: Vec<u8>)
    ensures
        r@ == sha3_256(data@),
        r@.len() == 32,
{
    <sha3::Sha3_256 as sha3::Digest>::digest(data).to_vec()
}

/// The lowercase hex digit for a value below 16.
pub open spec fn hex_digit(d: u8) -> char {
    if d < 10 {
        (48 + d) as char
    } else {
        (97 + d - 10) as char
    }
}

/// `bytes` in lowercase hex: two digits per byte, the high half first.
pub open spec fn hex_lower(bytes: Seq<u8>) -> Seq<char>
    decreases bytes.len(),
{
    if bytes.len() == 0 {
        Seq::empty()
    } else {
        seq![hex_digit(bytes[0] / 16), hex_digit(bytes[0] % 16)] + hex_lower(bytes.drop_first())
    }
}

/// Two hex digits per byte.
pub proof fn lemma_hex_lower_len(bytes: Seq<u8>)
    ensures
        hex_lower(bytes).len() == 2 * bytes.len(),
    decreases bytes.len(),
{
    if bytes.len() > 0 {
        lemma_hex_lower_len(bytes.drop_first());
    }
}

/// `hex::encode`: claimed to give `hex_lower` of the bytes, as its source does with
/// the table `0123456789abcdef`, high half of each byte first.
#[verifier::external_body]
fn hex_encode(data: &[u8]) -> (r: String)
    ensures
        r@ == hex_lower(data@),
{
    hex::encode(data)
}

/// The path of the socket of the group `group_name`.
pub fn socket_path(group_name: &str) -> (path: String)
    ensures
        path@ == "/tmp/"@ + hex_lower(sha3_256(group_name.spec_bytes())) + ".sock"@,
        path@.len() == 74,
{
    let hash = sha3_256_digest(group_name.as_bytes());
    let hex = hex_encode(hash.as_slice());
    let mut path = String::from_str("/tmp/");
    path.append(hex.as_str());
    path.append(".sock");
    proof {
        lemma_hex_lower_len(hash@);
        reveal_strlit("/tmp/");
        reveal_strlit(".sock");
    }
    path
}

} // verus!
