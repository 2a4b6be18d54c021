use sha2::Digest;
use vstd::prelude::*;
use vstd::string::StringSliceAdditionalSpecFns;

verus! {

/// The SHA-256 digest of a byte sequence.
pub uninterp spec fn sha256_of(data: Seq<u8>) -> Seq<u8>;

/// The lowercase hexadecimal digit for a value below 16.
pub open spec fn hex_digit(n: int) -> char {
    seq!['0', '1', '2', '3', '4', '5', '6', '7', '8', '9', 'a', 'b', 'c', 'd', 'e', 'f'][n]
}

/// Lowercase hexadecimal text of a byte sequence: two digits per byte, high half first.
pub open spec fn hex_lower(b: Seq<u8>) -> Seq<char> {
    Seq::new(
        2 * b.len(),
        |i: int|
            if i % 2 == 0 {
                hex_digit(b[i / 2] as int / 16)
            } else {
                hex_digit(b[i / 2] as int % 16)
            },
    )
}

/// The content hash of a byte sequence: its SHA-256 digest in lowercase hex.
pub open spec fn hash_text(b: Seq<u8>) -> Seq<char> {
    hex_lower(sha256_of(b))
}

/// Relies on sha2::Sha256::digest: the SHA-256 digest of the input, which is 32 bytes long.
#[verifier::external_body]
fn sha256_digest(data: &[u8]) -> (r: Vec<u8>)
    ensures
        r@ == sha256_of(data@),
        r@.len() == 32,
{
    sha2::Sha256::digest(data).to_vec()
}

/// Relies on hex::encode: two lowercase hex digits per byte, high half first.
#[verifier::external_body]
pub(crate) fn hex_encode(b: &[u8]) -> (r: String)
    ensures
        r@ == hex_lower(b@),
{
    hex::encode(b)
}

/// The text of a content hash.
pub(crate) fn digest_hex(data: &[u8]) -> (r: String)
    ensures
        r@ == hash_text(data@),
        r@.len() == 64,
{
    let d = sha256_digest(data);
    hex_encode(d.as_slice())
}

/// The decimal digits of a number, as ASCII bytes, most significant first.
pub open spec fn decimal_text(n: nat) -> Seq<u8>
    decreases n,
{
    if n < 10 {
        seq![(48 + n) as u8]
    } else {
        decimal_text(n / 10) + seq![(48 + n % 10) as u8]
    }
}

pub(crate) fn decimal_bytes(n: u64) -> (r: Vec<u8>)
    ensures
        r@ == decimal_text(n as nat),
    decreases n,
{
    if n < 10 {
        let mut r: Vec<u8> = Vec::new();
        r.push((48 + n) as u8);
        assert(r@ =~= decimal_text(n as nat));
        r
    } else {
        let mut r = decimal_bytes(n / 10);
        r.push((48 + n % 10) as u8);
        r
    }
}

/// The header hashed in front of file content: `blob <length>` and a zero byte.
pub open spec fn blob_header(len: nat) -> Seq<u8> {
    seq![98u8, 108u8, 111u8, 98u8, 32u8] + decimal_text(len) + seq![0u8]
}

pub fn hash_bytes(data: &[u8]) -> (r: crate::objects::Hash)
    ensures
        r@ == hash_text(data@),
{
    crate::objects::Hash::new(data)
}

pub fn hash_string(data: &str) -> (r: crate::objects::Hash)
    ensures
        r@ == hash_text(data.spec_bytes()),
{
    crate::objects::Hash::new(data.as_bytes())
}

/// The hash of file content framed by its header, as a version-control blob id.
pub fn hash_file_content(content: &[u8]) -> (r: crate::objects::Hash)
    ensures
        r@ == hash_text(blob_header(content@.len()) + content@),
        r@.len() == 64,
{
    let mut data: Vec<u8> = Vec::new();
    data.push(98u8);
    data.push(108u8);
    data.push(111u8);
    data.push(98u8);
    data.push(32u8);
    let digits = decimal_bytes(content.len() as u64);
    data.extend_from_slice(digits.as_slice());
    data.push(0u8);
    data.extend_from_slice(content);
    assert(data@ =~= blob_header(content@.len()) + content@);
    crate::objects::Hash::from_string(digest_hex(data.as_slice()))
}

pub(crate) proof fn lemma_hex_digit_injective(m: int, n: int)
    requires
        0 <= m < 16,
        0 <= n < 16,
        hex_digit(m) == hex_digit(n),
    ensures
        m == n,
{
}

proof fn lemma_byte_from_halves(x: u8, y: u8)
    requires
        x / 16 == y / 16,
        x % 16 == y % 16,
    ensures
        x == y,
{
    assert(x == 16 * (x / 16) + x % 16) by (nonlinear_arith);
    assert(y == 16 * (y / 16) + y % 16) by (nonlinear_arith);
}

/// Lowercase hex text determines the bytes it was made from.
pub proof fn lemma_hex_lower_injective(a: Seq<u8>, b: Seq<u8>)
    requires
        hex_lower(a) == hex_lower(b),
    ensures
        a == b,
{
    assert(hex_lower(a).len() == 2 * a.len());
    assert(hex_lower(b).len() == 2 * b.len());
    assert(a.len() == b.len());
    assert forall|k: int| 0 <= k < a.len() implies a[k] == b[k] by {
        assert((2 * k) % 2 == 0 && (2 * k) / 2 == k);
        assert((2 * k + 1) % 2 == 1 && (2 * k + 1) / 2 == k);
        assert(hex_lower(a)[2 * k] == hex_lower(b)[2 * k]);
        assert(hex_lower(a)[2 * k + 1] == hex_lower(b)[2 * k + 1]);
        assert(hex_lower(a)[2 * k] == hex_digit(a[k] as int / 16));
        assert(hex_lower(b)[2 * k] == hex_digit(b[k] as int / 16));
        assert(hex_lower(a)[2 * k + 1] == hex_digit(a[k] as int % 16));
        assert(hex_lower(b)[2 * k + 1] == hex_digit(b[k] as int % 16));
        lemma_hex_digit_injective(a[k] as int / 16, b[k] as int / 16);
        lemma_hex_digit_injective(a[k] as int % 16, b[k] as int % 16);
        lemma_byte_from_halves(a[k], b[k]);
    }
    assert(a =~= b);
}

/// Hashing is deterministic: equal content has equal hashes, and two hashes
/// are equal exactly when the SHA-256 digests they encode are equal.
pub proof fn lemma_hash_deterministic(b1: Seq<u8>, b2: Seq<u8>)
    ensures
        b1 == b2 ==> hash_text(b1) == hash_text(b2),
        hash_text(b1) == hash_text(b2) <==> sha256_of(b1) == sha256_of(b2),
{
    if hash_text(b1) == hash_text(b2) {
        lemma_hex_lower_injective(sha256_of(b1), sha256_of(b2));
    }
}

} // verus!
