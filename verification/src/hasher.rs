//! Content addresses: the SHA-256 digest, in lower-case hexadecimal, of a
//! blob's path bytes followed by its content bytes.
//!
//! The path takes part in the digest, so the same text under another path has
//! another preimage.

use vstd::prelude::*;
use vstd::string::StrSliceExecFns;
use vstd::utf8::{decode_utf8, encode_utf8, encode_utf8_decode_utf8};

verus! {

/// Bytes that can be hashed at once, at most: SHA-256 counts the bits of its
/// input in 64 bits.
pub const MAX_HASHED_BYTES: u64 = 0x1fff_ffff_ffff_ffff;

/// The SHA-256 digest of `data`.
pub uninterp spec fn sha256(data: Seq<u8>) -> Seq<u8>;

/// The blob is short enough to be hashed.
pub open spec fn hashable(path: Seq<char>, content: Seq<char>) -> bool {
    encode_utf8(path).len() + encode_utf8(content).len() <= MAX_HASHED_BYTES
}

/// The lower-case hexadecimal digit for `d < 16`.
pub open spec fn hex_digit(d: int) -> char {
    if d == 0 {
        '0'
    } else if d == 1 {
        '1'
    } else if d == 2 {
        '2'
    } else if d == 3 {
        '3'
    } else if d == 4 {
        '4'
    } else if d == 5 {
        '5'
    } else if d == 6 {
        '6'
    } else if d == 7 {
        '7'
    } else if d == 8 {
        '8'
    } else if d == 9 {
        '9'
    } else if d == 10 {
        'a'
    } else if d == 11 {
        'b'
    } else if d == 12 {
        'c'
    } else if d == 13 {
        'd'
    } else if d == 14 {
        'e'
    } else {
        'f'
    }
}

/// Two lower-case hexadecimal digits for each byte, the high half first.
pub open spec fn hex_lower(data: Seq<u8>) -> Seq<char> {
    Seq::new(
        2 * data.len(),
        |i: int|
            if i % 2 == 0 {
                hex_digit(data[i / 2] as int / 16)
            } else {
                hex_digit(data[i / 2] as int % 16)
            },
    )
}

/// The bytes that are hashed for a blob: its path, then its content, both in
/// UTF-8.
pub open spec fn address_input(path: Seq<char>, content: Seq<char>) -> Seq<u8> {
    encode_utf8(path) + encode_utf8(content)
}

/// The content address of a blob.
pub open spec fn blob_address(path: Seq<char>, content: Seq<char>) -> Seq<char> {
    hex_lower(sha256(address_input(path, content)))
}

/// `ring::digest::digest` with the algorithm `SHA256`, which takes no more
/// than `MAX_HASHED_BYTES` bytes. Believed of it: the result is the SHA-256
/// digest of `data`, which depends on `data` alone and has 32 bytes.
#[verifier::external_body]
fn sha256_digest(data: &Vec<u8>) -> (out: Vec<u8>)
    requires
        data@.len() <= MAX_HASHED_BYTES,
    ensures
        out@ == sha256(data@),
        out@.len() == 32,
{
    ring::digest::digest(&ring::digest::SHA256, data.as_slice()).as_ref().to_vec()
}

/// `hex::encode`. Believed of it: each byte becomes two lower-case
/// hexadecimal digits, the high half first.
#[verifier::external_body]
fn hex_encode(data: &Vec<u8>) -> (out: String)
    ensures
        out@ == hex_lower(data@),
{
    hex::encode(data)
}

/// Whether the blob `(path, content)` is short enough to be hashed.
pub fn is_hashable(path: &str, content: &str) -> (r: bool)
    ensures
        r == hashable(path@, content@),
{
    let p: u128 = path.as_bytes().len() as u128;
    let c: u128 = content.as_bytes().len() as u128;
    p + c <= MAX_HASHED_BYTES as u128
}

/// The content address of the blob `(path, content)`.
pub fn sha256_hex(path: &str, content: &str) -> (address: String)
    requires
        hashable(path@, content@),
    ensures
        address@ == blob_address(path@, content@),
        address@.len() == 64,
{
    let mut bytes: Vec<u8> = path.as_bytes_vec();
    let mut tail: Vec<u8> = content.as_bytes_vec();
    bytes.append(&mut tail);
    let digest = sha256_digest(&bytes);
    hex_encode(&digest)
}

/// The same content under two different paths is hashed from two different
/// byte strings.
pub proof fn lemma_rename_changes_hashed_bytes(
    path: Seq<char>,
    other_path: Seq<char>,
    content: Seq<char>,
)
    requires
        path != other_path,
    ensures
        address_input(path, content) != address_input(other_path, content),
{
    let a = encode_utf8(path);
    let b = encode_utf8(other_path);
    let c = encode_utf8(content);
    if a + c == b + c {
        assert(a.len() == b.len()) by {
            assert((a + c).len() == a.len() + c.len());
            assert((b + c).len() == b.len() + c.len());
        }
        assert(a =~= (a + c).subrange(0, a.len() as int));
        assert(b =~= (b + c).subrange(0, b.len() as int));
        encode_utf8_decode_utf8(path);
        encode_utf8_decode_utf8(other_path);
        assert(decode_utf8(a) == path);
        assert(decode_utf8(b) == other_path);
    }
}

/// SHA-256 tells the byte strings `a` and `b` apart: what is asked of it
/// where it is taken as free of collisions.
pub open spec fn no_collision(a: Seq<u8>, b: Seq<u8>) -> bool {
    a != b ==> sha256(a) != sha256(b)
}

/// Different bytes have different digits.
pub proof fn lemma_hex_lower_injective(a: Seq<u8>, b: Seq<u8>)
    requires
        hex_lower(a) == hex_lower(b),
    ensures
        a == b,
{
    assert(hex_lower(a).len() == 2 * a.len());
    assert(hex_lower(b).len() == 2 * b.len());
    assert forall|i: int| 0 <= i < a.len() implies a[i] == b[i] by {
        let x = a[i] as int;
        let y = b[i] as int;
        assert(hex_lower(a)[2 * i] == hex_digit(x / 16));
        assert(hex_lower(b)[2 * i] == hex_digit(y / 16));
        assert(hex_lower(a)[2 * i + 1] == hex_digit(x % 16));
        assert(hex_lower(b)[2 * i + 1] == hex_digit(y % 16));
        assert(0 <= x / 16 < 16 && 0 <= y / 16 < 16);
        assert(0 <= x % 16 < 16 && 0 <= y % 16 < 16);
        assert(x / 16 == y / 16);
        assert(x % 16 == y % 16);
    }
    assert(a =~= b);
}

/// The same content under two different paths has two different addresses,
/// SHA-256 taken as free of collisions on the two byte strings that are
/// hashed: a file that was renamed or moved is not known by its old address.
pub proof fn lemma_rename_changes_address(
    path: Seq<char>,
    other_path: Seq<char>,
    content: Seq<char>,
)
    requires
        path != other_path,
        no_collision(address_input(path, content), address_input(other_path, content)),
    ensures
        blob_address(path, content) != blob_address(other_path, content),
{
    lemma_rename_changes_hashed_bytes(path, other_path, content);
    if blob_address(path, content) == blob_address(other_path, content) {
        lemma_hex_lower_injective(
            sha256(address_input(path, content)),
            sha256(address_input(other_path, content)),
        );
    }
}

/// The address of a blob is made of its path and its content and of nothing
/// else: a file whose path and bytes are what they were has the address that
/// it had, whenever it was last written.
pub proof fn lemma_same_bytes_same_address(
    path: Seq<char>,
    content: Seq<char>,
    later_path: Seq<char>,
    later_content: Seq<char>,
)
    requires
        path == later_path,
        content == later_content,
    ensures
        blob_address(path, content) == blob_address(later_path, later_content),
        blob_address(path, content).len() == 2 * sha256(address_input(path, content)).len(),
{
}

} // verus!
