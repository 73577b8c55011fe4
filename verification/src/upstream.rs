//! The calls into the outside world: hashing and entropy through the uuid
//! crate, string growth through std. Each function here is trusted: its
//! contract states what the called code does, and nothing else in the
//! crate is taken on faith.

use vstd::prelude::*;

verus! {

/// Relies on String::push: appends the given character to the end of the
/// string.
#[verifier::external_body]
pub(crate) fn push_char(s: &mut String, c: char)
    ensures
        final(s)@ == old(s)@.push(c),
{
    s.push(c);
}

/// The 16 bytes of the version-3 identifier that the uuid crate derives
/// from a 16-byte namespace and a name: the first 16 bytes of the MD5
/// digest of namespace followed by name, with the version nibble and the
/// variant bits overwritten. A fixed function of its arguments.
pub uninterp spec fn md5_uuid_bytes(ns: Seq<u8>, name: Seq<u8>) -> Seq<u8>;

/// As `md5_uuid_bytes`, for version 5 and the SHA-1 digest.
pub uninterp spec fn sha1_uuid_bytes(ns: Seq<u8>, name: Seq<u8>) -> Seq<u8>;

/// Relies on uuid::Uuid::new_v3: hashes the namespace bytes followed by
/// the UTF-8 bytes of the name with MD5, keeps 16 bytes, and sets the
/// version nibble to 3 and the variant bits to `10`.
#[verifier::external_body]
pub(crate) fn v3_bytes(ns: &Vec<u8>, name: &str) -> (r: Vec<u8>)
    requires
        ns@.len() == 16,
    ensures
        r@ == md5_uuid_bytes(ns@, vstd::utf8::encode_utf8(name@)),
        r@.len() == 16,
        r@[6] / 16 == 3,
        r@[8] / 64 == 2,
{
    let mut b = [0u8; 16];
    b.copy_from_slice(ns.as_slice());
    uuid::Uuid::new_v3(&uuid::Uuid::from_bytes(b), name.as_bytes()).into_bytes().to_vec()
}

/// Relies on uuid::Uuid::new_v5: as `v3_bytes`, with SHA-1 and version 5.
#[verifier::external_body]
pub(crate) fn v5_bytes(ns: &Vec<u8>, name: &str) -> (r: Vec<u8>)
    requires
        ns@.len() == 16,
    ensures
        r@ == sha1_uuid_bytes(ns@, vstd::utf8::encode_utf8(name@)),
        r@.len() == 16,
        r@[6] / 16 == 5,
        r@[8] / 64 == 2,
{
    let mut b = [0u8; 16];
    b.copy_from_slice(ns.as_slice());
    uuid::Uuid::new_v5(&uuid::Uuid::from_bytes(b), name.as_bytes()).into_bytes().to_vec()
}

/// Relies on uuid::Uuid::new_v4: 16 bytes from a cryptographically strong
/// random source, with the version nibble forced to 4 and the variant bits
/// to `10`. Nothing else can be said of a random result.
#[verifier::external_body]
pub(crate) fn v4_bytes() -> (r: Vec<u8>)
    ensures
        r@.len() == 16,
        r@[6] / 16 == 4,
        r@[8] / 64 == 2,
{
    uuid::Uuid::new_v4().into_bytes().to_vec()
}

/// Relies on uuid::Uuid::now_v1: a version-1 identifier built from the
/// system clock, a process-wide clock-sequence counter, and the given node
/// id. The source places the node id in the last six bytes, the version
/// nibble 1 in byte 6, and the variant bits `10` in byte 8; the timestamp
/// bytes depend on the clock and cannot be pinned further.
#[verifier::external_body]
pub(crate) fn v1_bytes(node: &[u8; 6]) -> (r: Vec<u8>)
    ensures
        r@.len() == 16,
        r@[6] / 16 == 1,
        r@[8] / 64 == 2,
        r@.subrange(10, 16) == node@,
{
    uuid::Uuid::now_v1(node).into_bytes().to_vec()
}

/// Relies on uuid::Uuid::now_v6: as `v1_bytes`, with the timestamp fields
/// reordered most-significant-first and the version nibble 6.
#[verifier::external_body]
pub(crate) fn v6_bytes(node: &[u8; 6]) -> (r: Vec<u8>)
    ensures
        r@.len() == 16,
        r@[6] / 16 == 6,
        r@[8] / 64 == 2,
        r@.subrange(10, 16) == node@,
{
    uuid::Uuid::now_v6(node).into_bytes().to_vec()
}

/// Relies on uuid::Uuid::now_v7: 48 bits of Unix milliseconds, then
/// counter and random bits, with the version nibble 7 and the variant bits
/// `10`. The timestamp and random bytes depend on the clock and on
/// entropy and cannot be pinned further.
#[verifier::external_body]
pub(crate) fn v7_bytes() -> (r: Vec<u8>)
    ensures
        r@.len() == 16,
        r@[6] / 16 == 7,
        r@[8] / 64 == 2,
{
    uuid::Uuid::now_v7().into_bytes().to_vec()
}

} // verus!
