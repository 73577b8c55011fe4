//! The six generation operations, one per identifier version, and the
//! failures the two name-based ones can report. Each operation returns the
//! canonical 36-character text; its contract pins the version character,
//! the variant character, and — for the name-based versions — the whole
//! result as a function of namespace and name.

use vstd::prelude::*;
use crate::canonical::bytes_of_text;
use crate::canonical::canonical_text;
use crate::canonical::format_bytes;
use crate::canonical::is_canonical;
use crate::canonical::is_uuid_text;
use crate::canonical::is_variant_char;
use crate::canonical::lemma_node_tail;
use crate::canonical::lemma_version_variant_chars;
use crate::canonical::nibble_char;
use crate::canonical::node_text;
use crate::canonical::parse_text;
use crate::upstream::md5_uuid_bytes;
use crate::upstream::sha1_uuid_bytes;
use crate::upstream::v1_bytes;
use crate::upstream::v3_bytes;
use crate::upstream::v4_bytes;
use crate::upstream::v5_bytes;
use crate::upstream::v6_bytes;
use crate::upstream::v7_bytes;
use vstd::utf8::encode_utf8;

verus! {

/// A failure of one of the name-based operations.
#[derive(Clone, Copy, Debug, PartialEq, Eq, Structural)]
pub enum GenError {
    /// Fewer than the required two arguments were supplied.
    ArityError,
    /// A required argument was not text.
    TypeError,
    /// The namespace argument is not a well-formed identifier text.
    MalformedNamespaceError,
}

impl GenError {
    /// A short human-readable account of the failure.
    pub fn describe(&self) -> (s: String)
        ensures
            self is ArityError ==> s@ == "expected two arguments: a namespace identifier and a name"@,
            self is TypeError ==> s@ == "expected text arguments"@,
            self is MalformedNamespaceError ==> s@
                == "the namespace is not a well-formed identifier"@,
    {
        match self {
            GenError::ArityError => "expected two arguments: a namespace identifier and a name".to_owned(),
            GenError::TypeError => "expected text arguments".to_owned(),
            GenError::MalformedNamespaceError => "the namespace is not a well-formed identifier".to_owned(),
        }
    }
}

/// The placeholder node id used when no hardware address is available.
pub open spec fn placeholder_node() -> Seq<u8> {
    seq![0x01u8, 0x02u8, 0x03u8, 0x04u8, 0x05u8, 0x06u8]
}

/// What the contracts of the four argument-free operations share: the
/// canonical grammar, the version character at position 14, and a variant
/// character at position 19.
pub open spec fn well_formed_output(s: Seq<char>, version: u8) -> bool {
    &&& is_canonical(s)
    &&& s[14] == nibble_char(version)
    &&& is_variant_char(s[19])
}

/// Time-based identifier with the given six-byte node id: version 1.
pub fn generate_v1_with_node(node: &[u8; 6]) -> (s: String)
    ensures
        well_formed_output(s@, 1),
        s@.subrange(24, 36) == node_text(node@),
{
    let b = v1_bytes(node);
    proof {
        lemma_version_variant_chars(b@);
        lemma_node_tail(b@);
    }
    format_bytes(&b)
}

/// Time-based identifier with the placeholder node id: version 1.
pub fn generate_v1() -> (s: String)
    ensures
        well_formed_output(s@, 1),
        s@.subrange(24, 36) == node_text(placeholder_node()),
{
    let node: [u8; 6] = [0x01, 0x02, 0x03, 0x04, 0x05, 0x06];
    proof {
        assert(node@ =~= placeholder_node());
    }
    generate_v1_with_node(&node)
}

/// Reordered time-based identifier with the given node id, sortable by
/// creation time: version 6.
pub fn generate_v6_with_node(node: &[u8; 6]) -> (s: String)
    ensures
        well_formed_output(s@, 6),
        s@.subrange(24, 36) == node_text(node@),
{
    let b = v6_bytes(node);
    proof {
        lemma_version_variant_chars(b@);
        lemma_node_tail(b@);
    }
    format_bytes(&b)
}

/// Reordered time-based identifier with the placeholder node id: version 6.
pub fn generate_v6() -> (s: String)
    ensures
        well_formed_output(s@, 6),
        s@.subrange(24, 36) == node_text(placeholder_node()),
{
    let node: [u8; 6] = [0x01, 0x02, 0x03, 0x04, 0x05, 0x06];
    proof {
        assert(node@ =~= placeholder_node());
    }
    generate_v6_with_node(&node)
}

/// Fully random identifier: version 4.
pub fn generate_v4() -> (s: String)
    ensures
        well_formed_output(s@, 4),
{
    let b = v4_bytes();
    proof {
        lemma_version_variant_chars(b@);
    }
    format_bytes(&b)
}

/// Unix-millisecond time-based identifier with a random tail, sortable by
/// creation time: version 7.
pub fn generate_v7() -> (s: String)
    ensures
        well_formed_output(s@, 7),
{
    let b = v7_bytes();
    proof {
        lemma_version_variant_chars(b@);
    }
    format_bytes(&b)
}

/// What the contracts of the two name-based operations share, for hash
/// outcome `h`: too few arguments give `ArityError`; a missing text gives
/// `TypeError`; a namespace outside the grammar gives
/// `MalformedNamespaceError`; and otherwise the result is the canonical
/// text of `h` applied to the namespace bytes and the UTF-8 name bytes.
pub open spec fn name_based_post(
    args: Seq<Option<String>>,
    r: Result<String, GenError>,
    h: spec_fn(Seq<u8>, Seq<u8>) -> Seq<u8>,
    version: u8,
) -> bool {
    if args.len() < 2 {
        r == Err::<String, GenError>(GenError::ArityError)
    } else if args[0] is None || args[1] is None {
        r == Err::<String, GenError>(GenError::TypeError)
    } else if !is_uuid_text(args[0]->Some_0@) {
        r == Err::<String, GenError>(GenError::MalformedNamespaceError)
    } else {
        &&& r is Ok
        &&& r->Ok_0@ == canonical_text(
            h(bytes_of_text(args[0]->Some_0@), encode_utf8(args[1]->Some_0@)),
        )
        &&& well_formed_output(r->Ok_0@, version)
    }
}

/// Name-based identifier over MD5: version 3. Deterministic: the result
/// is a function of the namespace and name alone.
pub fn generate_v3(args: &Vec<Option<String>>) -> (r: Result<String, GenError>)
    ensures
        name_based_post(args@, r, |ns: Seq<u8>, nm: Seq<u8>| md5_uuid_bytes(ns, nm), 3),
{
    if args.len() < 2 {
        return Err(GenError::ArityError);
    }
    let ns_text = match &args[0] {
        Some(t) => t,
        None => { return Err(GenError::TypeError) },
    };
    let name = match &args[1] {
        Some(t) => t,
        None => { return Err(GenError::TypeError) },
    };
    let ns = match parse_text(ns_text.as_str()) {
        Some(b) => b,
        None => { return Err(GenError::MalformedNamespaceError) },
    };
    let b = v3_bytes(&ns, name.as_str());
    proof {
        lemma_version_variant_chars(b@);
    }
    Ok(format_bytes(&b))
}

/// Name-based identifier over SHA-1: version 5. Deterministic: the result
/// is a function of the namespace and name alone.
pub fn generate_v5(args: &Vec<Option<String>>) -> (r: Result<String, GenError>)
    ensures
        name_based_post(args@, r, |ns: Seq<u8>, nm: Seq<u8>| sha1_uuid_bytes(ns, nm), 5),
{
    if args.len() < 2 {
        return Err(GenError::ArityError);
    }
    let ns_text = match &args[0] {
        Some(t) => t,
        None => { return Err(GenError::TypeError) },
    };
    let name = match &args[1] {
        Some(t) => t,
        None => { return Err(GenError::TypeError) },
    };
    let ns = match parse_text(ns_text.as_str()) {
        Some(b) => b,
        None => { return Err(GenError::MalformedNamespaceError) },
    };
    let b = v5_bytes(&ns, name.as_str());
    proof {
        lemma_version_variant_chars(b@);
    }
    Ok(format_bytes(&b))
}

/// Law: name-based generation is deterministic. Two results derived from
/// the same namespace bytes and the same name bytes, by the same hash,
/// are the same text.
pub proof fn lemma_name_based_deterministic(
    ns: Seq<u8>,
    name: Seq<u8>,
    h: spec_fn(Seq<u8>, Seq<u8>) -> Seq<u8>,
    s1: Seq<char>,
    s2: Seq<char>,
)
    requires
        s1 == canonical_text(h(ns, name)),
        s2 == canonical_text(h(ns, name)),
    ensures
        s1 == s2,
{
}

} // verus!
