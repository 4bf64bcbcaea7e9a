//! Content fingerprinting: a deterministic hash of file content, used as an
//! equality oracle for change detection (never for security).

use vstd::prelude::*;

verus! {

/// The hex digest that the hash of a given character sequence renders to.
/// The digest is a pure function of the content, which is all the change
/// detector relies on.
pub uninterp spec fn digest_of(content: Seq<char>) -> Seq<char>;

/// Relies on md5::compute: the digest depends on the input bytes alone, and
/// its lower-hex rendering is 32 hex digits (16 bytes, two digits each).
#[verifier::external_body]
pub fn fingerprint(content: &str) -> (r: String)
    ensures
        r@ == digest_of(content@),
        r@.len() == 32,
{
    format!("{:x}", md5::compute(content.as_bytes()))
}

/// Equal content always yields an equal fingerprint: the digest is a function
/// of the content and of nothing else.
pub proof fn lemma_fingerprint_deterministic(c1: Seq<char>, c2: Seq<char>)
    requires
        c1 == c2,
    ensures
        digest_of(c1) == digest_of(c2),
{
}

} // verus!
