//! Plane-safe identifier / digest newtypes.
//!
//! A type is plane-safe when the banned join is inexpressible: every id and
//! digest here is its own named-field type, so one cannot be passed as another,
//! and none of them carries a principal, a device, or a cross-session key.
use vstd::prelude::*;
use crate::text::{chars_of, decimal, decimal_string};
use vstd::utf8::encode_utf8;
use vstd::string::StringSliceAdditionalSpecFns;

verus! {

/// Opaque per-purpose lease id. Never reused. Not a trajectory / seat / principal.
#[derive(Debug, Clone, Copy, PartialEq, Eq, Hash, Structural)]
pub struct LeaseId {
    pub value: u64,
}

impl LeaseId {
    pub fn new(value: u64) -> (r: Self)
        ensures
            r.value == value,
    {
        Self { value }
    }
}

/// sha256 over a normalized act commitment (hex, lowercase preferred).
/// Binds an act without describing provider / prompt / cost.
#[derive(Debug, Hash)]
pub struct ActDigest {
    /// 64-char hexadecimal sha256.
    pub hex: String,
}

/// sha256 of capsule content — binds without storing capsule bytes.
/// Distinct from [`ActDigest`] so a capsule cannot be passed as an act.
#[derive(Debug, Hash)]
pub struct CapsuleDigest {
    pub hex: String,
}

impl Clone for ActDigest {
    fn clone(&self) -> (r: Self)
        ensures
            r == *self,
    {
        ActDigest { hex: self.hex.clone() }
    }
}

impl PartialEq for ActDigest {
    fn eq(&self, other: &Self) -> (r: bool) {
        self.hex == other.hex
    }
}

impl vstd::std_specs::cmp::PartialEqSpecImpl for ActDigest {
    open spec fn obeys_eq_spec() -> bool {
        true
    }

    open spec fn eq_spec(&self, other: &Self) -> bool {
        self.hex@ == other.hex@
    }
}

impl Eq for ActDigest {

}

impl Clone for CapsuleDigest {
    fn clone(&self) -> (r: Self)
        ensures
            r == *self,
    {
        CapsuleDigest { hex: self.hex.clone() }
    }
}

impl PartialEq for CapsuleDigest {
    fn eq(&self, other: &Self) -> (r: bool) {
        self.hex == other.hex
    }
}

impl vstd::std_specs::cmp::PartialEqSpecImpl for CapsuleDigest {
    open spec fn obeys_eq_spec() -> bool {
        true
    }

    open spec fn eq_spec(&self, other: &Self) -> bool {
        self.hex@ == other.hex@
    }
}

impl Eq for CapsuleDigest {

}

/// Monotonic policy version fence.
#[derive(Debug, Clone, Copy, PartialEq, Eq, Hash, Structural)]
pub struct PolicyVersion {
    pub value: u32,
}

impl PolicyVersion {
    pub fn new(value: u32) -> (r: Self)
        ensures
            r.value == value,
    {
        Self { value }
    }
}

/// Fenced security epoch (monotonic root).
#[derive(Debug, Clone, Copy, PartialEq, Eq, Hash, Structural)]
pub struct SecurityEpoch {
    pub value: u64,
}

impl SecurityEpoch {
    pub fn new(value: u64) -> (r: Self)
        ensures
            r.value == value,
    {
        Self { value }
    }
}

/// Opaque receipt id for a [`ClosureCode`] disposition (never a trajectory key).
#[derive(Debug, Clone, Copy, PartialEq, Eq, Hash, Structural)]
pub struct ReceiptId {
    pub value: u64,
}

impl ReceiptId {
    pub fn new(value: u64) -> (r: Self)
        ensures
            r.value == value,
    {
        Self { value }
    }
}

/// Fresh manifest id per window (never reused across windows).
#[derive(Debug, Clone, Copy, PartialEq, Eq, Hash, Structural)]
pub struct ManifestId {
    pub value: u64,
}

impl ManifestId {
    pub fn new(value: u64) -> (r: Self)
        ensures
            r.value == value,
    {
        Self { value }
    }
}

/// Closed analytics window: start (unix micros) + length (seconds).
#[derive(Debug, Clone, Copy, PartialEq, Eq, Hash, Structural)]
pub struct Window {
    pub start_micros: i64,
    pub len_secs: u64,
}

/// Suppression notes (rare-category / timing / joinability) — mandatory on manifests.
#[derive(Debug, Hash)]
pub struct SuppressionSpec {
    pub value: String,
}

impl SuppressionSpec {
    pub fn new(value: String) -> (r: Self)
        ensures
            r.value == value,
    {
        Self { value }
    }
}

/// Closure disposition for an act.
#[derive(Debug, Clone, Copy, PartialEq, Eq, Structural)]
pub enum ClosureCode {
    Accepted,
    Rerouted,
    Abstained,
    Rejected,
}

impl Default for ClosureCode {
    fn default() -> (r: Self)
        ensures
            r == ClosureCode::Accepted,
    {
        ClosureCode::Accepted
    }
}

/// Hex-encoded sha256 digest length.
pub const DIGEST_HEX_LEN: usize = 64;

/// An ASCII hexadecimal digit.
pub open spec fn is_hex_digit(c: char) -> bool {
    ('0' <= c && c <= '9') || ('a' <= c && c <= 'f') || ('A' <= c && c <= 'F')
}

/// Every character is an ASCII hexadecimal digit.
pub open spec fn all_hex(s: Seq<char>) -> bool {
    forall|i: int| 0 <= i < s.len() ==> is_hex_digit(#[trigger] s[i])
}

/// The outcome of checking `digest` under `label`: `Ok` for 64 bytes (UTF-8)
/// of hex, else the message naming the length in bytes (`str::len`), or the
/// non-hex content.
pub open spec fn digest_verdict(label: Seq<char>, digest: Seq<char>, r: Result<(), String>) -> bool {
    let byte_len = encode_utf8(digest).len() as usize;
    if byte_len != DIGEST_HEX_LEN {
        r matches Err(e) && e@ == label + ": expected 64-char hex digest, got len "@ + decimal(
            byte_len as nat,
        )
    } else if !all_hex(digest) {
        r matches Err(e) && e@ == label + ": digest must be hexadecimal"@
    } else {
        r is Ok
    }
}

/// Reject digests that are not hex sha256 (64 hexadecimal digits).
pub fn require_digest_hex(label: &str, digest: &str) -> (r: Result<(), String>)
    ensures
        digest_verdict(label@, digest@, r),
{
    let len = digest.len();
    assert(digest.spec_bytes() == encode_utf8(digest@));
    if len != DIGEST_HEX_LEN {
        let mut msg = String::from_str(label);
        msg.append(": expected 64-char hex digest, got len ");
        let n = decimal_string(len as u128);
        msg.append(n.as_str());
        return Err(msg);
    }
    let cs = chars_of(digest);
    let mut i: usize = 0;
    while i < cs.len()
        invariant
            cs@ == digest@,
            len == DIGEST_HEX_LEN,
            len == encode_utf8(digest@).len() as usize,
            i <= cs@.len(),
            forall|k: int| 0 <= k < i ==> is_hex_digit(#[trigger] cs@[k]),
        decreases cs@.len() - i,
    {
        let c = cs[i];
        if !(('0' <= c && c <= '9') || ('a' <= c && c <= 'f') || ('A' <= c && c <= 'F')) {
            assert(!is_hex_digit(digest@[i as int]));
            let mut msg = String::from_str(label);
            msg.append(": digest must be hexadecimal");
            return Err(msg);
        }
        i = i + 1;
    }
    Ok(())
}

impl ActDigest {
    /// A digest from 64 hexadecimal digits; the error names what is wrong.
    pub fn from_hex(hex: String) -> (r: Result<Self, String>)
        ensures
            digest_verdict("act_digest"@, hex@, match r {
                Ok(_) => Ok(()),
                Err(e) => Err(e),
            }),
            r matches Ok(d) ==> d.hex == hex,
    {
        match require_digest_hex("act_digest", hex.as_str()) {
            Ok(()) => Ok(Self { hex }),
            Err(e) => Err(e),
        }
    }

    pub fn as_hex(&self) -> (r: &str)
        ensures
            r@ == self.hex@,
    {
        self.hex.as_str()
    }
}

impl CapsuleDigest {
    /// A digest from 64 hexadecimal digits; the error names what is wrong.
    pub fn from_hex(hex: String) -> (r: Result<Self, String>)
        ensures
            digest_verdict("capsule_digest"@, hex@, match r {
                Ok(_) => Ok(()),
                Err(e) => Err(e),
            }),
            r matches Ok(d) ==> d.hex == hex,
    {
        match require_digest_hex("capsule_digest", hex.as_str()) {
            Ok(()) => Ok(Self { hex }),
            Err(e) => Err(e),
        }
    }

    pub fn as_hex(&self) -> (r: &str)
        ensures
            r@ == self.hex@,
    {
        self.hex.as_str()
    }
}

} // verus!
