//! The 40-byte handshake packet exchanged when a client attaches.
//!
//! Layout: an 8-byte ASCII signature, the 8-byte little-endian major
//! protocol version, then a 24-byte zero-padded pre-release tag. A missing
//! pre-release tag is encoded as 24 zero bytes; a present tag must not start
//! with a zero byte, so the two cases decode unambiguously.

use vstd::prelude::*;
use crate::codec::{u64_le, u64_from_le, write_u64_le, read_u64_le, lemma_u64_le_roundtrip};

verus! {

/// Length of the whole handshake packet.
pub const HELLO_SIZE: usize = 40;

/// Length of the pre-release tag field.
pub const PRE_RELEASE_SIZE: usize = 24;

/// The protocol signature, one byte per character of an 8-character ASCII
/// name.
pub open spec fn spec_signature() -> Seq<u8> {
    seq![66u8, 80u8, 51u8, 68u8, 80u8, 82u8, 79u8, 70u8]
}

/// Builds the signature bytes (ASCII "BP3DPROF").
pub fn signature() -> (r: Vec<u8>)
    ensures
        r@ == spec_signature(),
{
    let mut v: Vec<u8> = Vec::new();
    v.push(66);
    v.push(80);
    v.push(51);
    v.push(68);
    v.push(80);
    v.push(82);
    v.push(79);
    v.push(70);
    assert(v@ =~= spec_signature());
    v
}

/// Outcome of comparing a local Hello with a remote one.
#[derive(Clone, Copy, PartialEq, Eq, Debug, Structural)]
pub enum MatchResult {
    SignatureMismatch,
    VersionMismatch,
    Accepted,
}

/// Protocol version: the major number, and an optional pre-release tag of
/// exactly 24 bytes whose first byte is nonzero.
pub struct Version {
    pub major: u64,
    pub pre_release: Option<Vec<u8>>,
}

/// A handshake packet in decoded form.
pub struct Hello {
    pub signature: Vec<u8>,
    pub version: Version,
}

impl Hello {
    /// A decoded packet is well formed when its signature field has the
    /// fixed width and any pre-release tag has the fixed width and a
    /// nonzero leading byte.
    pub open spec fn wf(&self) -> bool {
        &&& self.signature@.len() == 8
        &&& match self.version.pre_release {
            Some(p) => p@.len() == PRE_RELEASE_SIZE && p@[0] != 0,
            None => true,
        }
    }

    /// The 40-byte image of this packet.
    pub open spec fn spec_bytes(&self) -> Seq<u8> {
        self.signature@ + u64_le(self.version.major) + match self.version.pre_release {
            Some(p) => p@,
            None => Seq::new(PRE_RELEASE_SIZE as nat, |i: int| 0u8),
        }
    }

    /// Builds a local packet with the protocol signature.
    pub fn new(major: u64, pre_release: Option<Vec<u8>>) -> (r: Hello)
        requires
            match pre_release {
                Some(p) => p@.len() == PRE_RELEASE_SIZE && p@[0] != 0,
                None => true,
            },
        ensures
            r.wf(),
            r.signature@ == spec_signature(),
            r.version.major == major,
            r.version.pre_release == pre_release,
    {
        Hello { signature: signature(), version: Version { major, pre_release } }
    }

    /// Encodes the packet to its 40-byte wire form.
    pub fn to_bytes(&self) -> (r: Vec<u8>)
        requires
            self.wf(),
        ensures
            r@ == self.spec_bytes(),
            r@.len() == HELLO_SIZE,
    {
        let mut out: Vec<u8> = Vec::new();
        let mut i: usize = 0;
        while i < 8
            invariant
                i <= 8,
                self.wf(),
                out@ == self.signature@.take(i as int),
            decreases 8 - i,
        {
            out.push(self.signature[i]);
            i += 1;
            assert(out@ =~= self.signature@.take(i as int));
        }
        assert(out@ =~= self.signature@);
        write_u64_le(&mut out, self.version.major);
        match &self.version.pre_release {
            Some(p) => {
                let mut j: usize = 0;
                while j < PRE_RELEASE_SIZE
                    invariant
                        j <= PRE_RELEASE_SIZE,
                        p@.len() == PRE_RELEASE_SIZE,
                        out@ == self.signature@ + u64_le(self.version.major) + p@.take(j as int),
                    decreases PRE_RELEASE_SIZE - j,
                {
                    out.push(p[j]);
                    j += 1;
                    assert(out@ =~= self.signature@ + u64_le(self.version.major) + p@.take(
                        j as int));
                }
                assert(out@ =~= self.spec_bytes());
            },
            None => {
                let mut j: usize = 0;
                while j < PRE_RELEASE_SIZE
                    invariant
                        j <= PRE_RELEASE_SIZE,
                        out@ == self.signature@ + u64_le(self.version.major) + Seq::new(
                            j as nat,
                            |i: int| 0u8,
                        ),
                    decreases PRE_RELEASE_SIZE - j,
                {
                    out.push(0);
                    j += 1;
                    assert(out@ =~= self.signature@ + u64_le(self.version.major) + Seq::new(
                        j as nat,
                        |i: int| 0u8,
                    ));
                }
                assert(out@ =~= self.spec_bytes());
            },
        }
        out
    }

    /// Decodes a 40-byte block into a packet. All-zero pre-release bytes
    /// decode to no tag at all; any other tag is kept verbatim.
    pub fn from_bytes(block: &Vec<u8>) -> (r: Hello)
        requires
            block@.len() == HELLO_SIZE,
        ensures
            r.signature@ == block@.subrange(0, 8),
            r.version.major == u64_from_le(block@.subrange(8, 16)),
            block@[16] == 0 ==> r.version.pre_release is None,
            block@[16] != 0 ==> (r.version.pre_release matches Some(p) && p@ == block@.subrange(
                16,
                HELLO_SIZE as int,
            )) && r.wf(),
    {
        let mut signature: Vec<u8> = Vec::new();
        let mut i: usize = 0;
        while i < 8
            invariant
                i <= 8,
                block@.len() == HELLO_SIZE,
                signature@ == block@.subrange(0, i as int),
            decreases 8 - i,
        {
            signature.push(block[i]);
            i += 1;
            assert(signature@ =~= block@.subrange(0, i as int));
        }
        let major = read_u64_le(block, 8);
        let mut pre: Vec<u8> = Vec::new();
        let mut j: usize = 16;
        while j < HELLO_SIZE
            invariant
                16 <= j <= HELLO_SIZE,
                block@.len() == HELLO_SIZE,
                pre@ == block@.subrange(16, j as int),
            decreases HELLO_SIZE - j,
        {
            pre.push(block[j]);
            j += 1;
            assert(pre@ =~= block@.subrange(16, j as int));
        }
        assert(pre@ =~= block@.subrange(16, HELLO_SIZE as int));
        let pre_release = if pre[0] == 0 {
            None
        } else {
            Some(pre)
        };
        Hello { signature, version: Version { major, pre_release } }
    }

    /// Compares a local packet against the remote one: the signatures must
    /// match byte for byte; then either both carry the same pre-release tag,
    /// or neither carries one and the major versions must be equal.
    pub fn matches(&self, other: &Hello) -> (r: MatchResult)
        ensures
            r == self.spec_matches(other),
    {
        if !vecs_equal(&self.signature, &other.signature) {
            return MatchResult::SignatureMismatch;
        }
        let val = match (&self.version.pre_release, &other.version.pre_release) {
            (Some(a), Some(b)) => vecs_equal(a, b),
            (None, None) => self.version.major == other.version.major,
            _ => false,
        };
        if val {
            MatchResult::Accepted
        } else {
            MatchResult::VersionMismatch
        }
    }

    /// What `matches` returns.
    pub open spec fn spec_matches(&self, other: &Hello) -> MatchResult {
        if self.signature@ != other.signature@ {
            MatchResult::SignatureMismatch
        } else if match (self.version.pre_release, other.version.pre_release) {
            (Some(a), Some(b)) => a@ == b@,
            (None, None) => self.version.major == other.version.major,
            _ => false,
        } {
            MatchResult::Accepted
        } else {
            MatchResult::VersionMismatch
        }
    }
}

/// Byte-for-byte equality of two byte vectors.
pub fn vecs_equal(a: &Vec<u8>, b: &Vec<u8>) -> (r: bool)
    ensures
        r == (a@ == b@),
{
    if a.len() != b.len() {
        assert(a@ != b@);
        return false;
    }
    let mut i: usize = 0;
    while i < a.len()
        invariant
            i <= a@.len(),
            a@.len() == b@.len(),
            forall|k: int| 0 <= k < i ==> a@[k] == b@[k],
        decreases a@.len() - i,
    {
        if a[i] != b[i] {
            return false;
        }
        i += 1;
    }
    proof {
        assert(a@ =~= b@);
    }
    true
}

/// Encoding a packet and decoding the 40 bytes yields the original major
/// version and pre-release tag.
pub proof fn lemma_hello_roundtrip(h: Hello)
    requires
        h.wf(),
    ensures
        ({
            let b = h.spec_bytes();
            &&& b.len() == HELLO_SIZE
            &&& b.subrange(0, 8) == h.signature@
            &&& u64_from_le(b.subrange(8, 16)) == h.version.major
            &&& match h.version.pre_release {
                Some(p) => b[16] != 0 && b.subrange(16, HELLO_SIZE as int) == p@,
                None => b[16] == 0,
            }
        }),
{
    let b = h.spec_bytes();
    lemma_u64_le_roundtrip(h.version.major);
    assert(b.subrange(0, 8) =~= h.signature@);
    assert(b.subrange(8, 16) =~= u64_le(h.version.major));
    match h.version.pre_release {
        Some(p) => {
            assert(b.subrange(16, HELLO_SIZE as int) =~= p@);
            assert(b[16] == p@[0]);
        },
        None => {
            assert(b[16] == 0);
        },
    }
}

} // verus!
