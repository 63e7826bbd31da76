//! Span identity: a pair `(node id, instance id)` packed into one nonzero
//! 64-bit token.
//!
//! The node id names a static call-site and is never zero; the instance id
//! names one concurrent live activation of that call-site. Because the node
//! id occupies the upper 32 bits and is at least 1, the packed token is
//! never zero.

use vstd::prelude::*;

verus! {

/// Number of distinct instance ids; the node id is scaled by this factor
/// when packed.
pub const INSTANCE_SPACE: u64 = 0x1_0000_0000;

/// The packed form of a `(node, instance)` pair.
pub open spec fn pack_span_id(node: u32, instance: u32) -> u64 {
    (node * INSTANCE_SPACE + instance) as u64
}

/// A span identity: `(node_id, instance_id)` packed into a nonzero token.
#[derive(Clone, Copy, PartialEq, Eq, Hash, Debug, Structural)]
pub struct SpanId {
    pub token: u64,
}

impl SpanId {
    /// The packed token is well formed when its node part is nonzero.
    pub open spec fn wf(self) -> bool {
        self.token >= INSTANCE_SPACE
    }

    pub open spec fn spec_node(self) -> u64 {
        self.token / INSTANCE_SPACE
    }

    pub open spec fn spec_instance(self) -> u64 {
        self.token % INSTANCE_SPACE
    }

    /// Packs a call-site node id and an instance id into one token.
    pub fn from_parts(node: u32, instance: u32) -> (r: SpanId)
        requires
            node >= 1,
        ensures
            r.wf(),
            r.token == pack_span_id(node, instance),
            r.spec_node() == node,
            r.spec_instance() == instance,
    {
        let token: u64 = (node as u64) * INSTANCE_SPACE + (instance as u64);
        proof {
            lemma_pack_unpack(node, instance);
        }
        SpanId { token }
    }

    /// The raw 64-bit token, as handed to the host instrumentation.
    pub fn into_u64(self) -> (r: u64)
        ensures
            r == self.token,
    {
        self.token
    }

    /// Rebuilds an identity from a raw token.
    pub fn from_u64(token: u64) -> (r: SpanId)
        ensures
            r.token == token,
    {
        SpanId { token }
    }

    /// The call-site node id (upper half of the token).
    pub fn get_id(&self) -> (r: u32)
        requires
            self.wf(),
        ensures
            r == self.spec_node(),
            r >= 1,
    {
        (self.token / INSTANCE_SPACE) as u32
    }

    /// The instance id (lower half of the token).
    pub fn get_instance(&self) -> (r: u32)
        ensures
            r == self.spec_instance(),
    {
        (self.token % INSTANCE_SPACE) as u32
    }

    /// Both halves at once.
    pub fn get_id_instance(&self) -> (r: (u32, u32))
        requires
            self.wf(),
        ensures
            r.0 == self.spec_node(),
            r.1 == self.spec_instance(),
            r.0 >= 1,
    {
        (self.get_id(), self.get_instance())
    }
}

/// Packing then unpacking yields the original pair, and the token of a
/// nonzero node is itself nonzero.
pub proof fn lemma_pack_unpack(node: u32, instance: u32)
    ensures
        pack_span_id(node, instance) / INSTANCE_SPACE == node,
        pack_span_id(node, instance) % INSTANCE_SPACE == instance,
        node >= 1 ==> pack_span_id(node, instance) >= INSTANCE_SPACE,
{
    let n = node as int;
    let i = instance as int;
    let m = INSTANCE_SPACE as int;
    assert(n * m + i <= 0xffff_ffffu64 * m + 0xffff_ffffu64) by (nonlinear_arith)
        requires
            n <= 0xffff_ffffu64,
            i <= 0xffff_ffffu64,
            m == INSTANCE_SPACE,
    ;
    assert((n * m + i) / m == n && (n * m + i) % m == i) by (nonlinear_arith)
        requires
            0 <= i < m,
            0 <= n,
    ;
    assert(n >= 1 ==> n * m + i >= m) by (nonlinear_arith)
        requires
            0 <= i,
            m > 0,
    ;
}

} // verus!
