//! The subscriber core's bookkeeping: call-site records with instance-id
//! allocation and reuse, and reference-counted live-span records.
//!
//! A call-site (node) hands out instance ids for its concurrent
//! activations. Freed ids go to a pool and are preferred for reuse; when
//! the last live instance of a node goes away, the pool is wiped and the
//! next-id counter restarts at zero, so a quiescent node starts over at
//! instance 0.

use vstd::prelude::*;
use std::collections::HashMap;
use crate::ids::SpanId;

verus! {

broadcast use vstd::std_specs::hash::group_hash_axioms;

/// Per-call-site record: the node id, the instance counter, the live count,
/// and the pool of freed instance ids.
pub struct SpanHead {
    pub span_id: u32,
    pub next_instance_id: u32,
    pub instance_count: u32,
    pub freed_instances: Vec<u32>,
}

impl SpanHead {
    /// The instance ids currently live: handed out and not yet freed.
    pub open spec fn live(&self) -> Set<u32> {
        Set::new(|i: u32| i < self.next_instance_id && !self.freed_instances@.contains(i))
    }

    pub open spec fn wf(&self) -> bool {
        &&& self.span_id >= 1
        &&& self.freed_instances@.no_duplicates()
        &&& forall|j: int|
            0 <= j < self.freed_instances@.len() ==> self.freed_instances@[j]
                < self.next_instance_id
        &&& self.instance_count == self.next_instance_id - self.freed_instances@.len()
        &&& self.instance_count == 0 ==> self.next_instance_id == 0
            && self.freed_instances@.len() == 0
    }

    /// A fresh record for a node with no live instances.
    pub fn new(span_id: u32) -> (r: SpanHead)
        requires
            span_id >= 1,
        ensures
            r.wf(),
            r.span_id == span_id,
            r.instance_count == 0,
            r.next_instance_id == 0,
            r.live() == Set::<u32>::empty(),
    {
        let r = SpanHead {
            span_id,
            next_instance_id: 0,
            instance_count: 0,
            freed_instances: Vec::new(),
        };
        proof {
            assert(r.live() =~= Set::<u32>::empty());
        }
        r
    }

    /// Hands out an instance id that no live activation of this node holds:
    /// a pooled one when available, else the next fresh one. A node that
    /// has fully quiesced starts over at instance 0.
    pub fn new_instance(&mut self) -> (r: u32)
        requires
            old(self).wf(),
            old(self).next_instance_id < u32::MAX,
        ensures
            final(self).wf(),
            final(self).span_id == old(self).span_id,
            !old(self).live().contains(r),
            final(self).live() == old(self).live().insert(r),
            final(self).instance_count == old(self).instance_count + 1,
            old(self).instance_count == 0 ==> r == 0,
    {
        self.instance_count = self.instance_count + 1;
        match self.freed_instances.pop() {
            Some(v) => {
                proof {
                    let freed = old(self).freed_instances@;
                    assert(v == freed[freed.len() - 1]);
                    assert(freed.contains(v));
                    assert(self.freed_instances@ =~= freed.take(freed.len() - 1));
                    assert(!old(self).live().contains(v));
                    let t = freed.take(freed.len() - 1);
                    assert forall|i: u32| final(self).live().contains(i) implies old(self).live().insert(v).contains(i) by {
                        if i != v && freed.contains(i) {
                            let j = choose|j: int| 0 <= j < freed.len() && #[trigger] freed[j] == i;
                            assert(j < freed.len() - 1);
                            assert(t[j] == i);
                            assert(t.contains(i));
                        }
                    }
                    assert forall|i: u32| old(self).live().insert(v).contains(i) implies final(self).live().contains(i) by {
                        if i == v {
                            assert(!t.contains(v)) by {
                                if t.contains(v) {
                                    let j = choose|j: int| 0 <= j < t.len() && #[trigger] t[j] == v;
                                    assert(freed[j] == v && freed[freed.len() - 1] == v);
                                    assert(!freed.no_duplicates());
                                }
                            }
                        } else {
                            if !freed.contains(i) {
                                let t = freed.take(freed.len() - 1);
                                assert(!t.contains(i)) by {
                                    if t.contains(i) {
                                        let j = choose|j: int|
                                            0 <= j < t.len() && #[trigger] t[j] == i;
                                        assert(freed[j] == i);
                                    }
                                }
                            }
                        }
                    }
                    assert(final(self).live() =~= old(self).live().insert(v));
                }
                v
            },
            None => {
                let id = self.next_instance_id;
                self.next_instance_id = self.next_instance_id + 1;
                proof {
                    assert(final(self).live() =~= old(self).live().insert(id));
                }
                id
            },
        }
    }

    /// Returns an instance id to the node. Freeing the last live instance
    /// wipes the pool and restarts the counter at zero. An id that is not
    /// live is ignored: exiting a span that was never entered is a
    /// tolerated instrumentation bug, not a panic.
    pub fn free_instance(&mut self, id: u32) -> (freed: bool)
        requires
            old(self).wf(),
        ensures
            final(self).wf(),
            final(self).span_id == old(self).span_id,
            freed == old(self).live().contains(id),
            freed ==> final(self).instance_count == old(self).instance_count - 1,
            freed && final(self).instance_count > 0 ==> final(self).live() == old(self).live().remove(id),
            freed && final(self).instance_count == 0 ==> final(self).next_instance_id == 0
                && final(self).freed_instances@.len() == 0 && final(self).live() == Set::<
                u32,
            >::empty(),
            !freed ==> *final(self) == *old(self),
    {
        if !(id < self.next_instance_id) {
            return false;
        }
        if vec_contains(&self.freed_instances, id) {
            return false;
        }
        assert(old(self).live().contains(id));
        assert(self.instance_count >= 1) by {
            if self.instance_count == 0 {
                assert(self.next_instance_id == 0);
            }
        }
        self.instance_count = self.instance_count - 1;
        if self.instance_count == 0 {
            self.freed_instances.clear();
            self.next_instance_id = 0;
            proof {
                assert(final(self).live() =~= Set::<u32>::empty());
            }
        } else {
            self.freed_instances.push(id);
            proof {
                let freed = old(self).freed_instances@;
                assert(self.freed_instances@ =~= freed + seq![id]);
                assert(self.freed_instances@.no_duplicates()) by {
                    assert(forall|j: int| 0 <= j < freed.len() ==> freed[j] != id);
                }
                let fr2 = freed + seq![id];
                assert(fr2[fr2.len() - 1] == id);
                assert(fr2.contains(id));
                assert forall|i: u32| final(self).live().contains(i) implies old(self).live().remove(id).contains(i) by {
                    if freed.contains(i) {
                        let j = choose|j: int| 0 <= j < freed.len() && #[trigger] freed[j] == i;
                        assert(fr2[j] == i);
                        assert(fr2.contains(i));
                    }
                }
                assert forall|i: u32| old(self).live().remove(id).contains(i) implies final(self).live().contains(i) by {
                    if fr2.contains(i) {
                        let j = choose|j: int| 0 <= j < fr2.len() && #[trigger] fr2[j] == i;
                        if j < freed.len() {
                            assert(freed[j] == i);
                        }
                    }
                }
                assert(final(self).live() =~= old(self).live().remove(id));
            }
        }
        true
    }
}

/// After a call-site quiesces — its live count back at zero — its pool is
/// empty and its counter is back at zero, so the next activation takes
/// instance id 0 again. `free_instance` maintains the reset and
/// `new_instance` promises the zero on a quiescent record.
pub proof fn lemma_quiescent_restart(head: SpanHead)
    requires
        head.wf(),
        head.instance_count == 0,
    ensures
        head.next_instance_id == 0,
        head.freed_instances@.len() == 0,
        head.live() == Set::<u32>::empty(),
{
    assert(head.live() =~= Set::<u32>::empty());
}

/// Linear membership test on a small vector of instance ids.
fn vec_contains(v: &Vec<u32>, x: u32) -> (r: bool)
    ensures
        r == v@.contains(x),
{
    let mut i: usize = 0;
    while i < v.len()
        invariant
            i <= v@.len(),
            forall|k: int| 0 <= k < i ==> v@[k] != x,
        decreases v@.len() - i,
    {
        if v[i] == x {
            return true;
        }
        i += 1;
    }
    false
}

/// A live span: how many handles refer to it, and the call-site it came
/// from.
pub struct SpanRecord {
    pub ref_count: u64,
    pub callsite: u64,
}

/// One step of a span's reference-count history.
pub enum RefOp {
    DuplicateHandle,
    CloseHandle,
}

/// The reference count after a history of clones and closes, starting from
/// the single reference that allocation creates.
pub open spec fn ref_count_after(ops: Seq<RefOp>) -> int
    decreases ops.len(),
{
    if ops.len() == 0 {
        1
    } else {
        ref_count_after(ops.drop_last()) + match ops.last() {
            RefOp::DuplicateHandle => 1int,
            RefOp::CloseHandle => -1int,
        }
    }
}

/// How many of the ops are clones.
pub open spec fn count_clones(ops: Seq<RefOp>) -> int
    decreases ops.len(),
{
    if ops.len() == 0 {
        0
    } else {
        count_clones(ops.drop_last()) + match ops.last() {
            RefOp::DuplicateHandle => 1int,
            RefOp::CloseHandle => 0int,
        }
    }
}

/// How many of the ops are closes.
pub open spec fn count_closes(ops: Seq<RefOp>) -> int
    decreases ops.len(),
{
    if ops.len() == 0 {
        0
    } else {
        count_closes(ops.drop_last()) + match ops.last() {
            RefOp::DuplicateHandle => 0int,
            RefOp::CloseHandle => 1int,
        }
    }
}

/// After any history of clone and close steps, the reference count is
/// exactly the initial allocation plus the clone/close imbalance. Each
/// clone step is `clone_span`'s increment and each close step is
/// `try_close`'s decrement, so this pins the count a record carries at
/// every point of its life.
pub proof fn lemma_ref_count_balance(ops: Seq<RefOp>)
    ensures
        ref_count_after(ops) == 1 + count_clones(ops) - count_closes(ops),
    decreases ops.len(),
{
    if ops.len() > 0 {
        lemma_ref_count_balance(ops.drop_last());
    }
}

/// The subscriber core's two maps and the node-id counter. The maps are
/// keyed by the call-site key (a stable per-call-site integer) and by the
/// packed span token.
pub struct TracerCore {
    pub spans_by_meta: HashMap<u64, SpanHead>,
    pub spans_by_id: HashMap<u64, SpanRecord>,
    pub counter: u32,
}

impl TracerCore {
    pub open spec fn wf(&self) -> bool {
        &&& self.counter >= 1
        &&& forall|k: u64|
            self.spans_by_meta@.contains_key(k) ==> (#[trigger] self.spans_by_meta@[k]).wf()
                && self.spans_by_meta@[k].span_id < self.counter
        &&& forall|id: u64|
            self.spans_by_id@.contains_key(id) ==> (#[trigger] self.spans_by_id@[id]).ref_count
                >= 1
    }

    /// An empty registry; node ids start at 1.
    pub fn new() -> (r: TracerCore)
        ensures
            r.wf(),
            r.counter == 1,
            r.spans_by_meta@ == Map::<u64, SpanHead>::empty(),
            r.spans_by_id@ == Map::<u64, SpanRecord>::empty(),
    {
        TracerCore { spans_by_meta: HashMap::new(), spans_by_id: HashMap::new(), counter: 1 }
    }

    /// Allocates a span for the call-site `callsite`. A first sighting
    /// assigns the next node id; later sightings reuse the node and draw an
    /// instance id from it. The parent is the explicit one when given, else
    /// the thread's current span — unless the span is a root. Returns the
    /// packed id, whether the call-site is new, and the resolved parent.
    pub fn new_span(
        &mut self,
        callsite: u64,
        is_root: bool,
        explicit_parent: Option<u64>,
        current: Option<u64>,
    ) -> (r: (SpanId, bool, Option<u64>))
        requires
            old(self).wf(),
            old(self).counter < u32::MAX,
            old(self).spans_by_meta@.contains_key(callsite)
                ==> old(self).spans_by_meta@[callsite].next_instance_id < u32::MAX,
        ensures
            final(self).wf(),
            r.0.wf(),
            // Whether this was the first activation of the call-site.
            r.1 == !old(self).spans_by_meta@.contains_key(callsite),
            // Root spans report no parent; otherwise the explicit parent
            // wins over the thread-local current span.
            r.2 == if is_root {
                None::<u64>
            } else if explicit_parent is Some {
                explicit_parent
            } else {
                current
            },
            // The node part: the existing node id, or the fresh counter value.
            r.0.spec_node() == if r.1 {
                old(self).counter as int
            } else {
                old(self).spans_by_meta@[callsite].span_id as int
            },
            // The instance id was not live on this call-site before the call.
            !r.1 ==> !old(self).spans_by_meta@[callsite].live().contains(
                r.0.spec_instance() as u32,
            ),
            r.1 ==> r.0.spec_instance() == 0,
            // The call-site's record afterwards: one more live instance.
            final(self).spans_by_meta@.contains_key(callsite),
            final(self).spans_by_meta@[callsite].live().contains(r.0.spec_instance() as u32),
            final(self).spans_by_meta@ == old(self).spans_by_meta@.insert(
                callsite,
                final(self).spans_by_meta@[callsite],
            ),
            final(self).spans_by_meta@[callsite].instance_count == if r.1 {
                1int
            } else {
                old(self).spans_by_meta@[callsite].instance_count + 1
            },
            // The span record: freshly inserted with one reference.
            final(self).spans_by_id@ == old(self).spans_by_id@.insert(
                r.0.token,
                SpanRecord { ref_count: 1, callsite },
            ),
            final(self).counter == if r.1 {
                old(self).counter + 1
            } else {
                old(self).counter as int
            },
    {
        let (is_new, span_id) = match self.spans_by_meta.remove(&callsite) {
            Some(mut head) => {
                let instance = head.new_instance();
                let node = head.span_id;
                self.spans_by_meta.insert(callsite, head);
                (false, SpanId::from_parts(node, instance))
            },
            None => {
                let node = self.counter;
                self.counter = self.counter + 1;
                let mut head = SpanHead::new(node);
                let instance = head.new_instance();
                self.spans_by_meta.insert(callsite, head);
                (true, SpanId::from_parts(node, instance))
            },
        };
        let parent = if is_root {
            None
        } else {
            match explicit_parent {
                Some(p) => Some(p),
                None => current,
            }
        };
        self.spans_by_id.insert(span_id.into_u64(), SpanRecord { ref_count: 1, callsite });
        proof {
            assert(final(self).spans_by_meta@ =~= old(self).spans_by_meta@.insert(
                callsite,
                final(self).spans_by_meta@[callsite],
            ));
        }
        (span_id, is_new, parent)
    }

    /// One more handle to a live span. A token with no record is ignored.
    pub fn clone_span(&mut self, id: u64) -> (cloned: bool)
        requires
            old(self).wf(),
            old(self).spans_by_id@.contains_key(id) ==> old(self).spans_by_id@[id].ref_count
                < u64::MAX,
        ensures
            final(self).wf(),
            cloned == old(self).spans_by_id@.contains_key(id),
            cloned ==> final(self).spans_by_id@ == old(self).spans_by_id@.insert(
                id,
                SpanRecord {
                    ref_count: (old(self).spans_by_id@[id].ref_count + 1) as u64,
                    callsite: old(self).spans_by_id@[id].callsite,
                },
            ),
            !cloned ==> final(self).spans_by_id@ == old(self).spans_by_id@,
            final(self).spans_by_meta@ == old(self).spans_by_meta@,
            final(self).counter == old(self).counter,
    {
        match self.spans_by_id.remove(&id) {
            Some(rec) => {
                self.spans_by_id.insert(
                    id,
                    SpanRecord { ref_count: rec.ref_count + 1, callsite: rec.callsite },
                );
                proof {
                    assert(final(self).spans_by_id@ =~= old(self).spans_by_id@.insert(
                        id,
                        SpanRecord {
                            ref_count: (old(self).spans_by_id@[id].ref_count + 1) as u64,
                            callsite: old(self).spans_by_id@[id].callsite,
                        },
                    ));
                }
                true
            },
            None => {
                proof {
                    assert(final(self).spans_by_id@ =~= old(self).spans_by_id@);
                }
                false
            },
        }
    }

    /// Drops one handle. When the last one goes, the record is removed, the
    /// instance id returns to its call-site pool, and the caller is told to
    /// destroy the span. A token with no record is ignored.
    pub fn try_close(&mut self, id: SpanId) -> (destroyed: bool)
        requires
            old(self).wf(),
            id.wf(),
        ensures
            final(self).wf(),
            destroyed == (old(self).spans_by_id@.contains_key(id.token) && old(self).spans_by_id@[id.token].ref_count == 1),
            // A surviving record keeps everything else in place, one
            // reference poorer.
            old(self).spans_by_id@.contains_key(id.token) && old(self).spans_by_id@[id.token].ref_count > 1 ==> final(self).spans_by_id@ == old(self).spans_by_id@.insert(
                id.token,
                SpanRecord {
                    ref_count: (old(self).spans_by_id@[id.token].ref_count - 1) as u64,
                    callsite: old(self).spans_by_id@[id.token].callsite,
                },
            ) && final(self).spans_by_meta@ == old(self).spans_by_meta@,
            // Destruction removes the record.
            destroyed ==> final(self).spans_by_id@ == old(self).spans_by_id@.remove(id.token),
            !old(self).spans_by_id@.contains_key(id.token) ==> final(self).spans_by_id@ == old(self).spans_by_id@ && final(self).spans_by_meta@ == old(self).spans_by_meta@,
            final(self).counter == old(self).counter,
    {
        match self.spans_by_id.remove(&id.token) {
            Some(rec) => {
                if rec.ref_count == 1 {
                    match self.spans_by_meta.remove(&rec.callsite) {
                        Some(mut head) => {
                            head.free_instance(id.get_instance());
                            self.spans_by_meta.insert(rec.callsite, head);
                        },
                        None => {},
                    }
                    proof {
                        assert(final(self).spans_by_id@ =~= old(self).spans_by_id@.remove(
                            id.token,
                        ));
                    }
                    true
                } else {
                    self.spans_by_id.insert(
                        id.token,
                        SpanRecord { ref_count: rec.ref_count - 1, callsite: rec.callsite },
                    );
                    proof {
                        assert(final(self).spans_by_id@ =~= old(self).spans_by_id@.insert(
                            id.token,
                            SpanRecord {
                                ref_count: (old(self).spans_by_id@[id.token].ref_count - 1) as u64,
                                callsite: old(self).spans_by_id@[id.token].callsite,
                            },
                        ));
                        assert(final(self).spans_by_meta@ =~= old(self).spans_by_meta@);
                    }
                    false
                }
            },
            None => {
                proof {
                    assert(final(self).spans_by_id@ =~= old(self).spans_by_id@);
                    assert(final(self).spans_by_meta@ =~= old(self).spans_by_meta@);
                }
                false
            },
        }
    }

    /// The call-site key of a live span, for metadata lookups. A token with
    /// no record yields nothing.
    pub fn current_span(&self, top: Option<u64>) -> (r: Option<(u64, u64)>)
        ensures
            match r {
                Some((id, callsite)) => top == Some(id) && self.spans_by_id@.contains_key(id)
                    && self.spans_by_id@[id].callsite == callsite,
                None => match top {
                    Some(id) => !self.spans_by_id@.contains_key(id),
                    None => true,
                },
            },
    {
        match top {
            Some(id) => {
                match self.spans_by_id.get(&id) {
                    Some(rec) => Some((id, rec.callsite)),
                    None => None,
                }
            },
            None => None,
        }
    }
}

} // verus!
