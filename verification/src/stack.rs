//! The per-thread stack of active spans.
//!
//! Each frame pairs a span token with the monotonic time at which the span
//! was entered. Because a span can be entered on one thread and exited on
//! another, exit searches the stack by token rather than assuming strict
//! nesting; when a token appears more than once, the topmost frame goes.
//! Exiting a span that was never entered is a tolerated instrumentation
//! bug and leaves the stack alone.

use vstd::prelude::*;
use crate::duration::Elapsed;

verus! {

/// One active span on a thread: its token, and when it was entered, in
/// nanoseconds of a monotonic clock.
#[derive(Clone, Copy, PartialEq, Eq, Debug, Structural)]
pub struct SpanLocal {
    pub id: u64,
    pub last_time: u64,
}

impl SpanLocal {
    /// A frame entered now.
    pub fn new(id: u64, now: u64) -> (r: SpanLocal)
        ensures
            r.id == id,
            r.last_time == now,
    {
        SpanLocal { id, last_time: now }
    }
}

/// The index of the topmost frame holding `id`, if any.
pub open spec fn top_index_of(frames: Seq<SpanLocal>, id: u64) -> Option<int>
    decreases frames.len(),
{
    if frames.len() == 0 {
        None
    } else if frames.last().id == id {
        Some(frames.len() - 1)
    } else {
        top_index_of(frames.drop_last(), id)
    }
}

/// When everything above index `i` misses and `i` hits, `i` is the topmost
/// index.
proof fn lemma_top_index_at(frames: Seq<SpanLocal>, id: u64, i: int)
    requires
        0 <= i < frames.len(),
        frames[i].id == id,
        forall|k: int| i < k < frames.len() ==> frames[k].id != id,
    ensures
        top_index_of(frames, id) == Some(i),
    decreases frames.len(),
{
    if i == frames.len() - 1 {
    } else {
        assert(frames.last().id != id);
        lemma_top_index_at(frames.drop_last(), id, i);
    }
}

/// When every frame misses, there is no topmost index.
proof fn lemma_top_index_none(frames: Seq<SpanLocal>, id: u64)
    requires
        forall|k: int| 0 <= k < frames.len() ==> frames[k].id != id,
    ensures
        top_index_of(frames, id) is None,
    decreases frames.len(),
{
    if frames.len() > 0 {
        lemma_top_index_none(frames.drop_last(), id);
    }
}

/// A thread's stack of active spans, bottom first.
pub struct SpanStack {
    pub frames: Vec<SpanLocal>,
}

impl SpanStack {
    /// An empty stack, as every thread starts.
    pub fn new() -> (r: SpanStack)
        ensures
            r.frames@.len() == 0,
    {
        SpanStack { frames: Vec::new() }
    }

    /// Enters a span: pushes its frame with the entry time.
    pub fn push_span(&mut self, id: u64, now: u64)
        ensures
            final(self).frames@ == old(self).frames@.push(SpanLocal { id, last_time: now }),
    {
        self.frames.push(SpanLocal::new(id, now));
    }

    /// Exits a span: removes the topmost frame holding `id` and returns the
    /// time elapsed since that frame was entered (zero if the clock read
    /// ran backwards across threads). With no matching frame the stack is
    /// untouched and nothing is returned.
    pub fn pop_span(&mut self, id: u64, now: u64) -> (r: Option<Elapsed>)
        ensures
            match top_index_of(old(self).frames@, id) {
                Some(j) => {
                    &&& final(self).frames@ == old(self).frames@.remove(j)
                    &&& r matches Some(d) && d.wf() && d.as_nanos() == if now
                        >= old(self).frames@[j].last_time {
                        now - old(self).frames@[j].last_time
                    } else {
                        0int
                    }
                },
                None => final(self).frames@ == old(self).frames@ && r is None,
            },
    {
        let n = self.frames.len();
        let mut i: usize = n;
        while i > 0
            invariant
                i <= n,
                n == self.frames@.len(),
                self.frames@ == old(self).frames@,
                forall|k: int| i <= k < n ==> self.frames@[k].id != id,
            decreases i,
        {
            i -= 1;
            if self.frames[i].id == id {
                proof {
                    lemma_top_index_at(old(self).frames@, id, i as int);
                }
                let entered = self.frames[i].last_time;
                self.frames.remove(i);
                let elapsed = if now >= entered {
                    now - entered
                } else {
                    0
                };
                return Some(Elapsed::from_nanos(elapsed));
            }
        }
        proof {
            lemma_top_index_none(old(self).frames@, id);
        }
        None
    }

    /// The current span: the token on top of the stack, if any.
    pub fn current_span(&self) -> (r: Option<u64>)
        ensures
            r == if self.frames@.len() == 0 {
                None::<u64>
            } else {
                Some(self.frames@.last().id)
            },
    {
        if self.frames.len() == 0 {
            None
        } else {
            Some(self.frames[self.frames.len() - 1].id)
        }
    }
}

} // verus!
