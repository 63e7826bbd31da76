//! The profiler sink: turns subscriber callbacks into worker commands.
//!
//! Per live span it keeps a scratch record (the partial span log) keyed by
//! the packed span token. Creating a span emits the call-site registration
//! first — before any other command that mentions the call-site — and a
//! parent update only when the parent actually changed since the last one
//! sent. Exiting a span seals the scratch record with the measured
//! duration and hands it out for shipping.

use vstd::prelude::*;
use crate::duration::Elapsed;
use crate::fields::{Field, spec_field_encoding};
use crate::ids::SpanId;
use crate::level::Level;
use crate::log_msg::{EventLog, LogBuf, SpanLog, trunc_append, lemma_trunc_append_compose,
    EVENT_LOG_CAP};

verus! {

/// What the library knows of a static call-site: its severity, source
/// position, and names, all as plain values.
pub struct CallSiteInfo {
    pub level: Level,
    pub line: Option<u32>,
    pub name: Vec<u8>,
    pub target: Vec<u8>,
    pub module: Option<Vec<u8>>,
    pub file: Option<Vec<u8>>,
}

/// A command about one span, addressed by its identity.
pub struct Span<T> {
    pub id: SpanId,
    pub ty: T,
}

/// The span-channel commands the worker understands.
pub enum SpanControl {
    Alloc { info: CallSiteInfo },
    UpdateParent { parent: Option<u32> },
    Follows { follows: SpanId },
}

/// The control-channel commands: the opening project description, and the
/// shutdown request.
pub enum Control {
    Project { app_name: Vec<u8>, name: Vec<u8>, version: Vec<u8> },
    Terminate,
}

/// The scratch state of one live span: its partial log record, and the
/// parent last reported to the worker.
pub struct SpanVisitor {
    pub msg: SpanLog,
    pub parent: Option<u32>,
}

impl SpanVisitor {
    pub open spec fn wf(&self) -> bool {
        self.msg.wf()
    }

    /// Fresh scratch for a span of the given call-site node.
    pub fn new(id: u32, parent: Option<u32>) -> (r: SpanVisitor)
        requires
            id >= 1,
        ensures
            r.wf(),
            r.msg.id == id,
            r.msg.buf.data@.len() == 0,
            r.msg.buf.var_count == 0,
            r.parent == parent,
    {
        SpanVisitor { msg: SpanLog::new(id), parent }
    }

    /// Readies the scratch for a new run: empties the record and takes the
    /// new parent. Reports whether the parent changed — only then does the
    /// worker need a parent update.
    pub fn reset(&mut self, parent: Option<u32>) -> (changed: bool)
        requires
            old(self).wf(),
        ensures
            final(self).wf(),
            final(self).msg.id == old(self).msg.id,
            final(self).msg.buf.data@.len() == 0,
            final(self).msg.buf.var_count == 0,
            final(self).parent == parent,
            changed == (old(self).parent != parent),
    {
        self.msg.clear();
        let changed = match (self.parent, parent) {
            (Some(a), Some(b)) => a != b,
            (None, None) => false,
            _ => true,
        };
        self.parent = parent;
        changed
    }
}

/// The concatenated TLV encoding of a list of fields.
pub open spec fn spec_fields_bytes(fields: Seq<Field>) -> Seq<u8>
    decreases fields.len(),
{
    if fields.len() == 0 {
        Seq::empty()
    } else {
        spec_fields_bytes(fields.drop_last()) + spec_field_encoding(
            fields.last().name@,
            fields.last().value@,
        )
    }
}

proof fn lemma_spec_fields_bytes_step(fields: Seq<Field>, k: int)
    requires
        0 <= k < fields.len(),
    ensures
        spec_fields_bytes(fields.take(k + 1)) == spec_fields_bytes(fields.take(k))
            + spec_field_encoding(fields[k].name@, fields[k].value@),
{
    let p = fields.take(k + 1);
    assert(p.drop_last() =~= fields.take(k));
    assert(p.last() == fields[k]);
}

/// Encodes every field into the buffer, in order, truncating at capacity,
/// and counts each one.
pub fn record_fields(buf: &mut LogBuf, fields: &Vec<Field>)
    requires
        old(buf).wf(),
    ensures
        final(buf).wf(),
        final(buf).cap == old(buf).cap,
        final(buf).data@ == trunc_append(
            old(buf).data@,
            spec_fields_bytes(fields@),
            old(buf).cap as int,
        ),
        final(buf).var_count == if old(buf).var_count + fields@.len() <= 255 {
            old(buf).var_count + fields@.len()
        } else {
            255int
        },
{
    let n = fields.len();
    let mut k: usize = 0;
    while k < n
        invariant
            k <= n,
            n == fields@.len(),
            buf.wf(),
            buf.cap == old(buf).cap,
            buf.data@ == trunc_append(
                old(buf).data@,
                spec_fields_bytes(fields@.take(k as int)),
                buf.cap as int,
            ),
            buf.var_count == if old(buf).var_count + k <= 255 {
                old(buf).var_count + k
            } else {
                255int
            },
        decreases n - k,
    {
        proof {
            lemma_spec_fields_bytes_step(fields@, k as int);
            lemma_trunc_append_compose(
                old(buf).data@,
                spec_fields_bytes(fields@.take(k as int)),
                spec_field_encoding(fields@[k as int].name@, fields@[k as int].value@),
                buf.cap as int,
            );
        }
        fields[k].write_into(buf);
        k += 1;
    }
    assert(fields@.take(n as int) =~= fields@);
}

/// First index holding the given span token.
pub open spec fn index_of_span(entries: Seq<(u64, SpanVisitor)>, id: u64) -> Option<int>
    decreases entries.len(),
{
    if entries.len() == 0 {
        None
    } else if entries[0].0 == id {
        Some(0)
    } else {
        match index_of_span(entries.skip(1), id) {
            Some(i) => Some(i + 1),
            None => None,
        }
    }
}

proof fn lemma_index_of_span_at(entries: Seq<(u64, SpanVisitor)>, id: u64, i: int)
    requires
        0 <= i < entries.len(),
        entries[i].0 == id,
        forall|k: int| 0 <= k < i ==> entries[k].0 != id,
    ensures
        index_of_span(entries, id) == Some(i),
    decreases i,
{
    if i > 0 {
        lemma_index_of_span_at(entries.skip(1), id, i - 1);
    }
}

proof fn lemma_index_of_span_none(entries: Seq<(u64, SpanVisitor)>, id: u64)
    requires
        forall|k: int| 0 <= k < entries.len() ==> entries[k].0 != id,
    ensures
        index_of_span(entries, id) is None,
    decreases entries.len(),
{
    if entries.len() > 0 {
        lemma_index_of_span_none(entries.skip(1), id);
    }
}

/// The profiler sink's own state: the per-span scratch table, and the
/// level hint negotiated with the client.
pub struct ProfilerSink {
    pub spans: Vec<(u64, SpanVisitor)>,
    pub max_level: Option<Level>,
}

impl ProfilerSink {
    pub open spec fn wf(&self) -> bool {
        &&& forall|i: int, j: int|
            0 <= i < j < self.spans@.len() ==> (#[trigger] self.spans@[i]).0 != (
            #[trigger] self.spans@[j]).0
        &&& forall|i: int| 0 <= i < self.spans@.len() ==> (#[trigger] self.spans@[i]).1.wf()
        &&& forall|i: int|
            0 <= i < self.spans@.len() ==> (#[trigger] self.spans@[i]).1.msg.id
                == self.spans@[i].0 / (crate::ids::INSTANCE_SPACE as u64)
    }

    /// A sink with no live spans.
    pub fn new(max_level: Option<Level>) -> (r: ProfilerSink)
        ensures
            r.wf(),
            r.spans@.len() == 0,
            r.max_level == max_level,
    {
        ProfilerSink { spans: Vec::new(), max_level }
    }

    /// The level hint this sink reports to the subscriber.
    pub fn max_level_hint(&self) -> (r: Option<Level>)
        ensures
            r == self.max_level,
    {
        self.max_level
    }

    /// Handles a span's creation: readies its scratch, records the
    /// attribute fields, and returns the commands to send, in order. When
    /// the call-site is newly seen, its registration is the first command,
    /// so the wire sees the call-site before anything that mentions it; a
    /// parent update follows only when the parent is new or changed.
    pub fn span_create(
        &mut self,
        id: SpanId,
        is_new: bool,
        parent: Option<u32>,
        info: CallSiteInfo,
        fields: &Vec<Field>,
    ) -> (out: Vec<Span<SpanControl>>)
        requires
            old(self).wf(),
            id.wf(),
        ensures
            final(self).wf(),
            final(self).max_level == old(self).max_level,
            // Every command is about this span.
            forall|j: int| 0 <= j < out@.len() ==> (#[trigger] out@[j]).id == id,
            // The call-site registration comes first or not at all: exactly
            // when this is the call-site's first activation, and nothing
            // mentioning the call-site precedes it.
            is_new ==> out@.len() >= 1 && (out@[0].ty matches SpanControl::Alloc { info: i } && i
                == info),
            forall|j: int|
                0 < j < out@.len() ==> !((#[trigger] out@[j]).ty is Alloc),
            !is_new ==> forall|j: int|
                0 <= j < out@.len() ==> !((#[trigger] out@[j]).ty is Alloc),
            // The span's scratch afterwards: empty but for the attribute
            // fields, and remembering this parent.
            ({
                let i = index_of_span(final(self).spans@, id.token);
                &&& i is Some
                &&& final(self).spans@[i->Some_0].1.parent == parent
                &&& final(self).spans@[i->Some_0].1.msg.id == id.spec_node()
                &&& final(self).spans@[i->Some_0].1.msg.buf.data@ == trunc_append(
                    Seq::<u8>::empty(),
                    spec_fields_bytes(fields@),
                    crate::log_msg::SPAN_LOG_CAP as int,
                )
            }),
            // A parent update goes out exactly when the scratch is fresh or
            // the parent changed.
            ({
                let existing = index_of_span(old(self).spans@, id.token);
                let update_needed = match existing {
                    Some(i) => old(self).spans@[i].1.parent != parent,
                    None => true,
                };
                let alloc_count: int = if is_new {
                    1
                } else {
                    0
                };
                &&& update_needed ==> out@.len() == alloc_count + 1 && (out@[out@.len()
                    - 1].ty matches SpanControl::UpdateParent { parent: p } && p == parent)
                &&& !update_needed ==> out@.len() == alloc_count
            }),
    {
        let mut out: Vec<Span<SpanControl>> = Vec::new();
        if is_new {
            out.push(Span { id, ty: SpanControl::Alloc { info } });
        }
        let n = self.spans.len();
        let mut i: usize = 0;
        while i < n
            invariant
                i <= n,
                n == self.spans@.len(),
                old(self).wf(),
                id.wf(),
                self.spans@ == old(self).spans@,
                self.max_level == old(self).max_level,
                forall|k: int| 0 <= k < i ==> self.spans@[k].0 != id.token,
                is_new ==> out@.len() == 1 && out@[0].id == id && (out@[0].ty
                    matches SpanControl::Alloc { info: f } && f == info),
                !is_new ==> out@.len() == 0,
            decreases n - i,
        {
            if self.spans[i].0 == id.token {
                proof {
                    lemma_index_of_span_at(self.spans@, id.token, i as int);
                }
                let key = self.spans[i].0;
                let mut visitor = self.take_visitor(i);
                let changed = visitor.reset(parent);
                proof {
                    assert(visitor.msg.buf.data@ =~= Seq::<u8>::empty());
                }
                record_fields(&mut visitor.msg.buf, fields);
                self.spans[i] = (key, visitor);
                if changed {
                    out.push(Span { id, ty: SpanControl::UpdateParent { parent } });
                }
                proof {
                    lemma_index_of_span_at(final(self).spans@, id.token, i as int);
                    assert forall|a: int, b: int|
                        0 <= a < b < final(self).spans@.len() implies (#[trigger] final(self).spans@[a]).0 != (#[trigger] final(self).spans@[b]).0 by {
                        assert(old(self).spans@[a].0 != old(self).spans@[b].0);
                    }
                    assert forall|a: int|
                        0 <= a < final(self).spans@.len() implies (#[trigger] final(self).spans@[a]).1.wf() by {
                        if a != i as int {
                            assert(final(self).spans@[a] == old(self).spans@[a]);
                            assert(old(self).spans@[a].1.wf());
                        }
                    }
                    assert forall|a: int|
                        0 <= a < final(self).spans@.len() implies (#[trigger] final(self).spans@[a]).1.msg.id == final(self).spans@[a].0 / (
                        crate::ids::INSTANCE_SPACE as u64) by {
                        if a != i as int {
                            assert(final(self).spans@[a] == old(self).spans@[a]);
                        }
                    }
                }
                return out;
            }
            i += 1;
        }
        proof {
            lemma_index_of_span_none(self.spans@, id.token);
        }
        let mut visitor = SpanVisitor::new(id.get_id(), parent);
        proof {
            assert(visitor.msg.buf.data@ =~= Seq::<u8>::empty());
        }
        record_fields(&mut visitor.msg.buf, fields);
        self.spans.push((id.token, visitor));
        out.push(Span { id, ty: SpanControl::UpdateParent { parent } });
        proof {
            lemma_index_of_span_at(final(self).spans@, id.token, old(self).spans@.len() as int);
            assert forall|a: int, b: int|
                0 <= a < b < final(self).spans@.len() implies (#[trigger] final(self).spans@[a]).0 != (#[trigger] final(self).spans@[b]).0 by {
                if b < old(self).spans@.len() {
                    assert(old(self).spans@[a].0 != old(self).spans@[b].0);
                }
            }
            assert forall|a: int|
                0 <= a < final(self).spans@.len() implies (#[trigger] final(self).spans@[a]).1.msg.id == final(self).spans@[a].0 / (
                crate::ids::INSTANCE_SPACE as u64) by {
                if a < old(self).spans@.len() {
                    assert(final(self).spans@[a] == old(self).spans@[a]);
                }
            }
        }
        out
    }

    /// Folds late field updates into a live span's scratch record. An
    /// unknown span is ignored.
    pub fn span_values(&mut self, id: SpanId, fields: &Vec<Field>) -> (found: bool)
        requires
            old(self).wf(),
            id.wf(),
        ensures
            final(self).wf(),
            final(self).max_level == old(self).max_level,
            found == (index_of_span(old(self).spans@, id.token) is Some),
            found ==> {
                let i = index_of_span(old(self).spans@, id.token)->Some_0;
                let before = old(self).spans@[i].1;
                let after = final(self).spans@[i].1;
                &&& final(self).spans@ == old(self).spans@.update(i, (id.token, after))
                &&& after.parent == before.parent
                &&& after.msg.id == before.msg.id
                &&& after.msg.buf.data@ == trunc_append(
                    before.msg.buf.data@,
                    spec_fields_bytes(fields@),
                    crate::log_msg::SPAN_LOG_CAP as int,
                )
            },
            !found ==> final(self).spans@ == old(self).spans@,
    {
        let n = self.spans.len();
        let mut i: usize = 0;
        while i < n
            invariant
                i <= n,
                n == self.spans@.len(),
                old(self).wf(),
                id.wf(),
                self.spans@ == old(self).spans@,
                self.max_level == old(self).max_level,
                forall|k: int| 0 <= k < i ==> self.spans@[k].0 != id.token,
            decreases n - i,
        {
            if self.spans[i].0 == id.token {
                proof {
                    lemma_index_of_span_at(self.spans@, id.token, i as int);
                }
                let key = self.spans[i].0;
                let mut visitor = self.take_visitor(i);
                record_fields(&mut visitor.msg.buf, fields);
                self.spans[i] = (key, visitor);
                proof {
                    assert(final(self).spans@ =~= old(self).spans@.update(
                        i as int,
                        (id.token, final(self).spans@[i as int].1),
                    ));
                    assert forall|a: int, b: int|
                        0 <= a < b < final(self).spans@.len() implies (#[trigger] final(self).spans@[a]).0 != (#[trigger] final(self).spans@[b]).0 by {
                        assert(old(self).spans@[a].0 != old(self).spans@[b].0);
                    }
                    assert forall|a: int|
                        0 <= a < final(self).spans@.len() implies (#[trigger] final(self).spans@[a]).1.wf() by {
                        if a != i as int {
                            assert(final(self).spans@[a] == old(self).spans@[a]);
                            assert(old(self).spans@[a].1.wf());
                        }
                    }
                    assert forall|a: int|
                        0 <= a < final(self).spans@.len() implies (#[trigger] final(self).spans@[a]).1.msg.id == final(self).spans@[a].0 / (
                        crate::ids::INSTANCE_SPACE as u64) by {
                        if a != i as int {
                            assert(final(self).spans@[a] == old(self).spans@[a]);
                        }
                    }
                }
                return true;
            }
            i += 1;
        }
        proof {
            lemma_index_of_span_none(self.spans@, id.token);
        }
        false
    }

    /// Handles a span's exit: seals its scratch record with the measured
    /// duration and hands back the record to ship. The scratch stays in
    /// place for the next run. An unknown span yields nothing — exiting a
    /// span that never entered is a tolerated instrumentation bug.
    pub fn span_exit(&mut self, id: SpanId, duration: &Elapsed) -> (r: Option<SpanLog>)
        requires
            old(self).wf(),
            id.wf(),
            duration.wf(),
        ensures
            final(self).wf(),
            final(self).max_level == old(self).max_level,
            (r is Some) == (index_of_span(old(self).spans@, id.token) is Some),
            r matches Some(log) ==> {
                let i = index_of_span(old(self).spans@, id.token)->Some_0;
                let before = old(self).spans@[i].1.msg;
                &&& log.wf()
                &&& log.id == before.id
                &&& log.buf.data@ == before.buf.data@
                &&& log.buf.var_count == before.buf.var_count
                &&& log.duration_secs == if duration.secs <= u32::MAX {
                    duration.secs as int
                } else {
                    u32::MAX as int
                }
                &&& log.duration_nanos == duration.nanos
            },
            (index_of_span(old(self).spans@, id.token) is None) ==> final(self).spans@ == old(self).spans@,
    {
        let n = self.spans.len();
        let mut i: usize = 0;
        while i < n
            invariant
                i <= n,
                n == self.spans@.len(),
                old(self).wf(),
                id.wf(),
                duration.wf(),
                self.spans@ == old(self).spans@,
                self.max_level == old(self).max_level,
                forall|k: int| 0 <= k < i ==> self.spans@[k].0 != id.token,
            decreases n - i,
        {
            if self.spans[i].0 == id.token {
                proof {
                    lemma_index_of_span_at(self.spans@, id.token, i as int);
                }
                let key = self.spans[i].0;
                let mut visitor = self.take_visitor(i);
                visitor.msg.set_duration(duration);
                let log = visitor.msg.duplicate();
                self.spans[i] = (key, visitor);
                proof {
                    assert forall|a: int, b: int|
                        0 <= a < b < final(self).spans@.len() implies (#[trigger] final(self).spans@[a]).0 != (#[trigger] final(self).spans@[b]).0 by {
                        assert(old(self).spans@[a].0 != old(self).spans@[b].0);
                    }
                    assert forall|a: int|
                        0 <= a < final(self).spans@.len() implies (#[trigger] final(self).spans@[a]).1.wf() by {
                        if a != i as int {
                            assert(final(self).spans@[a] == old(self).spans@[a]);
                            assert(old(self).spans@[a].1.wf());
                        }
                    }
                    assert forall|a: int|
                        0 <= a < final(self).spans@.len() implies (#[trigger] final(self).spans@[a]).1.msg.id == final(self).spans@[a].0 / (
                        crate::ids::INSTANCE_SPACE as u64) by {
                        if a != i as int {
                            assert(final(self).spans@[a] == old(self).spans@[a]);
                        }
                    }
                }
                return Some(log);
            }
            i += 1;
        }
        proof {
            lemma_index_of_span_none(self.spans@, id.token);
        }
        None
    }

    /// Builds an event record: parent node, timestamp, level, the
    /// NUL-terminated target and module names, then the encoded fields.
    pub fn event(
        &self,
        parent: Option<u32>,
        timestamp: i64,
        level: Level,
        module: &Vec<u8>,
        target: &Vec<u8>,
        fields: &Vec<Field>,
    ) -> (r: EventLog)
        requires
            match parent {
                Some(v) => v >= 1,
                None => true,
            },
        ensures
            r.wf(),
            r.id == parent,
            r.timestamp == timestamp,
            r.level == level,
            r.buf.data@ == trunc_append(
                trunc_append(
                    Seq::<u8>::empty(),
                    target@ + seq![0u8] + module@ + seq![0u8],
                    EVENT_LOG_CAP as int,
                ),
                spec_fields_bytes(fields@),
                EVENT_LOG_CAP as int,
            ),
            r.buf.var_count == if fields@.len() <= 255 {
                fields@.len() as int
            } else {
                255int
            },
    {
        let mut log = EventLog::new(parent, timestamp, level, module, target);
        record_fields(&mut log.buf, fields);
        log
    }

    /// Builds an event record stamped with the wall clock. Whatever time
    /// the clock reports, the rest of the record is exactly as `event`
    /// builds it.
    pub fn event_now(
        &self,
        parent: Option<u32>,
        level: Level,
        module: &Vec<u8>,
        target: &Vec<u8>,
        fields: &Vec<Field>,
    ) -> (r: EventLog)
        requires
            match parent {
                Some(v) => v >= 1,
                None => true,
            },
        ensures
            r.wf(),
            r.id == parent,
            r.level == level,
            r.buf.data@ == trunc_append(
                trunc_append(
                    Seq::<u8>::empty(),
                    target@ + seq![0u8] + module@ + seq![0u8],
                    EVENT_LOG_CAP as int,
                ),
                spec_fields_bytes(fields@),
                EVENT_LOG_CAP as int,
            ),
            r.buf.var_count == if fields@.len() <= 255 {
                fields@.len() as int
            } else {
                255int
            },
    {
        let timestamp = crate::clock::now_unix_timestamp();
        self.event(parent, timestamp, level, module, target, fields)
    }

    /// Takes a span's scratch out of the table, leaving a placeholder the
    /// caller overwrites.
    fn take_visitor(&mut self, i: usize) -> (r: SpanVisitor)
        requires
            i < old(self).spans@.len(),
        ensures
            r == old(self).spans@[i as int].1,
            final(self).spans@ == old(self).spans@.update(
                i as int,
                (old(self).spans@[i as int].0, final(self).spans@[i as int].1),
            ),
            final(self).spans@[i as int].0 == old(self).spans@[i as int].0,
            final(self).max_level == old(self).max_level,
    {
        let key = self.spans[i].0;
        let placeholder = SpanVisitor::new(1, None);
        let entry = self.spans.remove(i);
        self.spans.insert(i, (key, placeholder));
        proof {
            assert(final(self).spans@ =~= old(self).spans@.update(
                i as int,
                (old(self).spans@[i as int].0, final(self).spans@[i as int].1),
            ));
        }
        entry.1
    }
}

} // verus!
