//! Fixed-capacity log records: one for a finished span run, one for an
//! event.
//!
//! Each record owns a bounded byte buffer. Writes past the capacity are
//! silently dropped at the boundary, so a record never grows beyond its
//! capacity and the bytes it does hold are always a prefix of what was
//! written. The first byte of the assembled record carries the field count.

use vstd::prelude::*;
use crate::codec::{u32_le, write_u32_le};
use crate::duration::{Elapsed, NANOS_PER_SEC};
use crate::level::Level;

verus! {

/// Control overhead of a span record inside a 512-byte budget.
pub const SPAN_LOG_CAP: usize = 504;

/// Control overhead of an event record inside a 512-byte budget.
pub const EVENT_LOG_CAP: usize = 495;

/// `buf` extended by `bytes`, truncated at capacity `cap`: whatever fits is
/// appended, the rest is dropped.
pub open spec fn trunc_append(buf: Seq<u8>, bytes: Seq<u8>, cap: int) -> Seq<u8> {
    if buf.len() + bytes.len() <= cap {
        buf + bytes
    } else if buf.len() <= cap {
        buf + bytes.take(cap - buf.len())
    } else {
        buf
    }
}

/// Truncated appends compose: writing `x` then `y` leaves the same bytes as
/// writing `x + y` at once.
pub proof fn lemma_trunc_append_compose(buf: Seq<u8>, x: Seq<u8>, y: Seq<u8>, cap: int)
    requires
        buf.len() <= cap,
    ensures
        trunc_append(trunc_append(buf, x, cap), y, cap) == trunc_append(buf, x + y, cap),
{
    let once = trunc_append(buf, x + y, cap);
    let first = trunc_append(buf, x, cap);
    let twice = trunc_append(first, y, cap);
    if buf.len() + x.len() + y.len() <= cap {
        assert(twice =~= once);
    } else if buf.len() + x.len() <= cap {
        assert(twice =~= once);
    } else {
        assert(first =~= buf + x.take(cap - buf.len()));
        assert(first.len() == cap);
        assert(twice =~= first);
        assert((x + y).take(cap - buf.len()) =~= x.take(cap - buf.len()));
        assert(twice =~= once);
    }
}

/// A bounded byte buffer with a field counter. The capacity is fixed at
/// construction; writes beyond it are dropped.
pub struct LogBuf {
    pub data: Vec<u8>,
    pub cap: usize,
    pub var_count: u8,
}

impl LogBuf {
    pub open spec fn wf(&self) -> bool {
        self.data@.len() <= self.cap
    }

    /// An empty buffer of the given capacity.
    pub fn new(cap: usize) -> (r: LogBuf)
        ensures
            r.wf(),
            r.data@.len() == 0,
            r.cap == cap,
            r.var_count == 0,
    {
        LogBuf { data: Vec::new(), cap, var_count: 0 }
    }

    /// Appends one byte unless the buffer is full.
    pub fn write_byte(&mut self, b: u8)
        requires
            old(self).wf(),
        ensures
            final(self).wf(),
            final(self).data@ == trunc_append(old(self).data@, seq![b], old(self).cap as int),
            final(self).cap == old(self).cap,
            final(self).var_count == old(self).var_count,
    {
        if self.data.len() < self.cap {
            self.data.push(b);
            assert(self.data@ =~= trunc_append(old(self).data@, seq![b], old(self).cap as int));
        } else {
            assert(self.data@ =~= trunc_append(old(self).data@, seq![b], old(self).cap as int));
        }
    }

    /// Appends as many of the given bytes as fit; the rest are dropped.
    pub fn write_bytes(&mut self, bytes: &Vec<u8>)
        requires
            old(self).wf(),
        ensures
            final(self).wf(),
            final(self).data@ == trunc_append(old(self).data@, bytes@, old(self).cap as int),
            final(self).cap == old(self).cap,
            final(self).var_count == old(self).var_count,
    {
        let mut i: usize = 0;
        let n = bytes.len();
        while i < n
            invariant
                i <= n,
                n == bytes@.len(),
                self.wf(),
                self.cap == old(self).cap,
                self.var_count == old(self).var_count,
                self.data@ == trunc_append(old(self).data@, bytes@.take(i as int), self.cap as int),
            decreases n - i,
        {
            proof {
                lemma_trunc_append_compose(
                    old(self).data@,
                    bytes@.take(i as int),
                    seq![bytes@[i as int]],
                    self.cap as int,
                );
                assert(bytes@.take(i as int) + seq![bytes@[i as int]] =~= bytes@.take(i + 1));
            }
            self.write_byte(bytes[i]);
            i += 1;
        }
        assert(bytes@.take(n as int) =~= bytes@);
    }

    /// Counts one more encoded field, saturating at the counter's width.
    pub fn increment_var_count(&mut self)
        ensures
            final(self).data == old(self).data,
            final(self).cap == old(self).cap,
            final(self).var_count == if old(self).var_count < 255 {
                old(self).var_count + 1
            } else {
                old(self).var_count as int
            },
    {
        if self.var_count < 255 {
            self.var_count += 1;
        }
    }
}

/// The bytes a span record ships after `write_finish`: the field count,
/// then the buffer with the duration appended (truncating at capacity).
pub open spec fn spec_finished_span_bytes(log: SpanLog) -> Seq<u8> {
    seq![log.buf.var_count] + trunc_append(
        log.buf.data@,
        u32_le(log.duration_secs) + u32_le(log.duration_nanos),
        SPAN_LOG_CAP as int,
    )
}

/// The record of one finished span run: node id, measured duration, and the
/// TLV-encoded fields gathered while the span was current.
pub struct SpanLog {
    pub buf: LogBuf,
    pub id: u32,
    pub duration_secs: u32,
    pub duration_nanos: u32,
}

impl SpanLog {
    pub open spec fn wf(&self) -> bool {
        &&& self.buf.wf()
        &&& self.buf.cap == SPAN_LOG_CAP
        &&& self.id >= 1
        &&& self.duration_nanos < NANOS_PER_SEC
    }

    /// The bytes this record ships: field count first, then the buffer.
    pub open spec fn spec_bytes(&self) -> Seq<u8> {
        seq![self.buf.var_count] + self.buf.data@
    }

    /// An empty record for the given call-site node.
    pub fn new(id: u32) -> (r: SpanLog)
        requires
            id >= 1,
        ensures
            r.wf(),
            r.id == id,
            r.buf.data@.len() == 0,
            r.buf.var_count == 0,
            r.duration_secs == 0,
            r.duration_nanos == 0,
    {
        SpanLog { buf: LogBuf::new(SPAN_LOG_CAP), id, duration_secs: 0, duration_nanos: 0 }
    }

    /// Stores the measured duration, saturating the seconds at the wire
    /// field's width.
    pub fn set_duration(&mut self, duration: &Elapsed)
        requires
            old(self).wf(),
            duration.wf(),
        ensures
            final(self).wf(),
            final(self).duration_secs == if duration.secs <= u32::MAX {
                duration.secs as int
            } else {
                u32::MAX as int
            },
            final(self).duration_nanos == duration.nanos,
            final(self).buf == old(self).buf,
            final(self).id == old(self).id,
    {
        self.duration_secs = if duration.secs <= u32::MAX as u64 {
            duration.secs as u32
        } else {
            u32::MAX
        };
        self.duration_nanos = duration.nanos;
    }

    /// The stored duration.
    pub fn get_duration(&self) -> (r: Elapsed)
        requires
            self.wf(),
        ensures
            r.wf(),
            r.secs == self.duration_secs,
            r.nanos == self.duration_nanos,
    {
        Elapsed { secs: self.duration_secs as u64, nanos: self.duration_nanos }
    }

    /// Seals the record: appends the duration to the buffer (truncating at
    /// capacity, like any other write).
    pub fn write_finish(&mut self)
        requires
            old(self).wf(),
        ensures
            final(self).wf(),
            final(self).buf.data@ == trunc_append(
                old(self).buf.data@,
                u32_le(old(self).duration_secs) + u32_le(old(self).duration_nanos),
                SPAN_LOG_CAP as int,
            ),
            final(self).buf.var_count == old(self).buf.var_count,
            final(self).id == old(self).id,
            final(self).duration_secs == old(self).duration_secs,
            final(self).duration_nanos == old(self).duration_nanos,
    {
        let mut tmp: Vec<u8> = Vec::new();
        write_u32_le(&mut tmp, self.duration_secs);
        write_u32_le(&mut tmp, self.duration_nanos);
        self.buf.write_bytes(&tmp);
    }

    /// Empties the record for the next run of the same span.
    pub fn clear(&mut self)
        requires
            old(self).wf(),
        ensures
            final(self).wf(),
            final(self).buf.data@.len() == 0,
            final(self).buf.var_count == 0,
            final(self).buf.cap == old(self).buf.cap,
            final(self).id == old(self).id,
            final(self).duration_secs == old(self).duration_secs,
            final(self).duration_nanos == old(self).duration_nanos,
    {
        self.buf.data.clear();
        self.buf.var_count = 0;
    }

    /// The call-site node this record belongs to.
    pub fn id(&self) -> (r: u32)
        ensures
            r == self.id,
    {
        self.id
    }

    /// Assembles the shipped bytes: field count, then the buffer.
    pub fn as_bytes(&self) -> (r: Vec<u8>)
        requires
            self.wf(),
        ensures
            r@ == self.spec_bytes(),
            r@.len() <= SPAN_LOG_CAP + 1,
    {
        let mut out: Vec<u8> = Vec::new();
        out.push(self.buf.var_count);
        let mut i: usize = 0;
        let n = self.buf.data.len();
        while i < n
            invariant
                i <= n,
                n == self.buf.data@.len(),
                out@ == seq![self.buf.var_count] + self.buf.data@.take(i as int),
            decreases n - i,
        {
            out.push(self.buf.data[i]);
            i += 1;
            assert(out@ =~= seq![self.buf.var_count] + self.buf.data@.take(i as int));
        }
        assert(out@ =~= self.spec_bytes());
        out
    }

    /// Duplicates the record.
    pub fn duplicate(&self) -> (r: SpanLog)
        ensures
            r.buf.data@ == self.buf.data@,
            r.buf.cap == self.buf.cap,
            r.buf.var_count == self.buf.var_count,
            r.id == self.id,
            r.duration_secs == self.duration_secs,
            r.duration_nanos == self.duration_nanos,
            r.spec_bytes() == self.spec_bytes(),
            self.wf() ==> r.wf(),
    {
        SpanLog {
            buf: LogBuf {
                data: self.buf.data.clone(),
                cap: self.buf.cap,
                var_count: self.buf.var_count,
            },
            id: self.id,
            duration_secs: self.duration_secs,
            duration_nanos: self.duration_nanos,
        }
    }
}

/// The record of one event: optional parent node, timestamp, level, then a
/// buffer that starts with the NUL-terminated target and module names and
/// continues with TLV-encoded fields.
pub struct EventLog {
    pub buf: LogBuf,
    pub id: Option<u32>,
    pub timestamp: i64,
    pub level: Level,
}

impl EventLog {
    pub open spec fn wf(&self) -> bool {
        &&& self.buf.wf()
        &&& self.buf.cap == EVENT_LOG_CAP
        &&& match self.id {
            Some(v) => v >= 1,
            None => true,
        }
    }

    /// The bytes this record ships: field count first, then the buffer.
    pub open spec fn spec_bytes(&self) -> Seq<u8> {
        seq![self.buf.var_count] + self.buf.data@
    }

    /// A fresh event record; the target and module names go in first, each
    /// NUL-terminated.
    pub fn new(id: Option<u32>, timestamp: i64, level: Level, module: &Vec<u8>, target: &Vec<u8>) -> (r:
        EventLog)
        requires
            match id {
                Some(v) => v >= 1,
                None => true,
            },
        ensures
            r.wf(),
            r.id == id,
            r.timestamp == timestamp,
            r.level == level,
            r.buf.var_count == 0,
            r.buf.data@ == trunc_append(
                Seq::<u8>::empty(),
                target@ + seq![0u8] + module@ + seq![0u8],
                EVENT_LOG_CAP as int,
            ),
    {
        let mut buf = LogBuf::new(EVENT_LOG_CAP);
        buf.write_bytes(target);
        proof {
            lemma_trunc_append_compose(Seq::<u8>::empty(), target@, seq![0u8], EVENT_LOG_CAP as int);
        }
        buf.write_byte(0);
        proof {
            lemma_trunc_append_compose(
                Seq::<u8>::empty(),
                target@ + seq![0u8],
                module@,
                EVENT_LOG_CAP as int,
            );
        }
        buf.write_bytes(module);
        proof {
            lemma_trunc_append_compose(
                Seq::<u8>::empty(),
                target@ + seq![0u8] + module@,
                seq![0u8],
                EVENT_LOG_CAP as int,
            );
            assert(target@ + seq![0u8] + module@ + seq![0u8] =~= (target@ + seq![0u8]) + (module@
                + seq![0u8]));
        }
        buf.write_byte(0);
        assert((target@ + seq![0u8]) + module@ + seq![0u8] =~= target@ + seq![0u8] + module@
            + seq![0u8]);
        EventLog { buf, id, timestamp, level }
    }

    /// The parent node this event reports to, if any.
    pub fn id(&self) -> (r: Option<u32>)
        ensures
            r == self.id,
    {
        self.id
    }

    /// The event's severity level.
    pub fn level(&self) -> (r: Level)
        ensures
            r == self.level,
    {
        self.level
    }

    /// The event's wall-clock timestamp, in Unix seconds.
    pub fn timestamp(&self) -> (r: i64)
        ensures
            r == self.timestamp,
    {
        self.timestamp
    }

    /// Seals the record. The field count travels as the first assembled
    /// byte, so nothing is left to do in the buffer itself.
    pub fn write_finish(&mut self)
        ensures
            *final(self) == *old(self),
    {
    }

    /// Assembles the shipped bytes: field count, then the buffer.
    pub fn as_bytes(&self) -> (r: Vec<u8>)
        requires
            self.wf(),
        ensures
            r@ == self.spec_bytes(),
            r@.len() <= EVENT_LOG_CAP + 1,
    {
        let mut out: Vec<u8> = Vec::new();
        out.push(self.buf.var_count);
        let mut i: usize = 0;
        let n = self.buf.data.len();
        while i < n
            invariant
                i <= n,
                n == self.buf.data@.len(),
                out@ == seq![self.buf.var_count] + self.buf.data@.take(i as int),
            decreases n - i,
        {
            out.push(self.buf.data[i]);
            i += 1;
            assert(out@ =~= seq![self.buf.var_count] + self.buf.data@.take(i as int));
        }
        assert(out@ =~= self.spec_bytes());
        out
    }

    /// Duplicates the record.
    pub fn duplicate(&self) -> (r: EventLog)
        ensures
            r.buf.data@ == self.buf.data@,
            r.buf.cap == self.buf.cap,
            r.buf.var_count == self.buf.var_count,
            r.id == self.id,
            r.timestamp == self.timestamp,
            r.level == self.level,
            r.spec_bytes() == self.spec_bytes(),
            self.wf() ==> r.wf(),
    {
        EventLog {
            buf: LogBuf {
                data: self.buf.data.clone(),
                cap: self.buf.cap,
                var_count: self.buf.var_count,
            },
            id: self.id,
            timestamp: self.timestamp,
            level: self.level,
        }
    }
}

} // verus!
