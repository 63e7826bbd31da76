//! The worker's per-span aggregation store with row-capped recording.
//!
//! Every finished span run updates its node's aggregates (count, min, max,
//! windowed total). While recording is on and the node's row cap is not yet
//! reached, the run's serialized bytes are appended, length-prefixed, to
//! the node's recording buffer. An aggregate push is emitted at most once
//! per period per node.

use vstd::prelude::*;
use crate::codec::u16_le;
use crate::duration::{Elapsed, NANOS_PER_SEC, spec_div_elapsed};
use crate::log_msg::{SpanLog, spec_finished_span_bytes};
use crate::wire::{ClientConfig, Duration, SpanDataset, SpanUpdate};

verus! {

/// Aggregation state for one call-site node.
pub struct SpanData {
    pub row_count: u32,
    pub full_run_count: u32,
    pub average_run_count: u32,
    pub min_time: Elapsed,
    pub max_time: Elapsed,
    pub total_time: Elapsed,
    pub runs_file: Vec<u8>,
    pub last_display_time: u64,
}

impl SpanData {
    pub open spec fn wf(&self) -> bool {
        &&& self.min_time.wf()
        &&& self.max_time.wf()
        &&& self.total_time.wf()
    }

    /// Fresh state: no runs seen, the minimum starts at the top and the
    /// maximum at the bottom so the first run sets both.
    pub fn new(now_ms: u64) -> (r: SpanData)
        ensures
            r.wf(),
            r.row_count == 0,
            r.full_run_count == 0,
            r.average_run_count == 0,
            r.min_time == crate::duration::spec_max_elapsed(),
            r.max_time.as_nanos() == 0,
            r.total_time.as_nanos() == 0,
            r.runs_file@.len() == 0,
            r.last_display_time == now_ms,
    {
        SpanData {
            row_count: 0,
            full_run_count: 0,
            average_run_count: 0,
            min_time: Elapsed::max_value(),
            max_time: Elapsed::zero(),
            total_time: Elapsed::zero(),
            runs_file: Vec::new(),
            last_display_time: now_ms,
        }
    }

    /// The windowed mean duration: zero until a run lands in the window.
    pub fn get_average(&self) -> (r: Elapsed)
        requires
            self.wf(),
        ensures
            r.wf(),
            r == spec_average(*self),
    {
        if self.average_run_count == 0 {
            Elapsed::zero()
        } else {
            self.total_time.div(self.average_run_count)
        }
    }

    /// Folds one run into the aggregates. The window count advances and
    /// wraps at `max_average_points` (resetting the total, to bound drift);
    /// the extremes absorb the new duration, so afterwards the duration
    /// sits between the minimum and the maximum.
    pub fn update(&mut self, duration: &Elapsed, max_average_points: u32)
        requires
            old(self).wf(),
            duration.wf(),
            old(self).average_run_count < u32::MAX,
        ensures
            final(self).wf(),
            final(self).average_run_count == if old(self).average_run_count + 1
                >= max_average_points {
                0int
            } else {
                old(self).average_run_count + 1
            },
            final(self).total_time.as_nanos() == {
                let base: int = if old(self).average_run_count + 1 >= max_average_points {
                    0
                } else {
                    old(self).total_time.as_nanos()
                };
                if base + duration.as_nanos() <= crate::duration::spec_max_elapsed().as_nanos() {
                    base + duration.as_nanos()
                } else {
                    crate::duration::spec_max_elapsed().as_nanos()
                }
            },
            final(self).max_time.as_nanos() == if duration.as_nanos() > old(self).max_time.as_nanos() {
                duration.as_nanos()
            } else {
                old(self).max_time.as_nanos()
            },
            final(self).min_time.as_nanos() == if duration.as_nanos() < old(self).min_time.as_nanos() {
                duration.as_nanos()
            } else {
                old(self).min_time.as_nanos()
            },
            // The new run lies between the refreshed extremes.
            final(self).min_time.as_nanos() <= duration.as_nanos(),
            duration.as_nanos() <= final(self).max_time.as_nanos(),
            final(self).row_count == old(self).row_count,
            final(self).full_run_count == old(self).full_run_count,
            final(self).runs_file == old(self).runs_file,
            final(self).last_display_time == old(self).last_display_time,
    {
        self.average_run_count = self.average_run_count + 1;
        if self.average_run_count >= max_average_points {
            self.total_time = Elapsed::zero();
            self.average_run_count = 0;
        }
        if self.max_time.lt(duration) {
            self.max_time = *duration;
        }
        if duration.lt(&self.min_time) {
            self.min_time = *duration;
        }
        self.total_time = self.total_time.saturating_add(duration);
    }
}

/// The windowed mean of a node's aggregates.
pub open spec fn spec_average(d: SpanData) -> Elapsed {
    if d.average_run_count == 0 {
        Elapsed { secs: 0, nanos: 0 }
    } else {
        spec_div_elapsed(d.total_time, d.average_run_count)
    }
}

/// An exact duration narrowed to the wire form: seconds saturate at the
/// 32-bit field, the nanosecond part carries over.
pub open spec fn spec_wire_duration(e: Elapsed) -> Duration {
    Duration {
        seconds: if e.secs <= u32::MAX {
            e.secs as u32
        } else {
            u32::MAX
        },
        nano_seconds: e.nanos,
    }
}

/// Narrows an exact duration to the wire form.
pub fn wire_duration_of(e: &Elapsed) -> (r: Duration)
    requires
        e.wf(),
    ensures
        r == spec_wire_duration(*e),
{
    Duration {
        seconds: if e.secs <= u32::MAX as u64 {
            e.secs as u32
        } else {
            u32::MAX
        },
        nano_seconds: e.nanos,
    }
}

/// First index holding the given node id.
pub open spec fn index_of_key(entries: Seq<(u32, SpanData)>, id: u32) -> Option<int>
    decreases entries.len(),
{
    if entries.len() == 0 {
        None
    } else if entries[0].0 == id {
        Some(0)
    } else {
        match index_of_key(entries.skip(1), id) {
            Some(i) => Some(i + 1),
            None => None,
        }
    }
}

proof fn lemma_index_of_key_at(entries: Seq<(u32, SpanData)>, id: u32, i: int)
    requires
        0 <= i < entries.len(),
        entries[i].0 == id,
        forall|k: int| 0 <= k < i ==> entries[k].0 != id,
    ensures
        index_of_key(entries, id) == Some(i),
    decreases i,
{
    if i > 0 {
        lemma_index_of_key_at(entries.skip(1), id, i - 1);
    }
}

proof fn lemma_index_of_key_none(entries: Seq<(u32, SpanData)>, id: u32)
    requires
        forall|k: int| 0 <= k < entries.len() ==> entries[k].0 != id,
    ensures
        index_of_key(entries, id) is None,
    decreases entries.len(),
{
    if entries.len() > 0 {
        lemma_index_of_key_none(entries.skip(1), id);
    }
}

/// The aggregation store: one entry per registered node, plus the
/// recording and push configuration settled at the handshake.
pub struct SpanStore {
    pub span_data: Vec<(u32, SpanData)>,
    pub max_rows: u32,
    pub global_max_rows: u32,
    pub max_average_points: u32,
    pub enable_recording: bool,
    pub period: u16,
}

impl SpanStore {
    pub open spec fn wf(&self) -> bool {
        &&& forall|i: int, j: int|
            0 <= i < j < self.span_data@.len() ==> (#[trigger] self.span_data@[i]).0 != (
            #[trigger] self.span_data@[j]).0
        &&& forall|i: int|
            0 <= i < self.span_data@.len() ==> (#[trigger] self.span_data@[i]).1.wf()
                && (self.span_data@[i].1.average_run_count == 0 || self.span_data@[
                i].1.average_run_count < self.max_average_points)
    }

    /// Settles the store from the client's opening configuration: the row
    /// cap is bounded by the server's own, and the push period never drops
    /// below the server's floor.
    pub fn new(global_max_rows: u32, min_period: u16, config: &ClientConfig) -> (r: SpanStore)
        ensures
            r.wf(),
            r.span_data@.len() == 0,
            r.max_rows == if config.record.max_rows > global_max_rows {
                global_max_rows
            } else {
                config.record.max_rows
            },
            r.global_max_rows == global_max_rows,
            r.max_average_points == config.max_average_points,
            r.enable_recording == config.record.enable,
            r.period == if config.period < min_period {
                min_period
            } else {
                config.period
            },
    {
        let max_rows = if config.record.max_rows > global_max_rows {
            global_max_rows
        } else {
            config.record.max_rows
        };
        let period = if config.period < min_period {
            min_period
        } else {
            config.period
        };
        SpanStore {
            span_data: Vec::new(),
            max_rows,
            global_max_rows,
            max_average_points: config.max_average_points,
            enable_recording: config.record.enable,
            period,
        }
    }

    /// Registers a node, wiping any state it had.
    pub fn reserve_span(&mut self, id: u32, now_ms: u64)
        requires
            old(self).wf(),
        ensures
            final(self).wf(),
            final(self).max_rows == old(self).max_rows,
            final(self).global_max_rows == old(self).global_max_rows,
            final(self).max_average_points == old(self).max_average_points,
            final(self).enable_recording == old(self).enable_recording,
            final(self).period == old(self).period,
            match index_of_key(old(self).span_data@, id) {
                Some(i) => {
                    &&& final(self).span_data@.len() == old(self).span_data@.len()
                    &&& final(self).span_data@ == old(self).span_data@.update(
                        i,
                        final(self).span_data@[i],
                    )
                    &&& final(self).span_data@[i].0 == id
                    &&& is_fresh(final(self).span_data@[i].1, now_ms)
                },
                None => {
                    &&& final(self).span_data@.len() == old(self).span_data@.len() + 1
                    &&& final(self).span_data@ == old(self).span_data@.push(
                        final(self).span_data@.last(),
                    )
                    &&& final(self).span_data@.last().0 == id
                    &&& is_fresh(final(self).span_data@.last().1, now_ms)
                },
            },
    {
        let n = self.span_data.len();
        let mut i: usize = 0;
        while i < n
            invariant
                i <= n,
                n == self.span_data@.len(),
                old(self).wf(),
                self.span_data@ == old(self).span_data@,
                self.max_rows == old(self).max_rows,
                self.global_max_rows == old(self).global_max_rows,
                self.max_average_points == old(self).max_average_points,
                self.enable_recording == old(self).enable_recording,
                self.period == old(self).period,
                forall|k: int| 0 <= k < i ==> self.span_data@[k].0 != id,
            decreases n - i,
        {
            if self.span_data[i].0 == id {
                proof {
                    lemma_index_of_key_at(self.span_data@, id, i as int);
                }
                let fresh = SpanData::new(now_ms);
                self.span_data[i] = (id, fresh);
                proof {
                    assert(final(self).span_data@ =~= old(self).span_data@.update(
                        i as int,
                        final(self).span_data@[i as int],
                    ));
                }
                return ;
            }
            i += 1;
        }
        proof {
            lemma_index_of_key_none(self.span_data@, id);
        }
        let fresh = SpanData::new(now_ms);
        self.span_data.push((id, fresh));
    }

    /// Opens a recording window: the requested row cap is bounded by the
    /// server's global cap.
    pub fn start_recording(&mut self, max_rows: u32)
        requires
            old(self).wf(),
        ensures
            final(self).wf(),
            final(self).enable_recording,
            final(self).max_rows == if max_rows > old(self).global_max_rows {
                old(self).global_max_rows
            } else {
                max_rows
            },
            final(self).span_data@ == old(self).span_data@,
            final(self).global_max_rows == old(self).global_max_rows,
            final(self).max_average_points == old(self).max_average_points,
            final(self).period == old(self).period,
    {
        if max_rows > self.global_max_rows {
            self.max_rows = self.global_max_rows;
        } else {
            self.max_rows = max_rows;
        }
        self.enable_recording = true;
    }

    /// Closes the recording window: returns one dataset header and buffer
    /// per node that recorded anything, in store order, and clears every
    /// node's buffer and row count.
    pub fn stop_recording(&mut self) -> (r: Vec<(SpanDataset, Vec<u8>)>)
        requires
            old(self).wf(),
        ensures
            final(self).wf(),
            !final(self).enable_recording,
            final(self).max_rows == old(self).max_rows,
            final(self).global_max_rows == old(self).global_max_rows,
            final(self).max_average_points == old(self).max_average_points,
            final(self).period == old(self).period,
            final(self).span_data@.len() == old(self).span_data@.len(),
            forall|i: int|
                0 <= i < old(self).span_data@.len() ==> (#[trigger] final(self).span_data@[i]).0
                    == old(self).span_data@[i].0,
            forall|i: int|
                0 <= i < old(self).span_data@.len() ==> (#[trigger] final(self).span_data@[i]).1.row_count == 0,
            forall|i: int|
                0 <= i < old(self).span_data@.len() ==> (#[trigger] final(self).span_data@[i]).1.runs_file@.len() == 0,
            forall|i: int|
                0 <= i < old(self).span_data@.len() ==> (#[trigger] final(self).span_data@[i]).1.average_run_count == old(self).span_data@[i].1.average_run_count,
            forall|i: int|
                0 <= i < old(self).span_data@.len() ==> (#[trigger] final(self).span_data@[i]).1.min_time == old(self).span_data@[i].1.min_time,
            forall|i: int|
                0 <= i < old(self).span_data@.len() ==> (#[trigger] final(self).span_data@[i]).1.max_time == old(self).span_data@[i].1.max_time,
            forall|i: int|
                0 <= i < old(self).span_data@.len() ==> (#[trigger] final(self).span_data@[i]).1.total_time == old(self).span_data@[i].1.total_time,
            forall|i: int|
                0 <= i < old(self).span_data@.len() ==> (#[trigger] final(self).span_data@[i]).1.last_display_time == old(self).span_data@[i].1.last_display_time,
            forall|i: int|
                0 <= i < old(self).span_data@.len() ==> (#[trigger] final(self).span_data@[i]).1.full_run_count == old(self).span_data@[i].1.full_run_count,
            r@.len() == spec_datasets(old(self).span_data@).len(),
            forall|k: int|
                0 <= k < r@.len() ==> (#[trigger] r@[k]).0 == spec_datasets(
                    old(self).span_data@,
                )[k].0 && r@[k].1@ == spec_datasets(old(self).span_data@)[k].1,
    {
        self.enable_recording = false;
        let n = self.span_data.len();
        let mut out: Vec<(SpanDataset, Vec<u8>)> = Vec::new();
        let mut i: usize = 0;
        while i < n
            invariant
                i <= n,
                n == self.span_data@.len(),
                self.span_data@.len() == old(self).span_data@.len(),
                self.max_rows == old(self).max_rows,
                self.global_max_rows == old(self).global_max_rows,
                self.max_average_points == old(self).max_average_points,
                self.period == old(self).period,
                !self.enable_recording,
                old(self).wf(),
                forall|k: int|
                    i <= k < n ==> #[trigger] self.span_data@[k] == old(self).span_data@[k],
                forall|k: int|
                    0 <= k < i ==> (#[trigger] self.span_data@[k]).0 == old(self).span_data@[k].0,
                forall|k: int|
                    0 <= k < i ==> (#[trigger] self.span_data@[k]).1.row_count == 0,
                forall|k: int|
                    0 <= k < i ==> (#[trigger] self.span_data@[k]).1.runs_file@.len() == 0,
                forall|k: int|
                    0 <= k < i ==> (#[trigger] self.span_data@[k]).1.average_run_count == old(self).span_data@[k].1.average_run_count,
                forall|k: int|
                    0 <= k < i ==> (#[trigger] self.span_data@[k]).1.min_time == old(self).span_data@[k].1.min_time,
                forall|k: int|
                    0 <= k < i ==> (#[trigger] self.span_data@[k]).1.max_time == old(self).span_data@[k].1.max_time,
                forall|k: int|
                    0 <= k < i ==> (#[trigger] self.span_data@[k]).1.total_time == old(self).span_data@[k].1.total_time,
                forall|k: int|
                    0 <= k < i ==> (#[trigger] self.span_data@[k]).1.last_display_time == old(self).span_data@[k].1.last_display_time,
                forall|k: int|
                    0 <= k < i ==> (#[trigger] self.span_data@[k]).1.full_run_count == old(self).span_data@[k].1.full_run_count,
                out@.len() == spec_datasets(old(self).span_data@.take(i as int)).len(),
                forall|k: int|
                    0 <= k < out@.len() ==> (#[trigger] out@[k]).0 == spec_datasets(
                        old(self).span_data@.take(i as int),
                    )[k].0 && out@[k].1@ == spec_datasets(old(self).span_data@.take(i as int))[k].1,
            decreases n - i,
        {
            let key = self.span_data[i].0;
            let row_count = self.span_data[i].1.row_count;
            let has_rows = self.span_data[i].1.runs_file.len() > 0;
            if has_rows {
                let buffer = crate::text::copy_bytes(&self.span_data[i].1.runs_file);
                out.push((SpanDataset { id: key, run_count: row_count }, buffer));
            }
            let d = &self.span_data[i].1;
            let cleared = SpanData {
                row_count: 0,
                full_run_count: d.full_run_count,
                average_run_count: d.average_run_count,
                min_time: d.min_time,
                max_time: d.max_time,
                total_time: d.total_time,
                runs_file: Vec::new(),
                last_display_time: d.last_display_time,
            };
            self.span_data[i] = (key, cleared);
            i += 1;
            proof {
                lemma_spec_datasets_step(old(self).span_data@, i as int);
                assert(self.span_data@[i - 1].1 == cleared);
                assert(self.span_data@[i - 1].0 == key);
            }
        }
        proof {
            assert(old(self).span_data@.take(n as int) =~= old(self).span_data@);
            assert forall|a: int, b: int|
                0 <= a < b < final(self).span_data@.len() implies (#[trigger] final(self).span_data@[a]).0 != (#[trigger] final(self).span_data@[b]).0 by {
                assert(old(self).span_data@[a].0 != old(self).span_data@[b].0);
            }
            assert forall|a: int|
                0 <= a < final(self).span_data@.len() implies (#[trigger] final(self).span_data@[a]).1.wf() && (final(self).span_data@[a].1.average_run_count == 0
                || final(self).span_data@[a].1.average_run_count < final(self).max_average_points) by {
                assert(old(self).span_data@[a].1.wf());
                assert(final(self).span_data@[a].1.min_time == old(self).span_data@[a].1.min_time);
            }
        }
        out
    }

    /// Folds one finished run into its node's aggregates, appends its bytes
    /// to the recording buffer while the window is open and the row cap not
    /// reached, and emits an aggregate push when at least a period has gone
    /// by since the node's last push. A run for an unregistered node is
    /// dropped.
    #[verifier::rlimit(60)]
    pub fn record(&mut self, log: SpanLog, now_ms: u64) -> (r: Option<SpanUpdate>)
        requires
            old(self).wf(),
            log.wf(),
        ensures
            final(self).wf(),
            final(self).max_rows == old(self).max_rows,
            final(self).global_max_rows == old(self).global_max_rows,
            final(self).max_average_points == old(self).max_average_points,
            final(self).enable_recording == old(self).enable_recording,
            final(self).period == old(self).period,
            match index_of_key(old(self).span_data@, log.id) {
                None => final(self).span_data@ == old(self).span_data@ && r is None,
                Some(i) => {
                    let before = old(self).span_data@[i].1;
                    let after = final(self).span_data@[i].1;
                    let dur = log.duration_secs * (NANOS_PER_SEC as int) + log.duration_nanos;
                    let appended = old(self).enable_recording && before.row_count < old(self).max_rows;
                    let since: int = if now_ms >= before.last_display_time {
                        now_ms - before.last_display_time
                    } else {
                        0
                    };
                    let pushed = since >= old(self).period;
                    &&& final(self).span_data@ == old(self).span_data@.update(
                        i,
                        (log.id, after),
                    )
                    // The run sits between the refreshed extremes.
                    &&& after.min_time.as_nanos() <= dur <= after.max_time.as_nanos()
                    &&& after.average_run_count == if before.average_run_count + 1 >= old(self).max_average_points {
                        0int
                    } else {
                        before.average_run_count + 1
                    }
                    // Recording appends exactly while the window is open and
                    // the row cap is not reached.
                    &&& appended ==> after.row_count == before.row_count + 1
                        && after.runs_file@ == before.runs_file@ + u16_le(
                        spec_finished_span_bytes(log).len() as u16,
                    ) + spec_finished_span_bytes(log)
                    &&& !appended ==> after.row_count == before.row_count && after.runs_file@
                        == before.runs_file@
                    // A push happens exactly when a full period has elapsed,
                    // and restarts the node's period clock.
                    &&& (r is Some) == pushed
                    &&& after.last_display_time == if pushed {
                        now_ms as int
                    } else {
                        before.last_display_time as int
                    }
                    &&& r matches Some(u) ==> u.id == log.id && u.run_count == after.row_count
                        && u.average_time == spec_wire_duration(spec_average(after))
                        && u.min_time == spec_wire_duration(after.min_time) && u.max_time
                        == spec_wire_duration(after.max_time)
                },
            },
    {
        let n = self.span_data.len();
        let mut i: usize = 0;
        while i < n
            invariant
                i <= n,
                n == self.span_data@.len(),
                old(self).wf(),
                log.wf(),
                self.span_data@ == old(self).span_data@,
                self.max_rows == old(self).max_rows,
                self.global_max_rows == old(self).global_max_rows,
                self.max_average_points == old(self).max_average_points,
                self.enable_recording == old(self).enable_recording,
                self.period == old(self).period,
                forall|k: int| 0 <= k < i ==> self.span_data@[k].0 != log.id,
            decreases n - i,
        {
            if self.span_data[i].0 == log.id {
                proof {
                    lemma_index_of_key_at(self.span_data@, log.id, i as int);
                }
                let key = self.span_data[i].0;
                let data = self.take_data(i);
                let (data, result) = record_entry(
                    data,
                    log,
                    now_ms,
                    self.max_average_points,
                    self.enable_recording,
                    self.max_rows,
                    self.period,
                );
                self.span_data[i] = (key, data);
                proof {
                    assert(final(self).span_data@ =~= old(self).span_data@.update(
                        i as int,
                        (log.id, final(self).span_data@[i as int].1),
                    ));
                    assert forall|a: int, b: int|
                        0 <= a < b < final(self).span_data@.len() implies (#[trigger] final(self).span_data@[a]).0 != (#[trigger] final(self).span_data@[b]).0 by {
                        assert(old(self).span_data@[a].0 != old(self).span_data@[b].0);
                    }
                    assert forall|a: int|
                        0 <= a < final(self).span_data@.len() implies (#[trigger] final(self).span_data@[a]).1.wf() && (final(self).span_data@[a].1.average_run_count == 0
                        || final(self).span_data@[a].1.average_run_count < final(self).max_average_points) by {
                        if a != i as int {
                            assert(final(self).span_data@[a] == old(self).span_data@[a]);
                            assert(old(self).span_data@[a].1.wf());
                        }
                    }
                }
                return result;
            }
            i += 1;
        }
        proof {
            lemma_index_of_key_none(self.span_data@, log.id);
        }
        None
    }

    /// Takes a node's state out of the table, leaving a placeholder that
    /// the caller overwrites.
    fn take_data(&mut self, i: usize) -> (r: SpanData)
        requires
            i < old(self).span_data@.len(),
        ensures
            r == old(self).span_data@[i as int].1,
            final(self).span_data@ == old(self).span_data@.update(
                i as int,
                (old(self).span_data@[i as int].0, final(self).span_data@[i as int].1),
            ),
            final(self).span_data@[i as int].0 == old(self).span_data@[i as int].0,
            final(self).max_rows == old(self).max_rows,
            final(self).global_max_rows == old(self).global_max_rows,
            final(self).max_average_points == old(self).max_average_points,
            final(self).enable_recording == old(self).enable_recording,
            final(self).period == old(self).period,
    {
        let key = self.span_data[i].0;
        let placeholder = SpanData::new(0);
        let entry = self.span_data.remove(i);
        self.span_data.insert(i, (key, placeholder));
        proof {
            assert(final(self).span_data@ =~= old(self).span_data@.update(
                i as int,
                (old(self).span_data@[i as int].0, final(self).span_data@[i as int].1),
            ));
        }
        entry.1
    }
}

/// Marks a node's state as freshly registered.
pub open spec fn is_fresh(d: SpanData, now_ms: u64) -> bool {
    &&& d.wf()
    &&& d.row_count == 0
    &&& d.full_run_count == 0
    &&& d.average_run_count == 0
    &&& d.min_time == crate::duration::spec_max_elapsed()
    &&& d.max_time.as_nanos() == 0
    &&& d.total_time.as_nanos() == 0
    &&& d.runs_file@.len() == 0
    &&& d.last_display_time == now_ms
}

/// The datasets a recording window yields: one per node with a non-empty
/// buffer, in store order.
pub open spec fn spec_datasets(entries: Seq<(u32, SpanData)>) -> Seq<(SpanDataset, Seq<u8>)>
    decreases entries.len(),
{
    if entries.len() == 0 {
        Seq::empty()
    } else {
        let head = entries[0];
        let rest = spec_datasets(entries.skip(1));
        if head.1.runs_file@.len() > 0 {
            seq![
                (
                    SpanDataset { id: head.0, run_count: head.1.row_count },
                    head.1.runs_file@,
                ),
            ] + rest
        } else {
            rest
        }
    }
}

/// Every dataset buffer is some node's recording buffer, so a bound on
/// the buffers bounds the datasets.
pub proof fn lemma_spec_datasets_bounded(entries: Seq<(u32, SpanData)>, bound: int)
    requires
        forall|i: int|
            0 <= i < entries.len() ==> (#[trigger] entries[i]).1.runs_file@.len() <= bound,
    ensures
        forall|k: int|
            0 <= k < spec_datasets(entries).len() ==> (#[trigger] spec_datasets(
                entries,
            )[k]).1.len() <= bound,
    decreases entries.len(),
{
    if entries.len() > 0 {
        assert forall|i: int|
            0 <= i < entries.skip(1).len() implies (#[trigger] entries.skip(
            1,
        )[i]).1.runs_file@.len() <= bound by {
            assert(entries.skip(1)[i] == entries[i + 1]);
        }
        lemma_spec_datasets_bounded(entries.skip(1), bound);
        assert forall|k: int|
            0 <= k < spec_datasets(entries).len() implies (#[trigger] spec_datasets(
            entries,
        )[k]).1.len() <= bound by {
            let head = entries[0];
            let rest = spec_datasets(entries.skip(1));
            if head.1.runs_file@.len() > 0 {
                if k >= 1 {
                    assert(spec_datasets(entries)[k] == rest[k - 1]);
                }
            } else {
                assert(spec_datasets(entries)[k] == rest[k]);
            }
        }
    }
}

/// Extending the scanned prefix by one entry extends the dataset list by
/// that entry's dataset, when it has one.
proof fn lemma_spec_datasets_step(entries: Seq<(u32, SpanData)>, i: int)
    requires
        0 < i <= entries.len(),
    ensures
        spec_datasets(entries.take(i)) == if entries[i - 1].1.runs_file@.len() > 0 {
            spec_datasets(entries.take(i - 1)) + seq![
                (
                    SpanDataset { id: entries[i - 1].0, run_count: entries[i - 1].1.row_count },
                    entries[i - 1].1.runs_file@,
                ),
            ]
        } else {
            spec_datasets(entries.take(i - 1))
        },
    decreases i,
{
    let p = entries.take(i);
    let q = entries.take(i - 1);
    if i == 1 {
        assert(p.skip(1) =~= Seq::<(u32, SpanData)>::empty());
        assert(q =~= Seq::<(u32, SpanData)>::empty());
    } else {
        assert(p.skip(1) =~= entries.skip(1).take(i - 1));
        assert(q.skip(1) =~= entries.skip(1).take(i - 2));
        assert(p[0] == entries[0] && q[0] == entries[0]);
        lemma_spec_datasets_step(entries.skip(1), i - 1);
        assert(entries.skip(1)[i - 2] == entries[i - 1]);
    }
}


/// Appends one finished run to a node's recording buffer: a 16-bit length
/// prefix, then the sealed record bytes.
fn append_run(runs_file: &mut Vec<u8>, log: SpanLog)
    requires
        log.wf(),
    ensures
        final(runs_file)@ == old(runs_file)@ + u16_le(spec_finished_span_bytes(log).len() as u16)
            + spec_finished_span_bytes(log),
{
    let mut msg = log;
    msg.write_finish();
    let bytes = msg.as_bytes();
    crate::codec::write_u16_le(runs_file, bytes.len() as u16);
    let mut k: usize = 0;
    let blen = bytes.len();
    let ghost mid = runs_file@;
    while k < blen
        invariant
            k <= blen,
            blen == bytes@.len(),
            runs_file@ == mid + bytes@.take(k as int),
        decreases blen - k,
    {
        runs_file.push(bytes[k]);
        k += 1;
        assert(runs_file@ =~= mid + bytes@.take(k as int));
    }
    assert(runs_file@ =~= mid + bytes@);
}

/// The per-node step of `record`: folds the run into one node's state and
/// decides whether to push an aggregate update.
#[verifier::rlimit(100)]
#[verifier::spinoff_prover]
fn record_entry(
    before: SpanData,
    log: SpanLog,
    now_ms: u64,
    max_average_points: u32,
    enable_recording: bool,
    max_rows: u32,
    period: u16,
) -> (r: (SpanData, Option<SpanUpdate>))
    requires
        before.wf(),
        before.average_run_count == 0 || before.average_run_count < max_average_points,
        log.wf(),
    ensures
        ({
            let after = r.0;
            let res = r.1;
            let dur = log.duration_secs * (NANOS_PER_SEC as int) + log.duration_nanos;
            let appended = enable_recording && before.row_count < max_rows;
            let since: int = if now_ms >= before.last_display_time {
                now_ms - before.last_display_time
            } else {
                0
            };
            let pushed = since >= period;
            &&& after.wf()
            &&& after.average_run_count == 0 || after.average_run_count < max_average_points
            &&& after.min_time.as_nanos() <= dur <= after.max_time.as_nanos()
            &&& after.average_run_count == if before.average_run_count + 1
                >= max_average_points {
                0int
            } else {
                before.average_run_count + 1
            }
            &&& appended ==> after.row_count == before.row_count + 1 && after.runs_file@
                == before.runs_file@ + u16_le(spec_finished_span_bytes(log).len() as u16)
                + spec_finished_span_bytes(log)
            &&& !appended ==> after.row_count == before.row_count && after.runs_file@
                == before.runs_file@
            &&& (res is Some) == pushed
            &&& after.last_display_time == if pushed {
                now_ms as int
            } else {
                before.last_display_time as int
            }
            &&& after.full_run_count == before.full_run_count
            &&& res matches Some(u) ==> u.id == log.id && u.run_count == after.row_count
                && u.average_time == spec_wire_duration(spec_average(after)) && u.min_time
                == spec_wire_duration(after.min_time) && u.max_time == spec_wire_duration(
                after.max_time,
            )
        }),
{
    let node = log.id();
    let duration = log.get_duration();
    let mut data = before;
    data.update(&duration, max_average_points);
    if enable_recording && data.row_count < max_rows {
        data.row_count = data.row_count + 1;
        append_run(&mut data.runs_file, log);
    }
    assert(data.wf());
    let since: u64 = if now_ms >= data.last_display_time {
        now_ms - data.last_display_time
    } else {
        0
    };
    let result = if since >= period as u64 {
        data.last_display_time = now_ms;
        let average = data.get_average();
        Some(
            SpanUpdate {
                id: node,
                run_count: data.row_count,
                average_time: wire_duration_of(&average),
                min_time: wire_duration_of(&data.min_time),
                max_time: wire_duration_of(&data.max_time),
            },
        )
    } else {
        None
    };
    (data, result)
}

} // verus!
