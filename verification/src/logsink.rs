//! The textual log sink: builds the human-readable lines for the console
//! and file sinks.
//!
//! Per live span it keeps a partial line — the module prefix, then the
//! span's name and fields — so that the line emitted on exit carries the
//! fields along with the measured duration. The duration is printed as
//! seconds with two decimals, from integer arithmetic alone.

use vstd::prelude::*;
use crate::duration::Elapsed;
use crate::hello::vecs_equal;
use crate::level::Level;
use crate::text::{spec_decimal, u64_to_decimal};

verus! {

/// One textual log record: where it came from, how severe it is, and the
/// line itself.
pub struct LogMsg {
    pub target: Vec<u8>,
    pub level: Level,
    pub text: Vec<u8>,
}

impl LogMsg {
    /// An empty record for the given origin.
    pub fn new(target: Vec<u8>, level: Level) -> (r: LogMsg)
        ensures
            r.target@ == target@,
            r.level == level,
            r.text@.len() == 0,
    {
        LogMsg { target, level, text: Vec::new() }
    }

    /// Appends bytes to the line.
    pub fn append(&mut self, bytes: &Vec<u8>)
        ensures
            final(self).text@ == old(self).text@ + bytes@,
            final(self).target@ == old(self).target@,
            final(self).level == old(self).level,
    {
        let mut i: usize = 0;
        let n = bytes.len();
        while i < n
            invariant
                i <= n,
                n == bytes@.len(),
                self.text@ == old(self).text@ + bytes@.take(i as int),
                self.target@ == old(self).target@,
                self.level == old(self).level,
            decreases n - i,
        {
            self.text.push(bytes[i]);
            i += 1;
            assert(self.text@ =~= old(self).text@ + bytes@.take(i as int));
        }
        assert(self.text@ =~= old(self).text@ + bytes@);
    }
}

/// The ASCII bytes of `": "`.
pub open spec fn spec_colon_space() -> Seq<u8> {
    seq![58u8, 32u8]
}

/// The ASCII bytes of `": span finished in "`.
pub open spec fn spec_finish_prefix() -> Seq<u8> {
    seq![58u8, 32u8, 115u8, 112u8, 97u8, 110u8, 32u8, 102u8, 105u8, 110u8, 105u8, 115u8, 104u8,
        101u8, 100u8, 32u8, 105u8, 110u8, 32u8]
}

/// The line fragment reporting a finished span: `": span finished in "`,
/// the whole seconds, a dot, two decimal digits, and `"s"`.
pub open spec fn spec_finish_suffix(d: Elapsed) -> Seq<u8> {
    spec_finish_prefix() + spec_decimal(d.secs as nat) + seq![46u8] + seq![
        (48 + (d.nanos / 10000000) / 10) as u8,
        (48 + (d.nanos / 10000000) % 10) as u8,
    ] + seq![115u8]
}

/// Builds the finished-span fragment.
pub fn format_finish_suffix(d: &Elapsed) -> (r: Vec<u8>)
    requires
        d.wf(),
    ensures
        r@ == spec_finish_suffix(*d),
{
    let mut out: Vec<u8> = Vec::new();
    out.push(58);
    out.push(32);
    out.push(115);
    out.push(112);
    out.push(97);
    out.push(110);
    out.push(32);
    out.push(102);
    out.push(105);
    out.push(110);
    out.push(105);
    out.push(115);
    out.push(104);
    out.push(101);
    out.push(100);
    out.push(32);
    out.push(105);
    out.push(110);
    out.push(32);
    assert(out@ =~= spec_finish_prefix());
    let secs = u64_to_decimal(d.secs);
    let mut i: usize = 0;
    let n = secs.len();
    while i < n
        invariant
            i <= n,
            n == secs@.len(),
            out@ == spec_finish_prefix() + secs@.take(i as int),
        decreases n - i,
    {
        out.push(secs[i]);
        i += 1;
        assert(out@ =~= spec_finish_prefix() + secs@.take(i as int));
    }
    assert(out@ =~= spec_finish_prefix() + secs@);
    out.push(46);
    let centis = d.nanos / 10000000;
    out.push(48 + (centis / 10) as u8);
    out.push(48 + (centis % 10) as u8);
    out.push(115);
    assert(out@ =~= spec_finish_suffix(*d));
    out
}

/// The field name that carries an event's main message.
pub open spec fn spec_message_key() -> Seq<u8> {
    seq![109u8, 101u8, 115u8, 115u8, 97u8, 103u8, 101u8]
}

/// Builds the key bytes of the main-message field.
pub fn message_key() -> (r: Vec<u8>)
    ensures
        r@ == spec_message_key(),
{
    let mut v: Vec<u8> = Vec::new();
    v.push(109);
    v.push(101);
    v.push(115);
    v.push(115);
    v.push(97);
    v.push(103);
    v.push(101);
    assert(v@ =~= spec_message_key());
    v
}

/// The partial line kept for one live span, rebuilt at each run.
pub struct SpanVisitor {
    pub msg: LogMsg,
    pub message_written: bool,
    pub name: Vec<u8>,
    pub module: Vec<u8>,
}

impl SpanVisitor {
    /// Starts a span's line: the module name, then `": "`.
    pub fn new(target: Vec<u8>, level: Level, name: Vec<u8>, module: Vec<u8>) -> (r: SpanVisitor)
        ensures
            r.msg.target@ == target@,
            r.msg.level == level,
            r.msg.text@ == module@ + spec_colon_space(),
            r.message_written == false,
            r.name@ == name@,
            r.module@ == module@,
    {
        let mut msg = LogMsg::new(target, level);
        msg.append(&module);
        let mut sep: Vec<u8> = Vec::new();
        sep.push(58);
        sep.push(32);
        assert(sep@ =~= spec_colon_space());
        msg.append(&sep);
        SpanVisitor { msg, message_written: false, name, module }
    }

    /// Rebuilds the line prefix for the next run of the span.
    pub fn reset(&mut self)
        ensures
            final(self).msg.text@ == old(self).module@ + spec_colon_space(),
            final(self).message_written == false,
            final(self).msg.target@ == old(self).msg.target@,
            final(self).msg.level == old(self).msg.level,
            final(self).name@ == old(self).name@,
            final(self).module@ == old(self).module@,
    {
        self.msg.text.clear();
        let ghost before = self.module@;
        let mut i: usize = 0;
        let n = self.module.len();
        while i < n
            invariant
                i <= n,
                n == self.module@.len(),
                self.module@ == before,
                self.msg.text@ == before.take(i as int),
                self.msg.target@ == old(self).msg.target@,
                self.msg.level == old(self).msg.level,
                self.name@ == old(self).name@,
                self.module@ == old(self).module@,
                self.message_written == old(self).message_written,
            decreases n - i,
        {
            let b = self.module[i];
            self.msg.text.push(b);
            i += 1;
            assert(self.msg.text@ =~= before.take(i as int));
        }
        assert(self.msg.text@ =~= self.module@);
        self.msg.text.push(58);
        self.msg.text.push(32);
        self.message_written = false;
        assert(final(self).msg.text@ =~= old(self).module@ + spec_colon_space());
    }

    /// Folds one field into the line. The main-message field becomes the
    /// line's body; any other field appends `" key=value"`, preceded by the
    /// span's name when no body was written yet.
    pub fn record_debug(&mut self, key: &Vec<u8>, value: &Vec<u8>)
        ensures
            final(self).msg.target@ == old(self).msg.target@,
            final(self).msg.level == old(self).msg.level,
            final(self).name@ == old(self).name@,
            final(self).module@ == old(self).module@,
            key@ == spec_message_key() ==> final(self).msg.text@ == old(self).msg.text@ + value@
                && final(self).message_written,
            key@ != spec_message_key() ==> final(self).msg.text@ == old(self).msg.text@ + (
            if old(self).message_written {
                Seq::<u8>::empty()
            } else {
                old(self).name@
            }) + seq![32u8] + key@ + seq![61u8] + value@ && final(self).message_written == old(
                self,
            ).message_written,
    {
        let is_message = vecs_equal(key, &message_key());
        if is_message {
            self.msg.append(value);
            self.message_written = true;
        } else {
            if !self.message_written {
                let name = crate::text::copy_bytes(&self.name);
                self.msg.append(&name);
            }
            let mut sep: Vec<u8> = Vec::new();
            sep.push(32);
            self.msg.append(&sep);
            self.msg.append(key);
            let mut eq: Vec<u8> = Vec::new();
            eq.push(61);
            self.msg.append(&eq);
            self.msg.append(value);
            proof {
                assert(final(self).msg.text@ =~= old(self).msg.text@ + (if old(
                    self,
                ).message_written {
                    Seq::<u8>::empty()
                } else {
                    old(self).name@
                }) + seq![32u8] + key@ + seq![61u8] + value@);
            }
        }
    }

    /// Seals the line for one finished run: appends the duration fragment
    /// and hands back the record to emit. The line is kept, so the next
    /// run of the same instance reuses the prefix.
    pub fn span_exit(&mut self, duration: &Elapsed) -> (r: LogMsg)
        requires
            duration.wf(),
        ensures
            final(self).msg.text@ == old(self).msg.text@ + spec_finish_suffix(*duration),
            final(self).msg.target@ == old(self).msg.target@,
            final(self).msg.level == old(self).msg.level,
            r.text@ == final(self).msg.text@,
            r.target@ == final(self).msg.target@,
            r.level == final(self).msg.level,
    {
        let suffix = format_finish_suffix(duration);
        self.msg.append(&suffix);
        LogMsg {
            target: crate::text::copy_bytes(&self.msg.target),
            level: self.msg.level,
            text: crate::text::copy_bytes(&self.msg.text),
        }
    }
}

} // verus!
