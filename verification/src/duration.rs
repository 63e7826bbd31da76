//! An exact span of time: whole seconds plus a sub-second nanosecond part.
//!
//! All aggregate arithmetic in the span store works on this type; the view
//! of a value is its total length in nanoseconds, as a mathematical integer.

use vstd::prelude::*;

verus! {

/// Nanoseconds per second.
pub const NANOS_PER_SEC: u32 = 1_000_000_000;

/// A measured span of time.
#[derive(Clone, Copy, PartialEq, Eq, Debug, Structural)]
pub struct Elapsed {
    pub secs: u64,
    pub nanos: u32,
}

impl Elapsed {
    /// The sub-second part stays below one second.
    pub open spec fn wf(self) -> bool {
        self.nanos < NANOS_PER_SEC
    }

    /// Total length in nanoseconds.
    pub open spec fn as_nanos(self) -> int {
        self.secs * (NANOS_PER_SEC as int) + self.nanos
    }

    /// The zero-length span.
    pub fn zero() -> (r: Elapsed)
        ensures
            r.wf(),
            r.as_nanos() == 0,
    {
        Elapsed { secs: 0, nanos: 0 }
    }

    /// The longest representable span.
    pub fn max_value() -> (r: Elapsed)
        ensures
            r.wf(),
            r == spec_max_elapsed(),
    {
        Elapsed { secs: u64::MAX, nanos: (NANOS_PER_SEC - 1) as u32 }
    }

    /// Builds a span from seconds and a sub-second nanosecond part.
    pub fn new(secs: u64, nanos: u32) -> (r: Elapsed)
        requires
            nanos < NANOS_PER_SEC,
        ensures
            r.wf(),
            r.secs == secs,
            r.nanos == nanos,
    {
        Elapsed { secs, nanos }
    }

    /// Builds a span from a total nanosecond count.
    pub fn from_nanos(total: u64) -> (r: Elapsed)
        ensures
            r.wf(),
            r.as_nanos() == total,
    {
        let secs = total / (NANOS_PER_SEC as u64);
        let nanos = (total % (NANOS_PER_SEC as u64)) as u32;
        proof {
            assert(secs * (NANOS_PER_SEC as int) + nanos == total) by (nonlinear_arith)
                requires
                    secs == total as int / (NANOS_PER_SEC as int),
                    nanos == total as int % (NANOS_PER_SEC as int),
                    total as int >= 0,
            ;
        }
        Elapsed { secs, nanos }
    }

    /// True when this span is strictly shorter than `other`.
    pub fn lt(&self, other: &Elapsed) -> (r: bool)
        requires
            self.wf(),
            other.wf(),
        ensures
            r == (self.as_nanos() < other.as_nanos()),
    {
        proof {
            lemma_nanos_order(*self, *other);
        }
        self.secs < other.secs || (self.secs == other.secs && self.nanos < other.nanos)
    }

    /// Adds `other`, saturating at the longest representable span.
    pub fn saturating_add(&self, other: &Elapsed) -> (r: Elapsed)
        requires
            self.wf(),
            other.wf(),
        ensures
            r.wf(),
            r.as_nanos() == if self.as_nanos() + other.as_nanos()
                <= spec_max_elapsed().as_nanos() {
                self.as_nanos() + other.as_nanos()
            } else {
                spec_max_elapsed().as_nanos()
            },
    {
        let nanos_sum: u32 = self.nanos + other.nanos;
        let (carry, nanos): (u64, u32) = if nanos_sum >= NANOS_PER_SEC {
            (1, nanos_sum - NANOS_PER_SEC)
        } else {
            (0, nanos_sum)
        };
        match self.secs.checked_add(other.secs) {
            Some(s) => {
                match s.checked_add(carry) {
                    Some(s2) => Elapsed { secs: s2, nanos },
                    None => {
                        proof {
                            lemma_nanos_order(*self, *other);
                        }
                        Elapsed { secs: u64::MAX, nanos: (NANOS_PER_SEC - 1) as u32 }
                    },
                }
            },
            None => {
                proof {
                    lemma_nanos_order(*self, *other);
                }
                Elapsed { secs: u64::MAX, nanos: (NANOS_PER_SEC - 1) as u32 }
            },
        }
    }

    /// Divides this span evenly by a nonzero count, rounding down.
    pub fn div(&self, count: u32) -> (r: Elapsed)
        requires
            self.wf(),
            count >= 1,
        ensures
            r.wf(),
            r.as_nanos() == self.as_nanos() / (count as int),
            r == spec_div_elapsed(*self, count),
    {
        let c = count as u64;
        let q_secs = self.secs / c;
        let rem = self.secs % c;
        // rem < c <= u32::MAX, so rem * NANOS_PER_SEC + nanos fits in u64.
        proof {
            assert(rem * (NANOS_PER_SEC as u64) <= (c - 1) * (NANOS_PER_SEC as u64))
                by (nonlinear_arith)
                requires
                    rem < c,
                    c >= 1,
            ;
            assert((c - 1) * (NANOS_PER_SEC as u64) <= 0xffff_fffeu64 * (NANOS_PER_SEC as u64))
                by (nonlinear_arith)
                requires
                    c <= 0xffff_ffffu64,
            ;
        }
        let sub: u64 = rem * (NANOS_PER_SEC as u64) + (self.nanos as u64);
        let q_nanos: u64 = sub / c;
        proof {
            lemma_div_split(self.secs as int, self.nanos as int, c as int);
            assert(sub as int <= (c as int) * (NANOS_PER_SEC as int) - 1) by (nonlinear_arith)
                requires
                    sub == rem * (NANOS_PER_SEC as int) + self.nanos,
                    rem <= c - 1,
                    self.nanos < NANOS_PER_SEC,
                    c >= 1,
            ;
            assert(q_nanos < NANOS_PER_SEC) by (nonlinear_arith)
                requires
                    q_nanos == sub as int / (c as int),
                    sub as int <= (c as int) * (NANOS_PER_SEC as int) - 1,
                    c >= 1,
            ;
        }
        Elapsed { secs: q_secs, nanos: q_nanos as u32 }
    }
}

/// The longest representable span.
pub open spec fn spec_max_elapsed() -> Elapsed {
    Elapsed { secs: u64::MAX, nanos: (NANOS_PER_SEC - 1) as u32 }
}

/// The exact quotient `div` produces: whole seconds divided through, the
/// remainder folded into the nanosecond part.
pub open spec fn spec_div_elapsed(e: Elapsed, count: u32) -> Elapsed {
    Elapsed {
        secs: (e.secs as int / count as int) as u64,
        nanos: (((e.secs as int % count as int) * (NANOS_PER_SEC as int) + e.nanos) / count as int) as u32,
    }
}

/// Lexicographic order on (seconds, nanos) agrees with the order of total
/// nanosecond counts.
proof fn lemma_nanos_order(a: Elapsed, b: Elapsed)
    requires
        a.wf(),
        b.wf(),
    ensures
        (a.as_nanos() < b.as_nanos()) == (a.secs < b.secs || (a.secs == b.secs && a.nanos
            < b.nanos)),
{
    assert((a.secs * (NANOS_PER_SEC as int) + a.nanos < b.secs * (NANOS_PER_SEC as int) + b.nanos)
        == (a.secs < b.secs || (a.secs == b.secs && a.nanos < b.nanos))) by (nonlinear_arith)
        requires
            a.nanos < NANOS_PER_SEC,
            b.nanos < NANOS_PER_SEC,
    ;
}

/// Dividing `s * G + n` by `c` splits into the quotient of the seconds and
/// the quotient of the remainder-weighted sub-second part.
proof fn lemma_div_split(s: int, n: int, c: int)
    requires
        s >= 0,
        0 <= n,
        c >= 1,
    ensures
        (s * (NANOS_PER_SEC as int) + n) / c == (s / c) * (NANOS_PER_SEC as int) + ((s % c)
            * (NANOS_PER_SEC as int) + n) / c,
{
    let g = NANOS_PER_SEC as int;
    let q = s / c;
    let r = s % c;
    assert(s == q * c + r && 0 <= r < c) by (nonlinear_arith)
        requires
            c >= 1,
            s >= 0,
            q == s / c,
            r == s % c,
    ;
    assert(s * g + n == (q * g) * c + (r * g + n)) by (nonlinear_arith)
        requires
            s == q * c + r,
    ;
    let q2 = (r * g + n) / c;
    let r2 = (r * g + n) % c;
    assert(r * g + n == q2 * c + r2 && 0 <= r2 < c) by (nonlinear_arith)
        requires
            c >= 1,
            r >= 0,
            g >= 0,
            n >= 0,
            q2 == (r * g + n) / c,
            r2 == (r * g + n) % c,
    ;
    assert(s * g + n == (q * g + q2) * c + r2) by (nonlinear_arith)
        requires
            s * g + n == (q * g) * c + (r * g + n),
            r * g + n == q2 * c + r2,
    ;
    assert((s * g + n) / c == q * g + q2) by (nonlinear_arith)
        requires
            s * g + n == (q * g + q2) * c + r2,
            0 <= r2 < c,
            c >= 1,
            s * g + n >= 0,
            q * g + q2 >= 0,
    ;
}

} // verus!
