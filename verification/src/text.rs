//! Small text helpers: a fixed-capacity string buffer and decimal
//! formatting of integers.

use vstd::prelude::*;
use vstd::string::{StrSliceExecFns, StringSliceAdditionalSpecFns};

verus! {

/// A fixed-capacity byte string: whatever does not fit is cut off.
#[derive(Debug)]
pub struct FixedBufStr<const N: usize> {
    pub buf: Vec<u8>,
}

impl<const N: usize> FixedBufStr<N> {
    pub open spec fn wf(&self) -> bool {
        self.buf@.len() <= N
    }

    /// An empty buffer.
    pub fn new() -> (r: FixedBufStr<N>)
        ensures
            r.wf(),
            r.buf@.len() == 0,
    {
        FixedBufStr { buf: Vec::new() }
    }

    /// Takes as many leading bytes of `value` as fit.
    pub fn from_bytes(value: &Vec<u8>) -> (r: FixedBufStr<N>)
        ensures
            r.wf(),
            r.buf@ == if value@.len() <= N {
                value@
            } else {
                value@.take(N as int)
            },
    {
        let count = if value.len() <= N {
            value.len()
        } else {
            N
        };
        let mut buf: Vec<u8> = Vec::new();
        let mut i: usize = 0;
        while i < count
            invariant
                i <= count,
                count <= value@.len(),
                buf@ == value@.take(i as int),
            decreases count - i,
        {
            buf.push(value[i]);
            i += 1;
            assert(buf@ =~= value@.take(i as int));
        }
        proof {
            if value@.len() <= N {
                assert(value@.take(value@.len() as int) =~= value@);
            }
        }
        FixedBufStr { buf }
    }

    /// Takes as many leading bytes of the string as fit.
    pub fn from_str(value: &str) -> (r: FixedBufStr<N>)
        ensures
            r.wf(),
            r.buf@ == if value.spec_bytes().len() <= N {
                value.spec_bytes()
            } else {
                value.spec_bytes().take(N as int)
            },
    {
        let bytes = value.as_bytes_vec();
        Self::from_bytes(&bytes)
    }

    /// Formats a value's diagnostic representation, cut off at capacity.
    /// Nothing is promised of the text itself, only that it fits.
    pub fn from_debug<T: core::fmt::Debug>(value: &T) -> (r: FixedBufStr<N>)
        ensures
            r.wf(),
    {
        let text = debug_string(value);
        let bytes = text.as_bytes_vec();
        Self::from_bytes(&bytes)
    }

    /// The stored bytes.
    pub fn bytes(&self) -> (r: &Vec<u8>)
        ensures
            r@ == self.buf@,
    {
        &self.buf
    }
}

/// Relies on core::fmt's `Debug` formatting to render a value as text.
/// The text depends on the type's own `Debug` impl; nothing is assumed of
/// it.
#[verifier::external_body]
fn debug_string<T: core::fmt::Debug>(value: &T) -> String {
    format!("{:?}", value)
}

/// The decimal digits of `v`, most significant first.
pub open spec fn spec_decimal(v: nat) -> Seq<u8>
    decreases v,
{
    if v < 10 {
        seq![(48 + v) as u8]
    } else {
        spec_decimal(v / 10) + seq![(48 + v % 10) as u8]
    }
}

/// Formats an integer in decimal ASCII.
pub fn u64_to_decimal(v: u64) -> (r: Vec<u8>)
    ensures
        r@ == spec_decimal(v as nat),
    decreases v,
{
    if v < 10 {
        let mut r: Vec<u8> = Vec::new();
        r.push(48 + (v as u8));
        assert(r@ =~= spec_decimal(v as nat));
        r
    } else {
        let mut r = u64_to_decimal(v / 10);
        r.push(48 + ((v % 10) as u8));
        assert(r@ =~= spec_decimal(v as nat));
        r
    }
}

/// An element-for-element copy of a byte vector.
pub fn copy_bytes(v: &Vec<u8>) -> (r: Vec<u8>)
    ensures
        r@ == v@,
{
    let mut r: Vec<u8> = Vec::new();
    let mut i: usize = 0;
    let n = v.len();
    while i < n
        invariant
            i <= n,
            n == v@.len(),
            r@ == v@.take(i as int),
        decreases n - i,
    {
        r.push(v[i]);
        i += 1;
        assert(r@ =~= v@.take(i as int));
    }
    assert(r@ =~= v@);
    r
}

} // verus!
