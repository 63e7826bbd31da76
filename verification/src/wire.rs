//! The binary wire protocol: message headers, payload references, and
//! framing.
//!
//! Every outbound message is one type-tag byte, a fixed-layout little-endian
//! header, and — for the payload-carrying types — a 32-bit length and the
//! payload bytes. Strings live in the payload and are addressed from the
//! header by `PayloadRef` (length, then offset, each 16 bits). An `Option`
//! travels as one presence byte followed by the value when present.

use vstd::prelude::*;
use crate::codec::{u16_le, u32_le, i64_le, u16_from_le, u32_from_le, i64_from_le, write_u16_le,
    write_u32_le, write_i64_le, read_u16_le, read_u32_le, lemma_u16_le_roundtrip,
    lemma_u32_le_roundtrip, lemma_i64_le_roundtrip};
use crate::level::Level;

verus! {

pub const TYPE_PROJECT: u8 = 0;

pub const TYPE_SPAN_ALLOC: u8 = 1;

pub const TYPE_SPAN_PARENT: u8 = 2;

pub const TYPE_SPAN_FOLLOWS: u8 = 3;

pub const TYPE_SPAN_EVENT: u8 = 4;

pub const TYPE_SPAN_UPDATE: u8 = 5;

pub const TYPE_SPAN_DATASET: u8 = 6;

pub const TYPE_SERVER_CONFIG: u8 = 7;

/// The closed set of outbound message types.
#[derive(Clone, Copy, PartialEq, Eq, Debug, Structural)]
pub enum MsgType {
    Project,
    SpanAlloc,
    SpanParent,
    SpanFollows,
    SpanEvent,
    SpanUpdate,
    SpanDataset,
    ServerConfig,
}

impl MsgType {
    pub open spec fn spec_byte(self) -> u8 {
        match self {
            MsgType::Project => TYPE_PROJECT,
            MsgType::SpanAlloc => TYPE_SPAN_ALLOC,
            MsgType::SpanParent => TYPE_SPAN_PARENT,
            MsgType::SpanFollows => TYPE_SPAN_FOLLOWS,
            MsgType::SpanEvent => TYPE_SPAN_EVENT,
            MsgType::SpanUpdate => TYPE_SPAN_UPDATE,
            MsgType::SpanDataset => TYPE_SPAN_DATASET,
            MsgType::ServerConfig => TYPE_SERVER_CONFIG,
        }
    }

    /// The tag byte that opens every frame of this type.
    pub fn to_byte(self) -> (r: u8)
        ensures
            r == self.spec_byte(),
    {
        match self {
            MsgType::Project => TYPE_PROJECT,
            MsgType::SpanAlloc => TYPE_SPAN_ALLOC,
            MsgType::SpanParent => TYPE_SPAN_PARENT,
            MsgType::SpanFollows => TYPE_SPAN_FOLLOWS,
            MsgType::SpanEvent => TYPE_SPAN_EVENT,
            MsgType::SpanUpdate => TYPE_SPAN_UPDATE,
            MsgType::SpanDataset => TYPE_SPAN_DATASET,
            MsgType::ServerConfig => TYPE_SERVER_CONFIG,
        }
    }
}

/// A slice of the payload: its length, then its offset, as they appear in
/// the header.
#[derive(Clone, Copy, PartialEq, Eq, Debug, Structural)]
pub struct PayloadRef {
    pub length: u16,
    pub offset: u16,
}

impl PayloadRef {
    pub open spec fn spec_encode(self) -> Seq<u8> {
        u16_le(self.length) + u16_le(self.offset)
    }

    pub open spec fn spec_decode(s: Seq<u8>) -> Option<(PayloadRef, int)> {
        if s.len() >= 4 {
            Some(
                (
                    PayloadRef {
                        length: u16_from_le(s.subrange(0, 2)),
                        offset: u16_from_le(s.subrange(2, 4)),
                    },
                    4,
                ),
            )
        } else {
            None
        }
    }

    pub fn encode(&self, out: &mut Vec<u8>)
        ensures
            final(out)@ == old(out)@ + self.spec_encode(),
    {
        write_u16_le(out, self.length);
        write_u16_le(out, self.offset);
        assert(final(out)@ =~= old(out)@ + self.spec_encode());
    }

    pub fn decode(b: &Vec<u8>, off: usize) -> (r: Option<(PayloadRef, usize)>)
        requires
            off <= b@.len(),
        ensures
            match r {
                Some((m, end)) => Self::spec_decode(b@.skip(off as int)) == Some(
                    (m, end - off),
                ) && off <= end <= b@.len(),
                None => Self::spec_decode(b@.skip(off as int)) is None,
            },
    {
        let n = b.len();
        if n - off >= 4 {
            let length = read_u16_le(b, off);
            let offset = read_u16_le(b, off + 2);
            proof {
                let s = b@.skip(off as int);
                assert(b@.subrange(off as int, off + 2) =~= s.subrange(0, 2));
                assert(b@.subrange(off + 2, off + 4) =~= s.subrange(2, 4));
            }
            Some((PayloadRef { length, offset }, off + 4))
        } else {
            None
        }
    }

    pub proof fn lemma_roundtrip(self, rest: Seq<u8>)
        ensures
            Self::spec_decode(self.spec_encode() + rest) == Some((self, 4int)),
    {
        let s = self.spec_encode() + rest;
        lemma_u16_le_roundtrip(self.length);
        lemma_u16_le_roundtrip(self.offset);
        assert(s.subrange(0, 2) =~= u16_le(self.length));
        assert(s.subrange(2, 4) =~= u16_le(self.offset));
    }
}

/// A duration on the wire: 32-bit seconds, then 32-bit nanoseconds.
#[derive(Clone, Copy, PartialEq, Eq, Debug, Structural)]
pub struct Duration {
    pub seconds: u32,
    pub nano_seconds: u32,
}

impl Duration {
    pub open spec fn spec_encode(self) -> Seq<u8> {
        u32_le(self.seconds) + u32_le(self.nano_seconds)
    }

    pub open spec fn spec_decode(s: Seq<u8>) -> Option<(Duration, int)> {
        if s.len() >= 8 {
            Some(
                (
                    Duration {
                        seconds: u32_from_le(s.subrange(0, 4)),
                        nano_seconds: u32_from_le(s.subrange(4, 8)),
                    },
                    8,
                ),
            )
        } else {
            None
        }
    }

    pub fn encode(&self, out: &mut Vec<u8>)
        ensures
            final(out)@ == old(out)@ + self.spec_encode(),
    {
        write_u32_le(out, self.seconds);
        write_u32_le(out, self.nano_seconds);
        assert(final(out)@ =~= old(out)@ + self.spec_encode());
    }

    pub proof fn lemma_roundtrip(self, rest: Seq<u8>)
        ensures
            Self::spec_decode(self.spec_encode() + rest) == Some((self, 8int)),
    {
        let s = self.spec_encode() + rest;
        lemma_u32_le_roundtrip(self.seconds);
        lemma_u32_le_roundtrip(self.nano_seconds);
        assert(s.subrange(0, 4) =~= u32_le(self.seconds));
        assert(s.subrange(4, 8) =~= u32_le(self.nano_seconds));
    }
}

/// One presence byte, then the encoded value when present.
pub open spec fn spec_encode_opt_u32(v: Option<u32>) -> Seq<u8> {
    match v {
        Some(x) => seq![1u8] + u32_le(x),
        None => seq![0u8],
    }
}

pub open spec fn spec_decode_opt_u32(s: Seq<u8>) -> Option<(Option<u32>, int)> {
    if s.len() < 1 {
        None
    } else if s[0] == 0 {
        Some((None, 1))
    } else if s.len() >= 5 {
        Some((Some(u32_from_le(s.subrange(1, 5))), 5))
    } else {
        None
    }
}

pub open spec fn spec_encode_opt_ref(v: Option<PayloadRef>) -> Seq<u8> {
    match v {
        Some(x) => seq![1u8] + x.spec_encode(),
        None => seq![0u8],
    }
}

pub open spec fn spec_decode_opt_ref(s: Seq<u8>) -> Option<(Option<PayloadRef>, int)> {
    if s.len() < 1 {
        None
    } else if s[0] == 0 {
        Some((None, 1))
    } else {
        match PayloadRef::spec_decode(s.skip(1)) {
            Some((r, used)) => Some((Some(r), 1 + used)),
            None => None,
        }
    }
}

/// Span or event metadata as it appears in a `SpanAlloc` header. The string
/// fields point into the payload.
#[derive(Clone, Copy, PartialEq, Eq, Debug, Structural)]
pub struct Metadata {
    pub level: Level,
    pub line: Option<u32>,
    pub name: PayloadRef,
    pub target: PayloadRef,
    pub module: Option<PayloadRef>,
    pub file: Option<PayloadRef>,
}

impl Metadata {
    pub open spec fn spec_encode(self) -> Seq<u8> {
        seq![self.level.spec_byte()] + spec_encode_opt_u32(self.line) + self.name.spec_encode()
            + self.target.spec_encode() + spec_encode_opt_ref(self.module)
            + spec_encode_opt_ref(self.file)
    }

    pub fn encode(&self, out: &mut Vec<u8>)
        ensures
            final(out)@ == old(out)@ + self.spec_encode(),
    {
        out.push(self.level.to_byte());
        match self.line {
            Some(x) => {
                out.push(1);
                write_u32_le(out, x);
            },
            None => {
                out.push(0);
            },
        }
        self.name.encode(out);
        self.target.encode(out);
        match self.module {
            Some(x) => {
                out.push(1);
                x.encode(out);
            },
            None => {
                out.push(0);
            },
        }
        match self.file {
            Some(x) => {
                out.push(1);
                x.encode(out);
            },
            None => {
                out.push(0);
            },
        }
        assert(final(out)@ =~= old(out)@ + self.spec_encode());
    }

    pub open spec fn spec_decode(s: Seq<u8>) -> Option<(Metadata, int)> {
        if s.len() < 1 {
            None
        } else {
            match Level::spec_from_byte(s[0]) {
                Some(level) => match spec_decode_opt_u32(s.skip(1)) {
                    Some((line, u1)) => match PayloadRef::spec_decode(s.skip(1 + u1)) {
                        Some((name, _)) => match PayloadRef::spec_decode(s.skip(5 + u1)) {
                            Some((target, _)) => match spec_decode_opt_ref(s.skip(9 + u1)) {
                                Some((module, u2)) => match spec_decode_opt_ref(
                                    s.skip(9 + u1 + u2),
                                ) {
                                    Some((file, u3)) => Some(
                                        (
                                            Metadata { level, line, name, target, module, file },
                                            9 + u1 + u2 + u3,
                                        ),
                                    ),
                                    None => None,
                                },
                                None => None,
                            },
                            None => None,
                        },
                        None => None,
                    },
                    None => None,
                },
                None => None,
            }
        }
    }

    /// Unfolds `spec_decode` once over a buffer whose step results are
    /// already known.
    proof fn lemma_decode_parts(
        s: Seq<u8>,
        m: Metadata,
        u1: int,
        u2: int,
        u3: int,
    )
        requires
            s.len() >= 1,
            Level::spec_from_byte(s[0]) == Some(m.level),
            spec_decode_opt_u32(s.skip(1)) == Some((m.line, u1)),
            PayloadRef::spec_decode(s.skip(1 + u1)) == Some((m.name, 4int)),
            PayloadRef::spec_decode(s.skip(5 + u1)) == Some((m.target, 4int)),
            spec_decode_opt_ref(s.skip(9 + u1)) == Some((m.module, u2)),
            spec_decode_opt_ref(s.skip(9 + u1 + u2)) == Some((m.file, u3)),
        ensures
            Metadata::spec_decode(s) == Some((m, 9 + u1 + u2 + u3)),
    {
    }

    #[verifier::rlimit(100)]
    #[verifier::spinoff_prover]
    pub fn decode(b: &Vec<u8>, off: usize) -> (r: Option<(Metadata, usize)>)
        requires
            off <= b@.len(),
        ensures
            match r {
                Some((m, end)) => Self::spec_decode(b@.skip(off as int)) == Some(
                    (m, end - off),
                ) && off <= end <= b@.len(),
                None => Self::spec_decode(b@.skip(off as int)) is None,
            },
    {
        let ghost s = b@.skip(off as int);
        let n = b.len();
        if n - off < 1 {
            return None;
        }
        proof {
            assert(b@[off as int] == s[0]);
        }
        let level = match Level::from_byte(b[off]) {
            Some(level) => level,
            None => {
                return None;
            },
        };
        // The optional line number.
        proof {
            assert(b@.skip(off + 1) =~= s.skip(1));
        }
        if n - off < 2 {
            return None;
        }
        proof {
            assert(b@[off + 1] == s.skip(1)[0]);
        }
        let (line, cursor): (Option<u32>, usize) = if b[off + 1] == 0 {
            (None, off + 2)
        } else {
            if n - off < 6 {
                return None;
            }
            proof {
                assert(b@.subrange(off + 2, off + 6) =~= s.skip(1).subrange(1, 5));
            }
            (Some(read_u32_le(b, off + 2)), off + 6)
        };
        let ghost u1 = cursor - off - 1;
        // The two plain references.
        proof {
            assert(b@.skip(cursor as int) =~= s.skip(1 + u1));
        }
        let name = match PayloadRef::decode(b, cursor) {
            Some((name, _)) => name,
            None => {
                return None;
            },
        };
        proof {
            assert(b@.skip(cursor + 4) =~= s.skip(5 + u1));
        }
        let target = match PayloadRef::decode(b, cursor + 4) {
            Some((target, _)) => target,
            None => {
                return None;
            },
        };
        // The optional module and file references.
        let c2 = cursor + 8;
        proof {
            assert(b@.skip(c2 as int) =~= s.skip(9 + u1));
        }
        let (module, c3): (Option<PayloadRef>, usize) = if c2 >= n {
            return None;
        } else if b[c2] == 0 {
            proof {
                assert(b@[c2 as int] == s.skip(9 + u1)[0]);
            }
            (None, c2 + 1)
        } else {
            proof {
                assert(b@[c2 as int] == s.skip(9 + u1)[0]);
                assert(b@.skip(c2 + 1) =~= s.skip(9 + u1).skip(1));
            }
            match PayloadRef::decode(b, c2 + 1) {
                Some((m, _)) => (Some(m), c2 + 5),
                None => {
                    return None;
                },
            }
        };
        let ghost u2 = c3 - c2;
        proof {
            assert(b@.skip(c3 as int) =~= s.skip(9 + u1 + u2));
        }
        let (file, end): (Option<PayloadRef>, usize) = if c3 >= n {
            return None;
        } else if b[c3] == 0 {
            proof {
                assert(b@[c3 as int] == s.skip(9 + u1 + u2)[0]);
            }
            (None, c3 + 1)
        } else {
            proof {
                assert(b@[c3 as int] == s.skip(9 + u1 + u2)[0]);
                assert(b@.skip(c3 + 1) =~= s.skip(9 + u1 + u2).skip(1));
            }
            match PayloadRef::decode(b, c3 + 1) {
                Some((f, _)) => (Some(f), c3 + 5),
                None => {
                    return None;
                },
            }
        };
        Some((Metadata { level, line, name, target, module, file }, end))
    }

    /// The width of the encoded line option.
    pub open spec fn spec_line_len(self) -> int {
        match self.line {
            Some(_) => 5,
            None => 1,
        }
    }

    /// The width of the encoded module reference option.
    pub open spec fn spec_module_len(self) -> int {
        match self.module {
            Some(_) => 5,
            None => 1,
        }
    }

    /// The width of the encoded file reference option.
    pub open spec fn spec_file_len(self) -> int {
        match self.file {
            Some(_) => 5,
            None => 1,
        }
    }

    /// The tail of the encoding after the level byte.
    pub open spec fn spec_tail1(self, rest: Seq<u8>) -> Seq<u8> {
        spec_encode_opt_u32(self.line) + self.name.spec_encode() + self.target.spec_encode()
            + spec_encode_opt_ref(self.module) + spec_encode_opt_ref(self.file) + rest
    }

    #[verifier::spinoff_prover]
    proof fn lemma_shape(self, rest: Seq<u8>)
        ensures
            self.spec_encode() + rest == seq![self.level.spec_byte()] + self.spec_tail1(rest),
            (self.spec_encode() + rest).skip(1) == self.spec_tail1(rest),
            self.spec_encode().len() == 9 + self.spec_line_len() + self.spec_module_len()
                + self.spec_file_len(),
    {
        assert(self.spec_encode() + rest =~= seq![self.level.spec_byte()] + self.spec_tail1(
            rest,
        ));
        assert((self.spec_encode() + rest).skip(1) =~= self.spec_tail1(rest));
    }

    #[verifier::spinoff_prover]
    proof fn lemma_step_line(self, rest: Seq<u8>)
        ensures
            spec_decode_opt_u32(self.spec_tail1(rest)) == Some((self.line, self.spec_line_len())),
            self.spec_tail1(rest).skip(self.spec_line_len()) == self.name.spec_encode()
                + self.target.spec_encode() + spec_encode_opt_ref(self.module)
                + spec_encode_opt_ref(self.file) + rest,
    {
        let t1 = self.spec_tail1(rest);
        match self.line {
            Some(x) => {
                assert(t1[0] == 1);
                lemma_u32_le_roundtrip(x);
                assert(t1.subrange(1, 5) =~= u32_le(x));
            },
            None => {
                assert(t1[0] == 0);
            },
        }
        assert(t1.skip(self.spec_line_len()) =~= self.name.spec_encode()
            + self.target.spec_encode() + spec_encode_opt_ref(self.module) + spec_encode_opt_ref(
            self.file,
        ) + rest);
    }

    #[verifier::spinoff_prover]
    proof fn lemma_step_refs(self, rest: Seq<u8>)
        ensures
            ({
                let t2 = self.name.spec_encode() + self.target.spec_encode()
                    + spec_encode_opt_ref(self.module) + spec_encode_opt_ref(self.file) + rest;
                let t3 = self.target.spec_encode() + spec_encode_opt_ref(self.module)
                    + spec_encode_opt_ref(self.file) + rest;
                &&& PayloadRef::spec_decode(t2) == Some((self.name, 4int))
                &&& t2.skip(4) == t3
                &&& PayloadRef::spec_decode(t3) == Some((self.target, 4int))
                &&& t3.skip(4) == spec_encode_opt_ref(self.module) + spec_encode_opt_ref(
                    self.file,
                ) + rest
            }),
    {
        let t2 = self.name.spec_encode() + self.target.spec_encode() + spec_encode_opt_ref(
            self.module,
        ) + spec_encode_opt_ref(self.file) + rest;
        let t3 = self.target.spec_encode() + spec_encode_opt_ref(self.module)
            + spec_encode_opt_ref(self.file) + rest;
        assert(t2 =~= self.name.spec_encode() + t3);
        self.name.lemma_roundtrip(t3);
        assert(t2.skip(4) =~= t3);
        let t4 = spec_encode_opt_ref(self.module) + spec_encode_opt_ref(self.file) + rest;
        assert(t3 =~= self.target.spec_encode() + t4);
        self.target.lemma_roundtrip(t4);
        assert(t3.skip(4) =~= t4);
    }

    #[verifier::spinoff_prover]
    proof fn lemma_step_opts(self, rest: Seq<u8>)
        ensures
            ({
                let t4 = spec_encode_opt_ref(self.module) + spec_encode_opt_ref(self.file) + rest;
                let t5 = spec_encode_opt_ref(self.file) + rest;
                &&& spec_decode_opt_ref(t4) == Some((self.module, self.spec_module_len()))
                &&& t4.skip(self.spec_module_len()) == t5
                &&& spec_decode_opt_ref(t5) == Some((self.file, self.spec_file_len()))
            }),
    {
        let t4 = spec_encode_opt_ref(self.module) + spec_encode_opt_ref(self.file) + rest;
        let t5 = spec_encode_opt_ref(self.file) + rest;
        assert(t4 =~= spec_encode_opt_ref(self.module) + t5);
        match self.module {
            Some(m) => {
                assert(t4[0] == 1);
                assert(t4.skip(1) =~= m.spec_encode() + t5);
                m.lemma_roundtrip(t5);
            },
            None => {
                assert(t4[0] == 0);
            },
        }
        assert(t4.skip(self.spec_module_len()) =~= t5);
        match self.file {
            Some(f) => {
                assert(t5[0] == 1);
                assert(t5.skip(1) =~= f.spec_encode() + rest);
                f.lemma_roundtrip(rest);
            },
            None => {
                assert(t5[0] == 0);
            },
        }
    }

    #[verifier::spinoff_prover]
    pub proof fn lemma_roundtrip(self, rest: Seq<u8>)
        ensures
            Self::spec_decode(self.spec_encode() + rest) == Some(
                (self, self.spec_encode().len() as int),
            ),
    {
        let s = self.spec_encode() + rest;
        let u1 = self.spec_line_len();
        let u2 = self.spec_module_len();
        let u3 = self.spec_file_len();
        self.lemma_shape(rest);
        self.lemma_step_line(rest);
        self.lemma_step_refs(rest);
        self.lemma_step_opts(rest);
        Level::lemma_byte_roundtrip(self.level);
        let t1 = self.spec_tail1(rest);
        let t2 = self.name.spec_encode() + self.target.spec_encode() + spec_encode_opt_ref(
            self.module,
        ) + spec_encode_opt_ref(self.file) + rest;
        let t3 = self.target.spec_encode() + spec_encode_opt_ref(self.module)
            + spec_encode_opt_ref(self.file) + rest;
        let t4 = spec_encode_opt_ref(self.module) + spec_encode_opt_ref(self.file) + rest;
        let t5 = spec_encode_opt_ref(self.file) + rest;
        assert(s.skip(1) == t1);
        assert(s.len() >= 9 + u1 + u2 + u3);
        lemma_skip_skip(s, 1, u1);
        assert(s.skip(1 + u1) == t2);
        lemma_skip_skip(s, 1 + u1, 4);
        assert(s.skip(5 + u1) == t3);
        lemma_skip_skip(s, 5 + u1, 4);
        assert(s.skip(9 + u1) == t4);
        lemma_skip_skip(s, 9 + u1, u2);
        assert(s.skip(9 + u1 + u2) == t5);
        Self::lemma_decode_parts(s, self, u1, u2, u3);
    }
}

/// Skipping in two steps is skipping once.
proof fn lemma_skip_skip(s: Seq<u8>, a: int, b: int)
    requires
        0 <= a,
        0 <= b,
        a + b <= s.len(),
    ensures
        s.skip(a).skip(b) == s.skip(a + b),
{
    assert(s.skip(a).skip(b) =~= s.skip(a + b));
}

/// The build target triple, each part in the payload.
#[derive(Clone, Copy, PartialEq, Eq, Debug, Structural)]
pub struct Target {
    pub os: PayloadRef,
    pub family: PayloadRef,
    pub arch: PayloadRef,
}

impl Target {
    pub open spec fn spec_encode(self) -> Seq<u8> {
        self.os.spec_encode() + self.family.spec_encode() + self.arch.spec_encode()
    }

    pub fn encode(&self, out: &mut Vec<u8>)
        ensures
            final(out)@ == old(out)@ + self.spec_encode(),
    {
        self.os.encode(out);
        self.family.encode(out);
        self.arch.encode(out);
        assert(final(out)@ =~= old(out)@ + self.spec_encode());
    }

    pub open spec fn spec_decode(s: Seq<u8>) -> Option<(Target, int)> {
        if s.len() >= 12 {
            match (
                PayloadRef::spec_decode(s),
                PayloadRef::spec_decode(s.skip(4)),
                PayloadRef::spec_decode(s.skip(8)),
            ) {
                (Some((os, _)), Some((family, _)), Some((arch, _))) => Some(
                    (Target { os, family, arch }, 12),
                ),
                _ => None,
            }
        } else {
            None
        }
    }

    pub proof fn lemma_roundtrip(self, rest: Seq<u8>)
        ensures
            Self::spec_decode(self.spec_encode() + rest) == Some((self, 12int)),
    {
        let s = self.spec_encode() + rest;
        assert(s =~= self.os.spec_encode() + (self.family.spec_encode() + (
        self.arch.spec_encode() + rest)));
        self.os.lemma_roundtrip(self.family.spec_encode() + (self.arch.spec_encode() + rest));
        assert(s.skip(4) =~= self.family.spec_encode() + (self.arch.spec_encode() + rest));
        self.family.lemma_roundtrip(self.arch.spec_encode() + rest);
        assert(s.skip(8) =~= self.arch.spec_encode() + rest);
        self.arch.lemma_roundtrip(rest);
    }
}

/// The host CPU: its name in the payload, and its core count.
#[derive(Clone, Copy, PartialEq, Eq, Debug, Structural)]
pub struct Cpu {
    pub name: PayloadRef,
    pub core_count: u32,
}

impl Cpu {
    pub open spec fn spec_encode(self) -> Seq<u8> {
        self.name.spec_encode() + u32_le(self.core_count)
    }

    pub fn encode(&self, out: &mut Vec<u8>)
        ensures
            final(out)@ == old(out)@ + self.spec_encode(),
    {
        self.name.encode(out);
        write_u32_le(out, self.core_count);
        assert(final(out)@ =~= old(out)@ + self.spec_encode());
    }

    pub open spec fn spec_decode(s: Seq<u8>) -> Option<(Cpu, int)> {
        if s.len() >= 8 {
            match PayloadRef::spec_decode(s) {
                Some((name, _)) => Some(
                    (Cpu { name, core_count: u32_from_le(s.subrange(4, 8)) }, 8),
                ),
                None => None,
            }
        } else {
            None
        }
    }

    pub proof fn lemma_roundtrip(self, rest: Seq<u8>)
        ensures
            Self::spec_decode(self.spec_encode() + rest) == Some((self, 8int)),
    {
        let s = self.spec_encode() + rest;
        assert(s =~= self.name.spec_encode() + (u32_le(self.core_count) + rest));
        self.name.lemma_roundtrip(u32_le(self.core_count) + rest);
        lemma_u32_le_roundtrip(self.core_count);
        assert(s.subrange(4, 8) =~= u32_le(self.core_count));
    }
}

/// The opening message describing the instrumented program.
#[derive(Clone, Copy, PartialEq, Eq, Debug, Structural)]
pub struct Project {
    pub app_name: PayloadRef,
    pub name: PayloadRef,
    pub version: PayloadRef,
    pub cmd_line: PayloadRef,
    pub target: Target,
    pub cpu: Option<Cpu>,
}

impl Project {
    pub open spec fn spec_encode(self) -> Seq<u8> {
        self.app_name.spec_encode() + self.name.spec_encode() + self.version.spec_encode()
            + self.cmd_line.spec_encode() + self.target.spec_encode() + spec_encode_opt_cpu(
            self.cpu,
        )
    }

    pub fn encode(&self, out: &mut Vec<u8>)
        ensures
            final(out)@ == old(out)@ + self.spec_encode(),
    {
        self.app_name.encode(out);
        self.name.encode(out);
        self.version.encode(out);
        self.cmd_line.encode(out);
        self.target.encode(out);
        match self.cpu {
            Some(c) => {
                out.push(1);
                c.encode(out);
            },
            None => {
                out.push(0);
            },
        }
        assert(final(out)@ =~= old(out)@ + self.spec_encode());
    }

    pub open spec fn spec_decode(s: Seq<u8>) -> Option<(Project, int)> {
        if s.len() < 29 {
            None
        } else {
            match (
                PayloadRef::spec_decode(s),
                PayloadRef::spec_decode(s.skip(4)),
                PayloadRef::spec_decode(s.skip(8)),
                PayloadRef::spec_decode(s.skip(12)),
                Target::spec_decode(s.skip(16)),
            ) {
                (
                    Some((app_name, _)),
                    Some((name, _)),
                    Some((version, _)),
                    Some((cmd_line, _)),
                    Some((target, _)),
                ) => {
                    if s[28] == 0 {
                        Some(
                            (Project { app_name, name, version, cmd_line, target, cpu: None }, 29),
                        )
                    } else {
                        match Cpu::spec_decode(s.skip(29)) {
                            Some((cpu, used)) => Some(
                                (
                                    Project {
                                        app_name,
                                        name,
                                        version,
                                        cmd_line,
                                        target,
                                        cpu: Some(cpu),
                                    },
                                    29 + used,
                                ),
                            ),
                            None => None,
                        }
                    }
                },
                _ => None,
            }
        }
    }

    /// The encoding after the application-name reference.
    pub open spec fn spec_ptail(self, rest: Seq<u8>) -> Seq<u8> {
        self.name.spec_encode() + self.version.spec_encode() + self.cmd_line.spec_encode()
            + self.target.spec_encode() + spec_encode_opt_cpu(self.cpu) + rest
    }

    #[verifier::spinoff_prover]
    proof fn lemma_shape(self, rest: Seq<u8>)
        ensures
            self.spec_encode() + rest == self.app_name.spec_encode() + self.spec_ptail(rest),
            (self.spec_encode() + rest).skip(4) == self.spec_ptail(rest),
            PayloadRef::spec_decode(self.spec_encode() + rest) == Some((self.app_name, 4int)),
            self.spec_encode().len() == 29 + (match self.cpu {
                Some(_) => 8int,
                None => 0int,
            }),
    {
        assert(self.spec_encode() + rest =~= self.app_name.spec_encode() + self.spec_ptail(rest));
        self.app_name.lemma_roundtrip(self.spec_ptail(rest));
        assert((self.spec_encode() + rest).skip(4) =~= self.spec_ptail(rest));
    }

    #[verifier::spinoff_prover]
    proof fn lemma_step_names(self, rest: Seq<u8>)
        ensures
            ({
                let t1 = self.spec_ptail(rest);
                let t2 = self.version.spec_encode() + self.cmd_line.spec_encode()
                    + self.target.spec_encode() + spec_encode_opt_cpu(self.cpu) + rest;
                let t3 = self.cmd_line.spec_encode() + self.target.spec_encode()
                    + spec_encode_opt_cpu(self.cpu) + rest;
                let t4 = self.target.spec_encode() + spec_encode_opt_cpu(self.cpu) + rest;
                &&& PayloadRef::spec_decode(t1) == Some((self.name, 4int))
                &&& t1.skip(4) == t2
                &&& PayloadRef::spec_decode(t2) == Some((self.version, 4int))
                &&& t2.skip(4) == t3
                &&& PayloadRef::spec_decode(t3) == Some((self.cmd_line, 4int))
                &&& t3.skip(4) == t4
            }),
    {
        let t2 = self.version.spec_encode() + self.cmd_line.spec_encode()
            + self.target.spec_encode() + spec_encode_opt_cpu(self.cpu) + rest;
        let t3 = self.cmd_line.spec_encode() + self.target.spec_encode() + spec_encode_opt_cpu(
            self.cpu,
        ) + rest;
        let t4 = self.target.spec_encode() + spec_encode_opt_cpu(self.cpu) + rest;
        assert(self.spec_ptail(rest) =~= self.name.spec_encode() + t2);
        self.name.lemma_roundtrip(t2);
        assert(self.spec_ptail(rest).skip(4) =~= t2);
        assert(t2 =~= self.version.spec_encode() + t3);
        self.version.lemma_roundtrip(t3);
        assert(t2.skip(4) =~= t3);
        assert(t3 =~= self.cmd_line.spec_encode() + t4);
        self.cmd_line.lemma_roundtrip(t4);
        assert(t3.skip(4) =~= t4);
    }

    #[verifier::spinoff_prover]
    proof fn lemma_step_target_cpu(self, rest: Seq<u8>)
        ensures
            ({
                let t4 = self.target.spec_encode() + spec_encode_opt_cpu(self.cpu) + rest;
                let t5 = spec_encode_opt_cpu(self.cpu) + rest;
                &&& Target::spec_decode(t4) == Some((self.target, 12int))
                &&& t4.skip(12) == t5
                &&& self.cpu matches Some(c) ==> t5[0] == 1 && Cpu::spec_decode(t5.skip(1))
                    == Some((c, 8int))
                &&& self.cpu is None ==> t5[0] == 0
            }),
    {
        let t4 = self.target.spec_encode() + spec_encode_opt_cpu(self.cpu) + rest;
        let t5 = spec_encode_opt_cpu(self.cpu) + rest;
        assert(t4 =~= self.target.spec_encode() + t5);
        self.target.lemma_roundtrip(t5);
        assert(t4.skip(12) =~= t5);
        match self.cpu {
            Some(c) => {
                assert(t5[0] == 1);
                assert(t5.skip(1) =~= c.spec_encode() + rest);
                c.lemma_roundtrip(rest);
            },
            None => {
                assert(t5[0] == 0);
            },
        }
    }

    #[verifier::spinoff_prover]
    pub proof fn lemma_roundtrip(self, rest: Seq<u8>)
        ensures
            Self::spec_decode(self.spec_encode() + rest) == Some(
                (self, self.spec_encode().len() as int),
            ),
    {
        let s = self.spec_encode() + rest;
        self.lemma_shape(rest);
        self.lemma_step_names(rest);
        self.lemma_step_target_cpu(rest);
        let t1 = self.spec_ptail(rest);
        let t2 = self.version.spec_encode() + self.cmd_line.spec_encode()
            + self.target.spec_encode() + spec_encode_opt_cpu(self.cpu) + rest;
        let t3 = self.cmd_line.spec_encode() + self.target.spec_encode() + spec_encode_opt_cpu(
            self.cpu,
        ) + rest;
        let t4 = self.target.spec_encode() + spec_encode_opt_cpu(self.cpu) + rest;
        let t5 = spec_encode_opt_cpu(self.cpu) + rest;
        assert(s.len() >= 29);
        lemma_skip_skip(s, 4, 4);
        assert(s.skip(8) == t2);
        lemma_skip_skip(s, 8, 4);
        assert(s.skip(12) == t3);
        lemma_skip_skip(s, 12, 4);
        assert(s.skip(16) == t4);
        lemma_skip_skip(s, 16, 12);
        assert(s.skip(28) == t5);
        assert(s[28] == t5[0]);
        match self.cpu {
            Some(c) => {
                lemma_skip_skip(s, 28, 1);
                assert(s.skip(29) == t5.skip(1));
            },
            None => {},
        }
    }
}

/// One presence byte, then the encoded CPU description when present.
pub open spec fn spec_encode_opt_cpu(v: Option<Cpu>) -> Seq<u8> {
    match v {
        Some(c) => seq![1u8] + c.spec_encode(),
        None => seq![0u8],
    }
}

/// Registers a call-site node on the wire.
#[derive(Clone, Copy, PartialEq, Eq, Debug, Structural)]
pub struct SpanAlloc {
    pub id: u32,
    pub metadata: Metadata,
}

impl SpanAlloc {
    pub open spec fn spec_encode(self) -> Seq<u8> {
        u32_le(self.id) + self.metadata.spec_encode()
    }

    pub fn encode(&self, out: &mut Vec<u8>)
        ensures
            final(out)@ == old(out)@ + self.spec_encode(),
    {
        write_u32_le(out, self.id);
        self.metadata.encode(out);
        assert(final(out)@ =~= old(out)@ + self.spec_encode());
    }

    pub open spec fn spec_decode(s: Seq<u8>) -> Option<(SpanAlloc, int)> {
        if s.len() < 4 {
            None
        } else {
            match Metadata::spec_decode(s.skip(4)) {
                Some((metadata, used)) => Some(
                    (SpanAlloc { id: u32_from_le(s.subrange(0, 4)), metadata }, 4 + used),
                ),
                None => None,
            }
        }
    }

    pub fn decode(b: &Vec<u8>, off: usize) -> (r: Option<(SpanAlloc, usize)>)
        requires
            off <= b@.len(),
        ensures
            match r {
                Some((m, end)) => Self::spec_decode(b@.skip(off as int)) == Some(
                    (m, end - off),
                ) && off <= end <= b@.len(),
                None => Self::spec_decode(b@.skip(off as int)) is None,
            },
    {
        let n = b.len();
        if n - off < 4 {
            return None;
        }
        let id = read_u32_le(b, off);
        proof {
            let s = b@.skip(off as int);
            assert(b@.subrange(off as int, off + 4) =~= s.subrange(0, 4));
            assert(b@.skip(off + 4) =~= s.skip(4));
        }
        match Metadata::decode(b, off + 4) {
            Some((metadata, end)) => Some((SpanAlloc { id, metadata }, end)),
            None => None,
        }
    }

    pub proof fn lemma_roundtrip(self, rest: Seq<u8>)
        ensures
            Self::spec_decode(self.spec_encode() + rest) == Some(
                (self, self.spec_encode().len() as int),
            ),
    {
        let enc = self.spec_encode();
        let s = enc + rest;
        lemma_u32_le_roundtrip(self.id);
        assert(s.subrange(0, 4) =~= u32_le(self.id));
        assert(s.skip(4) =~= self.metadata.spec_encode() + rest);
        self.metadata.lemma_roundtrip(rest);
    }
}

/// Reports the parent node of a span node; parent 0 means root.
#[derive(Clone, Copy, PartialEq, Eq, Debug, Structural)]
pub struct SpanParent {
    pub id: u32,
    pub parent_node: u32,
}

impl SpanParent {
    pub open spec fn spec_encode(self) -> Seq<u8> {
        u32_le(self.id) + u32_le(self.parent_node)
    }

    pub open spec fn spec_decode(s: Seq<u8>) -> Option<(SpanParent, int)> {
        if s.len() >= 8 {
            Some(
                (
                    SpanParent {
                        id: u32_from_le(s.subrange(0, 4)),
                        parent_node: u32_from_le(s.subrange(4, 8)),
                    },
                    8,
                ),
            )
        } else {
            None
        }
    }

    pub fn encode(&self, out: &mut Vec<u8>)
        ensures
            final(out)@ == old(out)@ + self.spec_encode(),
    {
        write_u32_le(out, self.id);
        write_u32_le(out, self.parent_node);
        assert(final(out)@ =~= old(out)@ + self.spec_encode());
    }

    pub fn decode(b: &Vec<u8>, off: usize) -> (r: Option<(SpanParent, usize)>)
        requires
            off <= b@.len(),
        ensures
            match r {
                Some((m, end)) => Self::spec_decode(b@.skip(off as int)) == Some(
                    (m, end - off),
                ) && off <= end <= b@.len(),
                None => Self::spec_decode(b@.skip(off as int)) is None,
            },
    {
        let n = b.len();
        if n - off >= 8 {
            let id = read_u32_le(b, off);
            let parent_node = read_u32_le(b, off + 4);
            proof {
                let s = b@.skip(off as int);
                assert(b@.subrange(off as int, off + 4) =~= s.subrange(0, 4));
                assert(b@.subrange(off + 4, off + 8) =~= s.subrange(4, 8));
            }
            Some((SpanParent { id, parent_node }, off + 8))
        } else {
            None
        }
    }

    pub proof fn lemma_roundtrip(self, rest: Seq<u8>)
        ensures
            Self::spec_decode(self.spec_encode() + rest) == Some((self, 8int)),
    {
        let s = self.spec_encode() + rest;
        lemma_u32_le_roundtrip(self.id);
        lemma_u32_le_roundtrip(self.parent_node);
        assert(s.subrange(0, 4) =~= u32_le(self.id));
        assert(s.subrange(4, 8) =~= u32_le(self.parent_node));
    }
}

/// Declares that one span follows from another.
#[derive(Clone, Copy, PartialEq, Eq, Debug, Structural)]
pub struct SpanFollows {
    pub id: u32,
    pub follows: u32,
}

impl SpanFollows {
    pub open spec fn spec_encode(self) -> Seq<u8> {
        u32_le(self.id) + u32_le(self.follows)
    }

    pub open spec fn spec_decode(s: Seq<u8>) -> Option<(SpanFollows, int)> {
        if s.len() >= 8 {
            Some(
                (
                    SpanFollows {
                        id: u32_from_le(s.subrange(0, 4)),
                        follows: u32_from_le(s.subrange(4, 8)),
                    },
                    8,
                ),
            )
        } else {
            None
        }
    }

    pub fn encode(&self, out: &mut Vec<u8>)
        ensures
            final(out)@ == old(out)@ + self.spec_encode(),
    {
        write_u32_le(out, self.id);
        write_u32_le(out, self.follows);
        assert(final(out)@ =~= old(out)@ + self.spec_encode());
    }

    pub proof fn lemma_roundtrip(self, rest: Seq<u8>)
        ensures
            Self::spec_decode(self.spec_encode() + rest) == Some((self, 8int)),
    {
        let s = self.spec_encode() + rest;
        lemma_u32_le_roundtrip(self.id);
        lemma_u32_le_roundtrip(self.follows);
        assert(s.subrange(0, 4) =~= u32_le(self.id));
        assert(s.subrange(4, 8) =~= u32_le(self.follows));
    }
}

/// Ships one event record; the record bytes travel in the payload.
#[derive(Clone, Copy, PartialEq, Eq, Debug, Structural)]
pub struct SpanEvent {
    pub id: u32,
    pub timestamp: i64,
    pub level: Level,
    pub message: PayloadRef,
}

impl SpanEvent {
    pub open spec fn spec_encode(self) -> Seq<u8> {
        u32_le(self.id) + i64_le(self.timestamp) + seq![self.level.spec_byte()]
            + self.message.spec_encode()
    }

    pub fn encode(&self, out: &mut Vec<u8>)
        ensures
            final(out)@ == old(out)@ + self.spec_encode(),
    {
        write_u32_le(out, self.id);
        write_i64_le(out, self.timestamp);
        out.push(self.level.to_byte());
        self.message.encode(out);
        assert(final(out)@ =~= old(out)@ + self.spec_encode());
    }

    pub open spec fn spec_decode(s: Seq<u8>) -> Option<(SpanEvent, int)> {
        if s.len() < 17 {
            None
        } else {
            match Level::spec_from_byte(s[12]) {
                Some(level) => match PayloadRef::spec_decode(s.skip(13)) {
                    Some((message, _)) => Some(
                        (
                            SpanEvent {
                                id: u32_from_le(s.subrange(0, 4)),
                                timestamp: i64_from_le(s.subrange(4, 12)),
                                level,
                                message,
                            },
                            17,
                        ),
                    ),
                    None => None,
                },
                None => None,
            }
        }
    }

    pub proof fn lemma_roundtrip(self, rest: Seq<u8>)
        ensures
            Self::spec_decode(self.spec_encode() + rest) == Some((self, 17int)),
    {
        let enc = self.spec_encode();
        let s = enc + rest;
        lemma_u32_le_roundtrip(self.id);
        lemma_i64_le_roundtrip(self.timestamp);
        Level::lemma_byte_roundtrip(self.level);
        assert(s.subrange(0, 4) =~= u32_le(self.id));
        assert(s.subrange(4, 12) =~= i64_le(self.timestamp));
        assert(s[12] == self.level.spec_byte());
        assert(s.skip(13) =~= self.message.spec_encode() + rest);
        self.message.lemma_roundtrip(rest);
    }
}

/// Periodic aggregate statistics for one span node.
#[derive(Clone, Copy, PartialEq, Eq, Debug, Structural)]
pub struct SpanUpdate {
    pub id: u32,
    pub run_count: u32,
    pub average_time: Duration,
    pub min_time: Duration,
    pub max_time: Duration,
}

impl SpanUpdate {
    pub open spec fn spec_encode(self) -> Seq<u8> {
        u32_le(self.id) + u32_le(self.run_count) + self.average_time.spec_encode()
            + self.min_time.spec_encode() + self.max_time.spec_encode()
    }

    pub open spec fn spec_decode(s: Seq<u8>) -> Option<(SpanUpdate, int)> {
        if s.len() >= 32 {
            Some(
                (
                    SpanUpdate {
                        id: u32_from_le(s.subrange(0, 4)),
                        run_count: u32_from_le(s.subrange(4, 8)),
                        average_time: Duration {
                            seconds: u32_from_le(s.subrange(8, 12)),
                            nano_seconds: u32_from_le(s.subrange(12, 16)),
                        },
                        min_time: Duration {
                            seconds: u32_from_le(s.subrange(16, 20)),
                            nano_seconds: u32_from_le(s.subrange(20, 24)),
                        },
                        max_time: Duration {
                            seconds: u32_from_le(s.subrange(24, 28)),
                            nano_seconds: u32_from_le(s.subrange(28, 32)),
                        },
                    },
                    32,
                ),
            )
        } else {
            None
        }
    }

    pub fn encode(&self, out: &mut Vec<u8>)
        ensures
            final(out)@ == old(out)@ + self.spec_encode(),
    {
        write_u32_le(out, self.id);
        write_u32_le(out, self.run_count);
        self.average_time.encode(out);
        self.min_time.encode(out);
        self.max_time.encode(out);
        assert(final(out)@ =~= old(out)@ + self.spec_encode());
    }

    pub fn decode(b: &Vec<u8>, off: usize) -> (r: Option<(SpanUpdate, usize)>)
        requires
            off <= b@.len(),
        ensures
            match r {
                Some((m, end)) => Self::spec_decode(b@.skip(off as int)) == Some(
                    (m, end - off),
                ) && off <= end <= b@.len(),
                None => Self::spec_decode(b@.skip(off as int)) is None,
            },
    {
        let n = b.len();
        if n - off >= 32 {
            let id = read_u32_le(b, off);
            let run_count = read_u32_le(b, off + 4);
            let avg_s = read_u32_le(b, off + 8);
            let avg_n = read_u32_le(b, off + 12);
            let min_s = read_u32_le(b, off + 16);
            let min_n = read_u32_le(b, off + 20);
            let max_s = read_u32_le(b, off + 24);
            let max_n = read_u32_le(b, off + 28);
            proof {
                let s = b@.skip(off as int);
                assert(b@.subrange(off as int, off + 4) =~= s.subrange(0, 4));
                assert(b@.subrange(off + 4, off + 8) =~= s.subrange(4, 8));
                assert(b@.subrange(off + 8, off + 12) =~= s.subrange(8, 12));
                assert(b@.subrange(off + 12, off + 16) =~= s.subrange(12, 16));
                assert(b@.subrange(off + 16, off + 20) =~= s.subrange(16, 20));
                assert(b@.subrange(off + 20, off + 24) =~= s.subrange(20, 24));
                assert(b@.subrange(off + 24, off + 28) =~= s.subrange(24, 28));
                assert(b@.subrange(off + 28, off + 32) =~= s.subrange(28, 32));
            }
            Some(
                (
                    SpanUpdate {
                        id,
                        run_count,
                        average_time: Duration { seconds: avg_s, nano_seconds: avg_n },
                        min_time: Duration { seconds: min_s, nano_seconds: min_n },
                        max_time: Duration { seconds: max_s, nano_seconds: max_n },
                    },
                    off + 32,
                ),
            )
        } else {
            None
        }
    }

    pub proof fn lemma_roundtrip(self, rest: Seq<u8>)
        ensures
            Self::spec_decode(self.spec_encode() + rest) == Some((self, 32int)),
    {
        let s = self.spec_encode() + rest;
        lemma_u32_le_roundtrip(self.id);
        lemma_u32_le_roundtrip(self.run_count);
        lemma_u32_le_roundtrip(self.average_time.seconds);
        lemma_u32_le_roundtrip(self.average_time.nano_seconds);
        lemma_u32_le_roundtrip(self.min_time.seconds);
        lemma_u32_le_roundtrip(self.min_time.nano_seconds);
        lemma_u32_le_roundtrip(self.max_time.seconds);
        lemma_u32_le_roundtrip(self.max_time.nano_seconds);
        assert(s.subrange(0, 4) =~= u32_le(self.id));
        assert(s.subrange(4, 8) =~= u32_le(self.run_count));
        assert(s.subrange(8, 12) =~= u32_le(self.average_time.seconds));
        assert(s.subrange(12, 16) =~= u32_le(self.average_time.nano_seconds));
        assert(s.subrange(16, 20) =~= u32_le(self.min_time.seconds));
        assert(s.subrange(20, 24) =~= u32_le(self.min_time.nano_seconds));
        assert(s.subrange(24, 28) =~= u32_le(self.max_time.seconds));
        assert(s.subrange(28, 32) =~= u32_le(self.max_time.nano_seconds));
    }
}

/// Announces a recording window's buffered runs for one node; the
/// length-prefixed bodies travel in the payload.
#[derive(Clone, Copy, PartialEq, Eq, Debug, Structural)]
pub struct SpanDataset {
    pub id: u32,
    pub run_count: u32,
}

impl SpanDataset {
    pub open spec fn spec_encode(self) -> Seq<u8> {
        u32_le(self.id) + u32_le(self.run_count)
    }

    pub open spec fn spec_decode(s: Seq<u8>) -> Option<(SpanDataset, int)> {
        if s.len() >= 8 {
            Some(
                (
                    SpanDataset {
                        id: u32_from_le(s.subrange(0, 4)),
                        run_count: u32_from_le(s.subrange(4, 8)),
                    },
                    8,
                ),
            )
        } else {
            None
        }
    }

    pub fn encode(&self, out: &mut Vec<u8>)
        ensures
            final(out)@ == old(out)@ + self.spec_encode(),
    {
        write_u32_le(out, self.id);
        write_u32_le(out, self.run_count);
        assert(final(out)@ =~= old(out)@ + self.spec_encode());
    }

    pub proof fn lemma_roundtrip(self, rest: Seq<u8>)
        ensures
            Self::spec_decode(self.spec_encode() + rest) == Some((self, 8int)),
    {
        let s = self.spec_encode() + rest;
        lemma_u32_le_roundtrip(self.id);
        lemma_u32_le_roundtrip(self.run_count);
        assert(s.subrange(0, 4) =~= u32_le(self.id));
        assert(s.subrange(4, 8) =~= u32_le(self.run_count));
    }
}

/// The client's request to start or stop recording.
#[derive(Clone, Copy, PartialEq, Eq, Debug, Structural)]
pub struct ClientRecord {
    pub max_rows: u32,
    pub enable: bool,
}

impl ClientRecord {
    pub open spec fn spec_encode(self) -> Seq<u8> {
        u32_le(self.max_rows) + seq![
            if self.enable {
                1u8
            } else {
                0u8
            },
        ]
    }

    pub open spec fn spec_decode(s: Seq<u8>) -> Option<(ClientRecord, int)> {
        if s.len() >= 5 {
            Some((ClientRecord { max_rows: u32_from_le(s.subrange(0, 4)), enable: s[4] != 0 }, 5))
        } else {
            None
        }
    }

    pub fn encode(&self, out: &mut Vec<u8>)
        ensures
            final(out)@ == old(out)@ + self.spec_encode(),
    {
        write_u32_le(out, self.max_rows);
        out.push(
            if self.enable {
                1
            } else {
                0
            },
        );
        assert(final(out)@ =~= old(out)@ + self.spec_encode());
    }

    pub fn decode(b: &Vec<u8>, off: usize) -> (r: Option<(ClientRecord, usize)>)
        requires
            off <= b@.len(),
        ensures
            match r {
                Some((m, end)) => Self::spec_decode(b@.skip(off as int)) == Some(
                    (m, end - off),
                ) && off <= end <= b@.len(),
                None => Self::spec_decode(b@.skip(off as int)) is None,
            },
    {
        let n = b.len();
        if n - off >= 5 {
            let max_rows = read_u32_le(b, off);
            let enable = b[off + 4] != 0;
            proof {
                let s = b@.skip(off as int);
                assert(b@.subrange(off as int, off + 4) =~= s.subrange(0, 4));
                assert(b@[off + 4] == s[4]);
            }
            Some((ClientRecord { max_rows, enable }, off + 5))
        } else {
            None
        }
    }

    pub proof fn lemma_roundtrip(self, rest: Seq<u8>)
        ensures
            Self::spec_decode(self.spec_encode() + rest) == Some((self, 5int)),
    {
        let s = self.spec_encode() + rest;
        lemma_u32_le_roundtrip(self.max_rows);
        assert(s.subrange(0, 4) =~= u32_le(self.max_rows));
    }
}

/// The client's opening configuration, read right after the handshake.
#[derive(Clone, Copy, PartialEq, Eq, Debug, Structural)]
pub struct ClientConfig {
    pub max_average_points: u32,
    pub max_level: Option<Level>,
    pub record: ClientRecord,
    pub period: u16,
}

impl ClientConfig {
    pub open spec fn spec_encode(self) -> Seq<u8> {
        u32_le(self.max_average_points) + match self.max_level {
            Some(l) => seq![1u8, l.spec_byte()],
            None => seq![0u8],
        } + self.record.spec_encode() + u16_le(self.period)
    }

    pub open spec fn spec_decode(s: Seq<u8>) -> Option<(ClientConfig, int)> {
        if s.len() < 5 {
            None
        } else {
            let max_average_points = u32_from_le(s.subrange(0, 4));
            let (max_level, used): (Option<Level>, int) = if s[4] == 0 {
                (None, 5)
            } else if s.len() >= 6 {
                match Level::spec_from_byte(s[5]) {
                    Some(l) => (Some(l), 6),
                    None => (None, -1),
                }
            } else {
                (None, -1)
            };
            if used < 0 {
                None
            } else {
                match ClientRecord::spec_decode(s.skip(used)) {
                    Some((record, u2)) => {
                        if s.len() >= used + u2 + 2 {
                            Some(
                                (
                                    ClientConfig {
                                        max_average_points,
                                        max_level,
                                        record,
                                        period: u16_from_le(
                                            s.subrange(used + u2, used + u2 + 2),
                                        ),
                                    },
                                    used + u2 + 2,
                                ),
                            )
                        } else {
                            None
                        }
                    },
                    None => None,
                }
            }
        }
    }

    pub fn encode(&self, out: &mut Vec<u8>)
        ensures
            final(out)@ == old(out)@ + self.spec_encode(),
    {
        write_u32_le(out, self.max_average_points);
        match self.max_level {
            Some(l) => {
                out.push(1);
                out.push(l.to_byte());
            },
            None => {
                out.push(0);
            },
        }
        self.record.encode(out);
        write_u16_le(out, self.period);
        assert(final(out)@ =~= old(out)@ + self.spec_encode());
    }

    pub fn decode(b: &Vec<u8>, off: usize) -> (r: Option<(ClientConfig, usize)>)
        requires
            off <= b@.len(),
        ensures
            match r {
                Some((m, end)) => Self::spec_decode(b@.skip(off as int)) == Some(
                    (m, end - off),
                ) && off <= end <= b@.len(),
                None => Self::spec_decode(b@.skip(off as int)) is None,
            },
    {
        let ghost s = b@.skip(off as int);
        let n = b.len();
        if n - off < 5 {
            return None;
        }
        let max_average_points = read_u32_le(b, off);
        proof {
            assert(b@.subrange(off as int, off + 4) =~= s.subrange(0, 4));
            assert(b@[off + 4] == s[4]);
        }
        let (max_level, cursor): (Option<Level>, usize) = if b[off + 4] == 0 {
            (None, off + 5)
        } else {
            if n - off >= 6 {
                proof {
                    assert(b@[off + 5] == s[5]);
                }
                match Level::from_byte(b[off + 5]) {
                    Some(l) => (Some(l), off + 6),
                    None => {
                        return None;
                    },
                }
            } else {
                return None;
            }
        };
        let ghost used = cursor - off;
        match ClientRecord::decode(b, cursor) {
            Some((record, c2)) => {
                proof {
                    assert(b@.skip(cursor as int) =~= s.skip(used));
                }
                if n - c2 >= 2 {
                    let period = read_u16_le(b, c2);
                    proof {
                        let u2 = c2 - cursor;
                        assert(b@.subrange(c2 as int, c2 + 2) =~= s.subrange(
                            used + u2,
                            used + u2 + 2,
                        ));
                    }
                    Some(
                        (
                            ClientConfig { max_average_points, max_level, record, period },
                            c2 + 2,
                        ),
                    )
                } else {
                    None
                }
            },
            None => None,
        }
    }

    pub proof fn lemma_roundtrip(self, rest: Seq<u8>)
        ensures
            Self::spec_decode(self.spec_encode() + rest) == Some(
                (self, self.spec_encode().len() as int),
            ),
    {
        let enc = self.spec_encode();
        let s = enc + rest;
        lemma_u32_le_roundtrip(self.max_average_points);
        assert(s.subrange(0, 4) =~= u32_le(self.max_average_points));
        let used: int = match self.max_level {
            Some(_) => 6,
            None => 5,
        };
        match self.max_level {
            Some(l) => {
                assert(s[4] == 1);
                assert(s[5] == l.spec_byte());
                Level::lemma_byte_roundtrip(l);
            },
            None => {
                assert(s[4] == 0);
            },
        }
        assert(s.skip(used) =~= self.record.spec_encode() + (u16_le(self.period) + rest));
        self.record.lemma_roundtrip(u16_le(self.period) + rest);
        lemma_u16_le_roundtrip(self.period);
        assert(s.subrange(used + 5, used + 5 + 2) =~= u16_le(self.period));
        assert(enc.len() == used + 5 + 2);
    }
}

/// The server's opening configuration, written right after the handshake.
#[derive(Clone, Copy, PartialEq, Eq, Debug, Structural)]
pub struct ServerConfig {
    pub max_rows: u32,
    pub min_period: u16,
}

impl ServerConfig {
    pub open spec fn spec_encode(self) -> Seq<u8> {
        u32_le(self.max_rows) + u16_le(self.min_period)
    }

    pub open spec fn spec_decode(s: Seq<u8>) -> Option<(ServerConfig, int)> {
        if s.len() >= 6 {
            Some(
                (
                    ServerConfig {
                        max_rows: u32_from_le(s.subrange(0, 4)),
                        min_period: u16_from_le(s.subrange(4, 6)),
                    },
                    6,
                ),
            )
        } else {
            None
        }
    }

    pub fn encode(&self, out: &mut Vec<u8>)
        ensures
            final(out)@ == old(out)@ + self.spec_encode(),
    {
        write_u32_le(out, self.max_rows);
        write_u16_le(out, self.min_period);
        assert(final(out)@ =~= old(out)@ + self.spec_encode());
    }

    pub fn decode(b: &Vec<u8>, off: usize) -> (r: Option<(ServerConfig, usize)>)
        requires
            off <= b@.len(),
        ensures
            match r {
                Some((m, end)) => Self::spec_decode(b@.skip(off as int)) == Some(
                    (m, end - off),
                ) && off <= end <= b@.len(),
                None => Self::spec_decode(b@.skip(off as int)) is None,
            },
    {
        let n = b.len();
        if n - off >= 6 {
            let max_rows = read_u32_le(b, off);
            let min_period = read_u16_le(b, off + 4);
            proof {
                let s = b@.skip(off as int);
                assert(b@.subrange(off as int, off + 4) =~= s.subrange(0, 4));
                assert(b@.subrange(off + 4, off + 6) =~= s.subrange(4, 6));
            }
            Some((ServerConfig { max_rows, min_period }, off + 6))
        } else {
            None
        }
    }

    pub proof fn lemma_roundtrip(self, rest: Seq<u8>)
        ensures
            Self::spec_decode(self.spec_encode() + rest) == Some((self, 6int)),
    {
        let s = self.spec_encode() + rest;
        lemma_u32_le_roundtrip(self.max_rows);
        lemma_u16_le_roundtrip(self.min_period);
        assert(s.subrange(0, 4) =~= u32_le(self.max_rows));
        assert(s.subrange(4, 6) =~= u16_le(self.min_period));
    }
}

/// One whole frame: the type tag, the header bytes, and — when the type
/// carries a payload — its 32-bit length and the payload bytes.
pub open spec fn spec_frame(tag: u8, header: Seq<u8>, payload: Option<Seq<u8>>) -> Seq<u8> {
    seq![tag] + header + match payload {
        Some(p) => u32_le(p.len() as u32) + p,
        None => Seq::<u8>::empty(),
    }
}

/// Assembles one frame.
pub fn frame_message(tag: u8, header: &Vec<u8>, payload: Option<&Vec<u8>>) -> (r: Vec<u8>)
    requires
        match payload {
            Some(p) => p@.len() <= u32::MAX,
            None => true,
        },
    ensures
        r@ == spec_frame(
            tag,
            header@,
            match payload {
                Some(p) => Some(p@),
                None => None,
            },
        ),
{
    let mut out: Vec<u8> = Vec::new();
    out.push(tag);
    let mut i: usize = 0;
    let n = header.len();
    while i < n
        invariant
            i <= n,
            n == header@.len(),
            out@ == seq![tag] + header@.take(i as int),
        decreases n - i,
    {
        out.push(header[i]);
        i += 1;
        assert(out@ =~= seq![tag] + header@.take(i as int));
    }
    assert(out@ =~= seq![tag] + header@);
    match payload {
        Some(p) => {
            write_u32_le(&mut out, p.len() as u32);
            let mut k: usize = 0;
            let m = p.len();
            while k < m
                invariant
                    k <= m,
                    m == p@.len(),
                    out@ == seq![tag] + header@ + u32_le(p@.len() as u32) + p@.take(k as int),
                decreases m - k,
            {
                out.push(p[k]);
                k += 1;
                assert(out@ =~= seq![tag] + header@ + u32_le(p@.len() as u32) + p@.take(k as int));
            }
            assert(out@ =~= spec_frame(tag, header@, Some(p@)));
        },
        None => {
            assert(out@ =~= spec_frame(tag, header@, None));
        },
    }
    out
}

/// A bounded payload area under construction. Strings and other bytes are
/// appended and addressed by `PayloadRef`; writes past the capacity are cut
/// off at the boundary, and the returned reference always describes exactly
/// the bytes that were kept.
pub struct Payload {
    pub buf: Vec<u8>,
    pub cap: usize,
}

impl Payload {
    /// The capacity keeps every offset and length inside a 16-bit
    /// reference.
    pub open spec fn wf(&self) -> bool {
        &&& self.buf@.len() <= self.cap
        &&& self.cap <= u16::MAX
    }

    /// An empty payload area of the given capacity.
    pub fn new(cap: usize) -> (r: Payload)
        requires
            cap <= u16::MAX,
        ensures
            r.wf(),
            r.buf@.len() == 0,
            r.cap == cap,
    {
        Payload { buf: Vec::new(), cap }
    }

    /// Appends the given bytes, cut off at capacity, and returns the
    /// reference addressing what was kept.
    pub fn write_object(&mut self, bytes: &Vec<u8>) -> (r: PayloadRef)
        requires
            old(self).wf(),
        ensures
            final(self).wf(),
            final(self).cap == old(self).cap,
            r.offset == old(self).buf@.len(),
            r.length == final(self).buf@.len() - old(self).buf@.len(),
            r.length <= bytes@.len(),
            final(self).buf@ == old(self).buf@ + bytes@.take(r.length as int),
            old(self).buf@.len() + bytes@.len() <= old(self).cap ==> r.length == bytes@.len(),
    {
        let start = self.buf.len();
        let room = self.cap - start;
        let count = if bytes.len() <= room {
            bytes.len()
        } else {
            room
        };
        let mut k: usize = 0;
        while k < count
            invariant
                k <= count,
                count <= bytes@.len(),
                self.cap == old(self).cap,
                start == old(self).buf@.len(),
                start + count <= self.cap,
                self.buf@ == old(self).buf@ + bytes@.take(k as int),
            decreases count - k,
        {
            self.buf.push(bytes[k]);
            k += 1;
            assert(self.buf@ =~= old(self).buf@ + bytes@.take(k as int));
        }
        PayloadRef { length: count as u16, offset: start as u16 }
    }

    /// Reads back the bytes a reference addresses.
    pub fn resolve(&self, r: &PayloadRef) -> (out: Option<Vec<u8>>)
        ensures
            match out {
                Some(v) => r.offset + r.length <= self.buf@.len() && v@ == self.buf@.subrange(
                    r.offset as int,
                    r.offset + r.length,
                ),
                None => r.offset + r.length > self.buf@.len(),
            },
    {
        let end = (r.offset as usize) + (r.length as usize);
        if end > self.buf.len() {
            return None;
        }
        let mut v: Vec<u8> = Vec::new();
        let mut k: usize = r.offset as usize;
        while k < end
            invariant
                r.offset as int <= k as int <= end as int,
                end == r.offset + r.length,
                end <= self.buf@.len(),
                v@ == self.buf@.subrange(r.offset as int, k as int),
            decreases end - k,
        {
            v.push(self.buf[k]);
            k += 1;
            assert(v@ =~= self.buf@.subrange(r.offset as int, k as int));
        }
        Some(v)
    }
}

} // verus!
