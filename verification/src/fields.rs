//! TLV encoding of structured record fields.
//!
//! A field is the name (NUL-terminated), one type-tag byte, then the value.
//! Integers are width-compressed by magnitude; a float travels as the
//! little-endian image of its 64-bit pattern; text ends with a NUL; a bool
//! is one byte.

use vstd::prelude::*;
use crate::codec::{u16_le, u32_le, u64_le, i64_le, u16_from_le, u32_from_le, u64_from_le,
    i64_from_le, write_u16_le, write_u32_le, write_u64_le, write_i64_le, read_u16_le, read_u32_le,
    read_u64_le, read_i64_le, lemma_u16_le_roundtrip, lemma_u32_le_roundtrip,
    lemma_u64_le_roundtrip, lemma_i64_le_roundtrip};
use crate::log_msg::{LogBuf, trunc_append, lemma_trunc_append_compose};

verus! {

pub const TAG_I8: u8 = 1;

pub const TAG_I16: u8 = 2;

pub const TAG_I32: u8 = 3;

pub const TAG_I64: u8 = 4;

pub const TAG_U8: u8 = 5;

pub const TAG_U16: u8 = 6;

pub const TAG_U32: u8 = 7;

pub const TAG_U64: u8 = 8;

pub const TAG_F64: u8 = 9;

pub const TAG_STR: u8 = 10;

pub const TAG_BOOL: u8 = 11;

/// A field value. A float is carried as the bit pattern of its 64-bit
/// image, so the codec itself stays within the integers.
pub enum Value {
    Signed(i64),
    Unsigned(u64),
    Float(u64),
    Text(Vec<u8>),
    Bool(bool),
}

/// The mathematical image of a `Value`.
pub enum ValueModel {
    Signed(i64),
    Unsigned(u64),
    Float(u64),
    Text(Seq<u8>),
    Bool(bool),
}

impl View for Value {
    type V = ValueModel;

    open spec fn view(&self) -> ValueModel {
        match self {
            Value::Signed(v) => ValueModel::Signed(*v),
            Value::Unsigned(v) => ValueModel::Unsigned(*v),
            Value::Float(v) => ValueModel::Float(*v),
            Value::Text(t) => ValueModel::Text(t@),
            Value::Bool(b) => ValueModel::Bool(*b),
        }
    }
}

/// Text values must not contain the NUL that terminates them on the wire.
pub open spec fn value_model_wf(v: ValueModel) -> bool {
    match v {
        ValueModel::Text(t) => !t.contains(0u8),
        _ => true,
    }
}

/// The encoded bytes of a value: its type tag, then its width-compressed
/// image.
pub open spec fn spec_value_bytes(v: ValueModel) -> Seq<u8> {
    match v {
        ValueModel::Unsigned(u) => if u < 256 {
            seq![TAG_U8, u as u8]
        } else if u < 0x1_0000 {
            seq![TAG_U16] + u16_le(u as u16)
        } else if u < 0x1_0000_0000 {
            seq![TAG_U32] + u32_le(u as u32)
        } else {
            seq![TAG_U64] + u64_le(u)
        },
        ValueModel::Signed(i) => if -128 <= i < 128 {
            seq![TAG_I8, (i as i8) as u8]
        } else if -0x8000 <= i < 0x8000 {
            seq![TAG_I16] + u16_le((i as i16) as u16)
        } else if -0x8000_0000 <= i < 0x8000_0000 {
            seq![TAG_I32] + u32_le((i as i32) as u32)
        } else {
            seq![TAG_I64] + i64_le(i)
        },
        ValueModel::Float(bits) => seq![TAG_F64] + u64_le(bits),
        ValueModel::Text(t) => seq![TAG_STR] + t + seq![0u8],
        ValueModel::Bool(b) => seq![TAG_BOOL, if b { 1u8 } else { 0u8 }],
    }
}

/// The encoded bytes of a whole field: NUL-terminated name, then the value.
pub open spec fn spec_field_encoding(name: Seq<u8>, v: ValueModel) -> Seq<u8> {
    name + seq![0u8] + spec_value_bytes(v)
}

/// Index of the first NUL byte.
pub open spec fn find_nul(s: Seq<u8>) -> Option<int>
    decreases s.len(),
{
    if s.len() == 0 {
        None
    } else if s[0] == 0 {
        Some(0)
    } else {
        match find_nul(s.skip(1)) {
            Some(i) => Some(i + 1),
            None => None,
        }
    }
}

/// In `name + [0] + rest` with a NUL-free name, the first NUL sits exactly
/// after the name.
pub proof fn lemma_find_nul_after(name: Seq<u8>, rest: Seq<u8>)
    requires
        !name.contains(0u8),
    ensures
        find_nul(name + seq![0u8] + rest) == Some(name.len() as int),
    decreases name.len(),
{
    let s = name + seq![0u8] + rest;
    if name.len() == 0 {
        assert(s[0] == 0);
    } else {
        assert(s[0] == name[0]);
        assert(name[0] != 0) by {
            assert(name.contains(name[0]));
        }
        lemma_find_nul_after(name.skip(1), rest);
        assert(s.skip(1) =~= name.skip(1) + seq![0u8] + rest);
    }
}

/// Reading back a signed value stored in 8 bits.
pub open spec fn i8_of_byte(b: u8) -> i64 {
    if b < 128 {
        b as i64
    } else {
        (b - 256) as i64
    }
}

/// Reading back a signed value stored in 16 bits.
pub open spec fn i16_of_u16(v: u16) -> i64 {
    if v < 0x8000 {
        v as i64
    } else {
        (v - 0x1_0000) as i64
    }
}

/// Reading back a signed value stored in 32 bits.
pub open spec fn i32_of_u32(v: u32) -> i64 {
    if v < 0x8000_0000 {
        v as i64
    } else {
        (v - 0x1_0000_0000) as i64
    }
}

proof fn lemma_i8_roundtrip(i: i64)
    requires
        -128 <= i < 128,
    ensures
        i8_of_byte((i as i8) as u8) == i,
{
    assert({
        let b = (i as i8) as u8;
        (if b < 128 {
            b as int
        } else {
            b - 256
        }) == i
    }) by (bit_vector)
        requires
            -128 <= i < 128,
    ;
}

proof fn lemma_i16_roundtrip(i: i64)
    requires
        -0x8000 <= i < 0x8000,
    ensures
        i16_of_u16((i as i16) as u16) == i,
{
    assert({
        let b = (i as i16) as u16;
        (if b < 0x8000 {
            b as int
        } else {
            b - 0x1_0000
        }) == i
    }) by (bit_vector)
        requires
            -0x8000 <= i < 0x8000,
    ;
}

proof fn lemma_i32_roundtrip(i: i64)
    requires
        -0x8000_0000 <= i < 0x8000_0000,
    ensures
        i32_of_u32((i as i32) as u32) == i,
{
    assert({
        let b = (i as i32) as u32;
        (if b < 0x8000_0000 {
            b as int
        } else {
            b - 0x1_0000_0000
        }) == i
    }) by (bit_vector)
        requires
            -0x8000_0000 <= i < 0x8000_0000,
    ;
}

/// Decodes the value part of a field at the start of `s`. Returns the value
/// and how many bytes it took.
pub open spec fn spec_decode_value(s: Seq<u8>) -> Option<(ValueModel, int)> {
    if s.len() < 1 {
        None
    } else {
        let tag = s[0];
        if tag == TAG_U8 {
            if s.len() >= 2 {
                Some((ValueModel::Unsigned(s[1] as u64), 2))
            } else {
                None
            }
        } else if tag == TAG_U16 {
            if s.len() >= 3 {
                Some((ValueModel::Unsigned(u16_from_le(s.subrange(1, 3)) as u64), 3))
            } else {
                None
            }
        } else if tag == TAG_U32 {
            if s.len() >= 5 {
                Some((ValueModel::Unsigned(u32_from_le(s.subrange(1, 5)) as u64), 5))
            } else {
                None
            }
        } else if tag == TAG_U64 {
            if s.len() >= 9 {
                Some((ValueModel::Unsigned(u64_from_le(s.subrange(1, 9))), 9))
            } else {
                None
            }
        } else if tag == TAG_I8 {
            if s.len() >= 2 {
                Some((ValueModel::Signed(i8_of_byte(s[1])), 2))
            } else {
                None
            }
        } else if tag == TAG_I16 {
            if s.len() >= 3 {
                Some((ValueModel::Signed(i16_of_u16(u16_from_le(s.subrange(1, 3)))), 3))
            } else {
                None
            }
        } else if tag == TAG_I32 {
            if s.len() >= 5 {
                Some((ValueModel::Signed(i32_of_u32(u32_from_le(s.subrange(1, 5)))), 5))
            } else {
                None
            }
        } else if tag == TAG_I64 {
            if s.len() >= 9 {
                Some((ValueModel::Signed(i64_from_le(s.subrange(1, 9))), 9))
            } else {
                None
            }
        } else if tag == TAG_F64 {
            if s.len() >= 9 {
                Some((ValueModel::Float(u64_from_le(s.subrange(1, 9))), 9))
            } else {
                None
            }
        } else if tag == TAG_STR {
            match find_nul(s.skip(1)) {
                Some(n) => Some((ValueModel::Text(s.subrange(1, 1 + n)), n + 2)),
                None => None,
            }
        } else if tag == TAG_BOOL {
            if s.len() >= 2 {
                Some((ValueModel::Bool(s[1] != 0), 2))
            } else {
                None
            }
        } else {
            None
        }
    }
}

/// Decodes one whole field at the start of `s`: the name up to its NUL,
/// then the value. Returns the name, the value, and the total bytes taken.
pub open spec fn spec_decode_field(s: Seq<u8>) -> Option<(Seq<u8>, ValueModel, int)> {
    match find_nul(s) {
        Some(n) => {
            let name = s.subrange(0, n);
            match spec_decode_value(s.skip(n + 1)) {
                Some((v, used)) => Some((name, v, n + 1 + used)),
                None => None,
            }
        },
        None => None,
    }
}

/// Decoding an encoded field returns the original name and value, whatever
/// bytes follow it.
pub proof fn lemma_field_roundtrip(name: Seq<u8>, v: ValueModel, rest: Seq<u8>)
    requires
        !name.contains(0u8),
        value_model_wf(v),
    ensures
        ({
            let enc = spec_field_encoding(name, v);
            spec_decode_field(enc + rest) == Some((name, v, enc.len() as int))
        }),
{
    let enc = spec_field_encoding(name, v);
    let s = enc + rest;
    let vb = spec_value_bytes(v);
    assert(s =~= name + seq![0u8] + (vb + rest));
    lemma_find_nul_after(name, vb + rest);
    assert(s.subrange(0, name.len() as int) =~= name);
    let tail = s.skip(name.len() as int + 1);
    assert(tail =~= vb + rest);
    lemma_value_roundtrip(v, rest);
    assert(spec_decode_value(tail) == Some((v, vb.len() as int)));
}

/// Decoding an encoded value returns the original value, whatever bytes
/// follow it.
pub proof fn lemma_value_roundtrip(v: ValueModel, rest: Seq<u8>)
    requires
        value_model_wf(v),
    ensures
        ({
            let vb = spec_value_bytes(v);
            spec_decode_value(vb + rest) == Some((v, vb.len() as int))
        }),
{
    let vb = spec_value_bytes(v);
    let s = vb + rest;
    match v {
        ValueModel::Unsigned(u) => {
            if u < 256 {
                assert(s[1] == u as u8);
            } else if u < 0x1_0000 {
                lemma_u16_le_roundtrip(u as u16);
                assert(s.subrange(1, 3) =~= u16_le(u as u16));
            } else if u < 0x1_0000_0000 {
                lemma_u32_le_roundtrip(u as u32);
                assert(s.subrange(1, 5) =~= u32_le(u as u32));
            } else {
                lemma_u64_le_roundtrip(u);
                assert(s.subrange(1, 9) =~= u64_le(u));
            }
        },
        ValueModel::Signed(i) => {
            if -128 <= i < 128 {
                lemma_i8_roundtrip(i);
                assert(s[1] == (i as i8) as u8);
            } else if -0x8000 <= i < 0x8000 {
                lemma_u16_le_roundtrip((i as i16) as u16);
                lemma_i16_roundtrip(i);
                assert(s.subrange(1, 3) =~= u16_le((i as i16) as u16));
            } else if -0x8000_0000 <= i < 0x8000_0000 {
                lemma_u32_le_roundtrip((i as i32) as u32);
                lemma_i32_roundtrip(i);
                assert(s.subrange(1, 5) =~= u32_le((i as i32) as u32));
            } else {
                lemma_i64_le_roundtrip(i);
                assert(s.subrange(1, 9) =~= i64_le(i));
            }
        },
        ValueModel::Float(bits) => {
            lemma_u64_le_roundtrip(bits);
            assert(s.subrange(1, 9) =~= u64_le(bits));
        },
        ValueModel::Text(t) => {
            assert(s.skip(1) =~= t + seq![0u8] + rest);
            lemma_find_nul_after(t, rest);
            assert(s.subrange(1, 1 + t.len() as int) =~= t);
        },
        ValueModel::Bool(b) => {
            assert(s[1] == (if b {
                1u8
            } else {
                0u8
            }));
        },
    }
}

/// Writes the tag and width-compressed image of `value` into the buffer,
/// truncating at capacity.
pub fn write_value(log: &mut LogBuf, value: &Value)
    requires
        old(log).wf(),
    ensures
        final(log).wf(),
        final(log).data@ == trunc_append(old(log).data@, spec_value_bytes(value@), old(log).cap as int),
        final(log).cap == old(log).cap,
        final(log).var_count == old(log).var_count,
{
    let mut tmp: Vec<u8> = Vec::new();
    match value {
        Value::Unsigned(u) => {
            if *u < 256 {
                tmp.push(TAG_U8);
                tmp.push(*u as u8);
                assert(tmp@ =~= spec_value_bytes(value@));
            } else if *u < 0x1_0000 {
                tmp.push(TAG_U16);
                write_u16_le(&mut tmp, *u as u16);
                assert(tmp@ =~= spec_value_bytes(value@));
            } else if *u < 0x1_0000_0000 {
                tmp.push(TAG_U32);
                write_u32_le(&mut tmp, *u as u32);
                assert(tmp@ =~= spec_value_bytes(value@));
            } else {
                tmp.push(TAG_U64);
                write_u64_le(&mut tmp, *u);
                assert(tmp@ =~= spec_value_bytes(value@));
            }
        },
        Value::Signed(i) => {
            if -128 <= *i && *i < 128 {
                tmp.push(TAG_I8);
                tmp.push((*i as i8) as u8);
                assert(tmp@ =~= spec_value_bytes(value@));
            } else if -0x8000 <= *i && *i < 0x8000 {
                tmp.push(TAG_I16);
                write_u16_le(&mut tmp, (*i as i16) as u16);
                assert(tmp@ =~= spec_value_bytes(value@));
            } else if -0x8000_0000 <= *i && *i < 0x8000_0000 {
                tmp.push(TAG_I32);
                write_u32_le(&mut tmp, (*i as i32) as u32);
                assert(tmp@ =~= spec_value_bytes(value@));
            } else {
                tmp.push(TAG_I64);
                write_i64_le(&mut tmp, *i);
                assert(tmp@ =~= spec_value_bytes(value@));
            }
        },
        Value::Float(bits) => {
            tmp.push(TAG_F64);
            write_u64_le(&mut tmp, *bits);
            assert(tmp@ =~= spec_value_bytes(value@));
        },
        Value::Text(t) => {
            tmp.push(TAG_STR);
            let mut k: usize = 0;
            let n = t.len();
            while k < n
                invariant
                    k <= n,
                    n == t@.len(),
                    tmp@ == seq![TAG_STR] + t@.take(k as int),
                decreases n - k,
            {
                tmp.push(t[k]);
                k += 1;
                assert(tmp@ =~= seq![TAG_STR] + t@.take(k as int));
            }
            tmp.push(0);
            assert(tmp@ =~= spec_value_bytes(value@));
        },
        Value::Bool(b) => {
            tmp.push(TAG_BOOL);
            tmp.push(if *b {
                1
            } else {
                0
            });
            assert(tmp@ =~= spec_value_bytes(value@));
        },
    }
    log.write_bytes(&tmp);
}

/// One named field ready for encoding.
pub struct Field {
    pub name: Vec<u8>,
    pub value: Value,
}

impl Field {
    /// Pairs a name with a value.
    pub fn new(name: Vec<u8>, value: Value) -> (r: Field)
        ensures
            r.name@ == name@,
            r.value@ == value@,
    {
        Field { name, value }
    }

    /// Writes the whole field into the buffer — name, NUL, tag, value —
    /// truncating at capacity, and counts it.
    pub fn write_into(&self, log: &mut LogBuf)
        requires
            old(log).wf(),
        ensures
            final(log).wf(),
            final(log).data@ == trunc_append(
                old(log).data@,
                spec_field_encoding(self.name@, self.value@),
                old(log).cap as int,
            ),
            final(log).cap == old(log).cap,
            final(log).var_count == if old(log).var_count < 255 {
                old(log).var_count + 1
            } else {
                old(log).var_count as int
            },
    {
        log.write_bytes(&self.name);
        proof {
            lemma_trunc_append_compose(old(log).data@, self.name@, seq![0u8], old(log).cap as int);
        }
        log.write_byte(0);
        proof {
            lemma_trunc_append_compose(
                old(log).data@,
                self.name@ + seq![0u8],
                spec_value_bytes(self.value@),
                old(log).cap as int,
            );
            assert(self.name@ + seq![0u8] + spec_value_bytes(self.value@) =~= spec_field_encoding(
                self.name@,
                self.value@,
            ));
        }
        write_value(log, &self.value);
        log.increment_var_count();
    }
}

/// Decodes one field starting at `off`; returns the name, the value, and
/// the offset just past the field.
pub fn decode_field(b: &Vec<u8>, off: usize) -> (r: Option<(Vec<u8>, Value, usize)>)
    requires
        off <= b@.len(),
    ensures
        match r {
            Some((name, v, end)) => {
                &&& spec_decode_field(b@.skip(off as int)) matches Some((sn, sv, used))
                &&& sn == name@
                &&& sv == v@
                &&& end == off + used
                &&& off <= end <= b@.len()
            },
            None => spec_decode_field(b@.skip(off as int)) is None,
        },
{
    let ghost s = b@.skip(off as int);
    let n = b.len();
    // Find the NUL that ends the name.
    let mut i: usize = off;
    while i < n && b[i] != 0
        invariant
            off <= i <= n,
            n == b@.len(),
            forall|k: int| off <= k < i ==> b@[k] != 0,
        decreases n - i,
    {
        i += 1;
    }
    if i == n {
        proof {
            lemma_no_nul(b@.skip(off as int));
        }
        return None;
    }
    proof {
        lemma_find_nul_at(b@.skip(off as int), i - off);
    }
    let mut name: Vec<u8> = Vec::new();
    let mut k: usize = off;
    while k < i
        invariant
            off <= k <= i <= n,
            n == b@.len(),
            name@ == b@.subrange(off as int, k as int),
        decreases i - k,
    {
        name.push(b[k]);
        k += 1;
        assert(name@ =~= b@.subrange(off as int, k as int));
    }
    assert(name@ =~= b@.skip(off as int).subrange(0, i - off));
    let vstart = i + 1;
    let ghost tail = b@.skip(vstart as int);
    assert(tail =~= b@.skip(off as int).skip(i - off + 1));
    match decode_value_at(b, vstart) {
        Some((v, end)) => Some((name, v, end)),
        None => None,
    }
}

/// Decodes the tag-and-value part starting at `off`.
fn decode_value_at(b: &Vec<u8>, off: usize) -> (r: Option<(Value, usize)>)
    requires
        off <= b@.len(),
    ensures
        match r {
            Some((v, end)) => {
                &&& spec_decode_value(b@.skip(off as int)) matches Some((sv, used))
                &&& sv == v@
                &&& end == off + used
                &&& off <= end <= b@.len()
            },
            None => spec_decode_value(b@.skip(off as int)) is None,
        },
{
    let ghost s = b@.skip(off as int);
    let n = b.len();
    if off >= n {
        return None;
    }
    let tag = b[off];
    assert(s[0] == tag);
    if tag == TAG_U8 {
        if n - off >= 2 {
            let v = b[off + 1];
            assert(s[1] == v);
            Some((Value::Unsigned(v as u64), off + 2))
        } else {
            None
        }
    } else if tag == TAG_U16 {
        if n - off >= 3 {
            let v = read_u16_le(b, off + 1);
            assert(b@.subrange(off + 1, off + 3) =~= s.subrange(1, 3));
            Some((Value::Unsigned(v as u64), off + 3))
        } else {
            None
        }
    } else if tag == TAG_U32 {
        if n - off >= 5 {
            let v = read_u32_le(b, off + 1);
            assert(b@.subrange(off + 1, off + 5) =~= s.subrange(1, 5));
            Some((Value::Unsigned(v as u64), off + 5))
        } else {
            None
        }
    } else if tag == TAG_U64 {
        if n - off >= 9 {
            let v = read_u64_le(b, off + 1);
            assert(b@.subrange(off + 1, off + 9) =~= s.subrange(1, 9));
            Some((Value::Unsigned(v), off + 9))
        } else {
            None
        }
    } else if tag == TAG_I8 {
        if n - off >= 2 {
            let v = b[off + 1];
            assert(s[1] == v);
            let signed: i64 = if v < 128 {
                v as i64
            } else {
                (v as i64) - 256
            };
            Some((Value::Signed(signed), off + 2))
        } else {
            None
        }
    } else if tag == TAG_I16 {
        if n - off >= 3 {
            let v = read_u16_le(b, off + 1);
            assert(b@.subrange(off + 1, off + 3) =~= s.subrange(1, 3));
            let signed: i64 = if v < 0x8000 {
                v as i64
            } else {
                (v as i64) - 0x1_0000
            };
            Some((Value::Signed(signed), off + 3))
        } else {
            None
        }
    } else if tag == TAG_I32 {
        if n - off >= 5 {
            let v = read_u32_le(b, off + 1);
            assert(b@.subrange(off + 1, off + 5) =~= s.subrange(1, 5));
            let signed: i64 = if v < 0x8000_0000 {
                v as i64
            } else {
                (v as i64) - 0x1_0000_0000
            };
            Some((Value::Signed(signed), off + 5))
        } else {
            None
        }
    } else if tag == TAG_I64 {
        if n - off >= 9 {
            let v = read_i64_le(b, off + 1);
            assert(b@.subrange(off + 1, off + 9) =~= s.subrange(1, 9));
            Some((Value::Signed(v), off + 9))
        } else {
            None
        }
    } else if tag == TAG_F64 {
        if n - off >= 9 {
            let v = read_u64_le(b, off + 1);
            assert(b@.subrange(off + 1, off + 9) =~= s.subrange(1, 9));
            Some((Value::Float(v), off + 9))
        } else {
            None
        }
    } else if tag == TAG_STR {
        let mut i: usize = off + 1;
        while i < n && b[i] != 0
            invariant
                off + 1 <= i <= n,
                n == b@.len(),
                forall|k: int| off + 1 <= k < i ==> b@[k] != 0,
            decreases n - i,
        {
            i += 1;
        }
        if i == n {
            proof {
                lemma_no_nul(s.skip(1));
                assert(s.skip(1) =~= b@.skip(off + 1));
            }
            return None;
        }
        proof {
            assert(s.skip(1) =~= b@.skip(off + 1));
            lemma_find_nul_at(s.skip(1), i - off - 1);
        }
        let mut text: Vec<u8> = Vec::new();
        let mut k: usize = off + 1;
        while k < i
            invariant
                off + 1 <= k <= i <= n,
                n == b@.len(),
                text@ == b@.subrange(off + 1, k as int),
            decreases i - k,
        {
            text.push(b[k]);
            k += 1;
            assert(text@ =~= b@.subrange(off + 1, k as int));
        }
        assert(text@ =~= s.subrange(1, 1 + (i - off - 1)));
        Some((Value::Text(text), i + 1))
    } else if tag == TAG_BOOL {
        if n - off >= 2 {
            let v = b[off + 1];
            assert(s[1] == v);
            Some((Value::Bool(v != 0), off + 2))
        } else {
            None
        }
    } else {
        None
    }
}

/// A NUL-free sequence has no first NUL.
proof fn lemma_no_nul(s: Seq<u8>)
    requires
        forall|k: int| 0 <= k < s.len() ==> s[k] != 0,
    ensures
        find_nul(s) is None,
    decreases s.len(),
{
    if s.len() > 0 {
        lemma_no_nul(s.skip(1));
    }
}

/// If everything before index `i` is nonzero and `s[i]` is zero, the first
/// NUL is at `i`.
proof fn lemma_find_nul_at(s: Seq<u8>, i: int)
    requires
        0 <= i < s.len(),
        s[i] == 0,
        forall|k: int| 0 <= k < i ==> s[k] != 0,
    ensures
        find_nul(s) == Some(i),
    decreases i,
{
    if i > 0 {
        lemma_find_nul_at(s.skip(1), i - 1);
    }
}

} // verus!
