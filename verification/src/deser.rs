//! A byte-pulling reader over a received buffer, and the decoding errors
//! the wire layer reports.

use vstd::prelude::*;

verus! {

/// What can go wrong while decoding received bytes.
#[derive(Debug)]
pub enum Error {
    Unsupported,
    UnexpectedEob,
    InvalidUtf8,
    Custom(Vec<u8>),
}

impl Error {
    /// A short description of the error.
    pub fn describe(&self) -> &'static str {
        match self {
            Error::Unsupported => "unsupported operation",
            Error::UnexpectedEob => "unexpected end of buffer",
            Error::InvalidUtf8 => "invalid UTF-8",
            Error::Custom(_) => "other error",
        }
    }
}

/// A reader that consumes a received buffer from the front.
pub struct Deserializer {
    pub data: Vec<u8>,
    pub pos: usize,
}

impl Deserializer {
    pub open spec fn wf(&self) -> bool {
        self.pos <= self.data@.len()
    }

    /// The bytes not yet consumed.
    pub open spec fn remaining(&self) -> Seq<u8> {
        self.data@.skip(self.pos as int)
    }

    /// A reader over the whole buffer.
    pub fn new(buffer: Vec<u8>) -> (r: Deserializer)
        ensures
            r.wf(),
            r.data@ == buffer@,
            r.pos == 0,
            r.remaining() == buffer@,
    {
        let r = Deserializer { data: buffer, pos: 0 };
        proof {
            assert(r.remaining() =~= r.data@);
        }
        r
    }

    /// Takes one byte off the front; fails at the end of the buffer.
    pub fn pop_byte(&mut self) -> (r: Result<u8, Error>)
        requires
            old(self).wf(),
        ensures
            final(self).wf(),
            final(self).data@ == old(self).data@,
            match r {
                Ok(b) => old(self).remaining().len() > 0 && b == old(self).remaining()[0]
                    && final(self).pos == old(self).pos + 1 && final(self).remaining() == old(self).remaining().skip(1),
                Err(e) => old(self).remaining().len() == 0 && e is UnexpectedEob && *final(self)
                    == *old(self),
            },
    {
        if self.pos >= self.data.len() {
            return Err(Error::UnexpectedEob);
        }
        let b = self.data[self.pos];
        self.pos = self.pos + 1;
        proof {
            assert(final(self).remaining() =~= old(self).remaining().skip(1));
        }
        Ok(b)
    }

    /// Takes `count` bytes off the front; fails, consuming nothing, when
    /// fewer are left.
    pub fn pop_bytes(&mut self, count: usize) -> (r: Result<Vec<u8>, Error>)
        requires
            old(self).wf(),
        ensures
            final(self).wf(),
            final(self).data@ == old(self).data@,
            match r {
                Ok(bytes) => old(self).remaining().len() >= count && bytes@ == old(self).remaining().take(count as int) && final(self).pos == old(self).pos + count
                    && final(self).remaining() == old(self).remaining().skip(count as int),
                Err(e) => old(self).remaining().len() < count && e is UnexpectedEob && *final(self) == *old(self),
            },
    {
        let n = self.data.len();
        if n - self.pos < count {
            return Err(Error::UnexpectedEob);
        }
        let mut bytes: Vec<u8> = Vec::new();
        let mut i: usize = 0;
        while i < count
            invariant
                i <= count,
                n == self.data@.len(),
                self.pos + count <= n,
                self.data@ == old(self).data@,
                self.pos == old(self).pos,
                bytes@ == self.data@.subrange(self.pos as int, self.pos + i),
            decreases count - i,
        {
            bytes.push(self.data[self.pos + i]);
            i += 1;
            assert(bytes@ =~= self.data@.subrange(self.pos as int, self.pos + i));
        }
        self.pos = self.pos + count;
        proof {
            assert(bytes@ =~= old(self).remaining().take(count as int));
            assert(final(self).remaining() =~= old(self).remaining().skip(count as int));
        }
        Ok(bytes)
    }
}

} // verus!
