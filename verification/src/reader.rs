//! A cursor over a borrowed byte buffer, used by every decoder.

use vstd::prelude::*;

use crate::error::ProtocolError;

verus! {

/// Reads bytes front to back from a borrowed buffer.
///
/// `rem()` is the sequence of bytes not yet consumed; decoders state their
/// contracts over it.
pub struct Reader<'a> {
    data: &'a [u8],
    pos: usize,
}

impl<'a> Reader<'a> {
    /// The whole underlying buffer.
    pub closed spec fn all(&self) -> Seq<u8> {
        self.data@
    }

    /// How many bytes have been consumed so far.
    pub closed spec fn pos(&self) -> nat {
        self.pos as nat
    }

    /// The cursor never runs past the end of the buffer.
    pub open spec fn wf(&self) -> bool {
        self.pos() <= self.all().len()
    }

    /// The bytes not yet consumed.
    pub open spec fn rem(&self) -> Seq<u8>
        recommends
            self.wf(),
    {
        self.all().skip(self.pos() as int)
    }

    pub fn new(data: &'a [u8]) -> (r: Reader<'a>)
        ensures
            r.wf(),
            r.all() == data@,
            r.pos() == 0,
            r.rem() == data@,
    {
        let r = Reader { data, pos: 0 };
        proof {
            assert(r.rem() =~= data@);
        }
        r
    }

    /// How many bytes are left to read.
    pub fn remaining_len(&self) -> (n: usize)
        requires
            self.wf(),
        ensures
            n == self.rem().len(),
    {
        self.data.len() - self.pos
    }

    /// Reads one byte, or fails at the end of the buffer.
    pub fn read_u8(&mut self) -> (r: Result<u8, ProtocolError>)
        requires
            old(self).wf(),
        ensures
            final(self).wf(),
            final(self).all() == old(self).all(),
            old(self).rem().len() > 0 ==> {
                &&& r == Ok::<u8, ProtocolError>(old(self).rem()[0])
                &&& final(self).pos() == old(self).pos() + 1
                &&& final(self).rem() == old(self).rem().skip(1)
            },
            old(self).rem().len() == 0 ==> {
                &&& r == Err::<u8, ProtocolError>(ProtocolError::IOError)
                &&& final(self).pos() == old(self).pos()
            },
    {
        if self.pos < self.data.len() {
            let b = self.data[self.pos];
            self.pos = self.pos + 1;
            proof {
                assert(self.rem() =~= old(self).rem().skip(1));
            }
            Ok(b)
        } else {
            Err(ProtocolError::IOError)
        }
    }

    /// Reads `n` bytes into a fresh vector, or fails if fewer are left.
    pub fn read_bytes(&mut self, n: usize) -> (r: Result<Vec<u8>, ProtocolError>)
        requires
            old(self).wf(),
        ensures
            final(self).wf(),
            final(self).all() == old(self).all(),
            old(self).rem().len() >= n ==> {
                &&& r matches Ok(v) && v@ == old(self).rem().take(n as int)
                &&& final(self).pos() == old(self).pos() + n
                &&& final(self).rem() == old(self).rem().skip(n as int)
            },
            old(self).rem().len() < n ==> {
                &&& r == Err::<Vec<u8>, ProtocolError>(ProtocolError::IOError)
                &&& final(self).pos() == old(self).pos()
            },
    {
        if self.data.len() - self.pos < n {
            return Err(ProtocolError::IOError);
        }
        let mut v: Vec<u8> = Vec::new();
        let mut i: usize = 0;
        while i < n
            invariant
                old(self).wf(),
                i <= n,
                old(self).pos() + n <= old(self).all().len(),
                old(self).all().len() <= usize::MAX,
                v@ == old(self).rem().take(i as int),
                self.data == old(self).data,
                self.pos == old(self).pos,
            decreases n - i,
        {
            let b = self.data[self.pos + i];
            v.push(b);
            proof {
                assert(v@ =~= old(self).rem().take(i + 1));
            }
            i = i + 1;
        }
        self.pos = self.pos + n;
        proof {
            assert(self.rem() =~= old(self).rem().skip(n as int));
        }
        Ok(v)
    }

    /// Reads everything that is left.
    pub fn read_to_end(&mut self) -> (r: Vec<u8>)
        requires
            old(self).wf(),
        ensures
            final(self).wf(),
            final(self).all() == old(self).all(),
            r@ == old(self).rem(),
            final(self).rem().len() == 0,
    {
        let n = self.data.len() - self.pos;
        match self.read_bytes(n) {
            Ok(v) => {
                proof {
                    assert(old(self).rem().take(n as int) =~= old(self).rem());
                }
                v
            },
            Err(_) => {
                // n never exceeds what is left
                proof {
                    assert(false);
                }
                Vec::new()
            },
        }
    }
}

} // verus!
