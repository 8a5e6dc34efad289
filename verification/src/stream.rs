//! In-memory byte streams: the source a codec reads from and the sink it
//! writes to.

use vstd::prelude::*;
use vstd::slice::slice_subrange;
use crate::error::BinError;

verus! {

/// What reading `n` bytes from `input` gives, and how many bytes it takes.
///
/// A short input is an error, and the whole of it is taken.
pub open spec fn take_exact(input: Seq<u8>, n: nat) -> Decoded<Seq<u8>> {
    if n <= input.len() {
        Decoded { result: Ok(input.take(n as int)), used: n }
    } else {
        Decoded { result: Err(BinError::UnexpectedEof), used: input.len() }
    }
}

/// The outcome of a read, as a value of the model: the value read or the
/// error, and the number of bytes taken from the input either way.
pub struct Decoded<T> {
    pub result: Result<T, BinError>,
    pub used: nat,
}

/// The outcome of a write, as a value of the model: the bytes that reach the
/// sink, and whether the write succeeded after them.
pub struct Encoded {
    pub bytes: Seq<u8>,
    pub result: Result<(), BinError>,
}

/// A sequence of bytes with a read position.
pub struct Source {
    data: Vec<u8>,
    pos: usize,
}

impl Source {
    /// All the bytes of the source, read or not.
    pub closed spec fn bytes(&self) -> Seq<u8> {
        self.data@
    }

    /// The number of bytes read so far.
    pub closed spec fn position(&self) -> nat {
        self.pos as nat
    }

    /// The position never passes the end of the bytes.
    #[verifier::type_invariant]
    pub open spec fn inv(self) -> bool {
        self.position() <= self.bytes().len()
    }

    /// The bytes not read yet.
    pub open spec fn remaining(&self) -> Seq<u8> {
        self.bytes().skip(self.position() as int)
    }

    /// A source over `data`, positioned at its first byte.
    pub fn new(data: Vec<u8>) -> (s: Source)
        ensures
            s.bytes() == data@,
            s.position() == 0,
    {
        Source { data, pos: 0 }
    }

    /// The number of bytes read so far.
    pub fn pos(&self) -> (p: usize)
        ensures
            p == self.position(),
            p <= self.bytes().len(),
    {
        proof {
            use_type_invariant(self);
        }
        self.pos
    }

    /// The number of bytes not read yet.
    pub fn remaining_len(&self) -> (n: usize)
        ensures
            n == self.remaining().len(),
    {
        proof {
            use_type_invariant(self);
        }
        self.data.len() - self.pos
    }

    /// Reads the next `n` bytes, without copying them.
    pub fn take(&mut self, n: usize) -> (res: Result<&[u8], BinError>)
        ensures
            final(self).bytes() == old(self).bytes(),
            final(self).position() == old(self).position() + take_exact(
                old(self).remaining(),
                n as nat,
            ).used,
            final(self).position() <= final(self).bytes().len(),
            match res {
                Ok(b) => take_exact(old(self).remaining(), n as nat).result == Ok::<
                    Seq<u8>,
                    BinError,
                >(b@),
                Err(e) => take_exact(old(self).remaining(), n as nat).result == Err::<
                    Seq<u8>,
                    BinError,
                >(e),
            },
    {
        proof {
            use_type_invariant(&*self);
        }
        let start = self.pos;
        if n <= self.data.len() - start {
            self.pos = start + n;
            let out = slice_subrange(self.data.as_slice(), start, start + n);
            assert(out@ =~= old(self).remaining().take(n as int));
            Ok(out)
        } else {
            self.pos = self.data.len();
            Err(BinError::UnexpectedEof)
        }
    }

    /// Reads one byte.
    pub fn read_u8(&mut self) -> (res: Result<u8, BinError>)
        ensures
            final(self).bytes() == old(self).bytes(),
            final(self).position() == old(self).position() + take_exact(
                old(self).remaining(),
                1,
            ).used,
            final(self).position() <= final(self).bytes().len(),
            match res {
                Ok(b) => old(self).remaining().len() >= 1 && b == old(self).remaining()[0],
                Err(e) => old(self).remaining().len() == 0 && e == BinError::UnexpectedEof,
            },
    {
        proof {
            use_type_invariant(&*self);
        }
        if self.pos < self.data.len() {
            let b = self.data[self.pos];
            self.pos = self.pos + 1;
            Ok(b)
        } else {
            Err(BinError::UnexpectedEof)
        }
    }
}

/// A growing sequence of bytes.
pub struct Sink {
    data: Vec<u8>,
}

impl View for Sink {
    type V = Seq<u8>;

    /// The bytes written so far.
    closed spec fn view(&self) -> Seq<u8> {
        self.data@
    }
}

impl Sink {
    /// A sink that holds no byte.
    pub fn new() -> (s: Sink)
        ensures
            s@ == Seq::<u8>::empty(),
    {
        Sink { data: Vec::new() }
    }

    /// Appends one byte.
    pub fn write_u8(&mut self, b: u8)
        ensures
            final(self)@ == old(self)@.push(b),
    {
        self.data.push(b);
    }

    /// Appends `bytes`, in order.
    pub fn write_all(&mut self, bytes: &[u8])
        ensures
            final(self)@ == old(self)@ + bytes@,
    {
        let ghost before = self.data@;
        let mut i: usize = 0;
        while i < bytes.len()
            invariant
                i <= bytes@.len(),
                self.data@ == before + bytes@.take(i as int),
            decreases bytes@.len() - i,
        {
            self.data.push(bytes[i]);
            i = i + 1;
        }
    }

    /// The bytes written so far.
    pub fn as_slice(&self) -> (bytes: &[u8])
        ensures
            bytes@ == self@,
    {
        self.data.as_slice()
    }

    /// Gives up the sink for the bytes written to it.
    pub fn into_inner(self) -> (bytes: Vec<u8>)
        ensures
            bytes@ == self@,
    {
        self.data
    }
}

} // verus!
