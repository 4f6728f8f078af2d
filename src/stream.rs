use vstd::prelude::*;

verus! {

/// What one read from a byte source produced.
#[derive(Debug)]
pub enum Chunk {
    /// Between one byte and the number asked for.
    Bytes(Vec<u8>),
    /// The source has no more bytes.
    End,
    /// The source failed; an interrupted read is retried by the source itself
    /// and never reported.
    Failed(std::io::Error),
}

/// A sequential source of bytes, such as a file or a socket.
/// A reliable source is one whose contents `remaining` describes and which
/// never fails; one that keeps the defaults promises only the length of each
/// chunk.
pub trait ByteSource {
    /// The bytes a reliable source has still to give, in order.
    open spec fn remaining(&self) -> Seq<u8> {
        Seq::empty()
    }

    /// The source never fails and `remaining` describes it.
    open spec fn reliable(&self) -> bool {
        false
    }

    /// Reads at most `max` bytes and at least one, unless the source ended or
    /// failed. A reliable source gives its next bytes, and `End` exactly when
    /// it holds none.
    fn read_chunk(&mut self, max: usize) -> (r: Chunk)
        requires
            max > 0,
        ensures
            r is Bytes ==> 0 < r->Bytes_0@.len() <= max,
            old(self).reliable() ==> {
                &&& final(self).reliable()
                &&& !(r is Failed)
                &&& r is Bytes ==> old(self).remaining() == r->Bytes_0@ + final(self).remaining()
                &&& r is End ==> old(self).remaining().len() == 0 && final(self).remaining()
                    == old(self).remaining()
            },
    ;
}

/// A sequential destination of bytes.
/// A reliable sink is one whose contents `written` describes and which never
/// fails; one that keeps the defaults promises nothing of what it holds.
pub trait ByteSink {
    /// Every byte a reliable sink has accepted, in order.
    open spec fn written(&self) -> Seq<u8> {
        Seq::empty()
    }

    /// The sink never fails and `written` describes it.
    open spec fn reliable(&self) -> bool {
        false
    }

    /// Writes all the bytes, or fails. A reliable sink accepts them all.
    fn write_all(&mut self, bytes: &[u8]) -> (r: Result<(), std::io::Error>)
        ensures
            old(self).reliable() ==> {
                &&& final(self).reliable()
                &&& r is Ok
                &&& final(self).written() == old(self).written() + bytes@
            },
    ;
}

/// A byte source over bytes held in memory; it never fails.
pub struct MemorySource {
    data: Vec<u8>,
    pos: usize,
}

impl MemorySource {
    /// A source that gives `data` from its first byte.
    pub fn new(data: Vec<u8>) -> (r: MemorySource)
        ensures
            r.remaining() == data@,
            r.reliable(),
    {
        let r = MemorySource { data, pos: 0 };
        assert(r.remaining() =~= r.data@);
        r
    }
}

impl ByteSource for MemorySource {
    closed spec fn remaining(&self) -> Seq<u8> {
        if self.pos <= self.data@.len() {
            self.data@.subrange(self.pos as int, self.data@.len() as int)
        } else {
            Seq::empty()
        }
    }

    open spec fn reliable(&self) -> bool {
        true
    }

    fn read_chunk(&mut self, max: usize) -> (r: Chunk) {
        if self.pos >= self.data.len() {
            return Chunk::End;
        }
        let ghost start = self.pos as int;
        let mut out: Vec<u8> = Vec::new();
        while out.len() < max && self.pos < self.data.len()
            invariant
                max > 0,
                out@.len() <= max,
                out@.len() > 0 || self.pos < self.data@.len(),
                start <= self.pos <= self.data@.len(),
                start == old(self).pos,
                self.data@ == old(self).data@,
                out@ == self.data@.subrange(start, self.pos as int),
            decreases self.data@.len() - self.pos,
        {
            out.push(self.data[self.pos]);
            self.pos = self.pos + 1;
            assert(out@ =~= self.data@.subrange(start, self.pos as int));
        }
        assert(old(self).remaining() =~= out@ + self.remaining());
        Chunk::Bytes(out)
    }
}

impl ByteSink for Vec<u8> {
    open spec fn written(&self) -> Seq<u8> {
        self@
    }

    open spec fn reliable(&self) -> bool {
        true
    }

    fn write_all(&mut self, bytes: &[u8]) -> (r: Result<(), std::io::Error>) {
        self.extend_from_slice(bytes);
        Ok(())
    }
}

} // verus!
