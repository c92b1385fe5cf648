//! A reader that serves the same bytes again and again.

use vstd::prelude::*;

verus! {

/// The mathematical state of a loop reader.
pub struct LoopReaderView {
    /// The bytes that are served.
    pub data: Seq<u8>,
    /// The position of the next byte to serve.
    pub pos: nat,
}

impl LoopReaderView {
    /// Where the next read starts: at the cursor, or at the beginning once
    /// the cursor has reached the end.
    pub open spec fn start(self) -> nat {
        if self.pos >= self.data.len() {
            0
        } else {
            self.pos
        }
    }

    /// How many bytes a read into a buffer of `room` bytes serves: what is
    /// left up to the end of the data, and the size of the buffer at most.
    pub open spec fn served(self, room: nat) -> nat {
        let left = (self.data.len() - self.start()) as nat;
        if room > left {
            left
        } else {
            room
        }
    }
}

/// A reader over a block of bytes that starts over when it reaches the end.
pub struct LoopReader {
    data: Vec<u8>,
    pos: usize,
}

impl View for LoopReader {
    type V = LoopReaderView;

    closed spec fn view(&self) -> LoopReaderView {
        LoopReaderView { data: self.data@, pos: self.pos as nat }
    }
}

impl LoopReader {
    /// A reader over `data`, with the cursor at the beginning.
    pub fn new(data: Vec<u8>) -> (reader: Self)
        ensures
            reader@ == (LoopReaderView { data: data@, pos: 0 }),
    {
        LoopReader { data, pos: 0 }
    }

    /// Serves the next bytes into the front of `buf` and returns how many
    /// were served. A read never goes past the end of the data; the read
    /// after that starts at the beginning again.
    pub fn read(&mut self, buf: &mut [u8]) -> (size: usize)
        ensures
            size == old(self)@.served(old(buf)@.len()),
            final(self)@ == (LoopReaderView {
                pos: old(self)@.start() + size as nat,
                ..old(self)@
            }),
            final(buf)@.len() == old(buf)@.len(),
            final(buf)@.take(size as int) == old(self)@.data.subrange(
                old(self)@.start() as int,
                old(self)@.start() + size,
            ),
            final(buf)@.skip(size as int) == old(buf)@.skip(size as int),
    {
        if self.pos >= self.data.len() {
            self.pos = 0;
        }
        let left = self.data.len() - self.pos;
        let size = if buf.len() > left {
            left
        } else {
            buf.len()
        };
        let start = self.pos;
        let mut i: usize = 0;
        while i < size
            invariant
                i <= size,
                start + size <= self.data@.len() <= usize::MAX,
                size <= buf@.len(),
                buf@.len() == old(buf)@.len(),
                self.pos == start,
                self.data@ == old(self).data@,
                forall|j: int| 0 <= j < i ==> buf@[j] == self.data@[start + j],
                forall|j: int| i <= j < buf@.len() ==> buf@[j] == old(buf)@[j],
            decreases size - i,
        {
            buf[i] = self.data[start + i];
            i = i + 1;
        }
        self.pos = start + size;
        proof {
            assert(buf@.take(size as int) =~= self.data@.subrange(
                start as int,
                start + size,
            ));
            assert(buf@.skip(size as int) =~= old(buf)@.skip(size as int));
        }
        size
    }
}

} // verus!
