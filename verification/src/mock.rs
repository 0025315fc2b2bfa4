//! In-memory collaborators for tests and examples: a serial sink that
//! records what is written, and a countdown that is always elapsed.

use vstd::prelude::*;

use crate::traits::Timer;
use crate::traits::Transport;

verus! {

/// A transport that appends written bytes to a bounded in-memory buffer;
/// a write beyond the buffer's capacity fails like a saturated serial port.
pub struct MockSerial {
    buf: Vec<u8>,
    capacity: usize,
    flushes: Ghost<nat>,
}

impl MockSerial {
    pub closed spec fn spec_capacity(&self) -> nat {
        self.capacity as nat
    }

    pub fn new(capacity: usize) -> (m: Self)
        ensures
            m.written() == Seq::<u8>::empty(),
            m.flushed() == 0,
            m.spec_capacity() == capacity as nat,
    {
        MockSerial { buf: Vec::new(), capacity, flushes: Ghost(0) }
    }

    /// Everything written so far.
    pub fn written_bytes(&self) -> (r: &Vec<u8>)
        ensures
            r@ == self.written(),
    {
        &self.buf
    }
}

impl Transport for MockSerial {
    closed spec fn written(&self) -> Seq<u8> {
        self.buf@
    }

    closed spec fn flushed(&self) -> nat {
        self.flushes@
    }

    fn write_all(&mut self, buf: &[u8]) -> (r: Result<(), ()>) {
        let mut i: usize = 0;
        while i < buf.len()
            invariant
                0 <= i <= buf@.len(),
                self.buf@ == old(self).buf@ + buf@.subrange(0, i as int),
                self.capacity == old(self).capacity,
                self.flushes == old(self).flushes,
            decreases buf@.len() - i,
        {
            if self.buf.len() >= self.capacity {
                return Err(());
            }
            self.buf.push(buf[i]);
            proof {
                assert(self.buf@ =~= old(self).buf@ + buf@.subrange(0, i + 1));
            }
            i = i + 1;
        }
        proof {
            assert(old(self).buf@ + buf@.subrange(0, buf@.len() as int) =~= old(self).buf@ + buf@);
        }
        Ok(())
    }

    fn flush(&mut self) -> (r: Result<(), ()>) {
        self.flushes = Ghost(self.flushes@ + 1);
        Ok(())
    }
}

/// A countdown that has always already elapsed: waits return at once and
/// every expiry poll reports true.
pub struct MockTimer;

impl Timer for MockTimer {
    fn start(&mut self, ms: u32) {
    }

    fn wait(&mut self) {
    }

    fn expired(&mut self) -> bool {
        true
    }
}

} // verus!
