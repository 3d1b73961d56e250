//! The byte device the machine talks to: a capability with one blocking
//! "take a byte" operation and one "emit a byte" operation, injected by the
//! host. A queue-backed device is provided for hosts that stage input up
//! front and collect output afterwards.

use vstd::prelude::*;

verus! {

/// The byte a poll of the device yields: the next pending byte, or zero when
/// none is pending.
pub open spec fn spec_polled_byte(pending: Seq<u8>) -> u8 {
    if pending.len() == 0 {
        0
    } else {
        pending[0]
    }
}

/// The input bytes still pending after one poll.
pub open spec fn spec_pending_after_poll(pending: Seq<u8>) -> Seq<u8> {
    if pending.len() == 0 {
        pending
    } else {
        pending.drop_first()
    }
}

/// A source and sink of bytes. `pending` is the input the device can still
/// yield, `emitted` everything written to it so far; both grow and shrink
/// only as the two operations say.
pub trait Device: Sized {
    /// The input bytes the device has yet to hand out, in order.
    spec fn pending(&self) -> Seq<u8>;

    /// Every byte emitted through the device so far, in order.
    spec fn emitted(&self) -> Seq<u8>;

    /// Takes one byte of input: the next pending byte, or zero when none is
    /// pending.
    fn read_byte(&mut self) -> (b: u8)
        ensures
            b == spec_polled_byte(old(self).pending()),
            final(self).pending() == spec_pending_after_poll(old(self).pending()),
            final(self).emitted() == old(self).emitted(),
    ;

    /// Emits one byte to the output sink.
    fn write_byte(&mut self, b: u8)
        ensures
            final(self).pending() == old(self).pending(),
            final(self).emitted() == old(self).emitted().push(b),
    ;
}

/// A device backed by two byte queues: input staged in full before the run,
/// output collected after it.
pub struct QueueDevice {
    input: Vec<u8>,
    cursor: usize,
    output: Vec<u8>,
}

impl QueueDevice {
    /// A device that will yield the bytes of `input` in order and has emitted
    /// nothing yet.
    pub fn new(input: Vec<u8>) -> (d: QueueDevice)
        ensures
            d.pending() == input@,
            d.emitted() == Seq::<u8>::empty(),
    {
        let d = QueueDevice { input, cursor: 0, output: Vec::new() };
        proof {
            assert(d.pending() =~= d.input@);
        }
        d
    }

    /// The bytes emitted so far, oldest first.
    pub fn output(&self) -> (r: &Vec<u8>)
        ensures
            r@ == self.emitted(),
    {
        &self.output
    }
}

impl Device for QueueDevice {
    closed spec fn pending(&self) -> Seq<u8> {
        if self.cursor <= self.input@.len() {
            self.input@.skip(self.cursor as int)
        } else {
            Seq::empty()
        }
    }

    closed spec fn emitted(&self) -> Seq<u8> {
        self.output@
    }

    fn read_byte(&mut self) -> (b: u8)
        ensures
            b == spec_polled_byte(old(self).pending()),
            final(self).pending() == spec_pending_after_poll(old(self).pending()),
            final(self).emitted() == old(self).emitted(),
    {
        if self.cursor < self.input.len() {
            let b = self.input[self.cursor];
            self.cursor = self.cursor + 1;
            proof {
                assert(self.pending() =~= old(self).pending().drop_first());
            }
            b
        } else {
            0
        }
    }

    fn write_byte(&mut self, b: u8)
        ensures
            final(self).pending() == old(self).pending(),
            final(self).emitted() == old(self).emitted().push(b),
    {
        self.output.push(b);
    }
}

} // verus!
