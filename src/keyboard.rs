//! Keyboard events queued by the host for the guest to read in order.

use vstd::prelude::*;

verus! {

/// Most events the queue holds; an event that arrives when it is full is
/// dropped.
pub const KEYBOARD_CAPACITY: usize = 32;

/// One key event packed in a word: the scancode in the low byte, bit 8 set
/// for a release.
pub open spec fn key_word(scancode: u8, released: bool) -> u32 {
    (scancode as int + if released { 0x100int } else { 0 }) as u32
}

/// A bounded first-in first-out queue of packed key events.
pub struct Keyboard {
    pub queue: Vec<u32>,
}

impl Keyboard {
    /// The queue never holds more than its capacity.
    pub open spec fn wf(&self) -> bool {
        self.queue@.len() <= KEYBOARD_CAPACITY
    }

    /// An empty queue.
    pub fn new() -> (r: Self)
        ensures
            r.wf(),
            r.queue@.len() == 0,
    {
        Keyboard { queue: Vec::new() }
    }

    /// Queues a key event at the back, or drops it when the queue is full.
    /// Returns whether it was queued.
    pub fn push(&mut self, scancode: u8, released: bool) -> (r: bool)
        requires
            old(self).wf(),
        ensures
            final(self).wf(),
            r == (old(self).queue@.len() < KEYBOARD_CAPACITY),
            r ==> final(self).queue@ == old(self).queue@.push(key_word(scancode, released)),
            !r ==> final(self).queue@ == old(self).queue@,
    {
        if self.queue.len() < KEYBOARD_CAPACITY {
            let word = scancode as u32 + if released { 0x100u32 } else { 0 };
            self.queue.push(word);
            true
        } else {
            false
        }
    }

    /// Takes the oldest event off the queue; an empty queue reads as zero.
    pub fn pop(&mut self) -> (r: u32)
        requires
            old(self).wf(),
        ensures
            final(self).wf(),
            old(self).queue@.len() == 0 ==> r == 0 && final(self).queue@.len() == 0,
            old(self).queue@.len() > 0 ==> r == old(self).queue@[0] && final(self).queue@ == old(self).queue@.drop_first(),
    {
        if self.queue.len() == 0 {
            0
        } else {
            let r = self.queue.remove(0);
            assert(self.queue@ =~= old(self).queue@.drop_first());
            r
        }
    }
}

} // verus!
