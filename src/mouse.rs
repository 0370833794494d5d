//! Mouse state shared between the host's input handling and the guest's
//! register reads.

use vstd::prelude::*;

verus! {

/// Pointer position in screen pixels and the button latches.
#[derive(Copy, Clone, Debug, PartialEq, Eq, Structural)]
pub struct Mouse {
    pub x: u16,
    pub y: u16,
    pub held: bool,
    pub clicked: bool,
    pub released: bool,
}

/// The button register: clicked in bit 0, released in bit 1, held in bit 2.
pub open spec fn button_bits(m: Mouse) -> u32 {
    ((if m.clicked { 1int } else { 0 }) + (if m.released { 2int } else { 0 }) + (if m.held { 4int } else { 0 })) as u32
}

impl Mouse {
    /// The pointer at the origin with no button activity.
    pub fn new() -> (r: Self)
        ensures
            r == (Mouse { x: 0, y: 0, held: false, clicked: false, released: false }),
    {
        Mouse { x: 0, y: 0, held: false, clicked: false, released: false }
    }

    /// Records one frame of host input: the pointer position, whether the
    /// button is down now and whether it went down this frame. A button that
    /// was held and no longer is sets the released latch; a press sets the
    /// clicked latch. Latches stay set until the guest reads them.
    pub fn host_update(&mut self, x: u16, y: u16, held: bool, pressed: bool)
        ensures
            final(self).x == x,
            final(self).y == y,
            final(self).held == held,
            final(self).released == (old(self).released || (old(self).held && !held)),
            final(self).clicked == (old(self).clicked || pressed),
    {
        self.x = x;
        self.y = y;
        if self.held && !held {
            self.released = true;
        }
        self.held = held;
        if pressed {
            self.clicked = true;
        }
    }

    /// The position register: `y` in the high half word, `x` in the low one.
    pub fn position(&self) -> (r: u32)
        ensures
            r == self.y as int * 0x10000 + self.x as int,
    {
        (self.y as u32) * 0x10000 + self.x as u32
    }

    /// Reads the button register and clears the clicked and released
    /// latches.
    pub fn read_buttons(&mut self) -> (r: u32)
        ensures
            r == button_bits(*old(self)),
            *final(self) == (Mouse { clicked: false, released: false, ..*old(self) }),
    {
        let r = (if self.clicked { 1u32 } else { 0 }) + (if self.released { 2u32 } else { 0 }) + (if self.held { 4u32 } else { 0 });
        self.clicked = false;
        self.released = false;
        r
    }
}

} // verus!
