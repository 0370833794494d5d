//! Host-side compositor: snapshots the guest framebuffer out of RAM and
//! draws the enabled overlays on top of it.

use vstd::prelude::*;
use vstd::arithmetic::div_mod::lemma_fundamental_div_mod_converse;

verus! {

/// Width of the screen in pixels.
pub const WIDTH: usize = 640;

/// Height of the screen in pixels.
pub const HEIGHT: usize = 480;

/// Size in bytes of one RGBA8888 frame.
pub const FRAME_BYTES: usize = 1228800;

/// Physical address of the guest framebuffer inside RAM.
pub const FRAMEBUFFER_ADDRESS: usize = 0x02000000;

/// Number of overlay slots.
pub const OVERLAY_COUNT: usize = 32;

/// One overlay slot: a rectangle of RGBA8888 pixels held in guest RAM and
/// drawn over the framebuffer at `(x, y)`.
#[derive(Copy, Clone, Debug)]
pub struct Overlay {
    pub enabled: bool,
    pub width: usize,
    pub height: usize,
    pub x: usize,
    pub y: usize,
    pub framebuffer_pointer: u32,
}

/// The overlay's pixel data lies wholly inside a RAM of `ram_len` bytes.
pub open spec fn overlay_in_ram(ov: Overlay, ram_len: int) -> bool {
    ov.framebuffer_pointer + ov.width * ov.height * 4 <= ram_len
}

/// Screen pixel `(px, py)` lies inside the overlay's rectangle.
pub open spec fn covers(ov: Overlay, px: int, py: int) -> bool {
    &&& ov.x <= px < ov.x + ov.width
    &&& ov.y <= py < ov.y + ov.height
}

/// Address in RAM of the overlay pixel that lands on screen pixel `(px, py)`.
pub open spec fn source_address(ov: Overlay, px: int, py: int) -> int {
    ov.framebuffer_pointer + ((py - ov.y) * ov.width + (px - ov.x)) * 4
}

/// Byte `i` of the frame `fb` after drawing `ov` over it: an overlay pixel
/// whose alpha byte is non-zero replaces the screen pixel under it, every
/// other byte keeps its value.
pub open spec fn blit_byte(fb: Seq<u8>, ov: Overlay, ram: Seq<u8>, i: int) -> u8 {
    let p = i / 4;
    let px = p % (WIDTH as int);
    let py = p / (WIDTH as int);
    let s = source_address(ov, px, py);
    if covers(ov, px, py) && ram[s + 3] > 0 {
        ram[s + i % 4]
    } else {
        fb[i]
    }
}

/// The frame `fb` with the overlay `ov` drawn over it.
pub open spec fn blit(fb: Seq<u8>, ov: Overlay, ram: Seq<u8>) -> Seq<u8> {
    Seq::new(fb.len(), |i: int| blit_byte(fb, ov, ram, i))
}

/// Frame byte of colour channel `k` of screen pixel `(px, py)`.
pub open spec fn frame_index(px: int, py: int, k: int) -> int {
    (py * WIDTH + px) * 4 + k
}

proof fn lemma_frame_index(px: int, py: int, k: int)
    requires
        0 <= px < WIDTH,
        0 <= py < HEIGHT,
        0 <= k < 4,
    ensures
        0 <= frame_index(px, py, k) < FRAME_BYTES,
        frame_index(px, py, k) / 4 == py * WIDTH + px,
        frame_index(px, py, k) % 4 == k,
        (py * WIDTH + px) % (WIDTH as int) == px,
        (py * WIDTH + px) / (WIDTH as int) == py,
{
    assert(0 <= py * WIDTH + px < WIDTH * HEIGHT) by (nonlinear_arith)
        requires 0 <= px < WIDTH, 0 <= py < HEIGHT;
    lemma_fundamental_div_mod_converse(frame_index(px, py, k), 4, py * WIDTH + px, k);
    lemma_fundamental_div_mod_converse(py * WIDTH + px, WIDTH as int, py, px);
}

/// The visible extent, in pixels, of a span that starts at `start`, is `len`
/// long and is cut off at `limit`.
pub open spec fn clipped(start: int, len: int, limit: int) -> int {
    if start >= limit {
        0
    } else if start + len > limit {
        limit - start
    } else {
        len
    }
}

fn clip(start: usize, len: usize, limit: usize) -> (r: usize)
    ensures
        r == clipped(start as int, len as int, limit as int),
{
    if start >= limit {
        0
    } else if len > limit - start {
        limit - start
    } else {
        len
    }
}

/// Draws `overlay` over `framebuffer`, reading its pixels from `ram`. Pixels
/// whose alpha byte is zero are transparent; the overlay is clipped at the
/// right and bottom edges of the screen.
pub fn blit_overlay(framebuffer: &mut [u8], overlay: &Overlay, ram: &[u8])
    requires
        old(framebuffer)@.len() == FRAME_BYTES,
        overlay_in_ram(*overlay, ram@.len() as int),
    ensures
        final(framebuffer)@ == blit(old(framebuffer)@, *overlay, ram@),
{
    let ov = *overlay;
    let width = clip(ov.x, ov.width, WIDTH);
    let height = clip(ov.y, ov.height, HEIGHT);
    let ghost old_fb = framebuffer@;
    let ghost target = blit(old_fb, ov, ram@);
    let ram_len = ram.len();
    let mut row: usize = 0;
    while row < height
        invariant
            framebuffer@.len() == FRAME_BYTES,
            ov == *overlay,
            overlay_in_ram(ov, ram@.len() as int),
            ram_len == ram@.len(),
            old_fb == old(framebuffer)@,
            target == blit(old_fb, ov, ram@),
            target.len() == FRAME_BYTES,
            width == clipped(ov.x as int, ov.width as int, WIDTH as int),
            height == clipped(ov.y as int, ov.height as int, HEIGHT as int),
            row <= height,
            forall|i: int| 0 <= i < FRAME_BYTES ==> #[trigger] framebuffer@[i] == if (i / 4) / (WIDTH as int) < ov.y + row { target[i] } else { old_fb[i] },
        decreases height - row,
    {
        let mut col: usize = 0;
        while col < width
            invariant
                framebuffer@.len() == FRAME_BYTES,
                ov == *overlay,
                overlay_in_ram(ov, ram@.len() as int),
                ram_len == ram@.len(),
            ram_len == ram@.len(),
                old_fb == old(framebuffer)@,
                target == blit(old_fb, ov, ram@),
                target.len() == FRAME_BYTES,
                width == clipped(ov.x as int, ov.width as int, WIDTH as int),
                height == clipped(ov.y as int, ov.height as int, HEIGHT as int),
                row < height,
                col <= width,
                forall|i: int| 0 <= i < FRAME_BYTES ==> #[trigger] framebuffer@[i] == if (i / 4) / (WIDTH as int) < ov.y + row || ((i / 4) / (WIDTH as int) == ov.y + row && (i / 4) % (WIDTH as int) < ov.x + col) { target[i] } else { old_fb[i] },
            decreases width - col,
        {
            let px = ov.x + col;
            let py = ov.y + row;
            proof {
                lemma_frame_index(px as int, py as int, 0);
                assert((row * ov.width + col) * 4 + 4 <= ov.width * ov.height * 4) by (nonlinear_arith)
                    requires row < ov.height, col < ov.width;
            }
            let src = ov.framebuffer_pointer as usize + (row * ov.width + col) * 4;
            let dst = (py * WIDTH + px) * 4;
            if ram[src + 3] > 0 {
                framebuffer[dst] = ram[src];
                framebuffer[dst + 1] = ram[src + 1];
                framebuffer[dst + 2] = ram[src + 2];
                framebuffer[dst + 3] = ram[src + 3];
            }
            proof {
                assert forall|i: int| 0 <= i < FRAME_BYTES implies #[trigger] framebuffer@[i] == if (i / 4) / (WIDTH as int) < ov.y + row || ((i / 4) / (WIDTH as int) == ov.y + row && (i / 4) % (WIDTH as int) < ov.x + col + 1) { target[i] } else { old_fb[i] } by {
                    if dst <= i < dst + 4 {
                        lemma_frame_index(px as int, py as int, i - dst);
                    }
                }
            }
            col += 1;
        }
        row += 1;
    }
}

/// The frame shown to the host: the framebuffer region of `ram`, with the
/// first `n` overlay slots drawn over it in ascending order (a higher slot
/// lands on top), disabled slots skipped.
pub open spec fn composite(ram: Seq<u8>, overlays: Seq<Overlay>, n: nat) -> Seq<u8>
    decreases n,
{
    if n == 0 {
        ram.subrange(FRAMEBUFFER_ADDRESS as int, FRAMEBUFFER_ADDRESS + FRAME_BYTES)
    } else {
        let below = composite(ram, overlays, (n - 1) as nat);
        let ov = overlays[n - 1];
        if ov.enabled {
            blit(below, ov, ram)
        } else {
            below
        }
    }
}

/// Every enabled slot of `overlays` keeps its pixel data inside `ram`.
pub open spec fn overlays_in_ram(overlays: Seq<Overlay>, ram_len: int) -> bool {
    forall|j: int| 0 <= j < overlays.len() && #[trigger] overlays[j].enabled ==> overlay_in_ram(overlays[j], ram_len)
}

/// Tells whether the overlay's pixel data lies wholly inside a RAM of
/// `ram_len` bytes.
pub fn overlay_fits(ov: &Overlay, ram_len: usize) -> (r: bool)
    ensures
        r == overlay_in_ram(*ov, ram_len as int),
{
    let fbp = ov.framebuffer_pointer as usize;
    if fbp > ram_len {
        return false;
    }
    let room = ram_len - fbp;
    proof {
        assert((ov.width as int) * (ov.height as int) <= u128::MAX) by (nonlinear_arith)
            requires ov.width <= usize::MAX, ov.height <= usize::MAX, usize::MAX < 0x1_0000_0000_0000_0000int;
    }
    let area = ov.width as u128 * ov.height as u128;
    area <= (room / 4) as u128
}

/// Tells whether every enabled slot keeps its pixel data inside a RAM of
/// `ram_len` bytes.
pub fn overlays_fit(overlays: &[Overlay], ram_len: usize) -> (r: bool)
    ensures
        r == overlays_in_ram(overlays@, ram_len as int),
{
    let mut j: usize = 0;
    while j < overlays.len()
        invariant
            j <= overlays@.len(),
            forall|k: int| 0 <= k < j && #[trigger] overlays@[k].enabled ==> overlay_in_ram(overlays@[k], ram_len as int),
        decreases overlays@.len() - j,
    {
        if overlays[j].enabled && !overlay_fits(&overlays[j], ram_len) {
            return false;
        }
        j += 1;
    }
    true
}

/// Host copy of the screen and the overlay slot table.
pub struct Display {
    pub background: Vec<u8>,
    pub overlays: Vec<Overlay>,
}

impl Display {
    /// The frame holds one screen and the table holds every slot.
    pub open spec fn wf(&self) -> bool {
        &&& self.background@.len() == FRAME_BYTES
        &&& self.overlays@.len() == OVERLAY_COUNT
    }

    /// A black screen, and every slot disabled, 16 by 16 pixels at the origin.
    pub fn new() -> (r: Self)
        ensures
            r.wf(),
            forall|i: int| 0 <= i < FRAME_BYTES ==> r.background@[i] == 0,
            forall|j: int| 0 <= j < OVERLAY_COUNT ==> (#[trigger] r.overlays@[j]) == (Overlay { enabled: false, width: 16, height: 16, x: 0, y: 0, framebuffer_pointer: 0 }),
    {
        let slot = Overlay { enabled: false, width: 16, height: 16, x: 0, y: 0, framebuffer_pointer: 0 };
        Display { background: vec![0u8; FRAME_BYTES], overlays: vec![slot; OVERLAY_COUNT] }
    }

    /// Takes a new snapshot of the framebuffer out of `ram` and draws the
    /// enabled overlays over it.
    pub fn update(&mut self, ram: &[u8])
        requires
            old(self).wf(),
            ram@.len() >= FRAMEBUFFER_ADDRESS + FRAME_BYTES,
            overlays_in_ram(old(self).overlays@, ram@.len() as int),
        ensures
            final(self).wf(),
            final(self).overlays@ == old(self).overlays@,
            final(self).background@ == composite(ram@, old(self).overlays@, OVERLAY_COUNT as nat),
    {
        let mut i: usize = 0;
        while i < FRAME_BYTES
            invariant
                self.background@.len() == FRAME_BYTES,
                self.overlays@ == old(self).overlays@,
                ram@.len() >= FRAMEBUFFER_ADDRESS + FRAME_BYTES,
                i <= FRAME_BYTES,
                forall|j: int| 0 <= j < i ==> #[trigger] self.background@[j] == ram@[FRAMEBUFFER_ADDRESS + j],
            decreases FRAME_BYTES - i,
        {
            self.background.set(i, ram[FRAMEBUFFER_ADDRESS + i]);
            i += 1;
        }
        assert(self.background@ == composite(ram@, self.overlays@, 0));
        let mut index: usize = 0;
        while index < OVERLAY_COUNT
            invariant
                self.wf(),
                self.overlays@ == old(self).overlays@,
                ram@.len() >= FRAMEBUFFER_ADDRESS + FRAME_BYTES,
                overlays_in_ram(self.overlays@, ram@.len() as int),
                index <= OVERLAY_COUNT,
                self.background@ == composite(ram@, self.overlays@, index as nat),
            decreases OVERLAY_COUNT - index,
        {
            let ov = self.overlays[index];
            if ov.enabled {
                blit_overlay(self.background.as_mut_slice(), &ov, ram);
            }
            index += 1;
        }
    }

    /// Copies the composited frame into the host's pixel surface, one whole
    /// pixel at a time; a trailing partial pixel of `frame` is left alone.
    pub fn draw(&self, frame: &mut [u8])
        requires
            self.wf(),
            old(frame)@.len() <= FRAME_BYTES,
        ensures
            final(frame)@.len() == old(frame)@.len(),
            forall|i: int| 0 <= i < old(frame)@.len() - old(frame)@.len() % 4 ==> #[trigger] final(frame)@[i] == self.background@[i],
            forall|i: int| old(frame)@.len() - old(frame)@.len() % 4 <= i < old(frame)@.len() ==> #[trigger] final(frame)@[i] == old(frame)@[i],
    {
        let n = frame.len() - frame.len() % 4;
        let mut i: usize = 0;
        while i < n
            invariant
                self.wf(),
                frame@.len() == old(frame)@.len(),
                frame@.len() <= FRAME_BYTES,
                n == old(frame)@.len() - old(frame)@.len() % 4,
                i <= n,
                forall|j: int| 0 <= j < i ==> #[trigger] frame@[j] == self.background@[j],
                forall|j: int| i <= j < frame@.len() ==> #[trigger] frame@[j] == old(frame)@[j],
            decreases n - i,
        {
            frame[i] = self.background[i];
            i += 1;
        }
    }
}

/// Drawing the same overlay twice over a frame, from the same RAM, leaves
/// the frame as drawing it once does.
pub proof fn lemma_blit_idempotent(fb: Seq<u8>, ov: Overlay, ram: Seq<u8>)
    ensures
        blit(blit(fb, ov, ram), ov, ram) == blit(fb, ov, ram),
{
    let once = blit(fb, ov, ram);
    assert(blit(once, ov, ram) =~= once);
}

/// Compositing is idempotent: two displays updated from the same RAM and
/// the same overlay table show the same frame, whatever each showed before.
pub proof fn lemma_composite_idempotent(a: Display, b: Display, ram: Seq<u8>)
    requires
        a.overlays@ == b.overlays@,
        a.background@ == composite(ram, a.overlays@, OVERLAY_COUNT as nat),
        b.background@ == composite(ram, b.overlays@, OVERLAY_COUNT as nat),
    ensures
        a.background@ == b.background@,
{
}

} // verus!
