//! The physical address space: RAM at the bottom, ROM higher up, read and
//! written a byte, a half word or a word at a time in little-endian order.

use vstd::prelude::*;

verus! {

/// Physical address of the first byte of RAM.
pub const MEMORY_RAM_START: u32 = 0;

/// Size of RAM in bytes.
pub const MEMORY_RAM_SIZE: usize = 0x04000000;

/// Physical address of the first byte of ROM.
pub const MEMORY_ROM_START: u32 = 0x80000000;

/// Largest ROM image that is mapped; bytes past it are dropped.
pub const MEMORY_ROM_SIZE: usize = 0x00080000;

/// Synchronous faults raised by the CPU or by the bus.
#[derive(Copy, Clone, Debug, PartialEq, Eq, Structural)]
pub enum Exception {
    DivideByZero,
    InvalidOpcode,
    BusFault,
    PageFault,
    Debug,
}

/// Value of the little-endian number whose bytes are `s`, lowest first.
pub open spec fn le_value(s: Seq<u8>) -> nat
    decreases s.len(),
{
    if s.len() == 0 {
        0
    } else {
        s[0] as nat + 256 * le_value(s.drop_first())
    }
}

/// `v` shifted right by `k` bytes.
pub open spec fn shift(v: nat, k: nat) -> nat
    decreases k,
{
    if k == 0 {
        v
    } else {
        shift(v, (k - 1) as nat) / 256
    }
}

/// The `n` lowest bytes of `v`, lowest first.
pub open spec fn le_bytes(v: nat, n: nat) -> Seq<u8> {
    Seq::new(n, |k: int| (shift(v, k as nat) % 256) as u8)
}

/// `256` to the power `n`: one more than the largest `n`-byte value.
pub open spec fn limit(n: nat) -> nat
    decreases n,
{
    if n == 0 {
        1
    } else {
        256 * limit((n - 1) as nat)
    }
}

proof fn lemma_shift_succ(v: nat, k: nat)
    ensures
        shift(v, k + 1) == shift(v / 256, k),
    decreases k,
{
    if k > 0 {
        lemma_shift_succ(v, (k - 1) as nat);
        assert(shift(v, k + 1) == shift(v, k) / 256);
        assert(shift(v / 256, k) == shift(v / 256, (k - 1) as nat) / 256);
    } else {
        assert(shift(v, 1) == shift(v, 0) / 256);
    }
}

/// Writing the `n` low bytes of `v` and reading them back gives `v`, when `v`
/// fits in `n` bytes.
pub proof fn lemma_le_round_trip(v: nat, n: nat)
    requires
        v < limit(n),
    ensures
        le_value(le_bytes(v, n)) == v,
    decreases n,
{
    if n > 0 {
        let tail = le_bytes(v / 256, (n - 1) as nat);
        assert forall|k: int| 0 <= k < n - 1 implies #[trigger] le_bytes(v, n).drop_first()[k] == tail[k] by {
            lemma_shift_succ(v, k as nat);
        }
        assert(le_bytes(v, n).drop_first() =~= tail);
        assert(v / 256 < limit((n - 1) as nat));
        lemma_le_round_trip(v / 256, (n - 1) as nat);
    } else {
        assert(v == 0);
    }
}

/// `ram` with the bytes `b` put in place from offset `off` on.
pub open spec fn store_bytes(ram: Seq<u8>, off: int, b: Seq<u8>) -> Seq<u8> {
    Seq::new(ram.len(), |j: int| if off <= j < off + b.len() { b[j - off] } else { ram[j] })
}

/// A run of `n` bytes holds a value below `limit(n)`.
pub proof fn lemma_le_value_bound(s: Seq<u8>)
    ensures
        le_value(s) < limit(s.len()),
    decreases s.len(),
{
    if s.len() > 0 {
        lemma_le_value_bound(s.drop_first());
    }
}

/// A word spans four bytes.
pub proof fn lemma_word_limit()
    ensures
        limit(4) == 0x1_0000_0000,
{
    reveal_with_fuel(limit, 5);
}

/// RAM and ROM, each a run of bytes mapped at its start address.
pub struct Memory {
    pub ram: Vec<u8>,
    pub rom: Vec<u8>,
}

impl Memory {
    /// RAM has its fixed size and ROM fits below the top of the address space.
    pub open spec fn wf(&self) -> bool {
        &&& self.ram@.len() == MEMORY_RAM_SIZE
        &&& self.rom@.len() <= MEMORY_ROM_SIZE
    }

    /// The `n` bytes from `addr` on all lie in RAM.
    pub open spec fn in_ram(&self, addr: int, n: int) -> bool {
        MEMORY_RAM_START <= addr && addr - MEMORY_RAM_START + n <= self.ram@.len()
    }

    /// The `n` bytes from `addr` on all lie in ROM.
    pub open spec fn in_rom(&self, addr: int, n: int) -> bool {
        MEMORY_ROM_START <= addr && addr - MEMORY_ROM_START + n <= self.rom@.len()
    }

    /// The `n` bytes from `addr` on can be read: all in RAM or all in ROM.
    pub open spec fn readable(&self, addr: int, n: int) -> bool {
        self.in_ram(addr, n) || self.in_rom(addr, n)
    }

    /// The byte mapped at `addr`.
    pub open spec fn byte(&self, addr: int) -> u8 {
        if MEMORY_RAM_START <= addr < MEMORY_RAM_START + self.ram@.len() {
            self.ram@[addr - MEMORY_RAM_START]
        } else {
            self.rom@[addr - MEMORY_ROM_START]
        }
    }

    /// The `n` bytes from `addr` on.
    pub open spec fn bytes(&self, addr: int, n: nat) -> Seq<u8> {
        Seq::new(n, |k: int| self.byte(addr + k))
    }

    /// RAM after the bytes `b` are stored from `addr` on.
    pub open spec fn stored(&self, addr: int, b: Seq<u8>) -> Seq<u8> {
        store_bytes(self.ram@, addr - MEMORY_RAM_START, b)
    }

    /// Zeroed RAM, and the ROM image `rom`, cut to the largest ROM size.
    pub fn new(rom: &[u8]) -> (r: Self)
        ensures
            r.wf(),
            forall|j: int| 0 <= j < MEMORY_RAM_SIZE ==> #[trigger] r.ram@[j] == 0,
            r.rom@ == rom@.take(if rom@.len() <= MEMORY_ROM_SIZE { rom@.len() as int } else { MEMORY_ROM_SIZE as int }),
    {
        let n = if rom.len() <= MEMORY_ROM_SIZE { rom.len() } else { MEMORY_ROM_SIZE };
        let mut image: Vec<u8> = Vec::with_capacity(n);
        let mut i: usize = 0;
        while i < n
            invariant
                n <= rom@.len(),
                i <= n,
                image@ == rom@.take(i as int),
            decreases n - i,
        {
            image.push(rom[i]);
            i += 1;
            assert(image@ =~= rom@.take(i as int));
        }
        Memory { ram: vec![0u8; MEMORY_RAM_SIZE], rom: image }
    }

    /// The RAM, for read-only use by the host.
    pub fn ram(&self) -> (r: &[u8])
        ensures
            r@ == self.ram@,
    {
        self.ram.as_slice()
    }

    /// The ROM image.
    pub fn rom(&self) -> (r: &[u8])
        ensures
            r@ == self.rom@,
    {
        self.rom.as_slice()
    }

    pub(crate) fn check_ram(&self, addr: u32, n: u32) -> (r: bool)
        requires
            self.wf(),
        ensures
            r == self.in_ram(addr as int, n as int),
    {
        addr >= MEMORY_RAM_START && ((addr - MEMORY_RAM_START) as usize) <= self.ram.len()
            && (n as usize) <= self.ram.len() - ((addr - MEMORY_RAM_START) as usize)
    }

    pub(crate) fn check_rom(&self, addr: u32, n: u32) -> (r: bool)
        requires
            self.wf(),
        ensures
            r == self.in_rom(addr as int, n as int),
    {
        addr >= MEMORY_ROM_START && ((addr - MEMORY_ROM_START) as usize) <= self.rom.len()
            && (n as usize) <= self.rom.len() - ((addr - MEMORY_ROM_START) as usize)
    }

    pub(crate) fn fetch(&self, addr: u32, k: u32, n: u32) -> (r: u8)
        requires
            self.wf(),
            self.readable(addr as int, n as int),
            k < n,
        ensures
            r == self.byte(addr + k),
    {
        let a = addr + k;
        if a >= MEMORY_RAM_START && ((a - MEMORY_RAM_START) as usize) < self.ram.len() {
            self.ram[(a - MEMORY_RAM_START) as usize]
        } else {
            self.rom[(a - MEMORY_ROM_START) as usize]
        }
    }

    /// Reads one byte; an unmapped address is a bus fault.
    pub fn read_u8(&self, addr: u32) -> (r: Result<u8, Exception>)
        requires
            self.wf(),
        ensures
            self.readable(addr as int, 1) ==> r == Ok::<u8, Exception>(self.byte(addr as int)),
            !self.readable(addr as int, 1) ==> r == Err::<u8, Exception>(Exception::BusFault),
    {
        if self.check_ram(addr, 1) || self.check_rom(addr, 1) {
            Ok(self.fetch(addr, 0, 1))
        } else {
            Err(Exception::BusFault)
        }
    }

    /// Reads a little-endian half word; if either byte is unmapped the whole
    /// access is a bus fault.
    pub fn read_u16(&self, addr: u32) -> (r: Result<u16, Exception>)
        requires
            self.wf(),
        ensures
            self.readable(addr as int, 2) ==> r == Ok::<u16, Exception>(le_value(self.bytes(addr as int, 2)) as u16),
            !self.readable(addr as int, 2) ==> r == Err::<u16, Exception>(Exception::BusFault),
    {
        if self.check_ram(addr, 2) || self.check_rom(addr, 2) {
            let b0 = self.fetch(addr, 0, 2);
            let b1 = self.fetch(addr, 1, 2);
            proof {
                reveal_with_fuel(le_value, 3);
                assert(self.bytes(addr as int, 2).drop_first().drop_first().len() == 0);
            }
            Ok(b0 as u16 + (b1 as u16) * 256)
        } else {
            Err(Exception::BusFault)
        }
    }

    /// Reads a little-endian word; if any byte is unmapped the whole access is
    /// a bus fault.
    pub fn read_u32(&self, addr: u32) -> (r: Result<u32, Exception>)
        requires
            self.wf(),
        ensures
            self.readable(addr as int, 4) ==> r == Ok::<u32, Exception>(le_value(self.bytes(addr as int, 4)) as u32),
            !self.readable(addr as int, 4) ==> r == Err::<u32, Exception>(Exception::BusFault),
    {
        if self.check_ram(addr, 4) || self.check_rom(addr, 4) {
            let b0 = self.fetch(addr, 0, 4);
            let b1 = self.fetch(addr, 1, 4);
            let b2 = self.fetch(addr, 2, 4);
            let b3 = self.fetch(addr, 3, 4);
            proof {
                reveal_with_fuel(le_value, 5);
                let s = self.bytes(addr as int, 4);
                assert(s.drop_first().drop_first().drop_first().drop_first().len() == 0);
            }
            Ok(b0 as u32 + (b1 as u32) * 256 + (b2 as u32) * 65536 + (b3 as u32) * 16777216)
        } else {
            Err(Exception::BusFault)
        }
    }
}

impl Memory {
    fn store(&mut self, addr: u32, v: u32, n: u32)
        requires
            old(self).wf(),
            old(self).in_ram(addr as int, n as int),
            n <= 4,
        ensures
            final(self).wf(),
            final(self).rom@ == old(self).rom@,
            final(self).ram@ == old(self).stored(addr as int, le_bytes(v as nat, n as nat)),
    {
        let ghost target = old(self).stored(addr as int, le_bytes(v as nat, n as nat));
        let off = (addr - MEMORY_RAM_START) as usize;
        let mut cur: u32 = v;
        let mut k: u32 = 0;
        while k < n
            invariant
                self.wf(),
                self.rom@ == old(self).rom@,
                old(self).wf(),
                old(self).in_ram(addr as int, n as int),
                n <= 4,
                target.len() == MEMORY_RAM_SIZE,
                off == addr - MEMORY_RAM_START,
                target == old(self).stored(addr as int, le_bytes(v as nat, n as nat)),
                k <= n,
                cur == shift(v as nat, k as nat),
                forall|j: int| 0 <= j < MEMORY_RAM_SIZE ==> #[trigger] self.ram@[j] == if off <= j < off + k { target[j] } else { old(self).ram@[j] },
            decreases n - k,
        {
            self.ram.set(off + k as usize, (cur % 256) as u8);
            proof {
                assert(shift(v as nat, (k + 1) as nat) == shift(v as nat, k as nat) / 256);
            }
            cur = cur / 256;
            k += 1;
        }
        assert(self.ram@ =~= target);
    }

    /// Writes one byte to RAM. Any other address, ROM included, is a bus
    /// fault and changes nothing.
    pub fn write_u8(&mut self, addr: u32, v: u8) -> (r: Result<(), Exception>)
        requires
            old(self).wf(),
        ensures
            final(self).wf(),
            final(self).rom@ == old(self).rom@,
            old(self).in_rom(addr as int, 1) ==> r == Err::<(), Exception>(Exception::BusFault),
            old(self).in_ram(addr as int, 1) ==> r == Ok::<(), Exception>(()) && final(self).ram@ == old(self).stored(addr as int, le_bytes(v as nat, 1)),
            !old(self).in_ram(addr as int, 1) ==> r == Err::<(), Exception>(Exception::BusFault) && final(self).ram@ == old(self).ram@,
    {
        if self.check_ram(addr, 1) {
            self.store(addr, v as u32, 1);
            Ok(())
        } else {
            Err(Exception::BusFault)
        }
    }

    /// Writes a little-endian half word to RAM. If either byte falls outside
    /// RAM the whole access is a bus fault and changes nothing.
    pub fn write_u16(&mut self, addr: u32, v: u16) -> (r: Result<(), Exception>)
        requires
            old(self).wf(),
        ensures
            final(self).wf(),
            final(self).rom@ == old(self).rom@,
            old(self).in_rom(addr as int, 1) ==> r == Err::<(), Exception>(Exception::BusFault),
            old(self).in_ram(addr as int, 2) ==> r == Ok::<(), Exception>(()) && final(self).ram@ == old(self).stored(addr as int, le_bytes(v as nat, 2)),
            !old(self).in_ram(addr as int, 2) ==> r == Err::<(), Exception>(Exception::BusFault) && final(self).ram@ == old(self).ram@,
    {
        if self.check_ram(addr, 2) {
            self.store(addr, v as u32, 2);
            Ok(())
        } else {
            Err(Exception::BusFault)
        }
    }

    /// Writes a little-endian word to RAM. If any byte falls outside RAM the
    /// whole access is a bus fault and changes nothing.
    pub fn write_u32(&mut self, addr: u32, v: u32) -> (r: Result<(), Exception>)
        requires
            old(self).wf(),
        ensures
            final(self).wf(),
            final(self).rom@ == old(self).rom@,
            old(self).in_rom(addr as int, 1) ==> r == Err::<(), Exception>(Exception::BusFault),
            old(self).in_ram(addr as int, 4) ==> r == Ok::<(), Exception>(()) && final(self).ram@ == old(self).stored(addr as int, le_bytes(v as nat, 4)),
            !old(self).in_ram(addr as int, 4) ==> r == Err::<(), Exception>(Exception::BusFault) && final(self).ram@ == old(self).ram@,
    {
        if self.check_ram(addr, 4) {
            self.store(addr, v, 4);
            Ok(())
        } else {
            Err(Exception::BusFault)
        }
    }
}

impl Memory {
    /// Copies `len` bytes from `src` to `dst` for a device. The source must
    /// lie wholly in RAM or wholly in ROM and the destination wholly in RAM;
    /// otherwise the copy is a bus fault and changes nothing. Overlapping
    /// ranges copy what the source held before the call.
    pub fn dma_copy(&mut self, src: u32, dst: u32, len: u32) -> (r: Result<(), Exception>)
        requires
            old(self).wf(),
        ensures
            final(self).wf(),
            final(self).rom@ == old(self).rom@,
            r is Ok <==> (old(self).readable(src as int, len as int) && old(self).in_ram(dst as int, len as int)),
            r is Ok ==> final(self).ram@ == old(self).stored(dst as int, old(self).bytes(src as int, len as nat)),
            r is Err ==> r == Err::<(), Exception>(Exception::BusFault) && final(self).ram@ == old(self).ram@,
    {
        if !(self.check_ram(src, len) || self.check_rom(src, len)) || !self.check_ram(dst, len) {
            return Err(Exception::BusFault);
        }
        let mut buf: Vec<u8> = Vec::new();
        let mut k: u32 = 0;
        while k < len
            invariant
                self.wf(),
                self.readable(src as int, len as int),
                k <= len,
                buf@ == self.bytes(src as int, k as nat),
            decreases len - k,
        {
            let b = self.fetch(src, k, len);
            buf.push(b);
            k += 1;
            assert(buf@ =~= self.bytes(src as int, k as nat));
        }
        let ghost target = old(self).stored(dst as int, buf@);
        let off = (dst - MEMORY_RAM_START) as usize;
        let mut k: u32 = 0;
        while k < len
            invariant
                self.wf(),
                self.rom@ == old(self).rom@,
                old(self).wf(),
                old(self).in_ram(dst as int, len as int),
                off == dst - MEMORY_RAM_START,
                buf@.len() == len,
                target == old(self).stored(dst as int, buf@),
                target.len() == MEMORY_RAM_SIZE,
                k <= len,
                forall|j: int| 0 <= j < MEMORY_RAM_SIZE ==> #[trigger] self.ram@[j] == if off <= j < off + k { target[j] } else { old(self).ram@[j] },
            decreases len - k,
        {
            self.ram.set(off + k as usize, buf[k as usize]);
            k += 1;
        }
        assert(self.ram@ =~= target);
        Ok(())
    }
}

/// The two's-complement reading of an unsigned value `v` of `n` bytes.
pub open spec fn signed(v: nat, n: nat) -> int {
    if v >= limit(n) / 2 {
        v - limit(n)
    } else {
        v as int
    }
}

impl Memory {
    /// Reads one byte as a signed value; an unmapped address is a bus fault.
    pub fn read_i8(&self, addr: u32) -> (r: Result<i8, Exception>)
        requires
            self.wf(),
        ensures
            self.readable(addr as int, 1) ==> r is Ok && r->Ok_0 as int == signed(le_value(self.bytes(addr as int, 1)), 1),
            !self.readable(addr as int, 1) ==> r == Err::<i8, Exception>(Exception::BusFault),
    {
        proof {
            reveal_with_fuel(limit, 2);
            reveal_with_fuel(le_value, 2);
            assert(self.bytes(addr as int, 1).drop_first().len() == 0);
        }
        match self.read_u8(addr) {
            Ok(v) => Ok(if v >= 0x80 { (v as i16 - 0x100) as i8 } else { v as i8 }),
            Err(e) => Err(e),
        }
    }

    /// Reads a little-endian half word as a signed value; if either byte is
    /// unmapped the whole access is a bus fault.
    pub fn read_i16(&self, addr: u32) -> (r: Result<i16, Exception>)
        requires
            self.wf(),
        ensures
            self.readable(addr as int, 2) ==> r is Ok && r->Ok_0 as int == signed(le_value(self.bytes(addr as int, 2)), 2),
            !self.readable(addr as int, 2) ==> r == Err::<i16, Exception>(Exception::BusFault),
    {
        proof {
            reveal_with_fuel(limit, 3);
            lemma_le_value_bound(self.bytes(addr as int, 2));
        }
        match self.read_u16(addr) {
            Ok(v) => Ok(if v >= 0x8000 { (v as i32 - 0x1_0000) as i16 } else { v as i16 }),
            Err(e) => Err(e),
        }
    }

    /// Reads a little-endian word as a signed value; if any byte is unmapped
    /// the whole access is a bus fault.
    pub fn read_i32(&self, addr: u32) -> (r: Result<i32, Exception>)
        requires
            self.wf(),
        ensures
            self.readable(addr as int, 4) ==> r is Ok && r->Ok_0 as int == signed(le_value(self.bytes(addr as int, 4)), 4),
            !self.readable(addr as int, 4) ==> r == Err::<i32, Exception>(Exception::BusFault),
    {
        proof {
            lemma_word_limit();
            lemma_le_value_bound(self.bytes(addr as int, 4));
        }
        match self.read_u32(addr) {
            Ok(v) => Ok(if v >= 0x8000_0000 { (v as i64 - 0x1_0000_0000) as i32 } else { v as i32 }),
            Err(e) => Err(e),
        }
    }
}

/// A read of RAM returns what the last write of the same address and width
/// stored there.
pub proof fn lemma_read_after_write(m: Memory, after: Memory, addr: int, n: nat, v: nat)
    requires
        m.wf(),
        m.in_ram(addr, n as int),
        v < limit(n),
        after.rom@ == m.rom@,
        after.ram@ == m.stored(addr, le_bytes(v, n)),
    ensures
        after.wf(),
        after.readable(addr, n as int),
        le_value(after.bytes(addr, n)) == v,
{
    assert(after.bytes(addr, n) =~= le_bytes(v, n));
    lemma_le_round_trip(v, n);
}

} // verus!
