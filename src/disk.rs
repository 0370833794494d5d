//! The disk controller: images of 512-byte sectors in numbered slots, and
//! transfers of whole sectors between an image and guest memory.

use vstd::prelude::*;
use crate::memory::{Exception, Memory, MEMORY_RAM_START, MEMORY_RAM_SIZE, store_bytes};

verus! {

/// Bytes in one sector.
pub const SECTOR_SIZE: usize = 512;

/// Number of disk slots.
pub const DISK_SLOTS: usize = 4;

/// Why a transfer was refused.
#[derive(Copy, Clone, Debug, PartialEq, Eq, Structural)]
pub enum DiskError {
    /// The slot number is not below the number of slots.
    NoSuchSlot,
    /// No image is inserted in the slot.
    NoDisk,
    /// The sectors asked for run past the end of the image.
    OutOfRange,
    /// The memory range is not wholly mapped, or not wholly in RAM for a
    /// read into memory.
    Bus(Exception),
}

/// The `count` sectors from `sector` on lie wholly inside an image of `len`
/// bytes.
pub open spec fn sectors_fit(len: int, sector: int, count: int) -> bool {
    (sector + count) * SECTOR_SIZE <= len
}

/// The slots of the controller.
pub struct DiskController {
    pub disks: Vec<Option<Vec<u8>>>,
}

impl DiskController {
    /// One entry per slot.
    pub open spec fn wf(&self) -> bool {
        self.disks@.len() == DISK_SLOTS
    }

    /// The image in `slot`, if any.
    pub open spec fn image(&self, slot: int) -> Option<Seq<u8>> {
        match self.disks@[slot] {
            Some(v) => Some(v@),
            None => None,
        }
    }

    /// A controller with every slot empty.
    pub fn new() -> (r: Self)
        ensures
            r.wf(),
            forall|s: int| 0 <= s < DISK_SLOTS ==> r.image(s) is None,
    {
        let mut disks: Vec<Option<Vec<u8>>> = Vec::new();
        let mut i: usize = 0;
        while i < DISK_SLOTS
            invariant
                i <= DISK_SLOTS,
                disks@.len() == i,
                forall|s: int| 0 <= s < i ==> disks@[s] is None,
            decreases DISK_SLOTS - i,
        {
            disks.push(None);
            i += 1;
        }
        DiskController { disks }
    }

    /// Puts `image` in `slot`, replacing what was there. A slot number past
    /// the last slot refuses the image.
    pub fn insert(&mut self, image: Vec<u8>, slot: u8) -> (r: Result<(), DiskError>)
        requires
            old(self).wf(),
        ensures
            final(self).wf(),
            r is Ok <==> slot < DISK_SLOTS,
            r is Err ==> r == Err::<(), DiskError>(DiskError::NoSuchSlot) && final(self).disks@ == old(self).disks@,
            r is Ok ==> final(self).image(slot as int) == Some(image@),
            forall|s: int| 0 <= s < DISK_SLOTS && s != slot ==> final(self).image(s) == old(self).image(s),
    {
        if (slot as usize) < DISK_SLOTS {
            self.disks.set(slot as usize, Some(image));
            Ok(())
        } else {
            Err(DiskError::NoSuchSlot)
        }
    }

    /// Takes the image out of `slot` and hands it back.
    pub fn eject(&mut self, slot: u8) -> (r: Option<Vec<u8>>)
        requires
            old(self).wf(),
        ensures
            final(self).wf(),
            slot < DISK_SLOTS ==> final(self).image(slot as int) is None && match r {
                Some(v) => old(self).image(slot as int) == Some(v@),
                None => old(self).image(slot as int) is None,
            },
            slot >= DISK_SLOTS ==> r is None,
            forall|s: int| 0 <= s < DISK_SLOTS && s != slot ==> final(self).image(s) == old(self).image(s),
    {
        if (slot as usize) < DISK_SLOTS {
            let old_image = self.disks.remove(slot as usize);
            self.disks.insert(slot as usize, None);
            old_image
        } else {
            None
        }
    }

    fn check_sectors(len: usize, sector: u32, count: u32) -> (r: bool)
        ensures
            r == sectors_fit(len as int, sector as int, count as int),
    {
        let end = sector as u64 + count as u64;
        end <= (len / SECTOR_SIZE) as u64
    }

    /// Reads `count` sectors from the image in `slot`, starting at `sector`,
    /// into RAM at `buffer`. Nothing changes unless every check passes.
    pub fn read(&self, memory: &mut Memory, slot: u8, sector: u32, count: u32, buffer: u32) -> (r: Result<(), DiskError>)
        requires
            self.wf(),
            old(memory).wf(),
        ensures
            final(memory).wf(),
            final(memory).rom@ == old(memory).rom@,
            slot >= DISK_SLOTS ==> r == Err::<(), DiskError>(DiskError::NoSuchSlot),
            slot < DISK_SLOTS && self.image(slot as int) is None ==> r == Err::<(), DiskError>(DiskError::NoDisk),
            slot < DISK_SLOTS && self.image(slot as int) is Some ==> {
                let img = self.image(slot as int)->0;
                let start = sector * SECTOR_SIZE;
                let n = count * SECTOR_SIZE;
                &&& !sectors_fit(img.len() as int, sector as int, count as int) ==> r == Err::<(), DiskError>(DiskError::OutOfRange)
                &&& sectors_fit(img.len() as int, sector as int, count as int) && !old(memory).in_ram(buffer as int, n)
                    ==> r == Err::<(), DiskError>(DiskError::Bus(Exception::BusFault))
                &&& sectors_fit(img.len() as int, sector as int, count as int) && old(memory).in_ram(buffer as int, n)
                    ==> r is Ok && final(memory).ram@ == old(memory).stored(buffer as int, img.subrange(start, start + n))
            },
            r is Err ==> final(memory).ram@ == old(memory).ram@,
    {
        if (slot as usize) >= DISK_SLOTS {
            return Err(DiskError::NoSuchSlot);
        }
        let img = match &self.disks[slot as usize] {
            Some(v) => v,
            None => {
                return Err(DiskError::NoDisk);
            },
        };
        let img_len = img.len();
        if !Self::check_sectors(img_len, sector, count) {
            return Err(DiskError::OutOfRange);
        }
        let start = sector as usize * SECTOR_SIZE;
        let n = count as usize * SECTOR_SIZE;
        if n > u32::MAX as usize || !memory.check_ram(buffer, n as u32) {
            return Err(DiskError::Bus(Exception::BusFault));
        }
        let ghost target = old(memory).stored(buffer as int, img@.subrange(start as int, start + n));
        let off = (buffer - MEMORY_RAM_START) as usize;
        let mut k: usize = 0;
        while k < n
            invariant
                memory.wf(),
                memory.rom@ == old(memory).rom@,
                old(memory).wf(),
                old(memory).in_ram(buffer as int, n as int),
                off == buffer - MEMORY_RAM_START,
                start + n <= img@.len(),
                img_len == img@.len(),
                target == old(memory).stored(buffer as int, img@.subrange(start as int, start + n)),
                target.len() == MEMORY_RAM_SIZE,
                k <= n,
                forall|j: int| 0 <= j < MEMORY_RAM_SIZE ==> #[trigger] memory.ram@[j] == if off <= j < off + k { target[j] } else { old(memory).ram@[j] },
            decreases n - k,
        {
            memory.ram.set(off + k, img[start + k]);
            k += 1;
        }
        assert(memory.ram@ =~= target);
        Ok(())
    }
}

impl DiskController {
    /// Writes `count` sectors from memory at `buffer` into the image in
    /// `slot`, starting at `sector`. The memory range may lie in RAM or in
    /// ROM. Nothing changes unless every check passes.
    pub fn write(&mut self, memory: &Memory, slot: u8, sector: u32, count: u32, buffer: u32) -> (r: Result<(), DiskError>)
        requires
            old(self).wf(),
            memory.wf(),
        ensures
            final(self).wf(),
            forall|s: int| 0 <= s < DISK_SLOTS && s != slot ==> final(self).image(s) == old(self).image(s),
            slot >= DISK_SLOTS ==> r == Err::<(), DiskError>(DiskError::NoSuchSlot),
            slot < DISK_SLOTS && old(self).image(slot as int) is None ==> r == Err::<(), DiskError>(DiskError::NoDisk),
            slot < DISK_SLOTS && old(self).image(slot as int) is Some ==> {
                let img = old(self).image(slot as int)->0;
                let start = sector * SECTOR_SIZE;
                let n = count * SECTOR_SIZE;
                &&& !sectors_fit(img.len() as int, sector as int, count as int) ==> r == Err::<(), DiskError>(DiskError::OutOfRange)
                &&& sectors_fit(img.len() as int, sector as int, count as int) && !memory.readable(buffer as int, n)
                    ==> r == Err::<(), DiskError>(DiskError::Bus(Exception::BusFault))
                &&& sectors_fit(img.len() as int, sector as int, count as int) && memory.readable(buffer as int, n)
                    ==> r is Ok && final(self).image(slot as int) == Some(store_bytes(img, start, memory.bytes(buffer as int, n as nat)))
            },
            r is Err ==> final(self).disks@ == old(self).disks@,
    {
        if (slot as usize) >= DISK_SLOTS {
            return Err(DiskError::NoSuchSlot);
        }
        let (img_len, present) = match &self.disks[slot as usize] {
            Some(v) => (v.len(), true),
            None => (0, false),
        };
        if !present {
            return Err(DiskError::NoDisk);
        }
        if !Self::check_sectors(img_len, sector, count) {
            return Err(DiskError::OutOfRange);
        }
        let start = sector as usize * SECTOR_SIZE;
        let n = count as usize * SECTOR_SIZE;
        if n > u32::MAX as usize || !(memory.check_ram(buffer, n as u32) || memory.check_rom(buffer, n as u32)) {
            return Err(DiskError::Bus(Exception::BusFault));
        }
        let ghost old_disks = self.disks@;
        let mut img = match self.disks.remove(slot as usize) {
            Some(v) => v,
            None => Vec::new(),
        };
        let ghost img0 = img@;
        let ghost target = store_bytes(img0, start as int, memory.bytes(buffer as int, n as nat));
        let mut k: usize = 0;
        while k < n
            invariant
                memory.wf(),
                memory.readable(buffer as int, n as int),
                n <= u32::MAX,
                img@.len() == img0.len(),
                img_len == img0.len(),
                start + n <= img0.len(),
                target == store_bytes(img0, start as int, memory.bytes(buffer as int, n as nat)),
                k <= n,
                forall|j: int| 0 <= j < img0.len() ==> #[trigger] img@[j] == if start <= j < start + k { target[j] } else { img0[j] },
            decreases n - k,
        {
            let b = memory.fetch(buffer, k as u32, n as u32);
            img.set(start + k, b);
            k += 1;
        }
        assert(img@ =~= target);
        self.disks.insert(slot as usize, Some(img));
        proof {
            assert forall|s: int| 0 <= s < DISK_SLOTS && s != slot implies #[trigger] self.image(s) == old(self).image(s) by {
                assert(self.disks@[s] == old_disks[s]);
            }
        }
        Ok(())
    }
}

} // verus!
