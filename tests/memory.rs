use fox32::memory::{Exception, Memory, MEMORY_RAM_SIZE, MEMORY_ROM_SIZE, MEMORY_ROM_START};

#[test]
fn word_written_to_ram_reads_back() {
    let mut m = Memory::new(&[]);
    assert_eq!(m.write_u32(0x1000, 0xDEADBEEF), Ok(()));
    assert_eq!(m.read_u32(0x1000), Ok(0xDEADBEEF));
    assert_eq!(m.read_u8(0x1000), Ok(0xEF));
    assert_eq!(m.read_u8(0x1003), Ok(0xDE));
    assert_eq!(m.read_u16(0x1001), Ok(0xADBE));
}

#[test]
fn unaligned_half_word_reads_back() {
    let mut m = Memory::new(&[]);
    assert_eq!(m.write_u16(0x2001, 0x1234), Ok(()));
    assert_eq!(m.read_u16(0x2001), Ok(0x1234));
    assert_eq!(m.ram()[0x2001], 0x34);
    assert_eq!(m.ram()[0x2002], 0x12);
    assert_eq!(m.write_u8(0x2003, 0x56), Ok(()));
    assert_eq!(m.read_u8(0x2003), Ok(0x56));
}

#[test]
fn rom_is_readable_and_never_written() {
    let mut m = Memory::new(&[0x11, 0x22, 0x33, 0x44, 0x55]);
    assert_eq!(m.read_u32(MEMORY_ROM_START), Ok(0x44332211));
    assert_eq!(m.read_u8(MEMORY_ROM_START + 4), Ok(0x55));
    assert_eq!(m.write_u8(MEMORY_ROM_START, 0), Err(Exception::BusFault));
    assert_eq!(m.write_u16(MEMORY_ROM_START + 1, 0), Err(Exception::BusFault));
    assert_eq!(m.write_u32(MEMORY_ROM_START, 0), Err(Exception::BusFault));
    assert_eq!(m.rom(), &[0x11, 0x22, 0x33, 0x44, 0x55]);
}

#[test]
fn unmapped_access_is_bus_fault() {
    let mut m = Memory::new(&[1, 2]);
    assert_eq!(m.read_u8(MEMORY_RAM_SIZE as u32), Err(Exception::BusFault));
    assert_eq!(m.read_u8(MEMORY_ROM_START + 2), Err(Exception::BusFault));
    assert_eq!(m.read_u16(MEMORY_ROM_START + 1), Err(Exception::BusFault));
    assert_eq!(m.read_u32(0xFFFF_FFFE), Err(Exception::BusFault));
    assert_eq!(m.write_u8(0x7000_0000, 1), Err(Exception::BusFault));
}

#[test]
fn access_straddling_ram_end_changes_nothing() {
    let mut m = Memory::new(&[]);
    let last = MEMORY_RAM_SIZE as u32 - 2;
    assert_eq!(m.write_u32(last, 0xFFFF_FFFF), Err(Exception::BusFault));
    assert_eq!(m.ram()[MEMORY_RAM_SIZE - 2], 0);
    assert_eq!(m.ram()[MEMORY_RAM_SIZE - 1], 0);
    assert_eq!(m.read_u32(last), Err(Exception::BusFault));
    assert_eq!(m.write_u16(last, 0xABCD), Ok(()));
    assert_eq!(m.read_u16(last), Ok(0xABCD));
}

#[test]
fn oversized_rom_is_cut() {
    let image = vec![0xAAu8; MEMORY_ROM_SIZE + 10];
    let m = Memory::new(&image);
    assert_eq!(m.rom().len(), MEMORY_ROM_SIZE);
    assert_eq!(m.ram().len(), MEMORY_RAM_SIZE);
}

#[test]
fn signed_reads_extend_the_sign() {
    let mut m = Memory::new(&[0x80, 0x7F]);
    assert_eq!(m.write_u32(0x40, 0xFFFF_FFFE), Ok(()));
    assert_eq!(m.read_i32(0x40), Ok(-2));
    assert_eq!(m.read_i16(0x40), Ok(-2));
    assert_eq!(m.read_i8(0x40), Ok(-2));
    assert_eq!(m.read_i8(MEMORY_ROM_START), Ok(-128));
    assert_eq!(m.read_i8(MEMORY_ROM_START + 1), Ok(127));
    assert_eq!(m.read_i16(MEMORY_ROM_START), Ok(0x7F80));
    assert_eq!(m.write_u16(0x50, 0x1234), Ok(()));
    assert_eq!(m.read_i32(0x50), Ok(0x1234));
    assert_eq!(m.read_i32(MEMORY_ROM_START), Err(Exception::BusFault));
}
