use fox32::alu::{add, sub, Size};
use fox32::cpu::{exception_vector, next_interrupt, Cpu, CpuAction, Flags, Interrupt, VSYNC_VECTOR};
use fox32::instruction::Condition;
use fox32::memory::{Exception, Memory, MEMORY_ROM_START};

fn cpu_with_handler(vector: u8, handler: u32) -> Cpu {
    let mut m = Memory::new(&[0, 0, 0, 0]);
    assert_eq!(m.write_u32(vector as u32 * 4, handler), Ok(()));
    let mut c = Cpu::new(m);
    c.stack_pointer = 0x8000;
    c.pc = 0x1234_5678;
    c
}

#[test]
fn new_cpu_starts_in_rom() {
    let c = Cpu::new(Memory::new(&[]));
    assert_eq!(c.pc, MEMORY_ROM_START);
    assert_eq!(c.register, [0u32; 32]);
    assert!(!c.flag.interrupt && !c.halted);
}

#[test]
fn request_enters_handler_and_returns() {
    let mut c = cpu_with_handler(VSYNC_VECTOR, 0x4000);
    c.flag = Flags { zero: true, carry: false, interrupt: true };
    assert_eq!(c.interrupt(Interrupt::Request(VSYNC_VECTOR)), Ok(true));
    assert_eq!(c.pc, 0x4000);
    assert_eq!(c.stack_pointer, 0x8000 - 5);
    assert!(!c.flag.interrupt);
    assert_eq!(c.memory.read_u8(0x8000 - 5), Ok(0b101));
    assert_eq!(c.memory.read_u32(0x8000 - 4), Ok(0x1234_5678));
    assert_eq!(c.return_from_interrupt(), Ok(()));
    assert_eq!(c.pc, 0x1234_5678);
    assert_eq!(c.stack_pointer, 0x8000);
    assert_eq!(c.flag, Flags { zero: true, carry: false, interrupt: true });
}

#[test]
fn masked_request_is_refused() {
    let mut c = cpu_with_handler(VSYNC_VECTOR, 0x4000);
    assert_eq!(c.interrupt(Interrupt::Request(VSYNC_VECTOR)), Ok(false));
    assert_eq!(c.pc, 0x1234_5678);
    assert_eq!(c.stack_pointer, 0x8000);
}

#[test]
fn divide_by_zero_enters_its_handler() {
    let mut c = cpu_with_handler(0, 0x5000);
    c.pc = 0x9000_0006;
    assert_eq!(exception_vector(Exception::DivideByZero), 0);
    assert_eq!(c.interrupt(Interrupt::Exception(Exception::DivideByZero)), Ok(true));
    assert_eq!(c.pc, 0x5000);
    assert_eq!(c.memory.read_u32(0x8000 - 4), Ok(0x9000_0006));
}

#[test]
fn halted_cpu_wakes_on_interrupt() {
    let mut c = cpu_with_handler(VSYNC_VECTOR, 0x4000);
    c.flag.interrupt = true;
    c.halted = true;
    assert_eq!(c.interrupt(Interrupt::Request(VSYNC_VECTOR)), Ok(true));
    assert!(!c.halted);
    assert_eq!(c.pc, 0x4000);
}

#[test]
fn stack_outside_ram_is_bus_fault() {
    let mut c = cpu_with_handler(1, 0x4000);
    c.stack_pointer = 3;
    assert_eq!(c.interrupt(Interrupt::Exception(Exception::InvalidOpcode)), Err(Exception::BusFault));
    assert_eq!(c.pc, 0x1234_5678);
    assert_eq!(c.stack_pointer, 3);
    c.stack_pointer = 0xFFFF_FFFE;
    assert_eq!(c.return_from_interrupt(), Err(Exception::BusFault));
    assert_eq!(c.stack_pointer, 0xFFFF_FFFE);
}

#[test]
fn exception_taken_before_request() {
    let r = next_interrupt(Some(Exception::BusFault), Some(Interrupt::Request(0xFF)));
    assert_eq!(r, Some(Interrupt::Exception(Exception::BusFault)));
    assert_eq!(next_interrupt(None, Some(Interrupt::Request(0xFF))), Some(Interrupt::Request(0xFF)));
    assert_eq!(next_interrupt(None, None), None);
}

#[test]
fn flags_pack_into_a_byte() {
    let f = Flags { zero: false, carry: true, interrupt: true };
    assert_eq!(f.to_byte(), 6);
    assert_eq!(Flags::from_byte(6), f);
    assert_eq!(Flags::from_byte(1), Flags { zero: true, carry: false, interrupt: false });
}

#[test]
fn add_then_sub_gives_operand_back() {
    let f = Flags { zero: false, carry: false, interrupt: true };
    let (s, fs) = add(Size::Word, 0xFFFF_FFF0, 0x20, f);
    assert_eq!(s, 0x10);
    assert!(fs.carry && !fs.zero && fs.interrupt);
    let (d, fd) = sub(Size::Word, s, 0x20, fs);
    assert_eq!(d, 0xFFFF_FFF0);
    assert!(fd.carry && !fd.zero);
}

#[test]
fn narrow_widths_wrap() {
    let f = Flags { zero: false, carry: false, interrupt: false };
    let (s, fs) = add(Size::Byte, 0x1FF, 0x01, f);
    assert_eq!(s, 0);
    assert!(fs.zero && fs.carry);
    let (h, fh) = add(Size::Half, 0x1234, 0x0001, f);
    assert_eq!(h, 0x1235);
    assert!(!fh.zero && !fh.carry);
    let (d, fd) = sub(Size::Half, 0x0005, 0x0005, f);
    assert_eq!(d, 0);
    assert!(fd.zero && !fd.carry);
    let (b, fb) = sub(Size::Byte, 0x00, 0x01, f);
    assert_eq!(b, 0xFF);
    assert!(fb.carry);
}

#[test]
fn halt_then_vsync_wakes_into_handler() {
    let mut c = cpu_with_handler(VSYNC_VECTOR, 0x4000);
    c.flag.interrupt = true;
    assert_eq!(c.next_action(false), CpuAction::Run);
    c.execute_halt(Condition::Always);
    assert!(c.halted);
    assert_eq!(c.next_action(false), CpuAction::Wait);
    assert_eq!(c.interrupt(Interrupt::Request(VSYNC_VECTOR)), Ok(true));
    assert!(!c.halted);
    assert_eq!(c.pc, 0x4000);
    assert_eq!(c.next_action(false), CpuAction::Run);
    assert_eq!(c.next_action(true), CpuAction::Stop);
}

#[test]
fn halt_with_interrupts_masked_stops() {
    let mut c = cpu_with_handler(VSYNC_VECTOR, 0x4000);
    c.execute_halt(Condition::Zero);
    assert!(!c.halted);
    c.execute_halt(Condition::NotZero);
    assert!(c.halted);
    assert_eq!(c.next_action(false), CpuAction::Stop);
}

#[test]
fn vsync_handler_counts_frames() {
    let mut c = cpu_with_handler(VSYNC_VECTOR, 0x4000);
    c.flag.interrupt = true;
    let mut last = 0;
    for _ in 0..10 {
        assert_eq!(c.interrupt(Interrupt::Request(VSYNC_VECTOR)), Ok(true));
        assert_eq!(c.pc, 0x4000);
        // handler body: increment the counter at 0x1000
        let n = c.memory.read_u32(0x1000).unwrap();
        let (n1, _) = add(Size::Word, n, 1, c.flag);
        assert_eq!(c.memory.write_u32(0x1000, n1), Ok(()));
        assert_eq!(c.return_from_interrupt(), Ok(()));
        assert_eq!(c.pc, 0x1234_5678);
        assert_eq!(c.stack_pointer, 0x8000);
        assert!(c.flag.interrupt);
        let now = c.memory.read_u32(0x1000).unwrap();
        assert!(now > last);
        last = now;
    }
    assert!(last >= 10);
}
