//! CPU-side interrupt delivery: which pending interrupt is taken, how a
//! handler is entered through the interrupt descriptor table, and how an
//! interrupt return leaves it.

use vstd::prelude::*;
use crate::memory::{
    Exception, Memory, MEMORY_RAM_START, MEMORY_ROM_START, le_bytes, le_value, lemma_le_round_trip, lemma_le_value_bound, lemma_word_limit,
    store_bytes,
};

verus! {

/// Physical address of the interrupt descriptor table: 256 words, entry `v`
/// holding the handler address of vector `v`.
pub const IDT_BASE: u32 = 0;

/// Vector raised by the host once per displayed frame.
pub const VSYNC_VECTOR: u8 = 0xFF;

/// Bytes that interrupt entry pushes: the program counter, then the flags.
pub const FRAME_SIZE: u32 = 5;

/// Something that asks the CPU to enter a handler.
#[derive(Copy, Clone, Debug, PartialEq, Eq, Structural)]
pub enum Interrupt {
    /// An asynchronous request from a device or the host.
    Request(u8),
    /// A synchronous fault.
    Exception(Exception),
}

/// The vector of each exception.
pub open spec fn exception_vector_spec(e: Exception) -> u8 {
    match e {
        Exception::DivideByZero => 0x00,
        Exception::InvalidOpcode => 0x01,
        Exception::PageFault => 0x02,
        Exception::BusFault => 0x03,
        Exception::Debug => 0x04,
    }
}

/// The vector of each exception.
pub fn exception_vector(e: Exception) -> (r: u8)
    ensures
        r == exception_vector_spec(e),
{
    match e {
        Exception::DivideByZero => 0x00,
        Exception::InvalidOpcode => 0x01,
        Exception::PageFault => 0x02,
        Exception::BusFault => 0x03,
        Exception::Debug => 0x04,
    }
}

/// The vector an interrupt selects.
pub open spec fn vector_of(i: Interrupt) -> u8 {
    match i {
        Interrupt::Request(v) => v,
        Interrupt::Exception(e) => exception_vector_spec(e),
    }
}

/// Chooses what the CPU takes at an instruction boundary: a pending exception
/// before a pending request.
pub fn next_interrupt(exception: Option<Exception>, request: Option<Interrupt>) -> (r: Option<Interrupt>)
    ensures
        exception is Some ==> r == Some(Interrupt::Exception(exception->0)),
        exception is None ==> r == request,
{
    match exception {
        Some(e) => Some(Interrupt::Exception(e)),
        None => request,
    }
}

/// The condition flags.
#[derive(Copy, Clone, Debug, PartialEq, Eq, Structural)]
pub struct Flags {
    pub zero: bool,
    pub carry: bool,
    pub interrupt: bool,
}

/// The flags packed in a byte: zero in bit 0, carry in bit 1, interrupt
/// enable in bit 2.
pub open spec fn flags_byte(f: Flags) -> u8 {
    ((if f.zero { 1int } else { 0 }) + (if f.carry { 2int } else { 0 }) + (if f.interrupt { 4int } else { 0 })) as u8
}

/// The flags a byte holds, read as `flags_byte` packs them.
pub open spec fn flags_of(b: u8) -> Flags {
    Flags { zero: b % 2 == 1, carry: (b / 2) % 2 == 1, interrupt: (b / 4) % 2 == 1 }
}

impl Flags {
    /// Packs the flags into a byte.
    pub fn to_byte(&self) -> (r: u8)
        ensures
            r == flags_byte(*self),
    {
        (if self.zero { 1u8 } else { 0 }) + (if self.carry { 2u8 } else { 0 }) + (if self.interrupt { 4u8 } else { 0 })
    }

    /// Unpacks the flags from a byte.
    pub fn from_byte(b: u8) -> (r: Flags)
        ensures
            r == flags_of(b),
    {
        Flags { zero: b % 2 == 1, carry: (b / 2) % 2 == 1, interrupt: (b / 4) % 2 == 1 }
    }
}

/// Unpacking packed flags gives them back.
pub proof fn lemma_flags_round_trip(f: Flags)
    ensures
        flags_of(flags_byte(f)) == f,
{
}

/// What the CPU thread does next.
#[derive(Copy, Clone, Debug, PartialEq, Eq, Structural)]
pub enum CpuAction {
    /// Take any pending interrupt and execute the next instruction.
    Run,
    /// Block until an interrupt arrives.
    Wait,
    /// Leave the thread.
    Stop,
}

/// The CPU's architectural state and the memory it runs on.
pub struct Cpu {
    pub pc: u32,
    pub stack_pointer: u32,
    pub register: [u32; 32],
    pub flag: Flags,
    pub halted: bool,
    pub memory: Memory,
}

/// `c1` is `c0` after it entered the handler of vector `v`: the program
/// counter pushed at `sp - 4`, the flags at `sp - 5`, interrupts masked, the
/// halt cleared and the program counter loaded from the table entry.
pub open spec fn entered(c0: &Cpu, c1: &Cpu, v: u8) -> bool {
    let sp = c0.stack_pointer as int;
    &&& c1.stack_pointer == sp - FRAME_SIZE
    &&& c1.memory.rom@ == c0.memory.rom@
    &&& c1.memory.ram@ == store_bytes(
        store_bytes(c0.memory.ram@, sp - 4 - MEMORY_RAM_START, le_bytes(c0.pc as nat, 4)),
        sp - 5 - MEMORY_RAM_START,
        le_bytes(flags_byte(c0.flag) as nat, 1),
    )
    &&& c1.pc == le_value(c0.memory.bytes(IDT_BASE + 4 * v, 4))
    &&& c1.flag == (Flags { interrupt: false, ..c0.flag })
    &&& !c1.halted
    &&& c1.register == c0.register
}

/// `c1` is `c0` after an interrupt return: flags popped from `sp`, the
/// program counter from `sp + 1`.
pub open spec fn returned(c0: &Cpu, c1: &Cpu) -> bool {
    let sp = c0.stack_pointer as int;
    &&& c1.stack_pointer == sp + FRAME_SIZE
    &&& c1.memory.ram@ == c0.memory.ram@
    &&& c1.memory.rom@ == c0.memory.rom@
    &&& c1.flag == flags_of(c0.memory.byte(sp))
    &&& c1.pc == le_value(c0.memory.bytes(sp + 1, 4))
    &&& c1.halted == c0.halted
    &&& c1.register == c0.register
}

/// Nothing of `c1` differs from `c0`.
pub open spec fn unchanged(c0: &Cpu, c1: &Cpu) -> bool {
    &&& c1.pc == c0.pc
    &&& c1.stack_pointer == c0.stack_pointer
    &&& c1.register == c0.register
    &&& c1.flag == c0.flag
    &&& c1.halted == c0.halted
    &&& c1.memory.ram@ == c0.memory.ram@
    &&& c1.memory.rom@ == c0.memory.rom@
}

impl Cpu {
    /// A CPU at the start of ROM with every register clear, interrupts masked
    /// and not halted.
    pub fn new(memory: Memory) -> (r: Self)
        requires
            memory.wf(),
        ensures
            r.memory.wf(),
            r.memory.ram@ == memory.ram@,
            r.memory.rom@ == memory.rom@,
            r.pc == MEMORY_ROM_START,
            r.stack_pointer == 0,
            r.register@ == seq![0u32; 32],
            r.flag == (Flags { zero: false, carry: false, interrupt: false }),
            !r.halted,
    {
        let r = Cpu {
            pc: MEMORY_ROM_START,
            stack_pointer: 0,
            register: [0u32; 32],
            flag: Flags { zero: false, carry: false, interrupt: false },
            halted: false,
            memory,
        };
        assert(r.register@ =~= seq![0u32; 32]);
        r
    }

    /// Offers `i` to the CPU. An exception is always taken, a request only
    /// while interrupts are enabled. Taking it pushes the program counter and
    /// the flags, masks interrupts and jumps through the table entry of its
    /// vector. Returns whether it was taken; a stack that is not wholly in RAM,
    /// or a table entry that cannot be read, is a bus fault that changes
    /// nothing.
    pub fn interrupt(&mut self, i: Interrupt) -> (r: Result<bool, Exception>)
        requires
            old(self).memory.wf(),
        ensures
            final(self).memory.wf(),
            r == Ok::<bool, Exception>(true) ==> entered(old(self), final(self), vector_of(i)),
            r != Ok::<bool, Exception>(true) ==> unchanged(old(self), final(self)),
            r == Ok::<bool, Exception>(false) <==> (i is Request && !old(self).flag.interrupt),
            r is Err <==> ((i is Exception || old(self).flag.interrupt) && !(
                old(self).stack_pointer >= FRAME_SIZE
                && old(self).memory.in_ram(old(self).stack_pointer - FRAME_SIZE, FRAME_SIZE as int)
                && old(self).memory.readable(IDT_BASE + 4 * vector_of(i), 4))),
            r is Err ==> r == Err::<bool, Exception>(Exception::BusFault),
    {
        let vector = match i {
            Interrupt::Request(v) => {
                if !self.flag.interrupt {
                    return Ok(false);
                }
                v
            },
            Interrupt::Exception(e) => exception_vector(e),
        };
        let sp = self.stack_pointer;
        if sp < FRAME_SIZE || !self.memory.check_ram(sp - FRAME_SIZE, FRAME_SIZE) {
            return Err(Exception::BusFault);
        }
        let handler = match self.memory.read_u32(IDT_BASE + 4 * (vector as u32)) {
            Ok(a) => a,
            Err(e) => {
                return Err(e);
            },
        };
        proof {
            lemma_le_value_bound(self.memory.bytes(IDT_BASE + 4 * vector, 4));
            lemma_word_limit();
        }
        let fb = self.flag.to_byte();
        let _ = self.memory.write_u32(sp - 4, self.pc);
        let _ = self.memory.write_u8(sp - 5, fb);
        self.stack_pointer = sp - FRAME_SIZE;
        self.flag.interrupt = false;
        self.halted = false;
        self.pc = handler;
        Ok(true)
    }

    /// Decides the CPU thread's next step: stop once the host has asked it
    /// to, run while not halted, wait for an interrupt while halted with
    /// interrupts enabled, and stop when halted with interrupts masked, since
    /// nothing can wake it then.
    pub fn next_action(&self, exit_requested: bool) -> (r: CpuAction)
        ensures
            exit_requested ==> r == CpuAction::Stop,
            !exit_requested && !self.halted ==> r == CpuAction::Run,
            !exit_requested && self.halted && self.flag.interrupt ==> r == CpuAction::Wait,
            !exit_requested && self.halted && !self.flag.interrupt ==> r == CpuAction::Stop,
    {
        if exit_requested {
            CpuAction::Stop
        } else if !self.halted {
            CpuAction::Run
        } else if self.flag.interrupt {
            CpuAction::Wait
        } else {
            CpuAction::Stop
        }
    }

    /// Leaves a handler: pops the flags, then the program counter. A frame
    /// that cannot be read is a bus fault that changes nothing.
    pub fn return_from_interrupt(&mut self) -> (r: Result<(), Exception>)
        requires
            old(self).memory.wf(),
        ensures
            final(self).memory.wf(),
            r is Ok ==> returned(old(self), final(self)),
            r is Err ==> unchanged(old(self), final(self)) && r == Err::<(), Exception>(Exception::BusFault),
            r is Ok <==> (old(self).stack_pointer + FRAME_SIZE <= u32::MAX + 1
                && old(self).memory.readable(old(self).stack_pointer as int, 1)
                && old(self).memory.readable(old(self).stack_pointer + 1, 4)),
    {
        let sp = self.stack_pointer;
        if sp > u32::MAX - FRAME_SIZE + 1 {
            return Err(Exception::BusFault);
        }
        let fb = match self.memory.read_u8(sp) {
            Ok(b) => b,
            Err(e) => {
                return Err(e);
            },
        };
        if sp + 1 > u32::MAX - 3 {
            return Err(Exception::BusFault);
        }
        let pc = match self.memory.read_u32(sp + 1) {
            Ok(a) => a,
            Err(e) => {
                return Err(e);
            },
        };
        proof {
            lemma_le_value_bound(self.memory.bytes(sp + 1, 4));
            lemma_word_limit();
        }
        self.flag = Flags::from_byte(fb);
        self.pc = pc;
        self.stack_pointer = (sp as u64 + FRAME_SIZE as u64) as u32;
        Ok(())
    }
}

/// Stack balance across a handler: entering the handler of any vector pushes
/// one frame; if the handler leaves the stack pointer where entry put it and
/// that frame intact, the interrupt return pops it and restores the program
/// counter, the stack pointer and the flags, interrupt enable included.
pub proof fn lemma_interrupt_round_trip(c0: Cpu, c1: Cpu, handler: Cpu, c3: Cpu, v: u8)
    requires
        c0.memory.wf(),
        c0.stack_pointer >= FRAME_SIZE,
        c0.memory.in_ram(c0.stack_pointer - FRAME_SIZE, FRAME_SIZE as int),
        entered(&c0, &c1, v),
        handler.memory.wf(),
        handler.stack_pointer == c1.stack_pointer,
        handler.memory.bytes(c1.stack_pointer as int, FRAME_SIZE as nat) == c1.memory.bytes(c1.stack_pointer as int, FRAME_SIZE as nat),
        returned(&handler, &c3),
    ensures
        c1.stack_pointer == c0.stack_pointer - FRAME_SIZE,
        !c1.flag.interrupt,
        c3.stack_pointer == c0.stack_pointer,
        c3.pc == c0.pc,
        c3.flag == c0.flag,
{
    let sp = c1.stack_pointer as int;
    let frame = c1.memory.bytes(sp, FRAME_SIZE as nat);
    assert(handler.memory.byte(sp) == frame[0]);
    assert(frame[0] == flags_byte(c0.flag));
    assert(handler.memory.bytes(sp + 1, 4) =~= le_bytes(c0.pc as nat, 4)) by {
        assert forall|k: int| 0 <= k < 4 implies #[trigger] handler.memory.bytes(sp + 1, 4)[k] == le_bytes(c0.pc as nat, 4)[k] by {
            assert(handler.memory.bytes(sp + 1, 4)[k] == frame[k + 1]);
        }
    }
    lemma_word_limit();
    lemma_le_round_trip(c0.pc as nat, 4);
    lemma_flags_round_trip(c0.flag);
}

} // verus!
