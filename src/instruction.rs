//! Operand fetch and conditional execution: each operand is read from the
//! instruction stream by its addressing mode, and an instruction whose
//! condition fails still consumes all of its operand bytes.

use vstd::prelude::*;
use crate::alu::{div, modulus, operand, Size};
use crate::cpu::{Cpu, Flags, unchanged};
use crate::memory::{Exception, Memory, le_value, lemma_le_value_bound, limit};

verus! {

/// The condition an instruction carries; flags are compared as unsigned.
#[derive(Copy, Clone, Debug, PartialEq, Eq, Structural)]
pub enum Condition {
    Always,
    Zero,
    NotZero,
    Carry,
    NotCarry,
    Less,
    LessOrEqual,
    Greater,
    GreaterOrEqual,
}

/// Whether an instruction with condition `c` runs under `f`.
pub open spec fn condition_spec(c: Condition, f: Flags) -> bool {
    match c {
        Condition::Always => true,
        Condition::Zero => f.zero,
        Condition::NotZero => !f.zero,
        Condition::Carry => f.carry,
        Condition::NotCarry => !f.carry,
        Condition::Less => f.carry,
        Condition::LessOrEqual => f.carry || f.zero,
        Condition::Greater => !f.carry && !f.zero,
        Condition::GreaterOrEqual => !f.carry,
    }
}

/// Whether an instruction with condition `c` runs under `f`.
pub fn condition_holds(c: Condition, f: Flags) -> (r: bool)
    ensures
        r == condition_spec(c, f),
{
    match c {
        Condition::Always => true,
        Condition::Zero => f.zero,
        Condition::NotZero => !f.zero,
        Condition::Carry => f.carry,
        Condition::NotCarry => !f.carry,
        Condition::Less => f.carry,
        Condition::LessOrEqual => f.carry || f.zero,
        Condition::Greater => !f.carry && !f.zero,
        Condition::GreaterOrEqual => !f.carry,
    }
}

/// Addressing mode of an operand.
#[derive(Copy, Clone, Debug, PartialEq, Eq, Structural)]
pub enum Operand {
    /// One byte naming a register.
    Register,
    /// One byte naming a register that holds the address, then, with a
    /// displacement, one byte added to it.
    RegisterPointer,
    /// The value itself, as many bytes as the operand width.
    Immediate,
    /// A four-byte address of the value.
    ImmediatePointer,
}

/// Bytes of a width.
pub open spec fn width(size: Size) -> nat {
    match size {
        Size::Byte => 1,
        Size::Half => 2,
        Size::Word => 4,
    }
}

/// Bytes an operand takes in the instruction stream.
pub open spec fn operand_len(mode: Operand, size: Size, displacement: bool) -> nat {
    match mode {
        Operand::Register => 1,
        Operand::RegisterPointer => if displacement { 2 } else { 1 },
        Operand::Immediate => width(size),
        Operand::ImmediatePointer => 4,
    }
}

/// The value of `size` bytes at `addr`, when they can be read.
pub open spec fn sized_value(m: Memory, addr: int, size: Size) -> nat {
    le_value(m.bytes(addr, width(size)))
}

/// `old` with its low bits at width `size` replaced by those of `v`.
pub open spec fn merge(size: Size, old: u32, v: u32) -> u32 {
    (old as int - old as int % (modulus(size) as int) + v as int % (modulus(size) as int)) as u32
}

/// What fetching an operand in mode `mode` at `at` yields, when every byte
/// it touches can be read and a named register exists: the value, and the
/// address past the operand.
pub open spec fn operand_ok(c: &Cpu, mode: Operand, size: Size, displacement: bool, at: int) -> bool {
    match mode {
        Operand::Register => c.memory.readable(at, 1) && c.memory.byte(at) < 32,
        Operand::RegisterPointer => c.memory.readable(at, operand_len(mode, size, displacement) as int)
            && c.memory.byte(at) < 32
            && c.memory.readable(pointer_address(c, displacement, at), width(size) as int),
        Operand::Immediate => c.memory.readable(at, width(size) as int),
        Operand::ImmediatePointer => c.memory.readable(at, 4)
            && c.memory.readable(le_value(c.memory.bytes(at, 4)) as int, width(size) as int),
    }
}

/// Address a register pointer operand at `at` points to: the register's
/// value plus the displacement byte, wrapping at the top of the address
/// space.
pub open spec fn pointer_address(c: &Cpu, displacement: bool, at: int) -> int {
    let base = c.register[c.memory.byte(at) as int] as int;
    let d = if displacement { c.memory.byte(at + 1) as int } else { 0 };
    (base + d) % 0x1_0000_0000
}

/// The value an operand yields, when `operand_ok` holds.
pub open spec fn operand_value(c: &Cpu, mode: Operand, size: Size, displacement: bool, at: int) -> nat {
    match mode {
        Operand::Register => c.register[c.memory.byte(at) as int] as nat % modulus(size),
        Operand::RegisterPointer => sized_value(c.memory, pointer_address(c, displacement, at), size),
        Operand::Immediate => sized_value(c.memory, at, size),
        Operand::ImmediatePointer => sized_value(c.memory, le_value(c.memory.bytes(at, 4)) as int, size),
    }
}

proof fn lemma_sizes(size: Size)
    ensures
        limit(width(size)) == modulus(size),
        limit(4) == 0x1_0000_0000,
{
    reveal_with_fuel(limit, 5);
}

impl Cpu {
    fn read_sized(&self, addr: u32, size: Size) -> (r: Result<u32, Exception>)
        requires
            self.memory.wf(),
        ensures
            self.memory.readable(addr as int, width(size) as int) ==> r == Ok::<u32, Exception>(sized_value(self.memory, addr as int, size) as u32)
                && sized_value(self.memory, addr as int, size) < modulus(size),
            !self.memory.readable(addr as int, width(size) as int) ==> r == Err::<u32, Exception>(Exception::BusFault),
    {
        proof {
            lemma_le_value_bound(self.memory.bytes(addr as int, width(size)));
            lemma_sizes(size);
        }
        match size {
            Size::Byte => match self.memory.read_u8(addr) {
                Ok(v) => Ok(v as u32),
                Err(e) => Err(e),
            },
            Size::Half => match self.memory.read_u16(addr) {
                Ok(v) => Ok(v as u32),
                Err(e) => Err(e),
            },
            Size::Word => self.memory.read_u32(addr),
        }
    }

    /// Fetches the operand of mode `mode` that starts at `at`. Returns its
    /// value, cut to the operand width, and the address past it. A byte that
    /// cannot be read is a bus fault; a register number past the last
    /// register is an invalid opcode.
    pub fn fetch_operand(&self, mode: Operand, size: Size, displacement: bool, at: u32) -> (r: Result<(u32, u32), Exception>)
        requires
            self.memory.wf(),
        ensures
            r is Ok <==> operand_ok(self, mode, size, displacement, at as int),
            r is Ok ==> r->Ok_0.0 == operand_value(self, mode, size, displacement, at as int)
                && r->Ok_0.1 == at + operand_len(mode, size, displacement),
            r is Err ==> r == Err::<(u32, u32), Exception>(Exception::BusFault)
                || r == Err::<(u32, u32), Exception>(Exception::InvalidOpcode),
    {
        proof {
            lemma_sizes(size);
        }
        match mode {
            Operand::Register => {
                let b = match self.memory.read_u8(at) {
                    Ok(b) => b,
                    Err(e) => { return Err(e); },
                };
                if b >= 32 {
                    return Err(Exception::InvalidOpcode);
                }
                let v = self.register[b as usize];
                let m = match size { Size::Byte => 0x100u64, Size::Half => 0x1_0000u64, Size::Word => 0x1_0000_0000u64 };
                Ok(((v as u64 % m) as u32, at + 1))
            },
            Operand::RegisterPointer => {
                let n: u32 = if displacement { 2 } else { 1 };
                if !(self.memory.check_ram(at, n) || self.memory.check_rom(at, n)) {
                    return Err(Exception::BusFault);
                }
                let b = self.memory.fetch(at, 0, n);
                if b >= 32 {
                    return Err(Exception::InvalidOpcode);
                }
                let d: u8 = if displacement { self.memory.fetch(at, 1, n) } else { 0 };
                let addr = ((self.register[b as usize] as u64 + d as u64) % 0x1_0000_0000) as u32;
                match self.read_sized(addr, size) {
                    Ok(v) => Ok((v, at + n)),
                    Err(e) => Err(e),
                }
            },
            Operand::Immediate => {
                proof {
                    lemma_le_value_bound(self.memory.bytes(at as int, width(size)));
                }
                match self.read_sized(at, size) {
                    Ok(v) => {
                        let n: u32 = match size { Size::Byte => 1, Size::Half => 2, Size::Word => 4 };
                        Ok((v, at + n))
                    },
                    Err(e) => Err(e),
                }
            },
            Operand::ImmediatePointer => {
                let a = match self.memory.read_u32(at) {
                    Ok(a) => a,
                    Err(e) => { return Err(e); },
                };
                proof {
                    lemma_le_value_bound(self.memory.bytes(at as int, 4));
                }
                match self.read_sized(a, size) {
                    Ok(v) => Ok((v, at + 4)),
                    Err(e) => Err(e),
                }
            },
        }
    }
}

impl Cpu {
    /// Executes a move of width `size` into a register. The program counter
    /// points at the operands: the source operand in mode `src`, then one
    /// byte naming the destination register. The program counter moves past
    /// both whether or not `cond` holds; only when it holds does the
    /// register take the value, in its low bits at that width, its high bits
    /// kept. A fault changes nothing.
    pub fn execute_move(&mut self, cond: Condition, size: Size, src: Operand, displacement: bool) -> (r: Result<(), Exception>)
        requires
            old(self).memory.wf(),
        ensures
            final(self).memory.wf(),
            ({
                let c = old(self);
                let at = c.pc as int;
                let end = at + operand_len(src, size, displacement);
                &&& r is Ok <==> (operand_ok(c, src, size, displacement, at) && c.memory.readable(end, 1)
                    && c.memory.byte(end) < 32)
                &&& r is Ok ==> {
                    let d = c.memory.byte(end) as int;
                    let v = operand_value(c, src, size, displacement, at) as u32;
                    &&& final(self).pc == end + 1
                    &&& final(self).register@ == if condition_spec(cond, c.flag) {
                        c.register@.update(d, merge(size, c.register[d], v))
                    } else {
                        c.register@
                    }
                    &&& final(self).flag == c.flag
                    &&& final(self).stack_pointer == c.stack_pointer
                    &&& final(self).halted == c.halted
                    &&& final(self).memory.ram@ == c.memory.ram@
                    &&& final(self).memory.rom@ == c.memory.rom@
                }
            }),
            r is Err ==> unchanged(old(self), final(self)),
    {
        let (v, end) = match self.fetch_operand(src, size, displacement, self.pc) {
            Ok(p) => p,
            Err(e) => { return Err(e); },
        };
        let d = match self.memory.read_u8(end) {
            Ok(b) => b,
            Err(e) => { return Err(e); },
        };
        if d >= 32 {
            return Err(Exception::InvalidOpcode);
        }
        if condition_holds(cond, self.flag) {
            let old_value = self.register[d as usize];
            let m: u64 = match size { Size::Byte => 0x100, Size::Half => 0x1_0000, Size::Word => 0x1_0000_0000 };
            let merged = (old_value as u64 - old_value as u64 % m + v as u64 % m) as u32;
            self.register.set(d as usize, merged);
        }
        self.pc = end + 1;
        Ok(())
    }
}

impl Cpu {
    /// Executes a division of the register named by the byte after the
    /// source operand by that operand, at width `size`, under `cond`. Operands
    /// are laid out, and the program counter advanced, as for
    /// `execute_move`. A zero divisor, when the condition holds, raises a
    /// divide-by-zero exception with the program counter already past the
    /// instruction and nothing else changed. A fault while fetching changes
    /// nothing.
    pub fn execute_divide(&mut self, cond: Condition, size: Size, src: Operand, displacement: bool) -> (r: Result<(), Exception>)
        requires
            old(self).memory.wf(),
        ensures
            final(self).memory.wf(),
            ({
                let c = old(self);
                let at = c.pc as int;
                let end = at + operand_len(src, size, displacement);
                let fetched = operand_ok(c, src, size, displacement, at) && c.memory.readable(end, 1) && c.memory.byte(end) < 32;
                let d = c.memory.byte(end) as int;
                let v = operand_value(c, src, size, displacement, at) as u32;
                let runs = condition_spec(cond, c.flag);
                &&& fetched ==> final(self).pc == end + 1
                &&& fetched ==> final(self).flag == c.flag && final(self).stack_pointer == c.stack_pointer
                    && final(self).halted == c.halted && final(self).memory.ram@ == c.memory.ram@
                    && final(self).memory.rom@ == c.memory.rom@
                &&& (fetched && runs && operand(size, v) == 0) <==> r == Err::<(), Exception>(Exception::DivideByZero)
                &&& (fetched && runs && operand(size, v) == 0) ==> final(self).register == c.register
                &&& r is Ok <==> (fetched && !(runs && operand(size, v) == 0))
                &&& r is Ok ==> final(self).register@ == if runs {
                    c.register@.update(d, merge(size, c.register[d], (operand(size, c.register[d]) / operand(size, v)) as u32))
                } else {
                    c.register@
                }
                &&& !fetched ==> unchanged(c, final(self)) && r is Err && r != Err::<(), Exception>(Exception::DivideByZero)
            }),
    {
        let (v, end) = match self.fetch_operand(src, size, displacement, self.pc) {
            Ok(p) => p,
            Err(e) => { return Err(e); },
        };
        let d = match self.memory.read_u8(end) {
            Ok(b) => b,
            Err(e) => { return Err(e); },
        };
        if d >= 32 {
            return Err(Exception::InvalidOpcode);
        }
        self.pc = end + 1;
        if condition_holds(cond, self.flag) {
            let old_value = self.register[d as usize];
            match div(size, old_value, v) {
                Some(q) => {
                    let m: u64 = match size { Size::Byte => 0x100, Size::Half => 0x1_0000, Size::Word => 0x1_0000_0000 };
                    let merged = (old_value as u64 - old_value as u64 % m + q as u64 % m) as u32;
                    self.register.set(d as usize, merged);
                },
                None => {
                    return Err(Exception::DivideByZero);
                },
            }
        }
        Ok(())
    }
}

impl Cpu {
    /// The halt instruction: when `cond` holds, suspends execution until an
    /// interrupt is taken. It has no operands.
    pub fn execute_halt(&mut self, cond: Condition)
        ensures
            final(self).halted == (old(self).halted || condition_spec(cond, old(self).flag)),
            final(self).pc == old(self).pc,
            final(self).stack_pointer == old(self).stack_pointer,
            final(self).register == old(self).register,
            final(self).flag == old(self).flag,
            final(self).memory.ram@ == old(self).memory.ram@,
            final(self).memory.rom@ == old(self).memory.rom@,
    {
        if condition_holds(cond, self.flag) {
            self.halted = true;
        }
    }
}

} // verus!
