//! Addition and subtraction at the three operand widths, with the zero and
//! carry flags they set.

use vstd::prelude::*;
use crate::cpu::Flags;

verus! {

/// Operand width of an instruction.
#[derive(Copy, Clone, Debug, PartialEq, Eq, Structural)]
pub enum Size {
    Byte,
    Half,
    Word,
}

/// One more than the largest value of a width.
pub open spec fn modulus(size: Size) -> nat {
    match size {
        Size::Byte => 0x100,
        Size::Half => 0x1_0000,
        Size::Word => 0x1_0000_0000,
    }
}

fn modulus_of(size: Size) -> (r: u64)
    ensures
        r == modulus(size),
{
    match size {
        Size::Byte => 0x100,
        Size::Half => 0x1_0000,
        Size::Word => 0x1_0000_0000,
    }
}

/// The operand as the instruction sees it: its low bits at the given width.
pub open spec fn operand(size: Size, a: u32) -> nat {
    a as nat % modulus(size)
}

/// Sum of the operands at the given width, wrapped around.
pub open spec fn add_spec(size: Size, a: u32, b: u32) -> nat {
    (operand(size, a) + operand(size, b)) % modulus(size)
}

/// Difference of the operands at the given width, wrapped around.
pub open spec fn sub_spec(size: Size, a: u32, b: u32) -> nat {
    ((operand(size, a) - operand(size, b)) % (modulus(size) as int)) as nat
}

/// Adds at width `size`. The zero flag says the result is zero, the carry
/// flag that the sum did not fit; interrupt enable is kept.
pub fn add(size: Size, a: u32, b: u32, flags: Flags) -> (r: (u32, Flags))
    ensures
        r.0 == add_spec(size, a, b),
        r.1.zero == (r.0 == 0),
        r.1.carry == (operand(size, a) + operand(size, b) >= modulus(size)),
        r.1.interrupt == flags.interrupt,
{
    let m = modulus_of(size);
    let sum = a as u64 % m + b as u64 % m;
    let carry = sum >= m;
    let v = if carry { sum - m } else { sum };
    let res = v as u32;
    (res, Flags { zero: res == 0, carry, interrupt: flags.interrupt })
}

/// Subtracts `b` from `a` at width `size`. The zero flag says the result is
/// zero, the carry flag that a borrow was needed; interrupt enable is kept.
pub fn sub(size: Size, a: u32, b: u32, flags: Flags) -> (r: (u32, Flags))
    ensures
        r.0 == sub_spec(size, a, b),
        r.1.zero == (r.0 == 0),
        r.1.carry == (operand(size, a) < operand(size, b)),
        r.1.interrupt == flags.interrupt,
{
    let m = modulus_of(size);
    let x = a as u64 % m;
    let y = b as u64 % m;
    let borrow = x < y;
    let v = if borrow { m - y + x } else { x - y };
    let res = v as u32;
    (res, Flags { zero: res == 0, carry: borrow, interrupt: flags.interrupt })
}

/// Divides `a` by `b` at width `size`, rounding down; `None` when `b` is
/// zero at that width.
pub fn div(size: Size, a: u32, b: u32) -> (r: Option<u32>)
    ensures
        operand(size, b) == 0 ==> r is None,
        operand(size, b) != 0 ==> r == Some((operand(size, a) / operand(size, b)) as u32),
{
    let m = modulus_of(size);
    let x = a as u64 % m;
    let y = b as u64 % m;
    if y == 0 {
        None
    } else {
        proof {
            assert(x / y <= x) by (nonlinear_arith)
                requires y > 0, x >= 0;
        }
        Some((x / y) as u32)
    }
}

/// Subtracting what was added gives the first operand back, at its width,
/// and the subtraction borrows exactly when the addition carried.
pub proof fn lemma_add_sub_round_trip(size: Size, a: u32, b: u32)
    ensures
        add_spec(size, a, b) < 0x1_0000_0000,
        sub_spec(size, add_spec(size, a, b) as u32, b) == operand(size, a),
        (operand(size, add_spec(size, a, b) as u32) < operand(size, b))
            == (operand(size, a) + operand(size, b) >= modulus(size)),
{
    let m = modulus(size);
    let x = operand(size, a);
    let y = operand(size, b);
    let r = add_spec(size, a, b);
    assert(r < m && m <= 0x1_0000_0000);
    assert(operand(size, r as u32) == r);
    if x + y >= m {
        assert(r == x + y - m);
        assert((r - y) % (m as int) == x) by {
            assert(r - y == x - m);
        }
    } else {
        assert(r == x + y);
    }
}

} // verus!
