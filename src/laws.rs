//! Properties of the instruction set that hold of every machine state.
use vstd::prelude::*;

use crate::machine::{cycle, fetch, valid, MachineView};

verus! {

/// The instruction word `8XYn`.
pub open spec fn reg_op(x: int, y: int, n: int) -> int {
    0x8000 + x * 256 + y * 16 + n
}

/// Add with carry `8XY4` leaves `(a + b) mod 256` in `V[X]` and sets the flag
/// register to 1 exactly when `a + b` reaches 256. When `X` is the flag
/// register itself the flag, written last, is what remains.
pub proof fn lemma_add_with_carry(m: MachineView, x: int, y: int, rnd: u8)
    requires
        valid(m),
        0 <= x < 16,
        0 <= y < 16,
        m.pc + 1 < 4096,
        fetch(m) == reg_op(x, y, 4),
    ensures
        cycle(m, rnd) is Ok,
        cycle(m, rnd)->Ok_0.v[15] == if m.v[x] + m.v[y] >= 256 { 1u8 } else { 0u8 },
        x != 15 ==> cycle(m, rnd)->Ok_0.v[x] == (m.v[x] + m.v[y]) % 256,
{
    let op = fetch(m);
    assert(op / 4096 == 8 && op % 16 == 4 && (op / 256) % 16 == x && (op / 16) % 16 == y);
}

/// Subtract with borrow `8XY5` leaves `(a - b) mod 256` in `V[X]` and sets the
/// flag register to 1 exactly when `a >= b`. When `X` is the flag register
/// itself the flag, written last, is what remains.
pub proof fn lemma_sub_with_borrow(m: MachineView, x: int, y: int, rnd: u8)
    requires
        valid(m),
        0 <= x < 16,
        0 <= y < 16,
        m.pc + 1 < 4096,
        fetch(m) == reg_op(x, y, 5),
    ensures
        cycle(m, rnd) is Ok,
        cycle(m, rnd)->Ok_0.v[15] == if m.v[x] >= m.v[y] { 1u8 } else { 0u8 },
        x != 15 ==> cycle(m, rnd)->Ok_0.v[x] == (m.v[x] - m.v[y]) % 256,
{
}

/// Shift right `8XY6` puts the bit shifted out, the least significant one, in
/// the flag register; shift left `8XYE` puts the most significant one there.
/// When `X` is the flag register the shifted value, written last, remains.
pub proof fn lemma_shift_flags(m: MachineView, x: int, y: int, rnd: u8)
    requires
        valid(m),
        0 <= x < 16,
        0 <= y < 16,
        m.pc + 1 < 4096,
        fetch(m) == reg_op(x, y, 6) || fetch(m) == reg_op(x, y, 14),
    ensures
        cycle(m, rnd) is Ok,
        x != 15 && fetch(m) == reg_op(x, y, 6) ==> cycle(m, rnd)->Ok_0.v[15] == m.v[x] % 2
            && cycle(m, rnd)->Ok_0.v[x] == m.v[x] / 2,
        x != 15 && fetch(m) == reg_op(x, y, 14) ==> cycle(m, rnd)->Ok_0.v[15] == (if m.v[x]
            >= 128 { 1u8 } else { 0u8 }) && cycle(m, rnd)->Ok_0.v[x] == (m.v[x] * 2) % 256,
{
}

/// A call `2NNN` followed by a return `00EE` at `NNN` brings the program
/// counter back to the instruction after the call, with the stack as deep as
/// before.
pub proof fn lemma_call_return(m: MachineView, nnn: int, rnd: u8)
    requires
        valid(m),
        m.sp < 16,
        m.pc + 1 < 4096,
        0 <= nnn < 4095,
        fetch(m) == 0x2000 + nnn,
        m.memory[nnn] == 0x00,
        m.memory[nnn + 1] == 0xEE,
    ensures
        cycle(m, rnd) is Ok,
        cycle(cycle(m, rnd)->Ok_0, rnd) is Ok,
        cycle(cycle(m, rnd)->Ok_0, rnd)->Ok_0.pc == m.pc + 2,
        cycle(cycle(m, rnd)->Ok_0, rnd)->Ok_0.sp == m.sp,
{
    let m1 = cycle(m, rnd)->Ok_0;
    assert(m1.pc == nnn);
    assert(fetch(m1) == 0x00EE);
}

} // verus!
