//! Machine state and the fetch-decode-execute step of the CHIP-8 instruction set.
use vstd::prelude::*;

use crate::screen::{collides, drawn, pixel_of, Screen};

verus! {

/// Size of the address space, in bytes.
pub const MEMORY_SIZE: usize = 4096;

/// Address at which programs are loaded and execution starts.
pub const PROGRAM_START: usize = 0x200;

/// Number of return addresses the call stack holds.
pub const STACK_DEPTH: u16 = 16;

/// Milliseconds between two timer ticks (about 60 Hz).
pub const TICK_MS: u64 = 16;

/// A condition that stops the machine.
#[derive(Clone, Copy, Debug, PartialEq, Eq, Structural)]
pub enum Fault {
    /// An instruction word that no instruction decodes to.
    UnknownOpcode(u16),
    /// A call with all sixteen stack slots in use.
    StackOverflow,
    /// A return with an empty stack.
    StackUnderflow,
    /// A fetch, load or store outside the 4096-byte address space.
    AddressOutOfRange,
    /// A key test on a register that names no key.
    InvalidKey(u8),
    /// A program larger than the space above the program start.
    RomTooLarge,
}

/// The mathematical state of a machine.
pub struct MachineView {
    pub memory: Seq<u8>,
    pub v: Seq<u8>,
    pub i: u16,
    pub pc: u16,
    pub screen: Seq<bool>,
    pub timer: u8,
    pub stack: Seq<u16>,
    pub sp: u16,
    pub keys: Seq<bool>,
    pub last_tick: u64,
}

/// The sixteen hexadecimal digit glyphs, five rows each.
pub open spec fn font() -> Seq<u8> {
    seq![
        0xF0, 0x90, 0x90, 0x90, 0xF0, 0x20, 0x60, 0x20, 0x20, 0x70,
        0xF0, 0x10, 0xF0, 0x80, 0xF0, 0xF0, 0x10, 0xF0, 0x10, 0xF0,
        0x90, 0x90, 0xF0, 0x10, 0x10, 0xF0, 0x80, 0xF0, 0x10, 0xF0,
        0xF0, 0x80, 0xF0, 0x90, 0xF0, 0xF0, 0x10, 0x20, 0x40, 0x40,
        0xF0, 0x90, 0xF0, 0x90, 0xF0, 0xF0, 0x90, 0xF0, 0x10, 0xF0,
        0xF0, 0x90, 0xF0, 0x90, 0x90, 0xE0, 0x90, 0xE0, 0x90, 0xE0,
        0xF0, 0x80, 0x80, 0x80, 0xF0, 0xE0, 0x90, 0x90, 0x90, 0xE0,
        0xF0, 0x80, 0xF0, 0x80, 0xF0, 0xF0, 0x80, 0xF0, 0x80, 0x80,
    ]
}

/// Sizes of the state's parts.
pub open spec fn valid(m: MachineView) -> bool {
    &&& m.memory.len() == 4096
    &&& m.v.len() == 16
    &&& m.screen.len() == 2048
    &&& m.stack.len() == 16
    &&& m.sp <= 16
    &&& m.keys.len() == 16
}

/// A freshly built machine.
pub open spec fn initial() -> MachineView {
    MachineView {
        memory: Seq::new(4096, |a: int| if a < 80 { font()[a] } else { 0u8 }),
        v: Seq::new(16, |r: int| 0u8),
        i: 0,
        pc: 0x200,
        screen: Seq::new(2048, |k: int| false),
        timer: 0,
        stack: Seq::new(16, |r: int| 0u16),
        sp: 0,
        keys: Seq::new(16, |r: int| false),
        last_tick: 0,
    }
}

/// Memory with `game` copied in from the program start.
pub open spec fn loaded(memory: Seq<u8>, game: Seq<u8>) -> Seq<u8> {
    Seq::new(
        4096,
        |a: int| if 0x200 <= a < 0x200 + game.len() { game[a - 0x200] } else { memory[a] },
    )
}

/// The big-endian instruction word at the program counter.
pub open spec fn fetch(m: MachineView) -> u16 {
    (m.memory[m.pc as int] as int * 256 + m.memory[m.pc + 1] as int) as u16
}

/// Writes `val` to register `r`.
pub open spec fn set_v(m: MachineView, r: int, val: u8) -> MachineView {
    MachineView { v: m.v.update(r, val), ..m }
}

/// Writes `val` to register `r`, then the flag register.
pub open spec fn set_v_flag(m: MachineView, r: int, val: u8, flag: bool) -> MachineView {
    set_v(set_v(m, r, val), 15, if flag { 1u8 } else { 0u8 })
}

/// Skips the next instruction when `c` holds.
pub open spec fn skip_if(m: MachineView, c: bool) -> MachineView {
    if c {
        MachineView { pc: (m.pc + 2) as u16, ..m }
    } else {
        m
    }
}

/// The register-to-register instructions `8XYn`.
pub open spec fn alu(m: MachineView, x: int, y: int, n: int) -> MachineView {
    let vx = m.v[x];
    let vy = m.v[y];
    if n == 0 {
        set_v(m, x, vy)
    } else if n == 1 {
        set_v(m, x, vx | vy)
    } else if n == 2 {
        set_v(m, x, vx & vy)
    } else if n == 3 {
        set_v(m, x, vx ^ vy)
    } else if n == 4 {
        set_v_flag(m, x, ((vx + vy) % 256) as u8, vx + vy >= 256)
    } else if n == 5 {
        set_v_flag(m, x, ((vx - vy) % 256) as u8, vx >= vy)
    } else if n == 6 {
        let m1 = set_v(m, 15, (vx % 2) as u8);
        set_v(m1, x, (m1.v[x] / 2) as u8)
    } else if n == 7 {
        set_v_flag(m, x, ((vy - vx) % 256) as u8, vy >= vx)
    } else if n == 14 {
        let m1 = set_v(m, 15, if vx >= 128 { 1u8 } else { 0u8 });
        set_v(m1, x, ((m1.v[x] * 2) % 256) as u8)
    } else {
        m
    }
}

/// The timer, index and memory instructions `FXnn`.
pub open spec fn misc(m: MachineView, x: int, nn: int) -> Result<MachineView, Fault> {
    let vx = m.v[x];
    if nn == 0x07 {
        Ok(set_v(m, x, m.timer))
    } else if nn == 0x15 {
        Ok(MachineView { timer: vx, ..m })
    } else if nn == 0x1E {
        let i2 = ((m.i + vx) % 65536) as u16;
        Ok(set_v(MachineView { i: i2, ..m }, 15, if i2 > 0xFFF { 1u8 } else { 0u8 }))
    } else if nn == 0x29 {
        Ok(MachineView { i: (vx * 5) as u16, ..m })
    } else if nn == 0x33 {
        if m.i + 3 > 4096 {
            Err(Fault::AddressOutOfRange)
        } else {
            Ok(MachineView {
                memory: m.memory.update(m.i as int, (vx / 100) as u8).update(
                    m.i + 1,
                    ((vx / 10) % 10) as u8,
                ).update(m.i + 2, (vx % 10) as u8),
                ..m
            })
        }
    } else if nn == 0x55 {
        if m.i + x + 1 > 4096 {
            Err(Fault::AddressOutOfRange)
        } else {
            Ok(MachineView {
                memory: Seq::new(
                    4096,
                    |a: int| if m.i <= a <= m.i + x { m.v[a - m.i] } else { m.memory[a] },
                ),
                ..m
            })
        }
    } else if nn == 0x65 {
        if m.i + x + 1 > 4096 {
            Err(Fault::AddressOutOfRange)
        } else {
            Ok(MachineView {
                v: Seq::new(16, |r: int| if r <= x { m.memory[m.i + r] } else { m.v[r] }),
                ..m
            })
        }
    } else {
        Ok(m)
    }
}

/// The effect of instruction `op` on `m`, whose program counter already
/// points past it; `rnd` is the random byte that `CXNN` draws.
pub open spec fn execute_spec(m: MachineView, op: u16, rnd: u8) -> Result<MachineView, Fault> {
    let family = op / 4096;
    let nnn = op % 4096;
    let nn = op % 256;
    let n = op % 16;
    let x = (op / 256) % 16;
    let y = (op / 16) % 16;
    let vx = m.v[x as int];
    let vy = m.v[y as int];
    if family == 0 {
        if nnn == 0x0E0 {
            Ok(MachineView { screen: Seq::new(2048, |k: int| false), ..m })
        } else if nnn == 0x0EE {
            if m.sp == 0 {
                Err(Fault::StackUnderflow)
            } else {
                Ok(MachineView { sp: (m.sp - 1) as u16, pc: m.stack[m.sp - 1], ..m })
            }
        } else {
            Err(Fault::UnknownOpcode(op))
        }
    } else if family == 1 {
        Ok(MachineView { pc: nnn as u16, ..m })
    } else if family == 2 {
        if m.sp >= 16 {
            Err(Fault::StackOverflow)
        } else {
            Ok(
                MachineView {
                    stack: m.stack.update(m.sp as int, m.pc),
                    sp: (m.sp + 1) as u16,
                    pc: nnn as u16,
                    ..m
                },
            )
        }
    } else if family == 3 {
        Ok(skip_if(m, vx == nn))
    } else if family == 4 {
        Ok(skip_if(m, vx != nn))
    } else if family == 5 {
        Ok(skip_if(m, vx == vy))
    } else if family == 6 {
        Ok(set_v(m, x as int, nn as u8))
    } else if family == 7 {
        Ok(set_v(m, x as int, ((vx + nn) % 256) as u8))
    } else if family == 8 {
        Ok(alu(m, x as int, y as int, n as int))
    } else if family == 9 {
        Ok(skip_if(m, vx != vy))
    } else if family == 10 {
        Ok(MachineView { i: nnn as u16, ..m })
    } else if family == 11 {
        Ok(MachineView { pc: (m.v[0] + nnn) as u16, ..m })
    } else if family == 12 {
        Ok(set_v(m, x as int, rnd & (nn as u8)))
    } else if family == 13 {
        if m.i + n > 4096 {
            Err(Fault::AddressOutOfRange)
        } else {
            let sprite = m.memory.subrange(m.i as int, m.i + n);
            Ok(
                set_v(
                    MachineView { screen: drawn(m.screen, vx as int, vy as int, sprite), ..m },
                    15,
                    if collides(m.screen, vx as int, vy as int, sprite) { 1u8 } else { 0u8 },
                ),
            )
        }
    } else if family == 14 {
        if nn == 0x9E || nn == 0xA1 {
            if vx >= 16 {
                Err(Fault::InvalidKey(vx))
            } else {
                Ok(skip_if(m, m.keys[vx as int] == (nn == 0x9E)))
            }
        } else {
            Ok(m)
        }
    } else {
        misc(m, x as int, nn as int)
    }
}

/// One fetch-decode-execute cycle: fetch the word at the program counter,
/// step past it, execute it.
pub open spec fn cycle(m: MachineView, rnd: u8) -> Result<MachineView, Fault> {
    if m.pc + 1 >= 4096 {
        Err(Fault::AddressOutOfRange)
    } else {
        execute_spec(MachineView { pc: (m.pc + 2) as u16, ..m }, fetch(m), rnd)
    }
}

/// Whether `r` reports the outcome `out` of a step from `before` to `after`:
/// the new state on success, the error and the untouched state on failure.
pub open spec fn reports(
    out: Result<MachineView, Fault>,
    before: MachineView,
    after: MachineView,
    r: Result<(), Fault>,
) -> bool {
    match out {
        Ok(m) => r == Ok::<(), Fault>(()) && after == m,
        Err(e) => r == Err::<(), Fault>(e) && after == before,
    }
}

/// Relies on rand's `thread_rng` and `Rng::gen_range`, which samples the
/// half-open range `[low, high)`.
#[verifier::external_body]
fn random_below_256() -> (r: u16)
    ensures
        r < 256,
{
    rand::Rng::gen_range(&mut rand::thread_rng(), 0u16, 256u16)
}

/// A CHIP-8 machine: memory, registers, call stack, timer, key latches and
/// framebuffer.
pub struct Chip8 {
    memory: Vec<u8>,
    v: Vec<u8>,
    i: u16,
    pc: u16,
    screen: Screen,
    delay_timer: u8,
    stack: Vec<u16>,
    sp: u16,
    key: Vec<bool>,
    last_tick: u64,
}

impl View for Chip8 {
    type V = MachineView;

    closed spec fn view(&self) -> MachineView {
        MachineView {
            memory: self.memory@,
            v: self.v@,
            i: self.i,
            pc: self.pc,
            screen: self.screen@,
            timer: self.delay_timer,
            stack: self.stack@,
            sp: self.sp,
            keys: self.key@,
            last_tick: self.last_tick,
        }
    }
}

impl Chip8 {
    pub open spec fn wf(&self) -> bool {
        valid(self@)
    }

    /// A machine with the font in low memory, everything else zeroed and the
    /// program counter at the program start.
    pub fn new() -> (r: Chip8)
        ensures
            r.wf(),
            r@ == initial(),
    {
        let glyphs: Vec<u8> = vec![
            0xF0, 0x90, 0x90, 0x90, 0xF0, 0x20, 0x60, 0x20, 0x20, 0x70,
            0xF0, 0x10, 0xF0, 0x80, 0xF0, 0xF0, 0x10, 0xF0, 0x10, 0xF0,
            0x90, 0x90, 0xF0, 0x10, 0x10, 0xF0, 0x80, 0xF0, 0x10, 0xF0,
            0xF0, 0x80, 0xF0, 0x90, 0xF0, 0xF0, 0x10, 0x20, 0x40, 0x40,
            0xF0, 0x90, 0xF0, 0x90, 0xF0, 0xF0, 0x90, 0xF0, 0x10, 0xF0,
            0xF0, 0x90, 0xF0, 0x90, 0x90, 0xE0, 0x90, 0xE0, 0x90, 0xE0,
            0xF0, 0x80, 0x80, 0x80, 0xF0, 0xE0, 0x90, 0x90, 0x90, 0xE0,
            0xF0, 0x80, 0xF0, 0x80, 0xF0, 0xF0, 0x80, 0xF0, 0x80, 0x80,
        ];
        assert(glyphs@ =~= font());
        let mut memory: Vec<u8> = Vec::new();
        while memory.len() < MEMORY_SIZE
            invariant
                glyphs@ == font(),
                memory.len() <= 4096,
                forall|a: int| 0 <= a < memory.len() ==>
                    memory@[a] == if a < 80 { font()[a] } else { 0u8 },
            decreases 4096 - memory.len(),
        {
            if memory.len() < glyphs.len() {
                memory.push(glyphs[memory.len()]);
            } else {
                memory.push(0);
            }
        }
        let mut v: Vec<u8> = Vec::new();
        let mut stack: Vec<u16> = Vec::new();
        let mut key: Vec<bool> = Vec::new();
        while v.len() < 16
            invariant
                v.len() <= 16,
                stack.len() == v.len(),
                key.len() == v.len(),
                forall|r: int| 0 <= r < v.len() ==> v@[r] == 0 && stack@[r] == 0 && !key@[r],
            decreases 16 - v.len(),
        {
            v.push(0);
            stack.push(0);
            key.push(false);
        }
        let r = Chip8 {
            memory,
            v,
            i: 0,
            pc: 0x200,
            screen: Screen::new(),
            delay_timer: 0,
            stack,
            sp: 0,
            key,
            last_tick: 0,
        };
        assert(r@.memory =~= initial().memory);
        assert(r@.v =~= initial().v);
        assert(r@.stack =~= initial().stack);
        assert(r@.keys =~= initial().keys);
        r
    }

    /// Copies `game` into memory from the program start; fails, changing
    /// nothing, when it does not fit below the end of memory.
    pub fn load_game(&mut self, game: &[u8]) -> (r: Result<(), Fault>)
        requires
            old(self).wf(),
        ensures
            final(self).wf(),
            game@.len() > 4096 - 0x200 ==> r == Err::<(), Fault>(Fault::RomTooLarge)
                && final(self)@ == old(self)@,
            game@.len() <= 4096 - 0x200 ==> r == Ok::<(), Fault>(()) && final(self)@ == (
            MachineView { memory: loaded(old(self)@.memory, game@), ..old(self)@ }),
    {
        if game.len() > MEMORY_SIZE - PROGRAM_START {
            return Err(Fault::RomTooLarge);
        }
        let ghost s0 = self@;
        let ghost m0 = self.memory@;
        let mut k: usize = 0;
        while k < game.len()
            invariant
                valid(s0),
                m0 == s0.memory,
                self@ == (MachineView { memory: self.memory@, ..s0 }),
                game@.len() <= 4096 - 0x200,
                k <= game@.len(),
                self.memory@.len() == 4096,
                forall|a: int| 0 <= a < 4096 ==> self.memory@[a] == if 0x200 <= a < 0x200 + k {
                    game@[a - 0x200]
                } else {
                    m0[a]
                },
            decreases game@.len() - k,
        {
            self.memory.set(PROGRAM_START + k, game[k]);
            k += 1;
        }
        assert(self.memory@ =~= loaded(m0, game@));
        Ok(())
    }

    fn set_reg(&mut self, r: usize, val: u8)
        requires
            old(self).wf(),
            r < 16,
        ensures
            final(self).wf(),
            final(self)@ == set_v(old(self)@, r as int, val),
    {
        self.v.set(r, val);
    }

    fn skip_when(&mut self, c: bool)
        requires
            old(self).pc <= 4096,
        ensures
            final(self)@ == skip_if(old(self)@, c),
    {
        if c {
            self.pc = self.pc + 2;
        }
    }

    fn exec_alu(&mut self, x: usize, y: usize, n: u16)
        requires
            old(self).wf(),
            x < 16,
            y < 16,
        ensures
            final(self).wf(),
            final(self)@ == alu(old(self)@, x as int, y as int, n as int),
    {
        let vx = self.v[x];
        let vy = self.v[y];
        if n == 0 {
            self.set_reg(x, vy);
        } else if n == 1 {
            self.set_reg(x, vx | vy);
        } else if n == 2 {
            self.set_reg(x, vx & vy);
        } else if n == 3 {
            self.set_reg(x, vx ^ vy);
        } else if n == 4 {
            let sum = vx as u16 + vy as u16;
            self.set_reg(x, (sum % 256) as u8);
            self.set_reg(15, if sum >= 256 { 1 } else { 0 });
        } else if n == 5 {
            let diff = if vx >= vy { vx - vy } else { (256 - vy as u16 + vx as u16) as u8 };
            self.set_reg(x, diff);
            self.set_reg(15, if vx >= vy { 1 } else { 0 });
        } else if n == 6 {
            self.set_reg(15, vx % 2);
            let shifted = self.v[x] / 2;
            self.set_reg(x, shifted);
        } else if n == 7 {
            let diff = if vy >= vx { vy - vx } else { (256 - vx as u16 + vy as u16) as u8 };
            self.set_reg(x, diff);
            self.set_reg(15, if vy >= vx { 1 } else { 0 });
        } else if n == 14 {
            self.set_reg(15, if vx >= 0x80 { 1 } else { 0 });
            let shifted = (self.v[x] % 128) * 2;
            self.set_reg(x, shifted);
        }
    }

    fn exec_misc(&mut self, x: usize, nn: u16) -> (r: Result<(), Fault>)
        requires
            old(self).wf(),
            x < 16,
        ensures
            final(self).wf(),
            reports(misc(old(self)@, x as int, nn as int), old(self)@, final(self)@, r),
    {
        let vx = self.v[x];
        if nn == 0x07 {
            let t = self.delay_timer;
            self.set_reg(x, t);
        } else if nn == 0x15 {
            self.delay_timer = vx;
        } else if nn == 0x1E {
            self.i = self.i.wrapping_add(vx as u16);
            self.set_reg(15, if self.i > 0xFFF { 1 } else { 0 });
        } else if nn == 0x29 {
            self.i = vx as u16 * 5;
        } else if nn == 0x33 {
            let a = self.i as usize;
            if a + 3 > MEMORY_SIZE {
                return Err(Fault::AddressOutOfRange);
            }
            self.memory.set(a, vx / 100);
            self.memory.set(a + 1, (vx / 10) % 10);
            self.memory.set(a + 2, vx % 10);
        } else if nn == 0x55 {
            let a = self.i as usize;
            if a + x + 1 > MEMORY_SIZE {
                return Err(Fault::AddressOutOfRange);
            }
            let ghost s0 = self@;
            let mut k: usize = 0;
            while k <= x
                invariant
                    valid(s0),
                    a == s0.i,
                    a + x + 1 <= 4096,
                    x < 16,
                    k <= x + 1,
                    self@ == (MachineView { memory: self@.memory, ..s0 }),
                    self@.memory.len() == 4096,
                    forall|b: int| 0 <= b < 4096 ==> self@.memory[b] == if a <= b < a + k {
                        s0.v[b - a]
                    } else {
                        s0.memory[b]
                    },
                decreases x + 1 - k,
            {
                let val = self.v[k];
                self.memory.set(a + k, val);
                k += 1;
            }
            assert(self@.memory =~= misc(s0, x as int, nn as int)->Ok_0.memory);
        } else if nn == 0x65 {
            let a = self.i as usize;
            if a + x + 1 > MEMORY_SIZE {
                return Err(Fault::AddressOutOfRange);
            }
            let ghost s0 = self@;
            let mut k: usize = 0;
            while k <= x
                invariant
                    valid(s0),
                    a == s0.i,
                    a + x + 1 <= 4096,
                    x < 16,
                    k <= x + 1,
                    self@ == (MachineView { v: self@.v, ..s0 }),
                    self@.v.len() == 16,
                    forall|r: int| 0 <= r < 16 ==> self@.v[r] == if r < k {
                        s0.memory[a + r]
                    } else {
                        s0.v[r]
                    },
                decreases x + 1 - k,
            {
                let val = self.memory[a + k];
                self.v.set(k, val);
                k += 1;
            }
            assert(self@.v =~= misc(s0, x as int, nn as int)->Ok_0.v);
        }
        Ok(())
    }

    fn execute(&mut self, op: u16, rnd: u8) -> (r: Result<(), Fault>)
        requires
            old(self).wf(),
            old(self).pc <= 4096,
        ensures
            final(self).wf(),
            reports(execute_spec(old(self)@, op, rnd), old(self)@, final(self)@, r),
    {
        let family = op / 4096;
        let nnn = op % 4096;
        let nn = op % 256;
        let n = op % 16;
        let x = ((op / 256) % 16) as usize;
        let y = ((op / 16) % 16) as usize;
        let vx = self.v[x];
        let vy = self.v[y];
        if family == 0 {
            if nnn == 0x0E0 {
                self.screen.clear();
            } else if nnn == 0x0EE {
                if self.sp == 0 {
                    return Err(Fault::StackUnderflow);
                }
                self.sp = self.sp - 1;
                self.pc = self.stack[self.sp as usize];
            } else {
                return Err(Fault::UnknownOpcode(op));
            }
        } else if family == 1 {
            self.pc = nnn;
        } else if family == 2 {
            if self.sp >= STACK_DEPTH {
                return Err(Fault::StackOverflow);
            }
            self.stack.set(self.sp as usize, self.pc);
            self.sp = self.sp + 1;
            self.pc = nnn;
        } else if family == 3 {
            self.skip_when(vx as u16 == nn);
        } else if family == 4 {
            self.skip_when(vx as u16 != nn);
        } else if family == 5 {
            self.skip_when(vx == vy);
        } else if family == 6 {
            self.set_reg(x, nn as u8);
        } else if family == 7 {
            self.set_reg(x, ((vx as u16 + nn) % 256) as u8);
        } else if family == 8 {
            self.exec_alu(x, y, n);
        } else if family == 9 {
            self.skip_when(vx != vy);
        } else if family == 10 {
            self.i = nnn;
        } else if family == 11 {
            self.pc = self.v[0] as u16 + nnn;
        } else if family == 12 {
            self.set_reg(x, rnd & (nn as u8));
        } else if family == 13 {
            let start = self.i as usize;
            let end = start + n as usize;
            if end > MEMORY_SIZE {
                return Err(Fault::AddressOutOfRange);
            }
            let sprite = vstd::slice::slice_subrange(self.memory.as_slice(), start, end);
            let flipped = self.screen.draw(vx as usize, vy as usize, sprite);
            self.set_reg(15, if flipped { 1 } else { 0 });
        } else if family == 14 {
            if nn == 0x9E || nn == 0xA1 {
                if vx >= 16 {
                    return Err(Fault::InvalidKey(vx));
                }
                let held = self.key[vx as usize];
                self.skip_when(held == (nn == 0x9E));
            }
        } else {
            return self.exec_misc(x, nn);
        }
        Ok(())
    }

    /// Runs one fetch-decode-execute cycle, with `rnd` as the byte that a
    /// random-number instruction draws. On a fault the machine is left as it
    /// was.
    pub fn step(&mut self, rnd: u8) -> (r: Result<(), Fault>)
        requires
            old(self).wf(),
        ensures
            final(self).wf(),
            reports(cycle(old(self)@, rnd), old(self)@, final(self)@, r),
    {
        let pc = self.pc;
        if pc as usize + 1 >= MEMORY_SIZE {
            return Err(Fault::AddressOutOfRange);
        }
        let hi = self.memory[pc as usize];
        let lo = self.memory[pc as usize + 1];
        let op = (hi as u16) * 256 + lo as u16;
        self.pc = pc + 2;
        let r = self.execute(op, rnd);
        if r.is_err() {
            self.pc = pc;
        }
        r
    }

    /// Runs one fetch-decode-execute cycle, drawing a fresh random byte for
    /// the random-number instruction.
    pub fn emulate_cycle(&mut self) -> (r: Result<(), Fault>)
        requires
            old(self).wf(),
        ensures
            final(self).wf(),
            exists|rnd: u8| reports(cycle(old(self)@, rnd), old(self)@, final(self)@, r),
    {
        let rnd = random_below_256() as u8;
        self.step(rnd)
    }

    /// Whether a timer tick is due at time `now_ms`: at least `TICK_MS`
    /// milliseconds after the last one. A due tick becomes the last one.
    pub fn do_tick(&mut self, now_ms: u64) -> (r: bool)
        ensures
            r == (now_ms >= old(self)@.last_tick + 16),
            final(self)@ == if r {
                MachineView { last_tick: now_ms, ..old(self)@ }
            } else {
                old(self)@
            },
    {
        if now_ms >= self.last_tick && now_ms - self.last_tick >= TICK_MS {
            self.last_tick = now_ms;
            true
        } else {
            false
        }
    }

    /// Counts the timer down by one, stopping at zero.
    pub fn tick_timer(&mut self)
        ensures
            final(self)@ == (MachineView {
                timer: if old(self)@.timer > 0 { (old(self)@.timer - 1) as u8 } else { 0u8 },
                ..old(self)@
            }),
    {
        if self.delay_timer > 0 {
            self.delay_timer = self.delay_timer - 1;
        }
    }

    /// Handles the clock reading `now_ms`: when a tick is due, counts the
    /// timer down and returns true, meaning the display should be refreshed.
    pub fn on_clock(&mut self, now_ms: u64) -> (r: bool)
        ensures
            r == (now_ms >= old(self)@.last_tick + 16),
            final(self)@ == if r {
                MachineView {
                    last_tick: now_ms,
                    timer: if old(self)@.timer > 0 { (old(self)@.timer - 1) as u8 } else { 0u8 },
                    ..old(self)@
                }
            } else {
                old(self)@
            },
    {
        let due = self.do_tick(now_ms);
        if due {
            self.tick_timer();
        }
        due
    }

    /// Latches key `k` as held or released.
    pub fn set_key(&mut self, k: usize, pressed: bool)
        requires
            old(self).wf(),
            k < 16,
        ensures
            final(self).wf(),
            final(self)@ == (MachineView { keys: old(self)@.keys.update(k as int, pressed), ..old(self)@ }),
    {
        self.key.set(k, pressed);
    }

    /// Whether key `k` is held.
    pub fn key_held(&self, k: usize) -> (r: bool)
        requires
            self.wf(),
            k < 16,
        ensures
            r == self@.keys[k as int],
    {
        self.key[k]
    }

    /// Register `V[r]`.
    pub fn register(&self, r: usize) -> (val: u8)
        requires
            self.wf(),
            r < 16,
        ensures
            val == self@.v[r as int],
    {
        self.v[r]
    }

    /// The index register.
    pub fn index(&self) -> (r: u16)
        ensures
            r == self@.i,
    {
        self.i
    }

    /// The program counter.
    pub fn program_counter(&self) -> (r: u16)
        ensures
            r == self@.pc,
    {
        self.pc
    }

    /// The number of return addresses on the stack.
    pub fn stack_depth(&self) -> (r: u16)
        ensures
            r == self@.sp,
    {
        self.sp
    }

    /// The timer's value.
    pub fn delay_timer(&self) -> (r: u8)
        ensures
            r == self@.timer,
    {
        self.delay_timer
    }

    /// The byte at address `a`.
    pub fn memory_at(&self, a: usize) -> (r: u8)
        requires
            self.wf(),
            a < 4096,
        ensures
            r == self@.memory[a as int],
    {
        self.memory[a]
    }

    /// The pixel at column `x`, row `y`.
    pub fn pixel(&self, x: usize, y: usize) -> (r: bool)
        requires
            self.wf(),
            x < 64,
            y < 32,
        ensures
            r == pixel_of(self@.screen, x as int, y as int),
    {
        self.screen.get(x, y)
    }
}

} // verus!
