use vstd::prelude::*;
use crate::instruction::{decode_spec, Instruction};

verus! {

/// Width of the framebuffer in pixels.
pub const SCREEN_WIDTH: usize = 64;
/// Height of the framebuffer in pixels.
pub const SCREEN_HEIGHT: usize = 32;

/// What can stop an operation of the machine.
#[derive(Debug, Clone, Copy, PartialEq, Eq, Structural)]
pub enum Chip8Error {
    /// The opcode (carried) encodes no instruction; it was skipped.
    InvalidOpcode(u16),
    /// An address fell outside memory.
    MemoryBounds,
    /// A call found the stack full.
    StackOverflow,
    /// A return found the stack empty.
    StackUnderflow,
    /// A key index was not below sixteen.
    KeyIndexError,
    /// A program does not fit in memory above the load address.
    ProgramTooLarge,
}

/// The whole state of a machine, as mathematical values.
pub struct Chip8State {
    pub memory: Seq<u8>,
    pub regs: Seq<u8>,
    pub index: u16,
    pub delay: u8,
    pub sound: u8,
    pub pc: usize,
    pub sp: usize,
    pub stack: Seq<usize>,
    pub keys: Seq<bool>,
    pub screen: Seq<u8>,
}

/// The built-in font: the sprites of the hexadecimal digits 0 to F.
pub open spec fn font() -> Seq<u8> {
    seq![
        0xF0u8, 0x90, 0x90, 0x90, 0xF0, 0x20, 0x60, 0x20, 0x20, 0x70,
        0xF0, 0x10, 0xF0, 0x80, 0xF0, 0xF0, 0x10, 0xF0, 0x10, 0xF0,
        0x90, 0x90, 0xF0, 0x10, 0x10, 0xF0, 0x80, 0xF0, 0x10, 0xF0,
        0xF0, 0x80, 0xF0, 0x90, 0xF0, 0xF0, 0x10, 0x20, 0x40, 0x40,
        0xF0, 0x90, 0xF0, 0x90, 0xF0, 0xF0, 0x90, 0xF0, 0x10, 0xF0,
        0xF0, 0x90, 0xF0, 0x90, 0x90, 0xE0, 0x90, 0xE0, 0x90, 0xE0,
        0xF0, 0x80, 0x80, 0x80, 0xF0, 0xE0, 0x90, 0x90, 0x90, 0xE0,
        0xF0, 0x80, 0xF0, 0x80, 0xF0, 0xF0, 0x80, 0xF0, 0x80, 0x80,
    ]
}

/// Bit `dc` of a sprite row, counted from the most significant bit.
pub open spec fn row_bit(row: u8, dc: int) -> u8 {
    (row >> ((7 - dc) as u8)) & 1
}

/// The sprite bit that a draw of `n` rows from `base` at `(vx, vy)` lays on
/// the pixel in column `c` and row `r`, with wraparound on both axes.
pub open spec fn sprite_bit(mem: Seq<u8>, base: int, n: int, vx: int, vy: int, c: int, r: int) -> u8 {
    let dr = (r - vy) % 32;
    let dc = (c - vx) % 64;
    if dr < n && dc < 8 {
        row_bit(mem[base + dr], dc)
    } else {
        0
    }
}

impl Chip8State {
    /// The invariant of a machine: sizes, the program counter and stack
    /// pointer in range, return addresses inside memory, pixels 0 or 1.
    pub open spec fn inv(self) -> bool {
        &&& self.memory.len() == 4096
        &&& self.regs.len() == 16
        &&& self.stack.len() == 16
        &&& self.keys.len() == 16
        &&& self.screen.len() == 2048
        &&& self.pc < 4096
        &&& self.sp < 16
        &&& forall|k: int| 0 <= k < 16 ==> #[trigger] self.stack[k] < 4096
        &&& forall|p: int| 0 <= p < 2048 ==> #[trigger] self.screen[p] <= 1
    }

    /// The pixel in column `x` and row `y`, both wrapped.
    pub open spec fn pixel(self, x: int, y: int) -> u8 {
        self.screen[(y % 32) * 64 + x % 64]
    }

    /// `I` masked to a twelve-bit address.
    pub open spec fn base(self) -> int {
        self.index as int % 4096
    }

    /// The opcode at the program counter, big-endian.
    pub open spec fn fetch(self) -> u16 {
        (self.memory[self.pc as int] as int * 256 + self.memory[self.pc + 1] as int) as u16
    }

    /// The state with the program counter moved to `pc`, or `MemoryBounds`
    /// where `pc` lies outside memory.
    pub open spec fn goto(self, pc: int) -> Result<Chip8State, Chip8Error> {
        if pc < 4096 {
            Ok(Chip8State { pc: pc as usize, ..self })
        } else {
            Err(Chip8Error::MemoryBounds)
        }
    }

    /// Advance to the next instruction.
    pub open spec fn next(self) -> Result<Chip8State, Chip8Error> {
        self.goto(self.pc + 2)
    }

    /// Advance past the next instruction where `cond` holds.
    pub open spec fn skip_if(self, cond: bool) -> Result<Chip8State, Chip8Error> {
        self.goto(if cond { self.pc + 4 } else { self.pc + 2 })
    }

    pub open spec fn set_reg(self, x: int, val: u8) -> Chip8State {
        Chip8State { regs: self.regs.update(x, val), ..self }
    }

    /// `Vx = val`, then `VF = flag`: the flag wins where `x` is `VF`.
    pub open spec fn set_with_flag(self, x: int, val: u8, flag: bool) -> Chip8State {
        self.set_reg(x, val).set_reg(15, if flag { 1u8 } else { 0u8 })
    }

    /// The framebuffer after a draw of `n` rows from `I` at `(Vx, Vy)`.
    pub open spec fn drawn(self, x: int, y: int, n: int) -> Seq<u8> {
        Seq::new(
            2048,
            |p: int|
                self.screen[p] ^ sprite_bit(
                    self.memory,
                    self.base(),
                    n,
                    self.regs[x] as int,
                    self.regs[y] as int,
                    p % 64,
                    p / 64,
                ),
        )
    }

    /// Whether that draw lays a set sprite bit on a pixel that is already set.
    pub open spec fn collides(self, x: int, y: int, n: int) -> bool {
        exists|p: int|
            0 <= p < 2048 && self.screen[p] == 1 && #[trigger] sprite_bit(
                self.memory,
                self.base(),
                n,
                self.regs[x] as int,
                self.regs[y] as int,
                p % 64,
                p / 64,
            ) == 1
    }

    /// `k` is the lowest index of a pressed key.
    pub open spec fn lowest_pressed(self, k: int) -> bool {
        &&& 0 <= k < 16
        &&& self.keys[k]
        &&& forall|j: int| 0 <= j < k ==> !#[trigger] self.keys[j]
    }

    /// Some key is pressed.
    pub open spec fn any_pressed(self) -> bool {
        exists|k: int| 0 <= k < 16 && #[trigger] self.keys[k]
    }

    /// The key index held by `Vx`, with that key's flag cleared, or
    /// `KeyIndexError` where `Vx` is not below sixteen.
    pub open spec fn skip_on_key(self, x: int, pressed: bool) -> Result<Chip8State, Chip8Error> {
        let k = self.regs[x] as int;
        if k >= 16 {
            Err(Chip8Error::KeyIndexError)
        } else {
            Chip8State { keys: self.keys.update(k, false), ..self }.skip_if(
                self.keys[k] == pressed,
            )
        }
    }

    /// What executing `ins` does to this state; `rnd` is the random byte
    /// that the random instruction masks.
    pub open spec fn execute(self, ins: Instruction, rnd: u8) -> Result<Chip8State, Chip8Error> {
        let s = self;
        match ins {
            Instruction::Clear => Chip8State { screen: Seq::new(2048, |p: int| 0u8), ..s }.next(),
            Instruction::Return => if s.sp == 0 {
                Err(Chip8Error::StackUnderflow)
            } else {
                Ok(Chip8State { pc: s.stack[s.sp as int], sp: (s.sp - 1) as usize, ..s })
            },
            Instruction::Jump(a) => s.goto(a as int),
            Instruction::Call(a) => if s.sp + 1 >= 16 {
                Err(Chip8Error::StackOverflow)
            } else if s.pc + 2 >= 4096 {
                Err(Chip8Error::MemoryBounds)
            } else {
                Chip8State {
                    sp: (s.sp + 1) as usize,
                    stack: s.stack.update(s.sp + 1, (s.pc + 2) as usize),
                    ..s
                }.goto(a as int)
            },
            Instruction::SkipEqByte(x, kk) => s.skip_if(s.regs[x as int] == kk),
            Instruction::SkipNeByte(x, kk) => s.skip_if(s.regs[x as int] != kk),
            Instruction::SkipEqReg(x, y) => s.skip_if(s.regs[x as int] == s.regs[y as int]),
            Instruction::SkipNeReg(x, y) => s.skip_if(s.regs[x as int] != s.regs[y as int]),
            Instruction::LoadByte(x, kk) => s.set_reg(x as int, kk).next(),
            Instruction::AddByte(x, kk) => s.set_reg(
                x as int,
                ((s.regs[x as int] + kk) % 256) as u8,
            ).next(),
            Instruction::Move(x, y) => s.set_reg(x as int, s.regs[y as int]).next(),
            Instruction::Or(x, y) => s.set_reg(x as int, s.regs[x as int] | s.regs[y as int]).next(),
            Instruction::And(x, y) => s.set_reg(x as int, s.regs[x as int] & s.regs[y as int]).next(),
            Instruction::Xor(x, y) => s.set_reg(x as int, s.regs[x as int] ^ s.regs[y as int]).next(),
            Instruction::AddReg(x, y) => {
                let sum = s.regs[x as int] + s.regs[y as int];
                s.set_with_flag(x as int, (sum % 256) as u8, sum > 255).next()
            },
            Instruction::Sub(x, y) => {
                let a = s.regs[x as int];
                let b = s.regs[y as int];
                s.set_with_flag(x as int, ((a - b) % 256) as u8, a > b).next()
            },
            Instruction::SubReverse(x, y) => {
                let a = s.regs[x as int];
                let b = s.regs[y as int];
                s.set_with_flag(x as int, ((b - a) % 256) as u8, b > a).next()
            },
            Instruction::ShiftRight(x, _) => {
                let a = s.regs[x as int];
                s.set_with_flag(x as int, a >> 1u8, a & 1 == 1).next()
            },
            Instruction::ShiftLeft(x, _) => {
                let a = s.regs[x as int];
                s.set_with_flag(x as int, a << 1u8, a >> 7u8 == 1).next()
            },
            Instruction::LoadIndex(a) => Chip8State { index: a, ..s }.next(),
            Instruction::JumpOffset(a) => s.goto(a + s.regs[0]),
            Instruction::Random(x, kk) => s.set_reg(x as int, rnd & kk).next(),
            Instruction::Draw(x, y, n) => if s.base() + n > 4096 {
                Err(Chip8Error::MemoryBounds)
            } else {
                Chip8State {
                    screen: s.drawn(x as int, y as int, n as int),
                    regs: s.regs.update(15, if s.collides(x as int, y as int, n as int) { 1u8 } else { 0u8 }),
                    ..s
                }.next()
            },
            Instruction::SkipKey(x) => s.skip_on_key(x as int, true),
            Instruction::SkipNoKey(x) => s.skip_on_key(x as int, false),
            Instruction::LoadDelay(x) => s.set_reg(x as int, s.delay).next(),
            Instruction::WaitKey(x) => if s.any_pressed() {
                let k = choose|k: int| s.lowest_pressed(k);
                Chip8State { keys: s.keys.update(k, false), ..s }.set_reg(x as int, k as u8).next()
            } else {
                Ok(s)
            },
            Instruction::SetDelay(x) => Chip8State { delay: s.regs[x as int], ..s }.next(),
            Instruction::SetSound(x) => Chip8State { sound: s.regs[x as int], ..s }.next(),
            Instruction::AddIndex(x) => Chip8State {
                index: ((s.index + s.regs[x as int]) % 65536) as u16,
                ..s
            }.next(),
            Instruction::LoadFont(x) => Chip8State { index: (5 * s.regs[x as int]) as u16, ..s }.next(),
            Instruction::StoreBcd(x) => {
                let v = s.regs[x as int];
                let b = s.base();
                if b + 3 > 4096 {
                    Err(Chip8Error::MemoryBounds)
                } else {
                    Chip8State {
                        memory: s.memory.update(b, v / 100).update(b + 1, (v / 10) % 10).update(
                            b + 2,
                            v % 10,
                        ),
                        ..s
                    }.next()
                }
            },
            Instruction::StoreRegs(x) => {
                let b = s.base();
                if b + x + 1 > 4096 {
                    Err(Chip8Error::MemoryBounds)
                } else {
                    Chip8State {
                        memory: Seq::new(
                            4096,
                            |a: int|
                                if b <= a <= b + x {
                                    s.regs[a - b]
                                } else {
                                    s.memory[a]
                                },
                        ),
                        ..s
                    }.next()
                }
            },
            Instruction::LoadRegs(x) => {
                let b = s.base();
                if b + x + 1 > 4096 {
                    Err(Chip8Error::MemoryBounds)
                } else {
                    Chip8State {
                        regs: Seq::new(
                            16,
                            |r: int|
                                if r <= x {
                                    s.memory[b + r]
                                } else {
                                    s.regs[r]
                                },
                        ),
                        ..s
                    }.next()
                }
            },
        }
    }

    /// One fetch-decode-execute step: the state after it and what it reports.
    /// A fault leaves the state as it was; an unknown opcode is stepped over.
    pub open spec fn step(self, rnd: u8) -> (Chip8State, Result<u16, Chip8Error>) {
        if self.pc + 1 >= 4096 {
            (self, Err(Chip8Error::MemoryBounds))
        } else {
            let op = self.fetch();
            match decode_spec(op) {
                None => match self.next() {
                    Ok(t) => (t, Err(Chip8Error::InvalidOpcode(op))),
                    Err(e) => (self, Err(e)),
                },
                Some(ins) => match self.execute(ins, rnd) {
                    Ok(t) => (t, Ok(op)),
                    Err(e) => (self, Err(e)),
                },
            }
        }
    }

    /// The next step runs the random instruction, the one step that
    /// depends on a random byte.
    pub open spec fn draws_random(self) -> bool {
        self.pc + 1 < 4096 && self.fetch() / 4096 == 0xC
    }

    /// The timers after one tick: each decremented, floored at zero.
    pub open spec fn tick(self) -> Chip8State {
        Chip8State {
            delay: if self.delay > 0 { (self.delay - 1) as u8 } else { 0 },
            sound: if self.sound > 0 { (self.sound - 1) as u8 } else { 0 },
            ..self
        }
    }
}

/// `r` reports the outcome `expected` of an operation that took a machine
/// from `before` to `after`: on success `after` is the new state, on a fault
/// the state is unchanged.
pub open spec fn applied(
    before: Chip8State,
    after: Chip8State,
    r: Result<(), Chip8Error>,
    expected: Result<Chip8State, Chip8Error>,
) -> bool {
    match expected {
        Ok(t) => r is Ok && after == t,
        Err(e) => r == Err::<(), Chip8Error>(e) && after == before,
    }
}

/// XOR keeps pixel values 0 or 1.
pub(crate) proof fn lemma_xor_of_bits(a: u8, b: u8)
    requires
        a <= 1,
        b <= 1,
    ensures
        a ^ b <= 1,
{
    assert(a ^ b <= 1) by (bit_vector)
        requires
            a <= 1,
            b <= 1,
    ;
}

/// XOR with zero is the identity.
pub(crate) proof fn lemma_xor_zero(a: u8)
    ensures
        a ^ 0 == a,
{
    assert(a ^ 0 == a) by (bit_vector);
}

/// A sprite bit is 0 or 1.
pub(crate) proof fn lemma_row_bit(row: u8, dc: int)
    requires
        0 <= dc < 8,
    ensures
        row_bit(row, dc) <= 1,
{
    let k = (7 - dc) as u8;
    assert((row >> k) & 1 <= 1) by (bit_vector);
}

} // verus!
