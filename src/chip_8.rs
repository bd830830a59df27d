use vstd::prelude::*;
use crate::instruction::{decode, decode_spec, Instruction};
use crate::machine::{
    applied, font, lemma_row_bit, lemma_xor_of_bits, lemma_xor_zero, row_bit, sprite_bit,
    Chip8Error, Chip8State,
};

verus! {

pub use crate::machine::{SCREEN_HEIGHT, SCREEN_WIDTH};

/// A CHIP-8 machine: memory, registers, call stack, timers, keypad and
/// framebuffer, all owned by one value.
pub struct Chip8 {
    memory: Vec<u8>,
    regs: Vec<u8>,
    index: u16,
    sound: u8,
    delay: u8,
    pc: usize,
    sp: usize,
    stack: Vec<usize>,
    keys: Vec<bool>,
    screen: Vec<u8>,
}

impl View for Chip8 {
    type V = Chip8State;

    closed spec fn view(&self) -> Chip8State {
        Chip8State {
            memory: self.memory@,
            regs: self.regs@,
            index: self.index,
            delay: self.delay,
            sound: self.sound,
            pc: self.pc,
            sp: self.sp,
            stack: self.stack@,
            keys: self.keys@,
            screen: self.screen@,
        }
    }
}

/// A fresh machine over `memory`: program counter at the load address,
/// everything else zero.
pub open spec fn initial_state(memory: Seq<u8>) -> Chip8State {
    Chip8State {
        memory,
        regs: Seq::new(16, |i: int| 0u8),
        index: 0,
        delay: 0,
        sound: 0,
        pc: 0x200,
        sp: 0,
        stack: Seq::new(16, |i: int| 0usize),
        keys: Seq::new(16, |i: int| false),
        screen: Seq::new(2048, |i: int| 0u8),
    }
}

/// Memory right after loading `program`: the font at offset 0, the program
/// from the load address, zero elsewhere.
pub open spec fn loaded_memory(program: Seq<u8>) -> Seq<u8> {
    Seq::new(
        4096,
        |a: int|
            if a < 80 {
                font()[a]
            } else if 0x200 <= a < 0x200 + program.len() {
                program[a - 0x200]
            } else {
                0u8
            },
    )
}

/// A vector of `n` copies of `v`.
fn filled<T: Copy>(v: T, n: usize) -> (r: Vec<T>)
    ensures
        r@ == Seq::new(n as nat, |i: int| v),
{
    let mut r: Vec<T> = Vec::new();
    let mut i: usize = 0;
    while i < n
        invariant
            i <= n,
            r@ =~= Seq::new(i as nat, |k: int| v),
        decreases n - i,
    {
        r.push(v);
        i += 1;
    }
    r
}

/// The built-in font as bytes.
fn font_table() -> (r: Vec<u8>)
    ensures
        r@ == font(),
{
    let r: Vec<u8> = vec![
        0xF0u8, 0x90, 0x90, 0x90, 0xF0, 0x20, 0x60, 0x20, 0x20, 0x70,
        0xF0, 0x10, 0xF0, 0x80, 0xF0, 0xF0, 0x10, 0xF0, 0x10, 0xF0,
        0x90, 0x90, 0xF0, 0x10, 0x10, 0xF0, 0x80, 0xF0, 0x10, 0xF0,
        0xF0, 0x80, 0xF0, 0x90, 0xF0, 0xF0, 0x10, 0x20, 0x40, 0x40,
        0xF0, 0x90, 0xF0, 0x90, 0xF0, 0xF0, 0x90, 0xF0, 0x10, 0xF0,
        0xF0, 0x90, 0xF0, 0x90, 0x90, 0xE0, 0x90, 0xE0, 0x90, 0xE0,
        0xF0, 0x80, 0x80, 0x80, 0xF0, 0xE0, 0x90, 0x90, 0x90, 0xE0,
        0xF0, 0x80, 0xF0, 0x80, 0xF0, 0xF0, 0x80, 0xF0, 0x80, 0x80,
    ];
    assert(r@ =~= font());
    r
}

impl Chip8 {
    /// The machine invariant holds.
    pub open spec fn wf(&self) -> bool {
        self@.inv()
    }

    /// A machine with all memory, registers, timers, keys and pixels zero
    /// and the program counter at the load address.
    pub fn new() -> (r: Chip8)
        ensures
            r.wf(),
            r@ == initial_state(Seq::new(4096, |a: int| 0u8)),
    {
        Chip8 {
            memory: filled(0u8, 4096),
            regs: filled(0u8, 16),
            index: 0,
            sound: 0,
            delay: 0,
            pc: 0x200,
            sp: 0,
            stack: filled(0usize, 16),
            keys: filled(false, 16),
            screen: filled(0u8, 2048),
        }
    }

    /// A machine with the font and `program` loaded, ready to run it;
    /// `ProgramTooLarge` where the program does not fit above the load address.
    pub fn start(program: &[u8]) -> (r: Result<Chip8, Chip8Error>)
        ensures
            program@.len() <= 4096 - 0x200 <==> r is Ok,
            r matches Ok(c) ==> c.wf() && c@ == initial_state(loaded_memory(program@)),
            r matches Ok(c) ==> c@.memory.subrange(0, 80) == font(),
            r matches Err(e) ==> e == Chip8Error::ProgramTooLarge,
    {
        let len = program.len();
        if len > 4096 - 0x200 {
            return Err(Chip8Error::ProgramTooLarge);
        }
        let table = font_table();
        let mut memory: Vec<u8> = Vec::new();
        let mut a: usize = 0;
        while a < 4096
            invariant
                a <= 4096,
                len == program@.len(),
                len <= 4096 - 0x200,
                table@ == font(),
                memory@ =~= loaded_memory(program@).subrange(0, a as int),
            decreases 4096 - a,
        {
            let b: u8 = if a < 80 {
                table[a]
            } else if 0x200 <= a && a < 0x200 + len {
                program[a - 0x200]
            } else {
                0
            };
            memory.push(b);
            a += 1;
        }
        assert(memory@ =~= loaded_memory(program@));
        assert(memory@.subrange(0, 80) =~= font());
        let mut c = Chip8::new();
        c.memory = memory;
        Ok(c)
    }

    /// One timer tick: both timers decremented, floored at zero.
    pub fn update(&mut self)
        requires
            old(self).wf(),
        ensures
            final(self).wf(),
            final(self)@ == old(self)@.tick(),
            final(self)@.delay <= old(self)@.delay,
            final(self)@.sound <= old(self)@.sound,
    {
        if self.delay > 0 {
            self.delay = self.delay - 1;
        }
        if self.sound > 0 {
            self.sound = self.sound - 1;
        }
    }

    /// Marks key `x` pressed; `KeyIndexError`, and no change, where `x` is
    /// not below sixteen.
    pub fn set_key(&mut self, x: usize) -> (r: Result<(), Chip8Error>)
        requires
            old(self).wf(),
        ensures
            final(self).wf(),
            x < 16 <==> r is Ok,
            x < 16 ==> final(self)@ == (Chip8State { keys: old(self)@.keys.update(x as int, true), ..old(self)@ }),
            x >= 16 ==> r == Err::<(), Chip8Error>(Chip8Error::KeyIndexError) && final(self)@ == old(self)@,
    {
        if x >= 16 {
            return Err(Chip8Error::KeyIndexError);
        }
        self.keys.set(x, true);
        Ok(())
    }

    /// Replaces the whole keypad state with `keys`.
    pub fn set_keys(&mut self, keys: &[bool])
        requires
            old(self).wf(),
            keys@.len() == 16,
        ensures
            final(self).wf(),
            final(self)@ == (Chip8State { keys: keys@, ..old(self)@ }),
    {
        let ghost s0 = self@;
        let mut i: usize = 0;
        while i < 16
            invariant
                i <= 16,
                keys@.len() == 16,
                self@.inv(),
                self@ == (Chip8State { keys: self@.keys, ..s0 }),
                forall|k: int| 0 <= k < i ==> self@.keys[k] == keys@[k],
            decreases 16 - i,
        {
            self.keys.set(i, keys[i]);
            i += 1;
        }
        assert(self@.keys =~= keys@);
    }

    /// The pixel in column `x` and row `y`, both wrapped to the screen.
    pub fn get_pixel(&self, x: usize, y: usize) -> (r: u8)
        requires
            self.wf(),
        ensures
            r == self@.pixel(x as int, y as int),
            r <= 1,
    {
        self.screen[(y % 32) * 64 + x % 64]
    }
}

/// The sprite bits of a draw laid down so far: rows below `i`, and the
/// columns below `j` of row `i`.
spec fn partial_bit(mem: Seq<u8>, base: int, vx: int, vy: int, i: int, j: int, p: int) -> u8 {
    let dr = (p / 64 - vy) % 32;
    let dc = (p % 64 - vx) % 64;
    if (dr < i || (dr == i && dc < j)) && dc < 8 {
        row_bit(mem[base + dr], dc)
    } else {
        0
    }
}

proof fn lemma_pixel_coords(vx: int, vy: int, i: int, j: int, p: int)
    requires
        0 <= vx,
        0 <= vy,
        0 <= i < 32,
        0 <= j < 64,
        0 <= p < 2048,
    ensures
        ((p / 64 - vy) % 32 == i && (p % 64 - vx) % 64 == j) <==> p == ((vy + i) % 32) * 64 + (vx
            + j) % 64,
{
}

impl Chip8 {
    /// The program counter `step` bytes on, where it stays inside memory.
    fn advanced_pc(&self, step: usize) -> (r: Result<usize, Chip8Error>)
        requires
            self.wf(),
            step <= 4,
        ensures
            r matches Ok(p) ==> p == self.pc + step && p < 4096,
            r is Err <==> self.pc + step >= 4096,
            r matches Err(e) ==> e == Chip8Error::MemoryBounds,
    {
        if self.pc + step >= 4096 {
            Err(Chip8Error::MemoryBounds)
        } else {
            Ok(self.pc + step)
        }
    }

    /// Moves the program counter to `target`.
    fn goto(&mut self, target: usize) -> (r: Result<(), Chip8Error>)
        requires
            old(self).wf(),
        ensures
            final(self).wf(),
            applied(old(self)@, final(self)@, r, old(self)@.goto(target as int)),
    {
        if target >= 4096 {
            return Err(Chip8Error::MemoryBounds);
        }
        self.pc = target;
        Ok(())
    }

    /// Advances by two, or by four where `cond` holds.
    fn skip_if(&mut self, cond: bool) -> (r: Result<(), Chip8Error>)
        requires
            old(self).wf(),
        ensures
            final(self).wf(),
            applied(old(self)@, final(self)@, r, old(self)@.skip_if(cond)),
    {
        let step: usize = if cond { 4 } else { 2 };
        match self.advanced_pc(step) {
            Ok(p) => {
                self.pc = p;
                Ok(())
            },
            Err(e) => Err(e),
        }
    }

    /// `Vx = val`, then on to the next instruction.
    fn set_register(&mut self, x: usize, val: u8) -> (r: Result<(), Chip8Error>)
        requires
            old(self).wf(),
            x < 16,
        ensures
            final(self).wf(),
            applied(old(self)@, final(self)@, r, old(self)@.set_reg(x as int, val).next()),
    {
        match self.advanced_pc(2) {
            Ok(p) => {
                self.regs.set(x, val);
                self.pc = p;
                Ok(())
            },
            Err(e) => Err(e),
        }
    }

    /// `Vx = val` and `VF = flag`, the flag written last, then on.
    fn set_with_flag(&mut self, x: usize, val: u8, flag: bool) -> (r: Result<(), Chip8Error>)
        requires
            old(self).wf(),
            x < 16,
        ensures
            final(self).wf(),
            applied(
                old(self)@,
                final(self)@,
                r,
                old(self)@.set_with_flag(x as int, val, flag).next(),
            ),
    {
        match self.advanced_pc(2) {
            Ok(p) => {
                self.regs.set(x, val);
                self.regs.set(15, if flag { 1 } else { 0 });
                self.pc = p;
                Ok(())
            },
            Err(e) => Err(e),
        }
    }

    /// `I = val`, then on.
    fn set_index(&mut self, val: u16) -> (r: Result<(), Chip8Error>)
        requires
            old(self).wf(),
        ensures
            final(self).wf(),
            applied(old(self)@, final(self)@, r, (Chip8State { index: val, ..old(self)@ }).next()),
    {
        match self.advanced_pc(2) {
            Ok(p) => {
                self.index = val;
                self.pc = p;
                Ok(())
            },
            Err(e) => Err(e),
        }
    }

    /// Sets the delay and sound timers, then on.
    fn set_timers(&mut self, delay: u8, sound: u8) -> (r: Result<(), Chip8Error>)
        requires
            old(self).wf(),
        ensures
            final(self).wf(),
            applied(
                old(self)@,
                final(self)@,
                r,
                (Chip8State { delay, sound, ..old(self)@ }).next(),
            ),
    {
        match self.advanced_pc(2) {
            Ok(p) => {
                self.delay = delay;
                self.sound = sound;
                self.pc = p;
                Ok(())
            },
            Err(e) => Err(e),
        }
    }

    /// Clears the framebuffer.
    fn clear_screen(&mut self) -> (r: Result<(), Chip8Error>)
        requires
            old(self).wf(),
        ensures
            final(self).wf(),
            applied(old(self)@, final(self)@, r, old(self)@.execute(Instruction::Clear, 0)),
    {
        match self.advanced_pc(2) {
            Ok(p) => {
                self.screen = filled(0u8, 2048);
                self.pc = p;
                assert(self@.screen =~= Seq::new(2048, |q: int| 0u8));
                Ok(())
            },
            Err(e) => Err(e),
        }
    }

    /// Pops a return address into the program counter.
    fn return_from_subroutine(&mut self) -> (r: Result<(), Chip8Error>)
        requires
            old(self).wf(),
        ensures
            final(self).wf(),
            applied(old(self)@, final(self)@, r, old(self)@.execute(Instruction::Return, 0)),
    {
        if self.sp == 0 {
            return Err(Chip8Error::StackUnderflow);
        }
        self.pc = self.stack[self.sp];
        self.sp = self.sp - 1;
        Ok(())
    }

    /// Pushes the address of the next instruction and jumps to `addr`.
    fn call(&mut self, addr: u16) -> (r: Result<(), Chip8Error>)
        requires
            old(self).wf(),
            addr < 4096,
        ensures
            final(self).wf(),
            applied(old(self)@, final(self)@, r, old(self)@.execute(Instruction::Call(addr), 0)),
    {
        if self.sp + 1 >= 16 {
            return Err(Chip8Error::StackOverflow);
        }
        if self.pc + 2 >= 4096 {
            return Err(Chip8Error::MemoryBounds);
        }
        self.sp = self.sp + 1;
        self.stack.set(self.sp, self.pc + 2);
        self.pc = addr as usize;
        Ok(())
    }

    /// Tests the key that `Vx` names against `pressed`, skipping on a
    /// match; either way the key's flag is cleared.
    fn skip_on_key(&mut self, x: usize, pressed: bool) -> (r: Result<(), Chip8Error>)
        requires
            old(self).wf(),
            x < 16,
        ensures
            final(self).wf(),
            applied(old(self)@, final(self)@, r, old(self)@.skip_on_key(x as int, pressed)),
    {
        let k = self.regs[x] as usize;
        if k >= 16 {
            return Err(Chip8Error::KeyIndexError);
        }
        let step: usize = if self.keys[k] == pressed { 4 } else { 2 };
        match self.advanced_pc(step) {
            Ok(p) => {
                self.keys.set(k, false);
                self.pc = p;
                Ok(())
            },
            Err(e) => Err(e),
        }
    }

    /// Takes the lowest pressed key into `Vx`, clearing it; with no key
    /// pressed the program counter stays, so the instruction runs again.
    fn wait_for_key(&mut self, x: usize) -> (r: Result<(), Chip8Error>)
        requires
            old(self).wf(),
            x < 16,
        ensures
            final(self).wf(),
            applied(
                old(self)@,
                final(self)@,
                r,
                old(self)@.execute(Instruction::WaitKey(x as u8), 0),
            ),
    {
        let ghost s0 = self@;
        let mut k: usize = 0;
        while k < 16
            invariant
                k <= 16,
                x < 16,
                self@ == s0,
                s0 == old(self)@,
                s0.inv(),
                forall|j: int| 0 <= j < k ==> !#[trigger] s0.keys[j],
            decreases 16 - k,
        {
            if self.keys[k] {
                assert(s0.lowest_pressed(k as int));
                assert(s0.any_pressed());
                let ghost c = choose|c: int| s0.lowest_pressed(c);
                assert(c == k as int) by {
                    if c < k {
                        assert(!s0.keys[c]);
                    } else if c > k {
                        assert(!s0.keys[k as int]);
                    }
                }
                assert(s0.execute(Instruction::WaitKey(x as u8), 0) == (Chip8State {
                    keys: s0.keys.update(k as int, false),
                    ..s0
                }).set_reg(x as int, k as u8).next());
                match self.advanced_pc(2) {
                    Ok(p) => {
                        self.keys.set(k, false);
                        self.regs.set(x, k as u8);
                        self.pc = p;
                        return Ok(());
                    },
                    Err(e) => {
                        return Err(e);
                    },
                }
            }
            k += 1;
        }
        assert(!s0.any_pressed());
        Ok(())
    }

    /// Writes the decimal digits of `Vx` at `I`, `I + 1` and `I + 2`.
    fn store_bcd(&mut self, x: usize) -> (r: Result<(), Chip8Error>)
        requires
            old(self).wf(),
            x < 16,
        ensures
            final(self).wf(),
            applied(
                old(self)@,
                final(self)@,
                r,
                old(self)@.execute(Instruction::StoreBcd(x as u8), 0),
            ),
    {
        let base = (self.index % 4096) as usize;
        if base + 3 > 4096 {
            return Err(Chip8Error::MemoryBounds);
        }
        match self.advanced_pc(2) {
            Ok(p) => {
                let v = self.regs[x];
                self.memory.set(base, v / 100);
                self.memory.set(base + 1, (v / 10) % 10);
                self.memory.set(base + 2, v % 10);
                self.pc = p;
                Ok(())
            },
            Err(e) => Err(e),
        }
    }

    /// Copies `V0..=Vx` into memory from `I`.
    fn store_registers(&mut self, x: usize) -> (r: Result<(), Chip8Error>)
        requires
            old(self).wf(),
            x < 16,
        ensures
            final(self).wf(),
            applied(
                old(self)@,
                final(self)@,
                r,
                old(self)@.execute(Instruction::StoreRegs(x as u8), 0),
            ),
    {
        let ghost s0 = self@;
        let base = (self.index % 4096) as usize;
        if base + x + 1 > 4096 {
            return Err(Chip8Error::MemoryBounds);
        }
        let p = match self.advanced_pc(2) {
            Ok(p) => p,
            Err(e) => {
                return Err(e);
            },
        };
        let mut i: usize = 0;
        while i <= x
            invariant
                x < 16,
                base + x + 1 <= 4096,
                base == s0.base(),
                i <= x + 1,
                s0.inv(),
                self@ == (Chip8State { memory: self@.memory, ..s0 }),
                self@.memory.len() == 4096,
                forall|a: int|
                    0 <= a < 4096 ==> #[trigger] self@.memory[a] == if base <= a < base + i {
                        s0.regs[a - base]
                    } else {
                        s0.memory[a]
                    },
            decreases x + 1 - i,
        {
            let v = self.regs[i];
            self.memory.set(base + i, v);
            i += 1;
        }
        self.pc = p;
        assert(self@.memory =~= Seq::new(
            4096,
            |a: int|
                if base <= a <= base + x {
                    s0.regs[a - base]
                } else {
                    s0.memory[a]
                },
        ));
        Ok(())
    }

    /// Loads `V0..=Vx` from memory from `I`.
    fn load_registers(&mut self, x: usize) -> (r: Result<(), Chip8Error>)
        requires
            old(self).wf(),
            x < 16,
        ensures
            final(self).wf(),
            applied(
                old(self)@,
                final(self)@,
                r,
                old(self)@.execute(Instruction::LoadRegs(x as u8), 0),
            ),
    {
        let ghost s0 = self@;
        let base = (self.index % 4096) as usize;
        if base + x + 1 > 4096 {
            return Err(Chip8Error::MemoryBounds);
        }
        let p = match self.advanced_pc(2) {
            Ok(p) => p,
            Err(e) => {
                return Err(e);
            },
        };
        let mut i: usize = 0;
        while i <= x
            invariant
                x < 16,
                base + x + 1 <= 4096,
                base == s0.base(),
                i <= x + 1,
                s0.inv(),
                self@ == (Chip8State { regs: self@.regs, ..s0 }),
                self@.regs.len() == 16,
                forall|r: int|
                    0 <= r < 16 ==> #[trigger] self@.regs[r] == if r < i {
                        s0.memory[base + r]
                    } else {
                        s0.regs[r]
                    },
            decreases x + 1 - i,
        {
            let v = self.memory[base + i];
            self.regs.set(i, v);
            i += 1;
        }
        self.pc = p;
        assert(self@.regs =~= Seq::new(
            16,
            |r: int|
                if r <= x {
                    s0.memory[base + r]
                } else {
                    s0.regs[r]
                },
        ));
        Ok(())
    }
}

impl Chip8 {
    /// XORs `n` sprite rows read from `I` onto the framebuffer at
    /// `(Vx, Vy)`, wrapping on both axes; `VF` records a collision.
    fn draw(&mut self, x: usize, y: usize, n: usize) -> (r: Result<(), Chip8Error>)
        requires
            old(self).wf(),
            x < 16,
            y < 16,
            n < 16,
        ensures
            final(self).wf(),
            applied(
                old(self)@,
                final(self)@,
                r,
                old(self)@.execute(Instruction::Draw(x as u8, y as u8, n as u8), 0),
            ),
    {
        let ghost s0 = self@;
        let base = (self.index % 4096) as usize;
        if base + n > 4096 {
            return Err(Chip8Error::MemoryBounds);
        }
        let p = match self.advanced_pc(2) {
            Ok(p) => p,
            Err(e) => {
                return Err(e);
            },
        };
        let vx = self.regs[x] as usize;
        let vy = self.regs[y] as usize;
        let mut flag: u8 = 0;
        let mut i: usize = 0;
        proof {
            assert forall|t: int| 0 <= t < 2048 implies self@.screen[t] == s0.screen[t] ^ #[trigger] partial_bit(s0.memory, base as int, vx as int, vy as int, 0, 0, t) by {
                lemma_xor_zero(s0.screen[t]);
            }
        }
        while i < n
            invariant
                n < 16,
                base + n <= 4096,
                base == s0.base(),
                vx <= 255,
                vy <= 255,
                i <= n,
                s0.inv(),
                self@ == (Chip8State { screen: self@.screen, ..s0 }),
                self@.screen.len() == 2048,
                forall|q: int|
                    0 <= q < 2048 ==> #[trigger] self@.screen[q] == s0.screen[q] ^ partial_bit(
                        s0.memory,
                        base as int,
                        vx as int,
                        vy as int,
                        i as int,
                        0,
                        q,
                    ),
                flag <= 1,
                (flag == 1) == exists|q: int|
                    0 <= q < 2048 && s0.screen[q] == 1 && #[trigger] partial_bit(
                        s0.memory,
                        base as int,
                        vx as int,
                        vy as int,
                        i as int,
                        0,
                        q,
                    ) == 1,
            decreases n - i,
        {
            let row = self.memory[base + i];
            let line = (vy + i) % 32;
            let mut j: usize = 0;
            while j < 8
                invariant
                    n < 16,
                    base + n <= 4096,
                    vx <= 255,
                    vy <= 255,
                    i < n,
                    j <= 8,
                    line == (vy + i) % 32,
                    row == s0.memory[base + i],
                    s0.inv(),
                    self@ == (Chip8State { screen: self@.screen, ..s0 }),
                    self@.screen.len() == 2048,
                    forall|q: int|
                        0 <= q < 2048 ==> #[trigger] self@.screen[q] == s0.screen[q]
                            ^ partial_bit(
                            s0.memory,
                            base as int,
                            vx as int,
                            vy as int,
                            i as int,
                            j as int,
                            q,
                        ),
                    flag <= 1,
                    (flag == 1) == exists|q: int|
                        0 <= q < 2048 && s0.screen[q] == 1 && #[trigger] partial_bit(
                            s0.memory,
                            base as int,
                            vx as int,
                            vy as int,
                            i as int,
                            j as int,
                            q,
                        ) == 1,
                decreases 8 - j,
            {
                let bit = (row >> (7 - j as u8)) & 1;
                let q = line * 64 + (vx + j) % 64;
                let pix = self.screen[q];
                proof {
                    lemma_row_bit(row, j as int);
                    assert forall|t: int| 0 <= t < 2048 implies partial_bit(
                        s0.memory,
                        base as int,
                        vx as int,
                        vy as int,
                        i as int,
                        (j + 1) as int,
                        t,
                    ) == if t == q {
                        bit
                    } else {
                        partial_bit(s0.memory, base as int, vx as int, vy as int, i as int, j as int, t)
                    } by {
                        lemma_pixel_coords(vx as int, vy as int, i as int, j as int, t);
                    }
                    lemma_pixel_coords(vx as int, vy as int, i as int, j as int, q as int);
                    assert(partial_bit(s0.memory, base as int, vx as int, vy as int, i as int, j as int, q as int) == 0);
                    lemma_xor_zero(s0.screen[q as int]);
                    lemma_xor_of_bits(pix, bit);
                }
                if bit == 1 && pix == 1 {
                    flag = 1;
                }
                self.screen.set(q, pix ^ bit);
                proof {
                    assert forall|t: int| 0 <= t < 2048 implies #[trigger] self@.screen[t] == s0.screen[t]
                        ^ partial_bit(
                        s0.memory,
                        base as int,
                        vx as int,
                        vy as int,
                        i as int,
                        (j + 1) as int,
                        t,
                    ) by {
                        if t != q {
                            lemma_pixel_coords(vx as int, vy as int, i as int, j as int, t);
                        }
                    }
                    if flag == 1 && !(bit == 1 && pix == 1) {
                        let w = choose|w: int|
                            0 <= w < 2048 && s0.screen[w] == 1 && #[trigger] partial_bit(
                                s0.memory,
                                base as int,
                                vx as int,
                                vy as int,
                                i as int,
                                j as int,
                                w,
                            ) == 1;
                        lemma_pixel_coords(vx as int, vy as int, i as int, j as int, w);
                        assert(partial_bit(s0.memory, base as int, vx as int, vy as int, i as int, (j + 1) as int, w) == 1);
                    }
                    if bit == 1 && pix == 1 {
                        assert(partial_bit(s0.memory, base as int, vx as int, vy as int, i as int, (j + 1) as int, q as int) == 1);
                    }
                    if flag == 0 {
                        assert forall|t: int|
                            0 <= t < 2048 && s0.screen[t] == 1 implies #[trigger] partial_bit(
                            s0.memory,
                            base as int,
                            vx as int,
                            vy as int,
                            i as int,
                            (j + 1) as int,
                            t,
                        ) != 1 by {
                            lemma_pixel_coords(vx as int, vy as int, i as int, j as int, t);
                            if t != q {
                                assert(partial_bit(s0.memory, base as int, vx as int, vy as int, i as int, (j + 1) as int, t) == partial_bit(s0.memory, base as int, vx as int, vy as int, i as int, j as int, t));
                                assert(partial_bit(s0.memory, base as int, vx as int, vy as int, i as int, j as int, t) != 1);
                            }
                        }
                    }
                }
                j += 1;
            }
            proof {
                assert forall|t: int| 0 <= t < 2048 implies partial_bit(
                    s0.memory,
                    base as int,
                    vx as int,
                    vy as int,
                    i as int,
                    8,
                    t,
                ) == #[trigger] partial_bit(
                    s0.memory,
                    base as int,
                    vx as int,
                    vy as int,
                    (i + 1) as int,
                    0,
                    t,
                ) by {}
                if flag == 1 {
                    let w = choose|w: int|
                        0 <= w < 2048 && s0.screen[w] == 1 && #[trigger] partial_bit(s0.memory, base as int, vx as int, vy as int, i as int, 8, w) == 1;
                    assert(partial_bit(s0.memory, base as int, vx as int, vy as int, (i + 1) as int, 0, w) == 1);
                }
            }
            i += 1;
        }
        proof {
            assert forall|t: int| 0 <= t < 2048 implies #[trigger] partial_bit(
                s0.memory,
                base as int,
                vx as int,
                vy as int,
                n as int,
                0,
                t,
            ) == sprite_bit(s0.memory, base as int, n as int, vx as int, vy as int, t % 64, t / 64) by {}
            assert forall|t: int| 0 <= t < 2048 implies #[trigger] self@.screen[t] <= 1 by {
                let pb = partial_bit(s0.memory, base as int, vx as int, vy as int, n as int, 0, t);
                if pb != 0 {
                    lemma_row_bit(s0.memory[base + (t / 64 - vy) % 32], (t % 64 - vx) % 64);
                }
                lemma_xor_of_bits(s0.screen[t], pb);
            }
        }
        let ghost coll = s0.collides(x as int, y as int, n as int);
        proof {
            if coll {
                let w = choose|w: int|
                    0 <= w < 2048 && s0.screen[w] == 1 && #[trigger] sprite_bit(
                        s0.memory,
                        s0.base(),
                        n as int,
                        s0.regs[x as int] as int,
                        s0.regs[y as int] as int,
                        w % 64,
                        w / 64,
                    ) == 1;
                assert(partial_bit(s0.memory, base as int, vx as int, vy as int, n as int, 0, w) == 1);
            }
            if flag == 1 {
                let w = choose|w: int|
                    0 <= w < 2048 && s0.screen[w] == 1 && #[trigger] partial_bit(
                        s0.memory,
                        base as int,
                        vx as int,
                        vy as int,
                        n as int,
                        0,
                        w,
                    ) == 1;
                assert(sprite_bit(s0.memory, s0.base(), n as int, s0.regs[x as int] as int, s0.regs[y as int] as int, w % 64, w / 64) == 1);
            }
        }
        self.regs.set(15, flag);
        self.pc = p;
        assert(self@.screen =~= s0.drawn(x as int, y as int, n as int));
        Ok(())
    }
}

/// Relies on `rand::random::<u8>`: one byte from the thread-local
/// generator. Nothing is promised of its value.
#[verifier::external_body]
fn random_byte() -> (r: u8) {
    rand::random::<u8>()
}

impl Chip8 {
    /// Executes one decoded instruction; `random` is the byte that the
    /// random instruction masks. A fault leaves the machine unchanged.
    pub fn execute(&mut self, ins: Instruction, random: u8) -> (r: Result<(), Chip8Error>)
        requires
            old(self).wf(),
            ins.wf(),
        ensures
            final(self).wf(),
            applied(old(self)@, final(self)@, r, old(self)@.execute(ins, random)),
    {
        match ins {
            Instruction::Clear
            | Instruction::Return
            | Instruction::Jump(..)
            | Instruction::Call(..)
            | Instruction::SkipEqByte(..)
            | Instruction::SkipNeByte(..)
            | Instruction::SkipEqReg(..)
            | Instruction::SkipNeReg(..)
            | Instruction::JumpOffset(..) => self.execute_flow(ins, random),
            Instruction::LoadByte(..)
            | Instruction::AddByte(..)
            | Instruction::Move(..)
            | Instruction::Or(..)
            | Instruction::And(..)
            | Instruction::Xor(..)
            | Instruction::AddReg(..)
            | Instruction::Sub(..)
            | Instruction::SubReverse(..)
            | Instruction::ShiftRight(..)
            | Instruction::ShiftLeft(..)
            | Instruction::Random(..) => self.execute_arithmetic(ins, random),
            _ => self.execute_rest(ins, random),
        }
    }

    /// Jumps, calls, returns, skips and the screen clear.
    #[verifier::spinoff_prover]
    fn execute_flow(&mut self, ins: Instruction, random: u8) -> (r: Result<(), Chip8Error>)
        requires
            old(self).wf(),
            ins.wf(),
            ins is Clear
                || ins is Return
                || ins is Jump
                || ins is Call
                || ins is SkipEqByte
                || ins is SkipNeByte
                || ins is SkipEqReg
                || ins is SkipNeReg
                || ins is JumpOffset,
        ensures
            final(self).wf(),
            applied(old(self)@, final(self)@, r, old(self)@.execute(ins, random)),
    {
        match ins {
            Instruction::Clear => self.clear_screen(),
            Instruction::Return => self.return_from_subroutine(),
            Instruction::Jump(a) => self.goto(a as usize),
            Instruction::Call(a) => self.call(a),
            Instruction::SkipEqByte(x, kk) => {
                let c = self.regs[x as usize] == kk;
                self.skip_if(c)
            },
            Instruction::SkipNeByte(x, kk) => {
                let c = self.regs[x as usize] != kk;
                self.skip_if(c)
            },
            Instruction::SkipEqReg(x, y) => {
                let c = self.regs[x as usize] == self.regs[y as usize];
                self.skip_if(c)
            },
            Instruction::SkipNeReg(x, y) => {
                let c = self.regs[x as usize] != self.regs[y as usize];
                self.skip_if(c)
            },
            Instruction::JumpOffset(a) => {
                let target = a as usize + self.regs[0] as usize;
                self.goto(target)
            },
            // excluded by the precondition
            _ => Ok(()),
        }
    }

    /// Register loads and arithmetic.
    #[verifier::spinoff_prover]
    fn execute_arithmetic(&mut self, ins: Instruction, random: u8) -> (r: Result<(), Chip8Error>)
        requires
            old(self).wf(),
            ins.wf(),
            ins is LoadByte
                || ins is AddByte
                || ins is Move
                || ins is Or
                || ins is And
                || ins is Xor
                || ins is AddReg
                || ins is Sub
                || ins is SubReverse
                || ins is ShiftRight
                || ins is ShiftLeft
                || ins is Random,
        ensures
            final(self).wf(),
            applied(old(self)@, final(self)@, r, old(self)@.execute(ins, random)),
    {
        match ins {
            Instruction::LoadByte(x, kk) => self.set_register(x as usize, kk),
            Instruction::AddByte(x, kk) => {
                let v = ((self.regs[x as usize] as u16 + kk as u16) % 256) as u8;
                self.set_register(x as usize, v)
            },
            Instruction::Move(x, y) => {
                let v = self.regs[y as usize];
                self.set_register(x as usize, v)
            },
            Instruction::Or(x, y) => {
                let v = self.regs[x as usize] | self.regs[y as usize];
                self.set_register(x as usize, v)
            },
            Instruction::And(x, y) => {
                let v = self.regs[x as usize] & self.regs[y as usize];
                self.set_register(x as usize, v)
            },
            Instruction::Xor(x, y) => {
                let v = self.regs[x as usize] ^ self.regs[y as usize];
                self.set_register(x as usize, v)
            },
            Instruction::AddReg(x, y) => {
                let sum = self.regs[x as usize] as u16 + self.regs[y as usize] as u16;
                self.set_with_flag(x as usize, (sum % 256) as u8, sum > 255)
            },
            Instruction::Sub(x, y) => {
                let a = self.regs[x as usize];
                let b = self.regs[y as usize];
                let v = if a >= b { a - b } else { (256 + a as u16 - b as u16) as u8 };
                self.set_with_flag(x as usize, v, a > b)
            },
            Instruction::SubReverse(x, y) => {
                let a = self.regs[x as usize];
                let b = self.regs[y as usize];
                let v = if b >= a { b - a } else { (256 + b as u16 - a as u16) as u8 };
                self.set_with_flag(x as usize, v, b > a)
            },
            Instruction::ShiftRight(x, _) => {
                let a = self.regs[x as usize];
                self.set_with_flag(x as usize, a >> 1u8, a & 1 == 1)
            },
            Instruction::ShiftLeft(x, _) => {
                let a = self.regs[x as usize];
                self.set_with_flag(x as usize, a << 1u8, a >> 7u8 == 1)
            },
            Instruction::Random(x, kk) => self.set_register(x as usize, random & kk),
            // excluded by the precondition
            _ => Ok(()),
        }
    }

    /// Index register, drawing, keys, timers and memory transfers.
    #[verifier::spinoff_prover]
    fn execute_rest(&mut self, ins: Instruction, random: u8) -> (r: Result<(), Chip8Error>)
        requires
            old(self).wf(),
            ins.wf(),
            ins is LoadIndex
                || ins is Draw
                || ins is SkipKey
                || ins is SkipNoKey
                || ins is LoadDelay
                || ins is WaitKey
                || ins is SetDelay
                || ins is SetSound
                || ins is AddIndex
                || ins is LoadFont
                || ins is StoreBcd
                || ins is StoreRegs
                || ins is LoadRegs,
        ensures
            final(self).wf(),
            applied(old(self)@, final(self)@, r, old(self)@.execute(ins, random)),
    {
        match ins {
            Instruction::LoadIndex(a) => self.set_index(a),
            Instruction::Draw(x, y, n) => self.draw(x as usize, y as usize, n as usize),
            Instruction::SkipKey(x) => self.skip_on_key(x as usize, true),
            Instruction::SkipNoKey(x) => self.skip_on_key(x as usize, false),
            Instruction::LoadDelay(x) => {
                let v = self.delay;
                self.set_register(x as usize, v)
            },
            Instruction::WaitKey(x) => self.wait_for_key(x as usize),
            Instruction::SetDelay(x) => {
                let v = self.regs[x as usize];
                let st = self.sound;
                self.set_timers(v, st)
            },
            Instruction::SetSound(x) => {
                let v = self.regs[x as usize];
                let dt = self.delay;
                self.set_timers(dt, v)
            },
            Instruction::AddIndex(x) => {
                let v = ((self.index as u32 + self.regs[x as usize] as u32) % 65536) as u16;
                self.set_index(v)
            },
            Instruction::LoadFont(x) => {
                let v = 5 * (self.regs[x as usize] as u16);
                self.set_index(v)
            },
            Instruction::StoreBcd(x) => self.store_bcd(x as usize),
            Instruction::StoreRegs(x) => self.store_registers(x as usize),
            Instruction::LoadRegs(x) => self.load_registers(x as usize),
            // excluded by the precondition
            _ => Ok(()),
        }
    }

    /// The opcode at the program counter.
    fn fetch(&self) -> (r: u16)
        requires
            self.wf(),
            self.pc + 1 < 4096,
        ensures
            r == self@.fetch(),
    {
        let hi = self.memory[self.pc];
        let lo = self.memory[self.pc + 1];
        (hi as u16) * 256 + (lo as u16)
    }

    /// One fetch-decode-execute step with `random` as the byte of the
    /// random instruction. Returns the opcode executed; an unknown opcode
    /// is stepped over and reported as `InvalidOpcode`; any other fault
    /// leaves the machine unchanged.
    pub fn step_with_random(&mut self, random: u8) -> (r: Result<u16, Chip8Error>)
        requires
            old(self).wf(),
        ensures
            final(self).wf(),
            (final(self)@, r) == old(self)@.step(random),
    {
        if self.pc + 1 >= 4096 {
            return Err(Chip8Error::MemoryBounds);
        }
        let op = self.fetch();
        match decode(op) {
            None => match self.advanced_pc(2) {
                Ok(p) => {
                    self.pc = p;
                    Err(Chip8Error::InvalidOpcode(op))
                },
                Err(e) => Err(e),
            },
            Some(ins) => match self.execute(ins, random) {
                Ok(()) => Ok(op),
                Err(e) => Err(e),
            },
        }
    }

    /// One fetch-decode-execute step; a random byte is drawn only for the
    /// random instruction.
    pub fn execute_next_opcode(&mut self) -> (r: Result<u16, Chip8Error>)
        requires
            old(self).wf(),
        ensures
            final(self).wf(),
            final(self)@.pc < 4096,
            final(self)@.sp < 16,
            exists|b: u8| (final(self)@, r) == old(self)@.step(b),
            !old(self)@.draws_random() ==> (final(self)@, r) == old(self)@.step(0),
    {
        let random = if self.pc + 1 < 4096 && self.fetch() / 4096 == 0xC {
            random_byte()
        } else {
            0
        };
        self.step_with_random(random)
    }

    /// The program counter.
    pub fn pc(&self) -> (r: usize)
        ensures
            r == self@.pc,
    {
        self.pc
    }

    /// The stack pointer: the number of active call frames.
    pub fn sp(&self) -> (r: usize)
        ensures
            r == self@.sp,
    {
        self.sp
    }

    /// Stack slot `i`.
    pub fn stack_entry(&self, i: usize) -> (r: usize)
        requires
            self.wf(),
            i < 16,
        ensures
            r == self@.stack[i as int],
    {
        self.stack[i]
    }

    /// Register `Vi`.
    pub fn register(&self, i: usize) -> (r: u8)
        requires
            self.wf(),
            i < 16,
        ensures
            r == self@.regs[i as int],
    {
        self.regs[i]
    }

    /// The index register `I`.
    pub fn index(&self) -> (r: u16)
        ensures
            r == self@.index,
    {
        self.index
    }

    /// The delay timer.
    pub fn delay_timer(&self) -> (r: u8)
        ensures
            r == self@.delay,
    {
        self.delay
    }

    /// The sound timer.
    pub fn sound_timer(&self) -> (r: u8)
        ensures
            r == self@.sound,
    {
        self.sound
    }

    /// Whether key `i` is pressed.
    pub fn key(&self, i: usize) -> (r: bool)
        requires
            self.wf(),
            i < 16,
        ensures
            r == self@.keys[i as int],
    {
        self.keys[i]
    }

    /// The byte at address `a`.
    pub fn memory_at(&self, a: usize) -> (r: u8)
        requires
            self.wf(),
            a < 4096,
        ensures
            r == self@.memory[a as int],
    {
        self.memory[a]
    }
}

} // verus!
