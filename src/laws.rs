use vstd::prelude::*;
use crate::instruction::{decode_spec, Instruction};
use crate::machine::{lemma_row_bit, lemma_xor_of_bits, sprite_bit, Chip8State};

verus! {

proof fn lemma_xor_twice(a: u8, b: u8)
    ensures
        (a ^ b) ^ b == a,
{
    assert((a ^ b) ^ b == a) by (bit_vector);
}

/// A pressed key at `k` means that there is a lowest pressed key.
proof fn lemma_lowest_pressed_exists(s: Chip8State, k: int)
    requires
        0 <= k < 16,
        s.keys[k],
    ensures
        exists|c: int| s.lowest_pressed(c),
    decreases k,
{
    if forall|j: int| 0 <= j < k ==> !#[trigger] s.keys[j] {
        assert(s.lowest_pressed(k));
    } else {
        let j = choose|j: int| 0 <= j < k && #[trigger] s.keys[j];
        lemma_lowest_pressed_exists(s, j);
    }
}

/// Executing any instruction from a state that satisfies the machine
/// invariant yields, on success, a state that satisfies it too.
pub proof fn lemma_execute_keeps_invariant(s: Chip8State, ins: Instruction, rnd: u8)
    requires
        s.inv(),
        ins.wf(),
    ensures
        s.execute(ins, rnd) matches Ok(t) ==> t.inv(),
{
    if let Instruction::WaitKey(_) = ins {
        if s.any_pressed() {
            let k = choose|k: int| 0 <= k < 16 && #[trigger] s.keys[k];
            lemma_lowest_pressed_exists(s, k);
        }
    }
    if let Instruction::Draw(x, y, n) = ins {
        if let Ok(t) = s.execute(ins, rnd) {
            assert forall|p: int| 0 <= p < 2048 implies #[trigger] t.screen[p] <= 1 by {
                let b = sprite_bit(
                    s.memory,
                    s.base(),
                    n as int,
                    s.regs[x as int] as int,
                    s.regs[y as int] as int,
                    p % 64,
                    p / 64,
                );
                let dr = (p / 64 - s.regs[y as int]) % 32;
                let dc = (p % 64 - s.regs[x as int]) % 64;
                if dr < n && dc < 8 {
                    lemma_row_bit(s.memory[s.base() + dr], dc);
                }
                lemma_xor_of_bits(s.screen[p], b);
            }
        }
    }
}

/// From any state that satisfies the machine invariant, one step (whatever
/// it reports) leaves a state that satisfies it: in particular the program
/// counter stays below 4096 and the stack pointer below 16.
pub proof fn lemma_step_keeps_invariant(s: Chip8State, rnd: u8)
    requires
        s.inv(),
    ensures
        s.step(rnd).0.inv(),
        s.step(rnd).0.pc < 4096,
        s.step(rnd).0.sp < 16,
{
    if s.pc + 1 < 4096 {
        if let Some(ins) = decode_spec(s.fetch()) {
            lemma_execute_keeps_invariant(s, ins, rnd);
        }
    }
}

/// Drawing the same sprite at the same place twice in a row restores the
/// framebuffer, where neither coordinate register is the flag register
/// (which the first draw overwrites).
pub proof fn lemma_draw_twice_restores(s: Chip8State, x: u8, y: u8, n: u8, t: Chip8State, u: Chip8State)
    requires
        s.inv(),
        x < 15,
        y < 15,
        n < 16,
        s.execute(Instruction::Draw(x, y, n), 0) == Ok::<Chip8State, crate::machine::Chip8Error>(t),
        t.execute(Instruction::Draw(x, y, n), 0) == Ok::<Chip8State, crate::machine::Chip8Error>(u),
    ensures
        u.screen == s.screen,
{
    assert forall|p: int| 0 <= p < 2048 implies #[trigger] u.screen[p] == s.screen[p] by {
        let b = sprite_bit(
            s.memory,
            s.base(),
            n as int,
            s.regs[x as int] as int,
            s.regs[y as int] as int,
            p % 64,
            p / 64,
        );
        lemma_xor_twice(s.screen[p], b);
    }
    assert(u.screen =~= s.screen);
}

/// After a draw, `VF` is 1 exactly when some sprite bit that is 1 lands on
/// a pixel that was already 1, and 0 otherwise.
pub proof fn lemma_draw_collision_flag(s: Chip8State, x: u8, y: u8, n: u8, rnd: u8, t: Chip8State)
    requires
        s.inv(),
        x < 16,
        y < 16,
        n < 16,
        s.execute(Instruction::Draw(x, y, n), rnd) == Ok::<Chip8State, crate::machine::Chip8Error>(t),
    ensures
        t.regs[15] == 1 <==> (exists|p: int|
            0 <= p < 2048 && s.screen[p] == 1 && #[trigger] sprite_bit(
                s.memory,
                s.base(),
                n as int,
                s.regs[x as int] as int,
                s.regs[y as int] as int,
                p % 64,
                p / 64,
            ) == 1),
        t.regs[15] <= 1,
{
}

/// Add with carry: `VF` is 1 exactly when `Vx + Vy` exceeds 255, and `Vx`
/// receives the sum modulo 256 unless `Vx` is the flag register itself.
pub proof fn lemma_add_with_carry(s: Chip8State, x: u8, y: u8, rnd: u8, t: Chip8State)
    requires
        s.inv(),
        x < 16,
        y < 16,
        s.execute(Instruction::AddReg(x, y), rnd) == Ok::<Chip8State, crate::machine::Chip8Error>(t),
    ensures
        t.regs[15] == (if s.regs[x as int] + s.regs[y as int] > 255 { 1u8 } else { 0u8 }),
        x != 15 ==> t.regs[x as int] == (s.regs[x as int] + s.regs[y as int]) % 256,
{
}

/// Subtract with borrow: for `Vx - Vy`, `VF` is 1 exactly when `Vx > Vy`
/// before the operation; `Vx` receives the difference modulo 256 unless
/// `Vx` is the flag register itself.
pub proof fn lemma_sub_with_borrow(s: Chip8State, x: u8, y: u8, rnd: u8, t: Chip8State)
    requires
        s.inv(),
        x < 16,
        y < 16,
        s.execute(Instruction::Sub(x, y), rnd) == Ok::<Chip8State, crate::machine::Chip8Error>(t),
    ensures
        t.regs[15] == (if s.regs[x as int] > s.regs[y as int] { 1u8 } else { 0u8 }),
        x != 15 ==> t.regs[x as int] == (s.regs[x as int] - s.regs[y as int]) % 256,
{
}

/// Reverse subtract with borrow: for `Vy - Vx`, `VF` is 1 exactly when
/// `Vy > Vx` before the operation; `Vx` receives the difference modulo 256
/// unless `Vx` is the flag register itself.
pub proof fn lemma_sub_reverse_with_borrow(s: Chip8State, x: u8, y: u8, rnd: u8, t: Chip8State)
    requires
        s.inv(),
        x < 16,
        y < 16,
        s.execute(Instruction::SubReverse(x, y), rnd) == Ok::<Chip8State, crate::machine::Chip8Error>(t),
    ensures
        t.regs[15] == (if s.regs[y as int] > s.regs[x as int] { 1u8 } else { 0u8 }),
        x != 15 ==> t.regs[x as int] == (s.regs[y as int] - s.regs[x as int]) % 256,
{
}

} // verus!
