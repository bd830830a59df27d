use chip_8_emulator::chip_8::{Chip8, SCREEN_HEIGHT, SCREEN_WIDTH};
use chip_8_emulator::instruction::{decode, Instruction};
use chip_8_emulator::machine::Chip8Error;

const FONT: [u8; 80] = [
    0xF0, 0x90, 0x90, 0x90, 0xF0, 0x20, 0x60, 0x20, 0x20, 0x70, 0xF0, 0x10, 0xF0, 0x80, 0xF0,
    0xF0, 0x10, 0xF0, 0x10, 0xF0, 0x90, 0x90, 0xF0, 0x10, 0x10, 0xF0, 0x80, 0xF0, 0x10, 0xF0,
    0xF0, 0x80, 0xF0, 0x90, 0xF0, 0xF0, 0x10, 0x20, 0x40, 0x40, 0xF0, 0x90, 0xF0, 0x90, 0xF0,
    0xF0, 0x90, 0xF0, 0x10, 0xF0, 0xF0, 0x90, 0xF0, 0x90, 0x90, 0xE0, 0x90, 0xE0, 0x90, 0xE0,
    0xF0, 0x80, 0x80, 0x80, 0xF0, 0xE0, 0x90, 0x90, 0x90, 0xE0, 0xF0, 0x80, 0xF0, 0x80, 0xF0,
    0xF0, 0x80, 0xF0, 0x80, 0x80,
];

fn machine(program: &[u8]) -> Chip8 {
    Chip8::start(program).unwrap()
}

fn lit_pixels(c: &Chip8) -> usize {
    let mut count = 0;
    for y in 0..SCREEN_HEIGHT {
        for x in 0..SCREEN_WIDTH {
            if c.get_pixel(x, y) == 1 {
                count += 1;
            }
        }
    }
    count
}

#[test]
fn load_then_add_literal() {
    let mut c = machine(&[0x60, 0x05, 0x70, 0x03]);
    assert_eq!(c.execute_next_opcode(), Ok(0x6005));
    assert_eq!(c.execute_next_opcode(), Ok(0x7003));
    assert_eq!(c.register(0), 8);
    assert_eq!(c.pc(), 0x200 + 4);
}

#[test]
fn clear_blanks_every_pixel() {
    // draw the font sprite of 0 first so that some pixels are set
    let mut c = machine(&[0xD0, 0x05, 0x00, 0xE0]);
    c.execute_next_opcode().unwrap();
    assert!(lit_pixels(&c) > 0);
    assert_eq!(c.execute_next_opcode(), Ok(0x00E0));
    assert_eq!(lit_pixels(&c), 0);
    assert_eq!(c.pc(), 0x204);
}

#[test]
fn call_then_return() {
    let mut program = vec![0u8; 0x12];
    program[0] = 0x22;
    program[1] = 0x10;
    program[0x10] = 0x00;
    program[0x11] = 0xEE;
    let mut c = machine(&program);
    let sp_before = c.sp();
    assert_eq!(c.execute_next_opcode(), Ok(0x2210));
    assert_eq!(c.pc(), 0x210);
    assert_eq!(c.stack_entry(c.sp()), 0x202);
    assert_eq!(c.execute_next_opcode(), Ok(0x00EE));
    assert_eq!(c.pc(), 0x202);
    assert_eq!(c.sp(), sp_before);
}

#[test]
fn skip_if_key_pressed_consumes_key() {
    let mut c = machine(&[0x61, 0x07, 0xE1, 0x9E]);
    c.set_key(7).unwrap();
    assert!(c.key(7));
    c.execute_next_opcode().unwrap();
    assert_eq!(c.execute_next_opcode(), Ok(0xE19E));
    assert_eq!(c.pc(), 0x202 + 4);
    assert!(!c.key(7));
}

#[test]
fn skip_if_key_not_pressed() {
    let mut c = machine(&[0x61, 0x07, 0xE1, 0xA1]);
    c.execute_next_opcode().unwrap();
    c.execute_next_opcode().unwrap();
    assert_eq!(c.pc(), 0x202 + 4);
    let mut d = machine(&[0x61, 0x07, 0xE1, 0xA1]);
    d.set_key(7).unwrap();
    d.execute_next_opcode().unwrap();
    d.execute_next_opcode().unwrap();
    assert_eq!(d.pc(), 0x202 + 2);
    assert!(!d.key(7));
}

#[test]
fn key_register_out_of_range() {
    let mut c = machine(&[0x61, 0x10, 0xE1, 0x9E]);
    c.execute_next_opcode().unwrap();
    assert_eq!(c.execute_next_opcode(), Err(Chip8Error::KeyIndexError));
    assert_eq!(c.pc(), 0x202);
}

#[test]
fn font_is_loaded() {
    let c = machine(&[]);
    for a in 0..80 {
        assert_eq!(c.memory_at(a), FONT[a]);
    }
    assert_eq!(c.memory_at(80), 0);
    assert_eq!(c.pc(), 0x200);
    assert_eq!(c.sp(), 0);
    assert_eq!(c.index(), 0);
}

#[test]
fn program_is_loaded_at_start_location() {
    let c = machine(&[0xAB, 0xCD, 0xEF]);
    assert_eq!(c.memory_at(0x200), 0xAB);
    assert_eq!(c.memory_at(0x201), 0xCD);
    assert_eq!(c.memory_at(0x202), 0xEF);
    assert_eq!(c.memory_at(0x203), 0);
}

#[test]
fn program_too_large() {
    let fits = vec![0u8; 4096 - 0x200];
    assert!(Chip8::start(&fits).is_ok());
    let too_big = vec![0u8; 4096 - 0x200 + 1];
    assert!(matches!(Chip8::start(&too_big), Err(Chip8Error::ProgramTooLarge)));
}

#[test]
fn new_machine_is_blank() {
    let c = Chip8::new();
    assert_eq!(c.pc(), 0x200);
    assert_eq!(c.memory_at(0), 0);
    assert_eq!(lit_pixels(&c), 0);
}

#[test]
fn timers_count_down_to_zero() {
    let mut c = machine(&[0x60, 0x02, 0xF0, 0x15, 0xF0, 0x18]);
    for _ in 0..3 {
        c.execute_next_opcode().unwrap();
    }
    assert_eq!(c.delay_timer(), 2);
    assert_eq!(c.sound_timer(), 2);
    c.update();
    assert_eq!(c.delay_timer(), 1);
    c.update();
    assert_eq!(c.delay_timer(), 0);
    assert_eq!(c.sound_timer(), 0);
    c.update();
    assert_eq!(c.delay_timer(), 0);
    assert_eq!(c.sound_timer(), 0);
    assert_eq!(c.pc(), 0x206);
}

#[test]
fn load_delay_timer_into_register() {
    let mut c = machine(&[0x60, 0x09, 0xF0, 0x15, 0xF3, 0x07]);
    for _ in 0..3 {
        c.execute_next_opcode().unwrap();
    }
    assert_eq!(c.register(3), 9);
}

#[test]
fn add_with_carry() {
    let mut c = Chip8::new();
    c.execute(Instruction::LoadByte(1, 200), 0).unwrap();
    c.execute(Instruction::LoadByte(2, 100), 0).unwrap();
    c.execute(Instruction::AddReg(1, 2), 0).unwrap();
    assert_eq!(c.register(1), 44);
    assert_eq!(c.register(15), 1);
    c.execute(Instruction::AddReg(1, 2), 0).unwrap();
    assert_eq!(c.register(1), 144);
    assert_eq!(c.register(15), 0);
}

#[test]
fn sub_with_borrow() {
    let mut c = Chip8::new();
    c.execute(Instruction::LoadByte(1, 10), 0).unwrap();
    c.execute(Instruction::LoadByte(2, 3), 0).unwrap();
    c.execute(Instruction::Sub(1, 2), 0).unwrap();
    assert_eq!(c.register(1), 7);
    assert_eq!(c.register(15), 1);
    c.execute(Instruction::LoadByte(1, 3), 0).unwrap();
    c.execute(Instruction::Sub(1, 2), 0).unwrap();
    assert_eq!(c.register(1), 0);
    assert_eq!(c.register(15), 0);
    c.execute(Instruction::LoadByte(1, 1), 0).unwrap();
    c.execute(Instruction::Sub(1, 2), 0).unwrap();
    assert_eq!(c.register(1), 254);
    assert_eq!(c.register(15), 0);
}

#[test]
fn reverse_sub_with_borrow() {
    let mut c = Chip8::new();
    c.execute(Instruction::LoadByte(1, 10), 0).unwrap();
    c.execute(Instruction::LoadByte(2, 3), 0).unwrap();
    c.execute(Instruction::SubReverse(1, 2), 0).unwrap();
    assert_eq!(c.register(1), 249);
    assert_eq!(c.register(15), 0);
    c.execute(Instruction::LoadByte(1, 1), 0).unwrap();
    c.execute(Instruction::SubReverse(1, 2), 0).unwrap();
    assert_eq!(c.register(1), 2);
    assert_eq!(c.register(15), 1);
}

#[test]
fn shifts_set_flag_from_shifted_bit() {
    let mut c = Chip8::new();
    c.execute(Instruction::LoadByte(4, 0b1000_0011), 0).unwrap();
    c.execute(Instruction::ShiftRight(4, 0), 0).unwrap();
    assert_eq!(c.register(4), 0b0100_0001);
    assert_eq!(c.register(15), 1);
    c.execute(Instruction::LoadByte(4, 0b1000_0010), 0).unwrap();
    c.execute(Instruction::ShiftLeft(4, 0), 0).unwrap();
    assert_eq!(c.register(4), 0b0000_0100);
    assert_eq!(c.register(15), 1);
    c.execute(Instruction::ShiftLeft(4, 0), 0).unwrap();
    assert_eq!(c.register(4), 0b0000_1000);
    assert_eq!(c.register(15), 0);
}

#[test]
fn bitwise_ops_and_add_literal() {
    let mut c = Chip8::new();
    c.execute(Instruction::LoadByte(0, 0b1100), 0).unwrap();
    c.execute(Instruction::LoadByte(1, 0b1010), 0).unwrap();
    c.execute(Instruction::Move(2, 0), 0).unwrap();
    c.execute(Instruction::Or(2, 1), 0).unwrap();
    assert_eq!(c.register(2), 0b1110);
    c.execute(Instruction::Move(2, 0), 0).unwrap();
    c.execute(Instruction::And(2, 1), 0).unwrap();
    assert_eq!(c.register(2), 0b1000);
    c.execute(Instruction::Move(2, 0), 0).unwrap();
    c.execute(Instruction::Xor(2, 1), 0).unwrap();
    assert_eq!(c.register(2), 0b0110);
    c.execute(Instruction::LoadByte(3, 250), 0).unwrap();
    c.execute(Instruction::AddByte(3, 10), 0).unwrap();
    assert_eq!(c.register(3), 4);
    assert_eq!(c.register(15), 0);
}

#[test]
fn skips_on_registers_and_literals() {
    let mut c = Chip8::new();
    c.execute(Instruction::LoadByte(0, 5), 0).unwrap();
    let pc = c.pc();
    c.execute(Instruction::SkipEqByte(0, 5), 0).unwrap();
    assert_eq!(c.pc(), pc + 4);
    c.execute(Instruction::SkipNeByte(0, 5), 0).unwrap();
    assert_eq!(c.pc(), pc + 6);
    c.execute(Instruction::LoadByte(1, 5), 0).unwrap();
    c.execute(Instruction::SkipEqReg(0, 1), 0).unwrap();
    assert_eq!(c.pc(), pc + 12);
    c.execute(Instruction::SkipNeReg(0, 1), 0).unwrap();
    assert_eq!(c.pc(), pc + 14);
}

#[test]
fn jumps() {
    let mut c = Chip8::new();
    c.execute(Instruction::Jump(0x345), 0).unwrap();
    assert_eq!(c.pc(), 0x345);
    c.execute(Instruction::LoadByte(0, 0x10), 0).unwrap();
    c.execute(Instruction::JumpOffset(0x300), 0).unwrap();
    assert_eq!(c.pc(), 0x310);
    c.execute(Instruction::LoadByte(0, 0xFF), 0).unwrap();
    assert_eq!(c.execute(Instruction::JumpOffset(0xFFF), 0), Err(Chip8Error::MemoryBounds));
    assert_eq!(c.pc(), 0x312);
}

#[test]
fn random_masks_byte() {
    let mut c = Chip8::new();
    c.execute(Instruction::Random(5, 0x0F), 0xAB).unwrap();
    assert_eq!(c.register(5), 0x0B);
    let mut d = machine(&[0xC5, 0x00]);
    assert_eq!(d.execute_next_opcode(), Ok(0xC500));
    assert_eq!(d.register(5), 0);
    let mut e = Chip8::new();
    assert_eq!(e.step_with_random(0x3C), Err(Chip8Error::InvalidOpcode(0)));
}

#[test]
fn step_with_random_runs_random_instruction() {
    let mut c = machine(&[0xC7, 0xF0]);
    assert_eq!(c.step_with_random(0x5A), Ok(0xC7F0));
    assert_eq!(c.register(7), 0x50);
    assert_eq!(c.pc(), 0x202);
}

#[test]
fn invalid_opcode_is_stepped_over() {
    let mut c = machine(&[0x01, 0x23, 0x80, 0x0F, 0xE0, 0x00, 0xF0, 0xFF]);
    assert_eq!(c.execute_next_opcode(), Err(Chip8Error::InvalidOpcode(0x0123)));
    assert_eq!(c.pc(), 0x202);
    assert_eq!(c.execute_next_opcode(), Err(Chip8Error::InvalidOpcode(0x800F)));
    assert_eq!(c.execute_next_opcode(), Err(Chip8Error::InvalidOpcode(0xE000)));
    assert_eq!(c.execute_next_opcode(), Err(Chip8Error::InvalidOpcode(0xF0FF)));
    assert_eq!(c.pc(), 0x208);
}

#[test]
fn stack_underflow_and_overflow() {
    let mut c = Chip8::new();
    assert_eq!(c.execute(Instruction::Return, 0), Err(Chip8Error::StackUnderflow));
    assert_eq!(c.pc(), 0x200);
    for _ in 0..15 {
        c.execute(Instruction::Call(0x300), 0).unwrap();
    }
    assert_eq!(c.sp(), 15);
    assert_eq!(c.execute(Instruction::Call(0x300), 0), Err(Chip8Error::StackOverflow));
    assert_eq!(c.pc(), 0x300);
    assert_eq!(c.sp(), 15);
}

#[test]
fn fetch_past_end_of_memory() {
    let mut c = Chip8::new();
    c.execute(Instruction::Jump(0xFFF), 0).unwrap();
    assert_eq!(c.execute_next_opcode(), Err(Chip8Error::MemoryBounds));
    assert_eq!(c.pc(), 0xFFF);
    c.execute(Instruction::Jump(0xFFE), 0).unwrap();
    assert_eq!(c.execute_next_opcode(), Err(Chip8Error::MemoryBounds));
    assert_eq!(c.pc(), 0xFFE);
}

#[test]
fn draw_font_sprite_and_collision() {
    let mut c = Chip8::new();
    let mut d = machine(&[]);
    d.execute(Instruction::LoadByte(0, 0), 0).unwrap();
    d.execute(Instruction::LoadFont(0), 0).unwrap();
    assert_eq!(d.index(), 0);
    d.execute(Instruction::Draw(1, 2, 5), 0).unwrap();
    // 0xF0 on the first row: four pixels from column 0
    assert_eq!(d.get_pixel(0, 0), 1);
    assert_eq!(d.get_pixel(3, 0), 1);
    assert_eq!(d.get_pixel(4, 0), 0);
    // 0x90 on the second row
    assert_eq!(d.get_pixel(0, 1), 1);
    assert_eq!(d.get_pixel(1, 1), 0);
    assert_eq!(d.get_pixel(3, 1), 1);
    assert_eq!(lit_pixels(&d), 14);
    assert_eq!(d.register(15), 0);
    d.execute(Instruction::Draw(1, 2, 5), 0).unwrap();
    assert_eq!(d.register(15), 1);
    assert_eq!(lit_pixels(&d), 0);
    assert_eq!(c.execute(Instruction::Draw(0, 0, 0), 0), Ok(()));
    assert_eq!(c.register(15), 0);
}

#[test]
fn draw_wraps_around_edges() {
    let mut d = machine(&[]);
    d.execute(Instruction::LoadByte(0, 62), 0).unwrap();
    d.execute(Instruction::LoadByte(1, 31), 0).unwrap();
    d.execute(Instruction::LoadIndex(0), 0).unwrap();
    d.execute(Instruction::Draw(0, 1, 2), 0).unwrap();
    assert_eq!(d.get_pixel(62, 31), 1);
    assert_eq!(d.get_pixel(63, 31), 1);
    assert_eq!(d.get_pixel(0, 31), 1);
    assert_eq!(d.get_pixel(1, 31), 1);
    assert_eq!(d.get_pixel(62, 0), 1);
    assert_eq!(d.get_pixel(1, 0), 1);
    assert_eq!(d.get_pixel(63, 0), 0);
    assert_eq!(d.get_pixel(62 + 64, 31 + 32), 1);
}

#[test]
fn draw_past_end_of_memory() {
    let mut d = machine(&[]);
    d.execute(Instruction::LoadIndex(0xFFE), 0).unwrap();
    let pc = d.pc();
    assert_eq!(d.execute(Instruction::Draw(0, 0, 3), 0), Err(Chip8Error::MemoryBounds));
    assert_eq!(d.pc(), pc);
    assert_eq!(lit_pixels(&d), 0);
    assert_eq!(d.execute(Instruction::Draw(0, 0, 2), 0), Ok(()));
}

#[test]
fn drawing_twice_restores_screen() {
    let mut d = machine(&[]);
    d.execute(Instruction::LoadByte(3, 60), 0).unwrap();
    d.execute(Instruction::LoadByte(4, 30), 0).unwrap();
    d.execute(Instruction::LoadIndex(10), 0).unwrap();
    d.execute(Instruction::Draw(3, 4, 15), 0).unwrap();
    let lit = lit_pixels(&d);
    assert!(lit > 0);
    d.execute(Instruction::Draw(3, 4, 15), 0).unwrap();
    assert_eq!(lit_pixels(&d), 0);
}

#[test]
fn index_register_ops() {
    let mut c = Chip8::new();
    c.execute(Instruction::LoadIndex(0xFFF), 0).unwrap();
    c.execute(Instruction::LoadByte(2, 0x10), 0).unwrap();
    c.execute(Instruction::AddIndex(2), 0).unwrap();
    assert_eq!(c.index(), 0x100F);
    c.execute(Instruction::LoadIndex(0), 0).unwrap();
    c.execute(Instruction::LoadByte(2, 0xFF), 0).unwrap();
    c.execute(Instruction::LoadFont(2), 0).unwrap();
    assert_eq!(c.index(), 1275);
}

#[test]
fn bcd_and_register_transfers() {
    let mut c = Chip8::new();
    c.execute(Instruction::LoadByte(6, 254), 0).unwrap();
    c.execute(Instruction::LoadIndex(0x300), 0).unwrap();
    c.execute(Instruction::StoreBcd(6), 0).unwrap();
    assert_eq!(c.memory_at(0x300), 2);
    assert_eq!(c.memory_at(0x301), 5);
    assert_eq!(c.memory_at(0x302), 4);
    for r in 0..4u8 {
        c.execute(Instruction::LoadByte(r, 10 + r), 0).unwrap();
    }
    c.execute(Instruction::LoadIndex(0x400), 0).unwrap();
    c.execute(Instruction::StoreRegs(2), 0).unwrap();
    assert_eq!(c.memory_at(0x400), 10);
    assert_eq!(c.memory_at(0x402), 12);
    assert_eq!(c.memory_at(0x403), 0);
    c.execute(Instruction::LoadIndex(0x300), 0).unwrap();
    c.execute(Instruction::LoadRegs(1), 0).unwrap();
    assert_eq!(c.register(0), 2);
    assert_eq!(c.register(1), 5);
    assert_eq!(c.register(2), 12);
    c.execute(Instruction::LoadIndex(0xFFE), 0).unwrap();
    assert_eq!(c.execute(Instruction::StoreBcd(6), 0), Err(Chip8Error::MemoryBounds));
    assert_eq!(c.execute(Instruction::StoreRegs(2), 0), Err(Chip8Error::MemoryBounds));
    assert_eq!(c.execute(Instruction::LoadRegs(2), 0), Err(Chip8Error::MemoryBounds));
}

#[test]
fn wait_for_key() {
    let mut c = Chip8::new();
    c.execute(Instruction::WaitKey(3), 0).unwrap();
    assert_eq!(c.pc(), 0x200);
    let mut keys = [false; 16];
    keys[9] = true;
    keys[12] = true;
    c.set_keys(&keys);
    c.execute(Instruction::WaitKey(3), 0).unwrap();
    assert_eq!(c.pc(), 0x202);
    assert_eq!(c.register(3), 9);
    assert!(!c.key(9));
    assert!(c.key(12));
}

#[test]
fn set_key_bounds() {
    let mut c = Chip8::new();
    assert_eq!(c.set_key(15), Ok(()));
    assert!(c.key(15));
    assert_eq!(c.set_key(16), Err(Chip8Error::KeyIndexError));
}

#[test]
fn decode_examples() {
    assert_eq!(decode(0x00E0), Some(Instruction::Clear));
    assert_eq!(decode(0x00EE), Some(Instruction::Return));
    assert_eq!(decode(0x1ABC), Some(Instruction::Jump(0xABC)));
    assert_eq!(decode(0x8AB4), Some(Instruction::AddReg(0xA, 0xB)));
    assert_eq!(decode(0x8ABE), Some(Instruction::ShiftLeft(0xA, 0xB)));
    assert_eq!(decode(0xD12F), Some(Instruction::Draw(1, 2, 0xF)));
    assert_eq!(decode(0xF265), Some(Instruction::LoadRegs(2)));
    assert_eq!(decode(0x5121), Some(Instruction::SkipEqReg(1, 2)));
    assert_eq!(decode(0x0000), None);
    assert_eq!(decode(0x8008), None);
}
