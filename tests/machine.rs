use chip8::{Chip8, Fault};

fn boot(program: &[u8]) -> Chip8 {
    let mut c = Chip8::new();
    assert_eq!(c.load_game(program), Ok(()));
    c
}

fn run(c: &mut Chip8, cycles: usize) {
    for _ in 0..cycles {
        assert_eq!(c.step(0), Ok(()));
    }
}

#[test]
fn new_machine_state() {
    let c = Chip8::new();
    assert_eq!(c.program_counter(), 0x200);
    assert_eq!(c.index(), 0);
    assert_eq!(c.delay_timer(), 0);
    assert_eq!(c.stack_depth(), 0);
    for r in 0..16 {
        assert_eq!(c.register(r), 0);
        assert!(!c.key_held(r));
    }
    assert_eq!(c.memory_at(0), 0xF0);
    assert_eq!(c.memory_at(5), 0x20);
    assert_eq!(c.memory_at(79), 0x80);
    assert_eq!(c.memory_at(80), 0);
    assert_eq!(c.memory_at(0x200), 0);
    assert!(!c.pixel(0, 0));
}

#[test]
fn add_program_scenario() {
    let mut c = boot(&[0x60, 0x0A, 0x61, 0x05, 0x80, 0x14]);
    run(&mut c, 3);
    assert_eq!(c.register(0), 15);
    assert_eq!(c.register(0xF), 0);
    assert_eq!(c.program_counter(), 0x206);
}

#[test]
fn add_with_carry_overflows() {
    let mut c = boot(&[0x60, 0xFF, 0x61, 0x02, 0x80, 0x14]);
    run(&mut c, 3);
    assert_eq!(c.register(0), 1);
    assert_eq!(c.register(0xF), 1);
}

#[test]
fn add_with_carry_into_flag_register() {
    let mut c = boot(&[0x6F, 0x05, 0x61, 0x03, 0x8F, 0x14]);
    run(&mut c, 3);
    assert_eq!(c.register(0xF), 0);
}

#[test]
fn subtract_with_borrow() {
    let mut c = boot(&[0x60, 0x03, 0x61, 0x05, 0x80, 0x15]);
    run(&mut c, 3);
    assert_eq!(c.register(0), 254);
    assert_eq!(c.register(0xF), 0);
    let mut c = boot(&[0x60, 0x05, 0x61, 0x05, 0x80, 0x15]);
    run(&mut c, 3);
    assert_eq!(c.register(0), 0);
    assert_eq!(c.register(0xF), 1);
}

#[test]
fn reverse_subtract() {
    let mut c = boot(&[0x60, 0x05, 0x61, 0x03, 0x80, 0x17]);
    run(&mut c, 3);
    assert_eq!(c.register(0), 254);
    assert_eq!(c.register(0xF), 0);
}

#[test]
fn shift_flags() {
    let mut c = boot(&[0x60, 0x05, 0x80, 0x06]);
    run(&mut c, 2);
    assert_eq!(c.register(0), 2);
    assert_eq!(c.register(0xF), 1);
    let mut c = boot(&[0x60, 0x81, 0x80, 0x0E]);
    run(&mut c, 2);
    assert_eq!(c.register(0), 2);
    assert_eq!(c.register(0xF), 1);
    let mut c = boot(&[0x60, 0x40, 0x80, 0x0E]);
    run(&mut c, 2);
    assert_eq!(c.register(0), 0x80);
    assert_eq!(c.register(0xF), 0);
}

#[test]
fn logic_ops_and_add_immediate() {
    let mut c = boot(&[0x60, 0x0C, 0x61, 0x0A, 0x82, 0x00, 0x82, 0x11, 0x83, 0x00, 0x83, 0x12,
        0x84, 0x00, 0x84, 0x13, 0x70, 0xFF]);
    run(&mut c, 9);
    assert_eq!(c.register(2), 0x0E);
    assert_eq!(c.register(3), 0x08);
    assert_eq!(c.register(4), 0x06);
    assert_eq!(c.register(0), 0x0B);
    assert_eq!(c.register(0xF), 0);
}

#[test]
fn skips() {
    let mut c = boot(&[0x60, 0x07, 0x30, 0x07]);
    run(&mut c, 2);
    assert_eq!(c.program_counter(), 0x206);
    let mut c = boot(&[0x60, 0x07, 0x40, 0x07]);
    run(&mut c, 2);
    assert_eq!(c.program_counter(), 0x204);
    let mut c = boot(&[0x60, 0x07, 0x61, 0x07, 0x50, 0x10]);
    run(&mut c, 3);
    assert_eq!(c.program_counter(), 0x208);
    let mut c = boot(&[0x60, 0x07, 0x61, 0x07, 0x90, 0x10]);
    run(&mut c, 3);
    assert_eq!(c.program_counter(), 0x206);
}

#[test]
fn jumps() {
    let mut c = boot(&[0x13, 0x45]);
    run(&mut c, 1);
    assert_eq!(c.program_counter(), 0x345);
    let mut c = boot(&[0x60, 0x10, 0xB3, 0x00]);
    run(&mut c, 2);
    assert_eq!(c.program_counter(), 0x310);
}

#[test]
fn call_then_return() {
    let mut program = vec![0u8; 0x10];
    program[0] = 0x22;
    program[1] = 0x0A;
    program[0x0A] = 0x00;
    program[0x0B] = 0xEE;
    let mut c = boot(&program);
    run(&mut c, 1);
    assert_eq!(c.program_counter(), 0x20A);
    assert_eq!(c.stack_depth(), 1);
    run(&mut c, 1);
    assert_eq!(c.program_counter(), 0x202);
    assert_eq!(c.stack_depth(), 0);
}

#[test]
fn register_dump_and_load_round_trip() {
    let mut c = boot(&[
        0x60, 0x01, 0x61, 0x02, 0x62, 0x03, 0x63, 0x04, 0xA3, 0x00, 0xF3, 0x55,
        0x60, 0x00, 0x61, 0x00, 0x62, 0x00, 0x63, 0x00, 0xF3, 0x65,
    ]);
    run(&mut c, 6);
    assert_eq!(c.memory_at(0x300), 1);
    assert_eq!(c.memory_at(0x303), 4);
    assert_eq!(c.memory_at(0x304), 0);
    run(&mut c, 4);
    for r in 0..4 {
        assert_eq!(c.register(r), 0);
    }
    run(&mut c, 1);
    for r in 0..4 {
        assert_eq!(c.register(r), r as u8 + 1);
    }
}

#[test]
fn bcd_of_234() {
    let mut c = boot(&[0x65, 0xEA, 0xA3, 0x00, 0xF5, 0x33]);
    run(&mut c, 3);
    assert_eq!(c.memory_at(0x300), 2);
    assert_eq!(c.memory_at(0x301), 3);
    assert_eq!(c.memory_at(0x302), 4);
}

#[test]
fn index_add_and_glyph_address() {
    let mut c = boot(&[0x60, 0x0A, 0xAF, 0xFF, 0xF0, 0x1E, 0x61, 0x0F, 0xF1, 0x29]);
    run(&mut c, 3);
    assert_eq!(c.index(), 0x1009);
    assert_eq!(c.register(0xF), 1);
    run(&mut c, 2);
    assert_eq!(c.index(), 75);
}

#[test]
fn timer_set_and_read() {
    let mut c = boot(&[0x60, 0x02, 0xF0, 0x15, 0xF1, 0x07]);
    run(&mut c, 2);
    assert_eq!(c.delay_timer(), 2);
    assert!(!c.on_clock(10));
    assert_eq!(c.delay_timer(), 2);
    assert!(c.on_clock(16));
    assert_eq!(c.delay_timer(), 1);
    assert!(!c.on_clock(31));
    assert!(c.on_clock(32));
    assert!(c.on_clock(100));
    assert_eq!(c.delay_timer(), 0);
    run(&mut c, 1);
    assert_eq!(c.register(1), 0);
}

#[test]
fn do_tick_only_when_due() {
    let mut c = Chip8::new();
    assert!(!c.do_tick(15));
    assert!(c.do_tick(16));
    assert!(!c.do_tick(20));
    assert!(c.do_tick(40));
    c.tick_timer();
    assert_eq!(c.delay_timer(), 0);
}

#[test]
fn key_skips() {
    let mut c = boot(&[0x60, 0x05, 0xE0, 0x9E, 0x00, 0x00, 0xE0, 0xA1]);
    c.set_key(5, true);
    assert!(c.key_held(5));
    run(&mut c, 2);
    assert_eq!(c.program_counter(), 0x206);
    run(&mut c, 1);
    assert_eq!(c.program_counter(), 0x208);
    c.set_key(5, false);
    let mut c2 = boot(&[0x60, 0x05, 0xE0, 0xA1]);
    run(&mut c2, 2);
    assert_eq!(c2.program_counter(), 0x206);
}

#[test]
fn random_byte_is_masked() {
    let mut c = boot(&[0xC0, 0x0F, 0xC1, 0xF0]);
    assert_eq!(c.step(0xAB), Ok(()));
    assert_eq!(c.register(0), 0x0B);
    assert_eq!(c.step(0xAB), Ok(()));
    assert_eq!(c.register(1), 0xA0);
    let mut c = boot(&[0xC0, 0x0F, 0xC1, 0x00]);
    c.emulate_cycle().unwrap();
    assert!(c.register(0) <= 0x0F);
    c.emulate_cycle().unwrap();
    assert_eq!(c.register(1), 0);
}

#[test]
fn draw_instruction_and_clear() {
    // glyph 0 at (0, 0), then the same glyph again, then clear
    let mut c = boot(&[0xA0, 0x00, 0xD0, 0x05, 0xD0, 0x05, 0x00, 0xE0]);
    run(&mut c, 2);
    assert!(c.pixel(0, 0));
    assert!(c.pixel(3, 0));
    assert!(!c.pixel(4, 0));
    assert!(c.pixel(0, 1));
    assert!(!c.pixel(1, 1));
    assert_eq!(c.register(0xF), 0);
    run(&mut c, 1);
    assert!(!c.pixel(0, 0));
    assert_eq!(c.register(0xF), 1);
    let mut c = boot(&[0xA0, 0x00, 0xD0, 0x05, 0x00, 0xE0]);
    run(&mut c, 3);
    for y in 0..32 {
        for x in 0..64 {
            assert!(!c.pixel(x, y));
        }
    }
}

#[test]
fn unknown_opcode_fault() {
    let mut c = boot(&[0x01, 0x23]);
    assert_eq!(c.step(0), Err(Fault::UnknownOpcode(0x0123)));
    assert_eq!(c.program_counter(), 0x200);
}

#[test]
fn stack_underflow_fault() {
    let mut c = boot(&[0x00, 0xEE]);
    assert_eq!(c.step(0), Err(Fault::StackUnderflow));
    assert_eq!(c.program_counter(), 0x200);
}

#[test]
fn stack_overflow_fault() {
    let mut c = boot(&[0x22, 0x00]);
    run(&mut c, 16);
    assert_eq!(c.stack_depth(), 16);
    assert_eq!(c.step(0), Err(Fault::StackOverflow));
    assert_eq!(c.stack_depth(), 16);
}

#[test]
fn address_out_of_range_faults() {
    let mut c = boot(&[0x1F, 0xFF]);
    run(&mut c, 1);
    assert_eq!(c.step(0), Err(Fault::AddressOutOfRange));
    let mut c = boot(&[0xAF, 0xFE, 0xF0, 0x33]);
    run(&mut c, 1);
    assert_eq!(c.step(0), Err(Fault::AddressOutOfRange));
    let mut c = boot(&[0xAF, 0xFE, 0xF3, 0x55]);
    run(&mut c, 1);
    assert_eq!(c.step(0), Err(Fault::AddressOutOfRange));
    let mut c = boot(&[0xAF, 0xFE, 0xF3, 0x65]);
    run(&mut c, 1);
    assert_eq!(c.step(0), Err(Fault::AddressOutOfRange));
    let mut c = boot(&[0xAF, 0xFE, 0xD0, 0x05]);
    run(&mut c, 1);
    assert_eq!(c.step(0), Err(Fault::AddressOutOfRange));
}

#[test]
fn invalid_key_fault() {
    let mut c = boot(&[0x60, 0x10, 0xE0, 0x9E]);
    run(&mut c, 1);
    assert_eq!(c.step(0), Err(Fault::InvalidKey(0x10)));
}

#[test]
fn rom_too_large() {
    let mut c = Chip8::new();
    let big = vec![1u8; 4096 - 0x200 + 1];
    assert_eq!(c.load_game(&big), Err(Fault::RomTooLarge));
    assert_eq!(c.memory_at(0x200), 0);
    let fits = vec![1u8; 4096 - 0x200];
    assert_eq!(c.load_game(&fits), Ok(()));
    assert_eq!(c.memory_at(0xFFF), 1);
    assert_eq!(c.memory_at(0x1FF), 0);
}
