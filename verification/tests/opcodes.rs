use emul8::cpu::Cpu;
use emul8::instr::Fault;

#[test]
fn add_immediate_wraps_without_flag() {
    let mut cpu = Cpu::new();
    cpu.v[0] = 250;
    cpu.v[15] = 0x55;
    cpu.execute_instruction(0x700A).unwrap();
    assert_eq!(cpu.v[0], 4);
    assert_eq!(cpu.v[15], 0x55);
}

#[test]
fn add_registers_sets_carry_iff_overflow() {
    let mut cpu = Cpu::new();
    cpu.v[0] = 200;
    cpu.v[1] = 100;
    cpu.execute_instruction(0x8014).unwrap();
    assert_eq!(cpu.v[0], 44);
    assert_eq!(cpu.v[15], 1);

    let mut cpu = Cpu::new();
    cpu.v[0] = 10;
    cpu.v[1] = 20;
    cpu.execute_instruction(0x8014).unwrap();
    assert_eq!(cpu.v[0], 30);
    assert_eq!(cpu.v[15], 0);
}

#[test]
fn sub_registers_borrows_and_wraps() {
    let mut cpu = Cpu::new();
    cpu.v[0] = 5;
    cpu.v[1] = 10;
    cpu.execute_instruction(0x8015).unwrap();
    assert_eq!(cpu.v[0], 251);
    assert_eq!(cpu.v[15], 0);
}

#[test]
fn shift_right_flags_top_bit_before_shift() {
    let mut cpu = Cpu::new();
    cpu.v[0] = 0b1000_0001;
    cpu.execute_instruction(0x8006).unwrap();
    assert_eq!(cpu.v[15], 1);
    assert_eq!(cpu.v[0], 64);
}

#[test]
fn shift_left_flags_top_bit_and_doubles() {
    let mut cpu = Cpu::new();
    cpu.v[2] = 0b1000_0001;
    cpu.execute_instruction(0x820E).unwrap();
    assert_eq!(cpu.v[15], 1);
    assert_eq!(cpu.v[2], 2);

    let mut cpu = Cpu::new();
    cpu.v[2] = 0b0100_0000;
    cpu.execute_instruction(0x820E).unwrap();
    assert_eq!(cpu.v[15], 0);
    assert_eq!(cpu.v[2], 128);
}

#[test]
fn subn_registers_reverse_borrow() {
    let mut cpu = Cpu::new();
    cpu.v[0] = 5;
    cpu.v[1] = 10;
    cpu.execute_instruction(0x8017).unwrap();
    assert_eq!(cpu.v[0], 5);
    assert_eq!(cpu.v[15], 1);
}

#[test]
fn bitwise_register_ops() {
    let mut cpu = Cpu::new();
    cpu.v[3] = 0b1100;
    cpu.v[4] = 0b1010;
    cpu.execute_instruction(0x8340).unwrap();
    assert_eq!(cpu.v[3], 0b1010);
    cpu.v[3] = 0b1100;
    cpu.execute_instruction(0x8341).unwrap();
    assert_eq!(cpu.v[3], 0b1110);
    cpu.v[3] = 0b1100;
    cpu.execute_instruction(0x8342).unwrap();
    assert_eq!(cpu.v[3], 0b1000);
    cpu.v[3] = 0b1100;
    cpu.execute_instruction(0x8343).unwrap();
    assert_eq!(cpu.v[3], 0b0110);
}

#[test]
fn return_on_empty_stack_is_a_reported_fault() {
    let mut cpu = Cpu::new();
    let r = cpu.execute_instruction(0x00EE);
    assert_eq!(r, Err(Fault::StackUnderflow));
}

#[test]
fn unknown_opcodes_are_reported_faults() {
    for op in [0x0123u16, 0x5001, 0x8008, 0x800F, 0x9005, 0xE000, 0xE0A2, 0xF000, 0xF0FF] {
        let mut cpu = Cpu::new();
        let r = cpu.execute_instruction(op);
        assert_eq!(r, Err(Fault::UnknownOpcode), "opcode {op:#06x}");
        assert_eq!(cpu.program_addr, 0x202);
    }
}

#[test]
fn jumps_calls_and_returns_move_the_program_counter() {
    let mut cpu = Cpu::new();
    cpu.execute_instruction(0x1ABC).unwrap();
    assert_eq!(cpu.program_addr, 0xABC);

    let mut cpu = Cpu::new();
    cpu.execute_instruction(0x2ABC).unwrap();
    assert_eq!(cpu.program_addr, 0xABC);
    assert_eq!(cpu.stack, vec![0x202]);
    cpu.execute_instruction(0x00EE).unwrap();
    assert_eq!(cpu.program_addr, 0x202);
    assert!(cpu.stack.is_empty());
}

#[test]
fn conditional_skips() {
    let mut cpu = Cpu::new();
    cpu.v[1] = 0x42;
    cpu.execute_instruction(0x3142).unwrap();
    assert_eq!(cpu.program_addr, 0x204);
    cpu.execute_instruction(0x3143).unwrap();
    assert_eq!(cpu.program_addr, 0x206);
    cpu.execute_instruction(0x4143).unwrap();
    assert_eq!(cpu.program_addr, 0x20A);
    cpu.v[2] = 0x42;
    cpu.execute_instruction(0x5120).unwrap();
    assert_eq!(cpu.program_addr, 0x20E);
    cpu.execute_instruction(0x9120).unwrap();
    assert_eq!(cpu.program_addr, 0x210);
    cpu.v[2] = 0;
    cpu.execute_instruction(0x9120).unwrap();
    assert_eq!(cpu.program_addr, 0x214);
}

#[test]
fn loads_and_index_register() {
    let mut cpu = Cpu::new();
    cpu.execute_instruction(0x6677).unwrap();
    assert_eq!(cpu.v[6], 0x77);
    cpu.execute_instruction(0xA123).unwrap();
    assert_eq!(cpu.memory_addr, 0x123);
    cpu.v[0] = 0x10;
    cpu.execute_instruction(0xB200).unwrap();
    assert_eq!(cpu.program_addr, 0x210);
    cpu.v[5] = 9;
    cpu.execute_instruction(0xF51E).unwrap();
    assert_eq!(cpu.memory_addr, 0x12C);
    cpu.v[7] = 0xA;
    cpu.execute_instruction(0xF729).unwrap();
    assert_eq!(cpu.memory_addr, 50);
}

#[test]
fn random_masked_with_zero_is_zero() {
    let mut cpu = Cpu::new();
    cpu.v[4] = 0xFF;
    cpu.execute_instruction(0xC400).unwrap();
    assert_eq!(cpu.v[4], 0);
    cpu.execute_instruction(0xC40F).unwrap();
    assert!(cpu.v[4] <= 0x0F);
}

#[test]
fn bcd_decomposes_decimal_digits() {
    let mut cpu = Cpu::new();
    cpu.execute_instruction(0xA300).unwrap();
    cpu.v[2] = 157;
    cpu.execute_instruction(0xF233).unwrap();
    assert_eq!(cpu.memory[0x300], 1);
    assert_eq!(cpu.memory[0x301], 5);
    assert_eq!(cpu.memory[0x302], 7);
}

#[test]
fn store_then_load_round_trips_registers() {
    let mut cpu = Cpu::new();
    let vals = [0xDE, 0xAD, 0xBE, 0xEF];
    for (i, v) in vals.iter().enumerate() {
        cpu.v[i] = *v;
    }
    cpu.execute_instruction(0xA300).unwrap();
    cpu.execute_instruction(0xF355).unwrap();
    for i in 0..4 {
        assert_eq!(cpu.memory[0x300 + i], vals[i]);
        cpu.v[i] = 0;
    }
    cpu.execute_instruction(0xA300).unwrap();
    cpu.execute_instruction(0xF365).unwrap();
    for i in 0..4 {
        assert_eq!(cpu.v[i], vals[i]);
    }
}

#[test]
fn timers_through_registers() {
    let mut cpu = Cpu::new();
    cpu.v[1] = 77;
    cpu.execute_instruction(0xF115).unwrap();
    assert_eq!(cpu.delay_timer, 77);
    cpu.execute_instruction(0xF118).unwrap();
    assert_eq!(cpu.sound_timer, 77);
    cpu.execute_instruction(0xF207).unwrap();
    assert_eq!(cpu.v[2], 77);
}

#[test]
fn key_skips_consult_the_keyboard() {
    let mut cpu = Cpu::new();
    cpu.v[0] = 0x5;
    cpu.keyboard.on_key_down(0x5);
    cpu.execute_instruction(0xE09E).unwrap();
    assert_eq!(cpu.program_addr, 0x204);
    cpu.execute_instruction(0xE0A1).unwrap();
    assert_eq!(cpu.program_addr, 0x206);
    cpu.keyboard.on_key_up(0x5);
    cpu.execute_instruction(0xE09E).unwrap();
    assert_eq!(cpu.program_addr, 0x208);
    cpu.execute_instruction(0xE0A1).unwrap();
    assert_eq!(cpu.program_addr, 0x20C);
}

#[test]
fn draw_glyph_then_redraw_erases() {
    let mut cpu = Cpu::new();
    cpu.load_sprites_to_memory();
    cpu.execute_instruction(0xA000).unwrap();
    cpu.execute_instruction(0xD005).unwrap();
    let glyph = [0xF0u8, 0x90, 0x90, 0x90, 0xF0];
    for (row, byte) in glyph.iter().enumerate() {
        for col in 0..8 {
            let lit = (byte >> (7 - col)) & 1 == 1;
            assert_eq!(cpu.display.pixels[row * 64 + col], lit, "row {row} col {col}");
        }
    }
    assert_eq!(cpu.v[15], 0);
    cpu.execute_instruction(0xD005).unwrap();
    assert_eq!(cpu.v[15], 1);
    assert!(cpu.display.pixels.iter().all(|p| !*p));
}

#[test]
fn draw_wraps_at_the_edges() {
    let mut cpu = Cpu::new();
    cpu.execute_instruction(0xA300).unwrap();
    cpu.memory[0x300] = 0b1100_0000;
    cpu.v[0] = 63;
    cpu.v[1] = 31;
    cpu.execute_instruction(0xD011).unwrap();
    assert!(cpu.display.pixels[31 * 64 + 63]);
    assert!(cpu.display.pixels[31 * 64 + 0]);
    assert_eq!(cpu.v[15], 0);
}

#[test]
fn program_counter_wraps_the_address_space() {
    let mut cpu = Cpu::new();
    cpu.execute_instruction(0x1FFE).unwrap();
    assert_eq!(cpu.program_addr, 0xFFE);
    cpu.execute_instruction(0x6000).unwrap();
    assert_eq!(cpu.program_addr, 0);
}

#[test]
fn memory_addresses_wrap_the_address_space() {
    let mut cpu = Cpu::new();
    cpu.execute_instruction(0xAFFF).unwrap();
    cpu.v[2] = 157;
    cpu.execute_instruction(0xF233).unwrap();
    assert_eq!(cpu.memory[4095], 1);
    assert_eq!(cpu.memory[0], 5);
    assert_eq!(cpu.memory[1], 7);
    cpu.v[3] = 5;
    cpu.execute_instruction(0xF31E).unwrap();
    assert_eq!(cpu.memory_addr, 4);
}
