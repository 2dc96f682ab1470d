use emul8::cpu::Cpu;
use emul8::instr::Fault;

#[test]
fn fresh_machine_state() {
    let cpu = Cpu::new();
    assert_eq!(cpu.memory.len(), 4096);
    assert!(cpu.memory.iter().all(|b| *b == 0));
    assert_eq!(cpu.v, vec![0u8; 16]);
    assert_eq!(cpu.memory_addr, 0);
    assert_eq!(cpu.program_addr, 0x200);
    assert_eq!(cpu.delay_timer, 0);
    assert_eq!(cpu.sound_timer, 0);
    assert!(!cpu.paused);
    assert_eq!(cpu.speed, 10);
    assert!(cpu.stack.is_empty());
    assert!(!cpu.keyboard.awaiting_keypress);
    assert!(!cpu.keyboard.handle_resume);
}

#[test]
fn sprites_land_in_low_memory() {
    let mut cpu = Cpu::new();
    cpu.memory[80] = 0xAB;
    cpu.load_sprites_to_memory();
    assert_eq!(&cpu.memory[0..5], &[0xF0, 0x90, 0x90, 0x90, 0xF0]);
    assert_eq!(&cpu.memory[75..80], &[0xF0, 0x80, 0xF0, 0x80, 0x80]);
    assert_eq!(cpu.memory[80], 0xAB);
    cpu.load_sprites_to_memory();
    assert_eq!(&cpu.memory[0..5], &[0xF0, 0x90, 0x90, 0x90, 0xF0]);
}

#[test]
fn programs_load_at_the_conventional_start() {
    let mut cpu = Cpu::new();
    cpu.load_program_to_memory(vec![0xAA, 0xBB, 0xCC]).unwrap();
    assert_eq!(cpu.memory[0x200], 0xAA);
    assert_eq!(cpu.memory[0x201], 0xBB);
    assert_eq!(cpu.memory[0x202], 0xCC);
    assert_eq!(cpu.memory[0x203], 0);
}

#[test]
fn oversized_programs_are_refused_whole() {
    let mut cpu = Cpu::new();
    let r = cpu.load_program_to_memory(vec![0x11; 3585]);
    assert_eq!(r, Err(Fault::ProgramTooLarge));
    assert!(cpu.memory.iter().all(|b| *b == 0));
    let r = cpu.load_program_to_memory(vec![0x11; 3584]);
    assert_eq!(r, Ok(()));
    assert_eq!(cpu.memory[4095], 0x11);
}

#[test]
fn a_tick_runs_speed_instructions_then_one_timer_step() {
    let mut cpu = Cpu::new();
    // Ten copies of "add 1 to V0".
    let mut rom: Vec<u8> = Vec::new();
    for _ in 0..10 {
        rom.push(0x70);
        rom.push(0x01);
    }
    cpu.load_program_to_memory(rom).unwrap();
    cpu.delay_timer = 5;
    cpu.sound_timer = 1;
    cpu.cycle().unwrap();
    assert_eq!(cpu.v[0], 10);
    assert_eq!(cpu.program_addr, 0x200 + 20);
    assert_eq!(cpu.delay_timer, 4);
    assert_eq!(cpu.sound_timer, 0);
}

#[test]
fn timer_steps_stop_at_zero() {
    let mut cpu = Cpu::new();
    cpu.delay_timer = 1;
    cpu.update_timers();
    assert_eq!(cpu.delay_timer, 0);
    assert_eq!(cpu.sound_timer, 0);
    cpu.update_timers();
    assert_eq!(cpu.delay_timer, 0);
    assert_eq!(cpu.sound_timer, 0);
}

#[test]
fn a_paused_machine_freezes_whole_ticks() {
    let mut cpu = Cpu::new();
    cpu.load_program_to_memory(vec![0x70, 0x01, 0x12, 0x00]).unwrap();
    cpu.delay_timer = 9;
    cpu.toggle_pause();
    assert!(cpu.paused);
    cpu.cycle().unwrap();
    assert_eq!(cpu.v[0], 0);
    assert_eq!(cpu.program_addr, 0x200);
    assert_eq!(cpu.delay_timer, 9);
    cpu.toggle_pause();
    assert!(!cpu.paused);
}

#[test]
fn a_fault_stops_the_tick_where_it_happened() {
    let mut cpu = Cpu::new();
    // One harmless instruction, then memory full of zeros: the second fetch
    // hits an unknown opcode.
    cpu.load_program_to_memory(vec![0x70, 0x01]).unwrap();
    cpu.delay_timer = 3;
    let r = cpu.cycle();
    assert_eq!(r, Err(Fault::UnknownOpcode));
    assert_eq!(cpu.v[0], 1);
    // The tick never reached its timer step.
    assert_eq!(cpu.delay_timer, 3);
}

#[test]
fn wait_for_key_suspends_resumes_and_freezes_game_time() {
    let mut cpu = Cpu::new();
    // Wait for a key into V3, then spin on a jump-to-self.
    cpu.load_program_to_memory(vec![0xF3, 0x0A, 0x12, 0x02]).unwrap();
    cpu.delay_timer = 42;
    cpu.sound_timer = 7;
    cpu.cycle().unwrap();
    assert!(cpu.keyboard.awaiting_keypress);
    assert_eq!(cpu.program_addr, 0x202);
    // Waiting freezes instructions and timers alike.
    assert_eq!(cpu.delay_timer, 42);
    assert_eq!(cpu.sound_timer, 7);
    cpu.cycle().unwrap();
    assert_eq!(cpu.delay_timer, 42);
    assert_eq!(cpu.sound_timer, 7);
    // A key press ends the wait and leaves the write-back pending.
    cpu.keyboard.on_key_down(0x7);
    assert!(!cpu.keyboard.awaiting_keypress);
    assert!(cpu.keyboard.handle_resume);
    // The next tick writes the key back, resumes, and game time moves again.
    cpu.cycle().unwrap();
    assert_eq!(cpu.v[3], 0x7);
    assert!(!cpu.keyboard.handle_resume);
    assert!(!cpu.keyboard.awaiting_keypress);
    assert_eq!(cpu.delay_timer, 41);
    assert_eq!(cpu.sound_timer, 6);
}

#[test]
fn resume_write_back_rereads_the_wait_instruction() {
    let mut cpu = Cpu::new();
    cpu.load_program_to_memory(vec![0xFA, 0x0A, 0x12, 0x02]).unwrap();
    cpu.cycle().unwrap();
    assert!(cpu.keyboard.awaiting_keypress);
    cpu.keyboard.on_key_down(0xC);
    cpu.cycle().unwrap();
    assert_eq!(cpu.v[0xA], 0xC);
}
