use chip8::exec::Chip8;
use chip8::input::KeyboardState;
use chip8::state::InternalState;
use chip8::state::KeyboardKey;
use chip8::state::DISPLAYW;
use chip8::state::REG_PC;
use chip8::state::REG_SP;

fn machine() -> Chip8 {
    let mut c = Chip8::new();
    c.setup();
    c
}

fn machine_with_rom(rom: Vec<u8>) -> Chip8 {
    let mut c = machine();
    c.load_rom_to_memory(&rom);
    c
}

fn cell(c: &Chip8, x: usize, y: usize) -> u8 {
    c.state.framebuffer[y * DISPLAYW + x]
}

#[test]
fn setup_initializes_pc_sp_and_fonts() {
    let c = machine();
    assert_eq!(c.state.registers[REG_PC], 0x200);
    assert_eq!(c.state.registers[REG_SP], 0x200);
    assert_eq!(&c.state.main_memory[0..5], &[0xF0, 0x90, 0x90, 0x90, 0xF0]);
    assert_eq!(&c.state.main_memory[75..80], &[0xF0, 0x80, 0xF0, 0x80, 0x80]);
    assert!(c.invariants_hold());
}

#[test]
fn load_rom_places_bytes_at_program_start() {
    let c = machine_with_rom(vec![0xAA, 0xBB, 0xCC]);
    assert_eq!(c.state.main_memory[0x200], 0xAA);
    assert_eq!(c.state.main_memory[0x201], 0xBB);
    assert_eq!(c.state.main_memory[0x202], 0xCC);
    assert_eq!(c.state.main_memory[0x203], 0x00);
}

#[test]
fn stack_round_trip_restores_pointer() {
    let mut c = machine();
    let sp0 = c.state.registers[REG_SP];
    c.state.push_stack(0x0ABC);
    assert_eq!(c.state.registers[REG_SP], sp0 - 2);
    assert_eq!(c.state.peek_stack(), 0x0ABC);
    let v = c.state.pop_stack();
    assert_eq!(v, 0x0ABC);
    assert_eq!(c.state.registers[REG_SP], sp0);
}

#[test]
fn sixteen_pushes_fill_the_stack() {
    let mut c = machine();
    for k in 0..16u16 {
        c.state.push_stack(0x300 + k);
    }
    assert_eq!(c.state.registers[REG_SP], 0x200 - 32);
    for k in (0..16u16).rev() {
        assert_eq!(c.state.pop_stack(), 0x300 + k);
    }
    assert_eq!(c.state.registers[REG_SP], 0x200);
}

#[test]
fn seventeenth_call_faults() {
    // seventeen nested calls, each to the next instruction
    let mut rom: Vec<u8> = Vec::new();
    for k in 0..17u16 {
        let target = 0x202 + 2 * k;
        rom.push((0x20 | (target >> 8)) as u8);
        rom.push((target & 0xFF) as u8);
    }
    let mut c = machine_with_rom(rom);
    assert!(!c.run_cycles(30_000_000));
    let fault = c.run_cycles(0);
    assert!(fault);
    assert_eq!(c.state.registers[REG_SP], 0x200 - 32);
}

#[test]
fn call_and_return() {
    // call 0x208, then from there return; filler no-ops in between
    let rom = vec![0x22, 0x08, 0x00, 0x00, 0x00, 0x00, 0x00, 0x00, 0x00, 0xEE];
    let mut c = machine_with_rom(rom);
    assert!(!c.run_cycles(3_000_000));
    let fault = c.run_cycles(0);
    assert!(!fault);
    // call pushed 0x202, ret popped it back into the program counter
    assert_eq!(c.state.registers[REG_PC], 0x202);
    assert_eq!(c.state.registers[REG_SP], 0x200);
}

#[test]
fn draw_glyph_zero_end_to_end() {
    // set-address-register 0x0; load-immediate v0,0; draw-sprite v0 v0 5
    let rom = vec![0xA0, 0x00, 0x60, 0x00, 0xD0, 0x05];
    let mut c = machine_with_rom(rom);
    assert!(!c.run_cycles(10_000_000));
    assert!(!c.run_cycles(0));
    let glyph: [u8; 5] = [0xF0, 0x90, 0x90, 0x90, 0xF0];
    for (r, row) in glyph.iter().enumerate() {
        for cx in 0..8usize {
            let want = if row & (0x80 >> cx) != 0 { 0xFF } else { 0x00 };
            assert_eq!(cell(&c, cx, r), want, "cell ({cx}, {r})");
        }
    }
    assert_eq!(c.state.registers[15], 0);
}

#[test]
fn draw_idempotence_second_draw_collides() {
    let mut c = machine();
    c.ldi(0);
    c.ldv(0, 0);
    c.drw(0, 0, 5);
    assert_eq!(c.state.registers[15], 0);
    assert_eq!(cell(&c, 0, 0), 0xFF);
    c.drw(0, 0, 5);
    // the first draw turned cells on, so the second reports a collision
    assert_eq!(c.state.registers[15], 1);
    // and every touched cell is back to its pre-first-draw value
    for t in 0..64 * 32 {
        assert_eq!(c.state.framebuffer[t], 0);
    }
}

#[test]
fn draw_wraps_at_right_edge() {
    let mut c = machine();
    c.state.main_memory[0x300] = 0xFF;
    c.ldi(0x300);
    c.ldv(0, 60);
    c.ldv(1, 0);
    c.drw(0, 1, 1);
    for x in 60..64 {
        assert_eq!(cell(&c, x, 0), 0xFF, "column {x}");
    }
    for x in 0..4 {
        assert_eq!(cell(&c, x, 0), 0xFF, "wrapped column {x}");
    }
    for x in 4..60 {
        assert_eq!(cell(&c, x, 0), 0x00, "column {x}");
    }
    assert_eq!(cell(&c, 0, 1), 0x00);
}

#[test]
fn draw_wraps_at_bottom_edge() {
    let mut c = machine();
    c.state.main_memory[0x300] = 0x80;
    c.state.main_memory[0x301] = 0x80;
    c.ldi(0x300);
    c.ldv(0, 0);
    c.ldv(1, 31);
    c.drw(0, 1, 2);
    assert_eq!(cell(&c, 0, 31), 0xFF);
    assert_eq!(cell(&c, 0, 0), 0xFF);
    assert_eq!(cell(&c, 0, 1), 0x00);
}

#[test]
fn clear_screen_turns_everything_off() {
    let mut c = machine();
    c.ldi(0);
    c.ldv(0, 3);
    c.drw(0, 0, 5);
    c.cls();
    for t in 0..64 * 32 {
        assert_eq!(c.state.framebuffer[t], 0);
    }
}

#[test]
fn timer_decays_to_zero_across_ticks() {
    let mut c = machine();
    c.ldv(0, 10);
    c.set_dt(0);
    for _ in 0..17 {
        c.handle_timer(10_000_000);
        assert!(c.state.registers[chip8::state::REG_DT] <= 10);
    }
    assert_eq!(c.state.registers[chip8::state::REG_DT], 0);
    c.handle_timer(100_000_000);
    assert_eq!(c.state.registers[chip8::state::REG_DT], 0);
}

#[test]
fn timer_needs_more_than_sixteen_milliseconds() {
    let mut c = machine();
    c.ldv(0, 1);
    c.set_dt(0);
    c.handle_timer(16_000_000);
    assert_eq!(c.state.registers[chip8::state::REG_DT], 1);
    c.handle_timer(1_000_001);
    assert_eq!(c.state.registers[chip8::state::REG_DT], 0);
}

#[test]
fn halt_for_key_suspends_until_keypress() {
    // halt-until-key v3
    let rom = vec![0xF3, 0x0A];
    let mut c = machine_with_rom(rom);
    assert!(!c.run_cycles(5_000_000));
    assert!(!c.run_cycles(0));
    assert!(c.state.halted_for_keypress);
    assert_eq!(c.state.registers[REG_PC], 0x202);

    // no key pressed: the machine stays halted and executes nothing
    assert!(!c.run_cycles(50_000_000));
    assert!(c.state.halted_for_keypress);
    assert_eq!(c.state.registers[REG_PC], 0x202);

    // pressing keypad symbol 7 resumes with v3 = 7
    c.state.keyboard_state.set_key_state(KeyboardKey::Seven, true);
    assert!(!c.run_cycles(0));
    assert!(!c.state.halted_for_keypress);
    assert_eq!(c.state.registers[3], 7);
}

#[test]
fn halt_resumes_with_lowest_pressed_symbol() {
    let rom = vec![0xF5, 0x0A];
    let mut c = machine_with_rom(rom);
    c.run_cycles(5_000_000);
    c.run_cycles(0);
    assert!(c.state.halted_for_keypress);
    c.state.keyboard_state.set_key_state(KeyboardKey::Nine, true);
    c.state.keyboard_state.set_key_state(KeyboardKey::Two, true);
    assert!(!c.run_cycles(0));
    assert_eq!(c.state.registers[5], 2);
}

#[test]
fn jump_loop_runs_without_fault() {
    // jump to self
    let rom = vec![0x12, 0x00];
    let mut c = machine_with_rom(rom);
    assert!(!c.run_cycles(20_000_000));
    assert!(!c.run_cycles(0));
    assert_eq!(c.state.registers[REG_PC], 0x200);
    assert!(c.invariants_hold());
}

#[test]
fn fetch_out_of_bounds_faults() {
    let mut c = machine();
    c.jmp(0xFFE);
    c.state.time_since_last_op_ns = 10_000_000;
    let fault = c.run_cycles(0);
    assert!(fault);
}

#[test]
fn budget_carries_between_ticks() {
    // one no-op instruction costs 1.4 ms; 2 ms of budget leaves 0.6 ms banked
    let rom = vec![0x00, 0x00];
    let mut c = machine_with_rom(rom);
    assert!(!c.run_cycles(2_000_000));
    assert!(!c.run_cycles(0));
    assert_eq!(c.state.registers[REG_PC], 0x202);
    assert_eq!(c.state.time_since_last_op_ns, 600_000);
}

#[test]
fn keyboard_state_round_trip() {
    let mut k = KeyboardState::new();
    for i in 0..16u8 {
        assert!(!k.get_key_state_u8(i));
    }
    k.set_key_state(KeyboardKey::A, true);
    assert!(k.get_key_state(KeyboardKey::A));
    assert!(k.get_key_state_u8(10));
    assert!(!k.get_key_state_u8(11));
    assert!(!k.get_key_state_u8(200));
    k.set_key_state(KeyboardKey::A, false);
    assert!(!k.get_key_state_u8(10));
}

#[test]
fn framebuffer_index_is_row_major() {
    assert_eq!(InternalState::get_fb_i_from_coord_in_fb(3, 2), 2 * 64 + 3);
    assert_eq!(InternalState::get_fb_i_from_coord_in_fb(0, 0), 0);
    assert_eq!(InternalState::get_fb_i_from_coord_in_fb(63, 31), 2047);
}

#[test]
fn invariant_checker_detects_corruption() {
    let mut c = machine();
    assert!(c.invariants_hold());
    c.state.registers[0] = 300;
    assert!(!c.invariants_hold());
    c.state.registers[0] = 0;
    assert!(c.invariants_hold());
    c.state.framebuffer[5] = 3;
    assert!(!c.invariants_hold());
    c.state.framebuffer[5] = 0;
    c.state.registers[REG_SP] = 0x201;
    assert!(!c.invariants_hold());
}
