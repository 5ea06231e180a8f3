use chip8::exec::Chip8;
use chip8::state::Register;
use chip8::state::REG_DT;
use chip8::state::REG_I;
use chip8::state::REG_PC;

fn machine() -> Chip8 {
    let mut c = Chip8::new();
    c.setup();
    c
}

#[test]
fn add_immediate_wraps_and_touches_no_flag() {
    let mut c = machine();
    c.ldv(0, 250);
    c.addv(0, 10);
    assert_eq!(c.state.registers[0], 4);
    assert_eq!(c.state.registers[15], 0);

    c.ldv(1, 5);
    c.addv(1, 7);
    assert_eq!(c.state.registers[1], 12);
    assert_eq!(c.state.registers[15], 0);
}

#[test]
fn add_registers_sets_carry_flag() {
    let mut c = machine();
    c.ldv(0, 200);
    c.ldv(1, 100);
    c.add(0, 1);
    assert_eq!(c.state.registers[0], 44);
    assert_eq!(c.state.registers[15], 1);

    c.ldv(2, 10);
    c.ldv(3, 20);
    c.add(2, 3);
    assert_eq!(c.state.registers[2], 30);
    assert_eq!(c.state.registers[15], 0);
}

#[test]
fn subtract_sets_not_borrow_flag() {
    let mut c = machine();
    c.ldv(0, 10);
    c.ldv(1, 5);
    c.sub(0, 1);
    assert_eq!(c.state.registers[0], 5);
    assert_eq!(c.state.registers[15], 1);

    c.ldv(2, 5);
    c.ldv(3, 10);
    c.sub(2, 3);
    assert_eq!(c.state.registers[2], 251);
    assert_eq!(c.state.registers[15], 0);

    c.ldv(4, 7);
    c.ldv(5, 7);
    c.sub(4, 5);
    assert_eq!(c.state.registers[4], 0);
    assert_eq!(c.state.registers[15], 0);
}

#[test]
fn subtract_reversed() {
    let mut c = machine();
    c.ldv(0, 5);
    c.ldv(1, 10);
    c.subn(0, 1);
    assert_eq!(c.state.registers[0], 5);
    assert_eq!(c.state.registers[15], 1);

    c.ldv(2, 10);
    c.ldv(3, 5);
    c.subn(2, 3);
    assert_eq!(c.state.registers[2], 251);
    assert_eq!(c.state.registers[15], 0);
}

#[test]
fn shifts_report_shifted_out_bit() {
    let mut c = machine();
    c.ldv(0, 5);
    c.shr(0, 0);
    assert_eq!(c.state.registers[0], 2);
    assert_eq!(c.state.registers[15], 1);

    c.ldv(1, 4);
    c.shr(1, 0);
    assert_eq!(c.state.registers[1], 2);
    assert_eq!(c.state.registers[15], 0);

    c.ldv(2, 0x81);
    c.shl(2, 0);
    assert_eq!(c.state.registers[2], 0x02);
    assert_eq!(c.state.registers[15], 1);

    c.ldv(3, 0x41);
    c.shl(3, 0);
    assert_eq!(c.state.registers[3], 0x82);
    assert_eq!(c.state.registers[15], 0);
}

#[test]
fn bitwise_ops() {
    let mut c = machine();
    c.ldv(0, 0b1100);
    c.ldv(1, 0b1010);
    c.or(0, 1);
    assert_eq!(c.state.registers[0], 0b1110);

    c.ldv(2, 0b1100);
    c.ldv(3, 0b1010);
    c.and(2, 3);
    assert_eq!(c.state.registers[2], 0b1000);

    c.ldv(4, 0b1100);
    c.ldv(5, 0b1010);
    c.xor(4, 5);
    assert_eq!(c.state.registers[4], 0b0110);
}

#[test]
fn register_load_and_immediates() {
    let mut c = machine();
    c.ldv(7, 0x42);
    c.ldr(2, 7);
    assert_eq!(c.state.registers[2], 0x42);
    c.ldi(0x321);
    assert_eq!(c.state.registers[REG_I], 0x321);
}

#[test]
fn skip_when_equal_immediate() {
    let mut c = machine();
    assert_eq!(c.state.registers[REG_PC], 0x200);
    c.ldv(0, 0x33);
    c.skpeqv(0, 0x33);
    assert_eq!(c.state.registers[REG_PC], 0x202);
    c.skpeqv(0, 0x44);
    assert_eq!(c.state.registers[REG_PC], 0x202);
    c.skpneqv(0, 0x44);
    assert_eq!(c.state.registers[REG_PC], 0x204);
    c.skpneqv(0, 0x33);
    assert_eq!(c.state.registers[REG_PC], 0x204);
}

#[test]
fn skip_when_registers_compare() {
    let mut c = machine();
    c.ldv(0, 9);
    c.ldv(1, 9);
    c.ldv(2, 8);
    c.ser(0, 1);
    assert_eq!(c.state.registers[REG_PC], 0x202);
    c.ser(0, 2);
    assert_eq!(c.state.registers[REG_PC], 0x202);
    c.sner(0, 2);
    assert_eq!(c.state.registers[REG_PC], 0x204);
    c.sner(0, 1);
    assert_eq!(c.state.registers[REG_PC], 0x204);
}

#[test]
fn skip_on_key_state() {
    let mut c = machine();
    c.ldv(0, 7);
    c.state.keyboard_state.set_key_state(chip8::state::KeyboardKey::Seven, true);
    c.skp(0);
    assert_eq!(c.state.registers[REG_PC], 0x202);
    c.sknp(0);
    assert_eq!(c.state.registers[REG_PC], 0x202);
    c.ldv(1, 3);
    c.skp(1);
    assert_eq!(c.state.registers[REG_PC], 0x202);
    c.sknp(1);
    assert_eq!(c.state.registers[REG_PC], 0x204);
    // a symbol outside the keypad is never pressed
    c.ldv(2, 200);
    c.skp(2);
    assert_eq!(c.state.registers[REG_PC], 0x204);
    c.sknp(2);
    assert_eq!(c.state.registers[REG_PC], 0x206);
}

#[test]
fn font_address_lookup() {
    let mut c = machine();
    c.ldv(0, 0xA);
    c.ldhex(0);
    assert_eq!(c.state.registers[REG_I], 50);
}

#[test]
fn add_to_address_register() {
    let mut c = machine();
    c.ldi(0x300);
    c.ldv(0, 5);
    c.addi(0);
    assert_eq!(c.state.registers[REG_I], 0x305);
}

#[test]
fn bcd_decomposition() {
    let mut c = machine();
    c.ldv(0, 234);
    c.ldi(0x400);
    c.ldbcd(0);
    assert_eq!(c.state.main_memory[0x400], 2);
    assert_eq!(c.state.main_memory[0x401], 3);
    assert_eq!(c.state.main_memory[0x402], 4);

    c.ldv(1, 7);
    c.ldi(0x410);
    c.ldbcd(1);
    assert_eq!(c.state.main_memory[0x410], 0);
    assert_eq!(c.state.main_memory[0x411], 0);
    assert_eq!(c.state.main_memory[0x412], 7);
}

#[test]
fn register_dump_and_load() {
    let mut c = machine();
    c.ldv(0, 1);
    c.ldv(1, 2);
    c.ldv(2, 3);
    c.ldv(3, 4);
    c.ldi(0x500);
    c.ldvxi(3);
    assert_eq!(c.state.main_memory[0x500], 1);
    assert_eq!(c.state.main_memory[0x501], 2);
    assert_eq!(c.state.main_memory[0x502], 3);
    assert_eq!(c.state.main_memory[0x503], 4);
    assert_eq!(c.state.registers[REG_I], 0x504);

    let mut d = machine();
    d.state.main_memory[0x600] = 9;
    d.state.main_memory[0x601] = 8;
    d.state.main_memory[0x602] = 7;
    d.ldi(0x600);
    d.ldri(2);
    assert_eq!(d.state.registers[0], 9);
    assert_eq!(d.state.registers[1], 8);
    assert_eq!(d.state.registers[2], 7);
    assert_eq!(d.state.registers[REG_I], 0x600);
}

#[test]
fn delay_timer_register_transfer() {
    let mut c = machine();
    c.ldv(0, 42);
    c.set_dt(0);
    assert_eq!(c.state.registers[REG_DT], 42);
    c.lddt(5);
    assert_eq!(c.state.registers[5], 42);
}

#[test]
fn sound_timer_is_inert() {
    let mut c = machine();
    let pc = c.state.registers[REG_PC];
    c.ldst(3);
    assert_eq!(c.state.registers[REG_PC], pc);
    assert!(!c.state.halted_for_keypress);
}

#[test]
fn random_masked_by_zero_is_zero() {
    let mut c = machine();
    c.ldv(0, 77);
    c.rnd(0, 0);
    assert_eq!(c.state.registers[0], 0);
    c.rnd(1, 0x0F);
    assert!(c.state.registers[1] < 16);
}

#[test]
fn jump_sets_pc() {
    let mut c = machine();
    c.jmp(0x2F0);
    assert_eq!(c.state.registers[REG_PC], 0x2F0);
}

#[test]
fn get_register_named() {
    let mut c = machine();
    c.ldv(0, 11);
    assert_eq!(c.state.get_register(Register::V0), 11);
    assert_eq!(c.state.get_register(Register::PC), 0x200);
    c.state.set_register(Register::VA, 99);
    assert_eq!(c.state.registers[10], 99);
}
