use chip8::exec::Chip8;
use chip8::exec::InstructionType;
use chip8::utils::concat_nib_to_u16;
use chip8::utils::concat_nib_to_u8;
use chip8::utils::concat_u8_to_u16;
use chip8::utils::get_nth_bit_u16;
use chip8::utils::get_nth_byte;
use chip8::utils::get_nth_nibble;
use chip8::utils::nibbles_to_tuple;
use chip8::utils::split_u16_to_u8;

#[test]
fn concat_bytes_forms_word() {
    assert_eq!(concat_u8_to_u16(0x12, 0x34), 0x1234);
    assert_eq!(concat_u8_to_u16(0x00, 0xFF), 0x00FF);
    assert_eq!(concat_u8_to_u16(0xFF, 0x00), 0xFF00);
}

#[test]
fn split_word_into_bytes() {
    assert_eq!(split_u16_to_u8(0x1234), (0x12, 0x34));
    assert_eq!(split_u16_to_u8(0x00FF), (0x00, 0xFF));
}

#[test]
fn concat_nibbles() {
    assert_eq!(concat_nib_to_u16(0x0, 0x2, 0x3, 0x4), 0x0234);
    assert_eq!(concat_nib_to_u16(0xA, 0xB, 0xC, 0xD), 0xABCD);
    assert_eq!(concat_nib_to_u8(0xA, 0xB), 0xAB);
    assert_eq!(concat_nib_to_u8(0x0, 0x7), 0x07);
}

#[test]
fn nth_bit() {
    assert_eq!(get_nth_bit_u16(0b1000_0000, 7), 1);
    assert_eq!(get_nth_bit_u16(0b1000_0000, 6), 0);
    assert_eq!(get_nth_bit_u16(0xF0, 4), 1);
    assert_eq!(get_nth_bit_u16(0xF0, 3), 0);
}

#[test]
fn nth_nibble_and_byte() {
    assert_eq!(get_nth_nibble(0xABCD, 3), 0xA);
    assert_eq!(get_nth_nibble(0xABCD, 2), 0xB);
    assert_eq!(get_nth_nibble(0xABCD, 1), 0xC);
    assert_eq!(get_nth_nibble(0xABCD, 0), 0xD);
    assert_eq!(get_nth_byte(0xABCD, 1), 0xAB);
    assert_eq!(get_nth_byte(0xABCD, 0), 0xCD);
}

#[test]
fn nibbles_tuple() {
    assert_eq!(nibbles_to_tuple(0xD125), (0xD, 0x1, 0x2, 0x5));
}

#[test]
fn decode_control_flow() {
    assert_eq!(Chip8::decode_instr(0x00E0), InstructionType::CLS);
    assert_eq!(Chip8::decode_instr(0x00EE), InstructionType::RET);
    assert_eq!(Chip8::decode_instr(0x1234), InstructionType::JP { addr: 0x234 });
    assert_eq!(Chip8::decode_instr(0x2456), InstructionType::CALL { addr: 0x456 });
}

#[test]
fn decode_skips_and_loads() {
    assert_eq!(Chip8::decode_instr(0x3A42), InstructionType::SKEQV { vx: 0xA, value: 0x42 });
    assert_eq!(Chip8::decode_instr(0x4B10), InstructionType::SKNEQV { vx: 0xB, value: 0x10 });
    assert_eq!(Chip8::decode_instr(0x5120), InstructionType::SER { vx: 0x1, vy: 0x2 });
    assert_eq!(Chip8::decode_instr(0x9340), InstructionType::SNER { vx: 0x3, vy: 0x4 });
    assert_eq!(Chip8::decode_instr(0x6C99), InstructionType::LDV { vx: 0xC, value: 0x99 });
    assert_eq!(Chip8::decode_instr(0x7D01), InstructionType::ADDV { vx: 0xD, value: 0x01 });
    assert_eq!(Chip8::decode_instr(0xA123), InstructionType::LDI { value: 0x123 });
}

#[test]
fn decode_register_ops() {
    assert_eq!(Chip8::decode_instr(0x8120), InstructionType::LDR { vx: 1, vy: 2 });
    assert_eq!(Chip8::decode_instr(0x8121), InstructionType::OR { vx: 1, vy: 2 });
    assert_eq!(Chip8::decode_instr(0x8122), InstructionType::AND { vx: 1, vy: 2 });
    assert_eq!(Chip8::decode_instr(0x8123), InstructionType::XOR { vx: 1, vy: 2 });
    assert_eq!(Chip8::decode_instr(0x8AB4), InstructionType::ADD { vx: 0xA, vy: 0xB });
    assert_eq!(Chip8::decode_instr(0x8125), InstructionType::SUB { vx: 1, vy: 2 });
    assert_eq!(Chip8::decode_instr(0x8126), InstructionType::SHR { vx: 1, vy: 2 });
    assert_eq!(Chip8::decode_instr(0x8127), InstructionType::SUBN { vx: 1, vy: 2 });
    assert_eq!(Chip8::decode_instr(0x812E), InstructionType::SHL { vx: 1, vy: 2 });
}

#[test]
fn decode_misc() {
    assert_eq!(Chip8::decode_instr(0xC377), InstructionType::RND { vx: 3, value: 0x77 });
    assert_eq!(Chip8::decode_instr(0xD125), InstructionType::DRW { vx: 1, vy: 2, bytes: 5 });
    assert_eq!(Chip8::decode_instr(0xE2A1), InstructionType::SKNP { vx: 2 });
    assert_eq!(Chip8::decode_instr(0xE29E), InstructionType::SKP { vx: 2 });
    assert_eq!(Chip8::decode_instr(0xF107), InstructionType::LDDT { vx: 1 });
    assert_eq!(Chip8::decode_instr(0xF30A), InstructionType::HALTKP { vx: 3 });
    assert_eq!(Chip8::decode_instr(0xF115), InstructionType::SETDT { vx: 1 });
    assert_eq!(Chip8::decode_instr(0xF118), InstructionType::LDST { vx: 1 });
    assert_eq!(Chip8::decode_instr(0xF11E), InstructionType::ADDI { vx: 1 });
    assert_eq!(Chip8::decode_instr(0xF129), InstructionType::LDHEX { vx: 1 });
    assert_eq!(Chip8::decode_instr(0xF133), InstructionType::LDBCD { vx: 1 });
    assert_eq!(Chip8::decode_instr(0xF155), InstructionType::LDVXI { vx: 1 });
    assert_eq!(Chip8::decode_instr(0xF165), InstructionType::LDRI { vx: 1 });
}

#[test]
fn decode_unknown_patterns() {
    assert_eq!(Chip8::decode_instr(0x0123), InstructionType::UNKNOWN);
    assert_eq!(Chip8::decode_instr(0x5ABF), InstructionType::UNKNOWN);
    assert_eq!(Chip8::decode_instr(0x8AB9), InstructionType::UNKNOWN);
    assert_eq!(Chip8::decode_instr(0xE2FF), InstructionType::UNKNOWN);
    assert_eq!(Chip8::decode_instr(0xF1FF), InstructionType::UNKNOWN);
    assert_eq!(Chip8::decode_instr(0x0000), InstructionType::UNKNOWN);
}
