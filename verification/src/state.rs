//! The machine state: addressable memory, the register file, the stack
//! engine, the framebuffer and the keypad vector, together with the abstract
//! view (`StateView`) that every contract in the crate speaks of.
use vstd::prelude::*;

use crate::input::KeyboardState;
use crate::utils::word_of_bytes;
use crate::utils::split_u16_to_u8;

verus! {

pub const DISPLAYW: usize = 64;

pub const DISPLAYH: usize = 32;

pub const MEMSIZE: usize = 0xFFF;

pub const PROGRAM_START: usize = 0x200;

pub const STACK_START: usize = PROGRAM_START;

/// The stack region holds 16 two-byte return-address slots.
pub const STACK_SIZE: usize = 32;

pub const NUM_KEYS: usize = 16;

pub const NUM_REGISTERS: usize = 21;

pub const REG_I: usize = 16;

pub const REG_PC: usize = 17;

pub const REG_SP: usize = 18;

pub const REG_DT: usize = 19;

pub const REG_SOUND: usize = 20;

#[derive(Clone, Copy, PartialEq, Eq, Structural)]
pub enum KeyboardKey {
    Zero,
    One,
    Two,
    Three,
    Four,
    Five,
    Six,
    Seven,
    Eight,
    Nine,
    A,
    B,
    C,
    D,
    E,
    F,
    Total,
}

pub open spec fn key_index(k: KeyboardKey) -> int {
    match k {
        KeyboardKey::Zero => 0,
        KeyboardKey::One => 1,
        KeyboardKey::Two => 2,
        KeyboardKey::Three => 3,
        KeyboardKey::Four => 4,
        KeyboardKey::Five => 5,
        KeyboardKey::Six => 6,
        KeyboardKey::Seven => 7,
        KeyboardKey::Eight => 8,
        KeyboardKey::Nine => 9,
        KeyboardKey::A => 10,
        KeyboardKey::B => 11,
        KeyboardKey::C => 12,
        KeyboardKey::D => 13,
        KeyboardKey::E => 14,
        KeyboardKey::F => 15,
        KeyboardKey::Total => 16,
    }
}

impl KeyboardKey {
    pub fn index(&self) -> (i: usize)
        ensures
            i == key_index(*self),
    {
        match self {
            KeyboardKey::Zero => 0,
            KeyboardKey::One => 1,
            KeyboardKey::Two => 2,
            KeyboardKey::Three => 3,
            KeyboardKey::Four => 4,
            KeyboardKey::Five => 5,
            KeyboardKey::Six => 6,
            KeyboardKey::Seven => 7,
            KeyboardKey::Eight => 8,
            KeyboardKey::Nine => 9,
            KeyboardKey::A => 10,
            KeyboardKey::B => 11,
            KeyboardKey::C => 12,
            KeyboardKey::D => 13,
            KeyboardKey::E => 14,
            KeyboardKey::F => 15,
            KeyboardKey::Total => 16,
        }
    }
}

/// Framebuffer cells hold exactly one of two sentinel byte values.
#[derive(Clone, Copy, PartialEq, Eq, Structural)]
pub enum Color {
    White,
    Black,
}

pub open spec fn color_value(c: Color) -> u8 {
    match c {
        Color::White => 0xFF,
        Color::Black => 0x00,
    }
}

impl Color {
    pub fn value(&self) -> (v: u8)
        ensures
            v == color_value(*self),
    {
        match self {
            Color::White => 0xFF,
            Color::Black => 0x00,
        }
    }
}

#[derive(Clone, Copy, PartialEq, Eq, Structural)]
pub enum Register {
    V0,
    V1,
    V2,
    V3,
    V4,
    V5,
    V6,
    V7,
    V8,
    V9,
    VA,
    VB,
    VC,
    VD,
    VE,
    VF,
    I,
    PC,
    SP,
    DT,
    Sound,
    Total,
}

pub open spec fn reg_index(r: Register) -> int {
    match r {
        Register::V0 => 0,
        Register::V1 => 1,
        Register::V2 => 2,
        Register::V3 => 3,
        Register::V4 => 4,
        Register::V5 => 5,
        Register::V6 => 6,
        Register::V7 => 7,
        Register::V8 => 8,
        Register::V9 => 9,
        Register::VA => 10,
        Register::VB => 11,
        Register::VC => 12,
        Register::VD => 13,
        Register::VE => 14,
        Register::VF => 15,
        Register::I => 16,
        Register::PC => 17,
        Register::SP => 18,
        Register::DT => 19,
        Register::Sound => 20,
        Register::Total => 21,
    }
}

impl Register {
    pub fn index(&self) -> (i: usize)
        ensures
            i == reg_index(*self),
    {
        match self {
            Register::V0 => 0,
            Register::V1 => 1,
            Register::V2 => 2,
            Register::V3 => 3,
            Register::V4 => 4,
            Register::V5 => 5,
            Register::V6 => 6,
            Register::V7 => 7,
            Register::V8 => 8,
            Register::V9 => 9,
            Register::VA => 10,
            Register::VB => 11,
            Register::VC => 12,
            Register::VD => 13,
            Register::VE => 14,
            Register::VF => 15,
            Register::I => 16,
            Register::PC => 17,
            Register::SP => 18,
            Register::DT => 19,
            Register::Sound => 20,
            Register::Total => 21,
        }
    }
}

/// The abstract machine state. Every contract in the crate relates concrete
/// machines through this view.
#[verifier::ext_equal]
pub struct StateView {
    /// All addressable bytes, `MEMSIZE` of them.
    pub mem: Seq<u8>,
    /// The register file: sixteen general registers, then I, PC, SP, DT, sound.
    pub regs: Seq<u16>,
    /// One byte per pixel, row-major, `DISPLAYW * DISPLAYH` cells.
    pub fb: Seq<u8>,
    /// Pressed state of the sixteen keypad symbols.
    pub keys: Seq<bool>,
    /// While set, fetch/execute is suspended until a key is pressed.
    pub halted_for_keypress: bool,
    /// Register that receives the pressed symbol when the halt resolves.
    pub halt_store_reg: int,
    /// Accumulated wall time not yet spent on instructions, in nanoseconds.
    pub op_time_ns: u64,
    /// Accumulated wall time not yet consumed by timer decay, in nanoseconds.
    pub timer_ns: u64,
}

impl StateView {
    pub open spec fn reg(self, i: int) -> u16 {
        self.regs[i]
    }

    pub open spec fn i_reg(self) -> u16 {
        self.regs[REG_I as int]
    }

    pub open spec fn pc(self) -> u16 {
        self.regs[REG_PC as int]
    }

    pub open spec fn sp(self) -> u16 {
        self.regs[REG_SP as int]
    }

    pub open spec fn dt(self) -> u16 {
        self.regs[REG_DT as int]
    }

    /// Structural well-formedness: fixed sizes, 8-bit truncation of the
    /// general registers and the delay timer, two-valued framebuffer cells.
    pub open spec fn wf(self) -> bool {
        &&& self.mem.len() == MEMSIZE
        &&& self.regs.len() == NUM_REGISTERS
        &&& self.fb.len() == DISPLAYW * DISPLAYH
        &&& self.keys.len() == NUM_KEYS
        &&& forall|i: int| 0 <= i < 16 ==> self.regs[i] < 256
        &&& self.dt() < 256
        &&& 0 <= self.halt_store_reg < 16
        &&& forall|i: int| 0 <= i < self.fb.len() ==> self.fb[i] == 0 || self.fb[i] == 0xFF
    }

    /// The stack pointer never passes the reserved low bound or the initial
    /// high bound, and stays aligned to two-byte slots.
    pub open spec fn stack_ok(self) -> bool {
        &&& STACK_START - STACK_SIZE <= self.sp() <= STACK_START
        &&& self.sp() % 2 == 0
    }

    /// A push must not advance the pointer past the reserved low bound.
    pub open spec fn can_push(self) -> bool {
        self.sp() > STACK_START - STACK_SIZE
    }

    /// A pop must not retreat the pointer past the initial high bound.
    pub open spec fn can_pop(self) -> bool {
        self.sp() + 2 <= STACK_START
    }

    pub open spec fn with_reg(self, i: int, value: u16) -> StateView {
        StateView { regs: self.regs.update(i, value), ..self }
    }

    /// The most recently pushed return address.
    pub open spec fn top(self) -> u16 {
        word_of_bytes(self.mem[self.sp() - 1], self.mem[self.sp() as int])
    }

    /// Push: advance the pointer one slot toward the low end and write the
    /// value's two bytes into the freed cells, low byte at the new pointer.
    pub open spec fn stack_push(self, value: u16) -> StateView {
        let nsp = (self.sp() - 2) as u16;
        StateView {
            regs: self.regs.update(REG_SP as int, nsp),
            mem: self.mem.update(nsp as int, (value as int % 256) as u8).update(
                nsp - 1,
                (value as int / 256) as u8,
            ),
            ..self
        }
    }

    /// Pop: reverse the pointer advance; the memory cells are left as they are.
    pub open spec fn stack_pop(self) -> StateView {
        self.with_reg(REG_SP as int, (self.sp() + 2) as u16)
    }
}

/// The built-in font table: glyph `d`'s five sprite rows occupy bytes
/// `d*5` through `d*5+4` of low memory.
pub open spec fn font_glyph_row(d: int, r: int) -> u8 {
    if d == 0 {
        if r == 0 {
            0xF0
        } else if r == 1 {
            0x90
        } else if r == 2 {
            0x90
        } else if r == 3 {
            0x90
        } else {
            0xF0
        }
    } else if d == 1 {
        if r == 0 {
            0x20
        } else if r == 1 {
            0x60
        } else if r == 2 {
            0x20
        } else if r == 3 {
            0x20
        } else {
            0x70
        }
    } else if d == 2 {
        if r == 0 {
            0xF0
        } else if r == 1 {
            0x10
        } else if r == 2 {
            0xF0
        } else if r == 3 {
            0x80
        } else {
            0xF0
        }
    } else if d == 3 {
        if r == 0 {
            0xF0
        } else if r == 1 {
            0x10
        } else if r == 2 {
            0xF0
        } else if r == 3 {
            0x10
        } else {
            0xF0
        }
    } else if d == 4 {
        if r == 0 {
            0x90
        } else if r == 1 {
            0x90
        } else if r == 2 {
            0xF0
        } else if r == 3 {
            0x10
        } else {
            0x10
        }
    } else if d == 5 {
        if r == 0 {
            0xF0
        } else if r == 1 {
            0x80
        } else if r == 2 {
            0xF0
        } else if r == 3 {
            0x10
        } else {
            0xF0
        }
    } else if d == 6 {
        if r == 0 {
            0xF0
        } else if r == 1 {
            0x80
        } else if r == 2 {
            0xF0
        } else if r == 3 {
            0x90
        } else {
            0xF0
        }
    } else if d == 7 {
        if r == 0 {
            0xF0
        } else if r == 1 {
            0x10
        } else if r == 2 {
            0x20
        } else if r == 3 {
            0x40
        } else {
            0x40
        }
    } else if d == 8 {
        if r == 0 {
            0xF0
        } else if r == 1 {
            0x90
        } else if r == 2 {
            0xF0
        } else if r == 3 {
            0x90
        } else {
            0xF0
        }
    } else if d == 9 {
        if r == 0 {
            0xF0
        } else if r == 1 {
            0x90
        } else if r == 2 {
            0xF0
        } else if r == 3 {
            0x10
        } else {
            0xF0
        }
    } else if d == 10 {
        if r == 0 {
            0xF0
        } else if r == 1 {
            0x90
        } else if r == 2 {
            0xF0
        } else if r == 3 {
            0x90
        } else {
            0x90
        }
    } else if d == 11 {
        if r == 0 {
            0xE0
        } else if r == 1 {
            0x90
        } else if r == 2 {
            0xE0
        } else if r == 3 {
            0x90
        } else {
            0xE0
        }
    } else if d == 12 {
        if r == 0 {
            0xF0
        } else if r == 1 {
            0x80
        } else if r == 2 {
            0x80
        } else if r == 3 {
            0x80
        } else {
            0xF0
        }
    } else if d == 13 {
        if r == 0 {
            0xE0
        } else if r == 1 {
            0x90
        } else if r == 2 {
            0x90
        } else if r == 3 {
            0x90
        } else {
            0xE0
        }
    } else if d == 14 {
        if r == 0 {
            0xF0
        } else if r == 1 {
            0x80
        } else if r == 2 {
            0xF0
        } else if r == 3 {
            0x80
        } else {
            0xF0
        }
    } else {
        if r == 0 {
            0xF0
        } else if r == 1 {
            0x80
        } else if r == 2 {
            0xF0
        } else if r == 3 {
            0x80
        } else {
            0x80
        }
    }
}

pub open spec fn font_table_byte(k: int) -> u8 {
    font_glyph_row(k / 5, k % 5)
}

/// Byte `k` of the font table.
pub fn font_byte_at(k: usize) -> (b: u8)
    requires
        k < 80,
    ensures
        b == font_table_byte(k as int),
{
    let d = k / 5;
    let r = k % 5;
    if d == 0 {
        if r == 0 {
            0xF0
        } else if r == 1 {
            0x90
        } else if r == 2 {
            0x90
        } else if r == 3 {
            0x90
        } else {
            0xF0
        }
    } else if d == 1 {
        if r == 0 {
            0x20
        } else if r == 1 {
            0x60
        } else if r == 2 {
            0x20
        } else if r == 3 {
            0x20
        } else {
            0x70
        }
    } else if d == 2 {
        if r == 0 {
            0xF0
        } else if r == 1 {
            0x10
        } else if r == 2 {
            0xF0
        } else if r == 3 {
            0x80
        } else {
            0xF0
        }
    } else if d == 3 {
        if r == 0 {
            0xF0
        } else if r == 1 {
            0x10
        } else if r == 2 {
            0xF0
        } else if r == 3 {
            0x10
        } else {
            0xF0
        }
    } else if d == 4 {
        if r == 0 {
            0x90
        } else if r == 1 {
            0x90
        } else if r == 2 {
            0xF0
        } else if r == 3 {
            0x10
        } else {
            0x10
        }
    } else if d == 5 {
        if r == 0 {
            0xF0
        } else if r == 1 {
            0x80
        } else if r == 2 {
            0xF0
        } else if r == 3 {
            0x10
        } else {
            0xF0
        }
    } else if d == 6 {
        if r == 0 {
            0xF0
        } else if r == 1 {
            0x80
        } else if r == 2 {
            0xF0
        } else if r == 3 {
            0x90
        } else {
            0xF0
        }
    } else if d == 7 {
        if r == 0 {
            0xF0
        } else if r == 1 {
            0x10
        } else if r == 2 {
            0x20
        } else if r == 3 {
            0x40
        } else {
            0x40
        }
    } else if d == 8 {
        if r == 0 {
            0xF0
        } else if r == 1 {
            0x90
        } else if r == 2 {
            0xF0
        } else if r == 3 {
            0x90
        } else {
            0xF0
        }
    } else if d == 9 {
        if r == 0 {
            0xF0
        } else if r == 1 {
            0x90
        } else if r == 2 {
            0xF0
        } else if r == 3 {
            0x10
        } else {
            0xF0
        }
    } else if d == 10 {
        if r == 0 {
            0xF0
        } else if r == 1 {
            0x90
        } else if r == 2 {
            0xF0
        } else if r == 3 {
            0x90
        } else {
            0x90
        }
    } else if d == 11 {
        if r == 0 {
            0xE0
        } else if r == 1 {
            0x90
        } else if r == 2 {
            0xE0
        } else if r == 3 {
            0x90
        } else {
            0xE0
        }
    } else if d == 12 {
        if r == 0 {
            0xF0
        } else if r == 1 {
            0x80
        } else if r == 2 {
            0x80
        } else if r == 3 {
            0x80
        } else {
            0xF0
        }
    } else if d == 13 {
        if r == 0 {
            0xE0
        } else if r == 1 {
            0x90
        } else if r == 2 {
            0x90
        } else if r == 3 {
            0x90
        } else {
            0xE0
        }
    } else if d == 14 {
        if r == 0 {
            0xF0
        } else if r == 1 {
            0x80
        } else if r == 2 {
            0xF0
        } else if r == 3 {
            0x80
        } else {
            0xF0
        }
    } else {
        if r == 0 {
            0xF0
        } else if r == 1 {
            0x80
        } else if r == 2 {
            0xF0
        } else if r == 3 {
            0x80
        } else {
            0x80
        }
    }
}

pub struct InternalState {
    pub framebuffer: Vec<u8>,
    pub main_memory: Vec<u8>,
    pub registers: Vec<u16>,
    pub keyboard_state: KeyboardState,
    pub time_since_last_op_ns: u64,
    pub timer_accumulator_ns: u64,
    pub halted_for_keypress: bool,
    pub halted_keypress_store_reg: usize,
}

impl View for InternalState {
    type V = StateView;

    open spec fn view(&self) -> StateView {
        StateView {
            mem: self.main_memory@,
            regs: self.registers@,
            fb: self.framebuffer@,
            keys: self.keyboard_state.keys@,
            halted_for_keypress: self.halted_for_keypress,
            halt_store_reg: self.halted_keypress_store_reg as int,
            op_time_ns: self.time_since_last_op_ns,
            timer_ns: self.timer_accumulator_ns,
        }
    }
}

fn filled_vec<T: Copy>(value: T, n: usize) -> (v: Vec<T>)
    ensures
        v@.len() == n,
        forall|i: int| 0 <= i < n ==> v@[i] == value,
{
    let mut v: Vec<T> = Vec::new();
    let mut i: usize = 0;
    while i < n
        invariant
            i <= n,
            v@.len() == i,
            forall|j: int| 0 <= j < i ==> v@[j] == value,
        decreases n - i,
    {
        v.push(value);
        i = i + 1;
    }
    v
}

impl InternalState {
    /// A zeroed machine: memory, registers, framebuffer and keypad all clear.
    pub fn new() -> (r: InternalState)
        ensures
            r@.wf(),
            forall|i: int| 0 <= i < MEMSIZE ==> r@.mem[i] == 0,
            forall|i: int| 0 <= i < NUM_REGISTERS ==> r@.regs[i] == 0,
            forall|i: int| 0 <= i < DISPLAYW * DISPLAYH ==> r@.fb[i] == 0,
            forall|i: int| 0 <= i < NUM_KEYS ==> !r@.keys[i],
            !r@.halted_for_keypress,
            r@.halt_store_reg == 0,
            r@.op_time_ns == 0,
            r@.timer_ns == 0,
    {
        InternalState {
            framebuffer: filled_vec(0u8, DISPLAYW * DISPLAYH),
            main_memory: filled_vec(0u8, MEMSIZE),
            registers: filled_vec(0u16, NUM_REGISTERS),
            keyboard_state: KeyboardState::new(),
            time_since_last_op_ns: 0,
            timer_accumulator_ns: 0,
            halted_for_keypress: false,
            halted_keypress_store_reg: 0,
        }
    }

    /// Index of the framebuffer cell at column `x`, row `y`.
    pub fn get_fb_i_from_coord_in_fb(x: u16, y: u16) -> (r: usize)
        ensures
            r == y * DISPLAYW + x,
    {
        let r: u32 = y as u32 * 64 + x as u32;
        proof {
            assert(DISPLAYW == 64);
        }
        r as usize
    }

    pub fn set_register(&mut self, register: Register, value: u16)
        requires
            old(self)@.regs.len() == NUM_REGISTERS,
            register != Register::Total,
        ensures
            final(self)@ == old(self)@.with_reg(reg_index(register), value),
    {
        let i = register.index();
        self.registers[i] = value;
    }

    pub fn get_register(&self, register: Register) -> (r: u16)
        requires
            self@.regs.len() == NUM_REGISTERS,
            register != Register::Total,
        ensures
            r == self@.reg(reg_index(register)),
    {
        self.registers[register.index()]
    }

    /// Advance the program counter past the instruction word just fetched.
    pub fn advance_pc(&mut self) -> (r: u16)
        requires
            old(self)@.regs.len() == NUM_REGISTERS,
            old(self)@.pc() + 2 <= u16::MAX,
        ensures
            final(self)@ == old(self)@.with_reg(REG_PC as int, (old(self)@.pc() + 2) as u16),
            r == old(self)@.pc() + 2,
    {
        let pc = self.registers[REG_PC];
        self.registers[REG_PC] = pc + 2;
        self.registers[REG_PC]
    }

    /// Advance SP by `n` slots toward the low end of the stack region; a
    /// negative `n` retreats it. Each slot is two bytes.
    pub fn advance_sp(&mut self, n: i32) -> (r: u16)
        requires
            old(self)@.regs.len() == NUM_REGISTERS,
            n > 0 ==> old(self)@.can_push(),
            0 <= old(self)@.sp() - 2 * n <= u16::MAX,
            -0x4000_0000 <= n <= 0x4000_0000,
        ensures
            final(self)@ == old(self)@.with_reg(
                REG_SP as int,
                (old(self)@.sp() - 2 * n) as u16,
            ),
            r == old(self)@.sp() - 2 * n,
    {
        let mut sp_v: i32 = self.get_register(Register::SP) as i32;
        sp_v = sp_v - n * 2;
        self.set_register(Register::SP, sp_v as u16);
        sp_v as u16
    }

    /// Read the most recent stack slot without moving the pointer.
    pub fn peek_stack(&self) -> (r: u16)
        requires
            self@.wf(),
            self@.stack_ok(),
            self@.can_pop(),
        ensures
            r == self@.top(),
    {
        let stack_top = self.get_register(Register::SP) as usize;
        crate::utils::concat_u8_to_u16(
            self.main_memory[stack_top - 1],
            self.main_memory[stack_top],
        )
    }

    /// Pop the most recent return address and reverse the pointer advance.
    pub fn pop_stack(&mut self) -> (r: u16)
        requires
            old(self)@.wf(),
            old(self)@.stack_ok(),
            old(self)@.can_pop(),
        ensures
            r == old(self)@.top(),
            final(self)@ == old(self)@.stack_pop(),
    {
        let top_stack = self.peek_stack();
        self.advance_sp(-1);
        top_stack
    }

    /// Push a return address: advance the pointer one slot and write the
    /// value's two bytes into the freed cells.
    pub fn push_stack(&mut self, value: u16)
        requires
            old(self)@.wf(),
            old(self)@.stack_ok(),
            old(self)@.can_push(),
        ensures
            final(self)@ == old(self)@.stack_push(value),
    {
        let stack_addr = self.advance_sp(1) as usize;
        let split = split_u16_to_u8(value);
        self.main_memory[stack_addr] = split.1;
        self.main_memory[stack_addr - 1] = split.0;
        proof {
            assert(self@ =~= old(self)@.stack_push(value));
        }
    }
}

} // verus!
