//! The decoder and the executor: a closed instruction variant for every legal
//! opcode, a pure decode function from 16-bit words, and one method per
//! opcode that applies its effect to the machine state. Each opcode's effect
//! is stated as a transformer on `StateView` and the method is proved to
//! realize it exactly.
use vstd::prelude::*;

use crate::state::Color;
use crate::state::InternalState;
use crate::state::Register;
use crate::state::StateView;
use crate::state::DISPLAYH;
use crate::state::DISPLAYW;
use crate::state::MEMSIZE;
use crate::state::NUM_KEYS;
use crate::state::NUM_REGISTERS;
use crate::state::PROGRAM_START;
use crate::state::REG_DT;
use crate::state::REG_I;
use crate::state::REG_PC;
use crate::state::REG_SP;
use crate::state::STACK_SIZE;
use crate::state::STACK_START;
use crate::utils;
use crate::utils::byte_bit;
use crate::utils::nibble_of;
use crate::utils::word_of_bytes;

verus! {

/// Nominal duration of one instruction: about 700 instructions per second.
pub const INSTRUCTION_TIME_NS: u64 = 1400000;

/// The closed set of decoded instructions; every word decodes to exactly one
/// variant, with `UNKNOWN` as the catch-all no-op.
#[derive(Clone, Copy, PartialEq, Eq, Structural, Debug)]
pub enum InstructionType {
    CLS,
    JP { addr: u16 },
    LDV { vx: u8, value: u8 },
    ADDV { vx: u8, value: u8 },
    LDI { value: u16 },
    LDR { vx: u8, vy: u8 },
    DRW { vx: u8, vy: u8, bytes: u8 },
    CALL { addr: u16 },
    RET,
    SKEQV { vx: u8, value: u8 },
    SKNEQV { vx: u8, value: u8 },
    RND { vx: u8, value: u8 },
    ADD { vx: u8, vy: u8 },
    ADDI { vx: u8 },
    SUB { vx: u8, vy: u8 },
    SHR { vx: u8, vy: u8 },
    SUBN { vx: u8, vy: u8 },
    SHL { vx: u8, vy: u8 },
    SETDT { vx: u8 },
    SKNP { vx: u8 },
    SKP { vx: u8 },
    SNER { vx: u8, vy: u8 },
    SER { vx: u8, vy: u8 },
    HALTKP { vx: u8 },
    LDDT { vx: u8 },
    LDBCD { vx: u8 },
    LDHEX { vx: u8 },
    OR { vx: u8, vy: u8 },
    AND { vx: u8, vy: u8 },
    XOR { vx: u8, vy: u8 },
    LDST { vx: u8 },
    LDVXI { vx: u8 },
    LDRI { vx: u8 },
    UNKNOWN,
}

/// The 12-bit address field of an instruction word.
pub open spec fn addr_field(w: u16) -> u16 {
    (w as int % 4096) as u16
}

/// The trailing 8-bit immediate of an instruction word.
pub open spec fn imm_field(w: u16) -> u8 {
    (w as int % 256) as u8
}

/// The X register selector: the second-highest nibble.
pub open spec fn vx_field(w: u16) -> u8 {
    nibble_of(w, 2) as u8
}

/// The Y register selector: the second-lowest nibble.
pub open spec fn vy_field(w: u16) -> u8 {
    nibble_of(w, 1) as u8
}

/// The full decode table: the leading nibble selects an opcode family and the
/// remaining nibbles discriminate within it. Unrecognized patterns decode to
/// `UNKNOWN`.
pub open spec fn spec_decode(w: u16) -> InstructionType {
    let n3 = nibble_of(w, 3);
    let n1 = nibble_of(w, 1);
    let n0 = nibble_of(w, 0);
    if w == 0x00E0 {
        InstructionType::CLS
    } else if w == 0x00EE {
        InstructionType::RET
    } else if n3 == 0x1 {
        InstructionType::JP { addr: addr_field(w) }
    } else if n3 == 0x2 {
        InstructionType::CALL { addr: addr_field(w) }
    } else if n3 == 0x3 {
        InstructionType::SKEQV { vx: vx_field(w), value: imm_field(w) }
    } else if n3 == 0x4 {
        InstructionType::SKNEQV { vx: vx_field(w), value: imm_field(w) }
    } else if n3 == 0x5 && n0 == 0x0 {
        InstructionType::SER { vx: vx_field(w), vy: vy_field(w) }
    } else if n3 == 0x6 {
        InstructionType::LDV { vx: vx_field(w), value: imm_field(w) }
    } else if n3 == 0x7 {
        InstructionType::ADDV { vx: vx_field(w), value: imm_field(w) }
    } else if n3 == 0x8 && n0 == 0x0 {
        InstructionType::LDR { vx: vx_field(w), vy: vy_field(w) }
    } else if n3 == 0x8 && n0 == 0x1 {
        InstructionType::OR { vx: vx_field(w), vy: vy_field(w) }
    } else if n3 == 0x8 && n0 == 0x2 {
        InstructionType::AND { vx: vx_field(w), vy: vy_field(w) }
    } else if n3 == 0x8 && n0 == 0x3 {
        InstructionType::XOR { vx: vx_field(w), vy: vy_field(w) }
    } else if n3 == 0x8 && n0 == 0x4 {
        InstructionType::ADD { vx: vx_field(w), vy: vy_field(w) }
    } else if n3 == 0x8 && n0 == 0x5 {
        InstructionType::SUB { vx: vx_field(w), vy: vy_field(w) }
    } else if n3 == 0x8 && n0 == 0x6 {
        InstructionType::SHR { vx: vx_field(w), vy: vy_field(w) }
    } else if n3 == 0x8 && n0 == 0x7 {
        InstructionType::SUBN { vx: vx_field(w), vy: vy_field(w) }
    } else if n3 == 0x8 && n0 == 0xE {
        InstructionType::SHL { vx: vx_field(w), vy: vy_field(w) }
    } else if n3 == 0x9 && n0 == 0x0 {
        InstructionType::SNER { vx: vx_field(w), vy: vy_field(w) }
    } else if n3 == 0xA {
        InstructionType::LDI { value: addr_field(w) }
    } else if n3 == 0xC {
        InstructionType::RND { vx: vx_field(w), value: imm_field(w) }
    } else if n3 == 0xD {
        InstructionType::DRW { vx: vx_field(w), vy: vy_field(w), bytes: n0 as u8 }
    } else if n3 == 0xE && n1 == 0xA && n0 == 0x1 {
        InstructionType::SKNP { vx: vx_field(w) }
    } else if n3 == 0xE && n1 == 0x9 && n0 == 0xE {
        InstructionType::SKP { vx: vx_field(w) }
    } else if n3 == 0xF && n1 == 0x0 && n0 == 0x7 {
        InstructionType::LDDT { vx: vx_field(w) }
    } else if n3 == 0xF && n1 == 0x0 && n0 == 0xA {
        InstructionType::HALTKP { vx: vx_field(w) }
    } else if n3 == 0xF && n1 == 0x1 && n0 == 0x5 {
        InstructionType::SETDT { vx: vx_field(w) }
    } else if n3 == 0xF && n1 == 0x1 && n0 == 0x8 {
        InstructionType::LDST { vx: vx_field(w) }
    } else if n3 == 0xF && n1 == 0x1 && n0 == 0xE {
        InstructionType::ADDI { vx: vx_field(w) }
    } else if n3 == 0xF && n1 == 0x2 && n0 == 0x9 {
        InstructionType::LDHEX { vx: vx_field(w) }
    } else if n3 == 0xF && n1 == 0x3 && n0 == 0x3 {
        InstructionType::LDBCD { vx: vx_field(w) }
    } else if n3 == 0xF && n1 == 0x5 && n0 == 0x5 {
        InstructionType::LDVXI { vx: vx_field(w) }
    } else if n3 == 0xF && n1 == 0x6 && n0 == 0x5 {
        InstructionType::LDRI { vx: vx_field(w) }
    } else {
        InstructionType::UNKNOWN
    }
}

/// Every field of a decoded instruction is within the range its bit field
/// allows.
pub open spec fn instr_wf(i: InstructionType) -> bool {
    match i {
        InstructionType::CLS => true,
        InstructionType::JP { addr } => addr < 4096,
        InstructionType::LDV { vx, value } => vx < 16,
        InstructionType::ADDV { vx, value } => vx < 16,
        InstructionType::LDI { value } => value < 4096,
        InstructionType::LDR { vx, vy } => vx < 16 && vy < 16,
        InstructionType::DRW { vx, vy, bytes } => vx < 16 && vy < 16 && bytes < 16,
        InstructionType::CALL { addr } => addr < 4096,
        InstructionType::RET => true,
        InstructionType::SKEQV { vx, value } => vx < 16,
        InstructionType::SKNEQV { vx, value } => vx < 16,
        InstructionType::RND { vx, value } => vx < 16,
        InstructionType::ADD { vx, vy } => vx < 16 && vy < 16,
        InstructionType::ADDI { vx } => vx < 16,
        InstructionType::SUB { vx, vy } => vx < 16 && vy < 16,
        InstructionType::SHR { vx, vy } => vx < 16 && vy < 16,
        InstructionType::SUBN { vx, vy } => vx < 16 && vy < 16,
        InstructionType::SHL { vx, vy } => vx < 16 && vy < 16,
        InstructionType::SETDT { vx } => vx < 16,
        InstructionType::SKNP { vx } => vx < 16,
        InstructionType::SKP { vx } => vx < 16,
        InstructionType::SNER { vx, vy } => vx < 16 && vy < 16,
        InstructionType::SER { vx, vy } => vx < 16 && vy < 16,
        InstructionType::HALTKP { vx } => vx < 16,
        InstructionType::LDDT { vx } => vx < 16,
        InstructionType::LDBCD { vx } => vx < 16,
        InstructionType::LDHEX { vx } => vx < 16,
        InstructionType::OR { vx, vy } => vx < 16 && vy < 16,
        InstructionType::AND { vx, vy } => vx < 16 && vy < 16,
        InstructionType::XOR { vx, vy } => vx < 16 && vy < 16,
        InstructionType::LDST { vx } => vx < 16,
        InstructionType::LDVXI { vx } => vx < 16,
        InstructionType::LDRI { vx } => vx < 16,
        InstructionType::UNKNOWN => true,
    }
}

/// Row of the sprite that lands on framebuffer row `cy` when the origin row
/// is `y`: rows wrap at the bottom edge, never clip.
pub open spec fn wrap_row(cy: int, y: int) -> int {
    if cy >= y {
        cy - y
    } else {
        cy + 32 - y
    }
}

/// Column of the sprite that lands on framebuffer column `cx` when the
/// origin column is `x`: columns wrap at the right edge, never clip.
pub open spec fn wrap_col(cx: int, x: int) -> int {
    if cx >= x {
        cx - x
    } else {
        cx + 64 - x
    }
}

/// Sprite row that covers the cell at flat index `idx` (rows are 64 cells).
pub open spec fn cell_row(idx: int, y: int) -> int {
    wrap_row(idx / 64, y)
}

/// Sprite column that covers the cell at flat index `idx`.
pub open spec fn cell_col(idx: int, x: int) -> int {
    wrap_col(idx % 64, x)
}

/// Whether the sprite bit that lands on cell `idx` is set: sprite rows are
/// single bytes read from `mem` at the address register, most significant
/// bit leftmost.
pub open spec fn cell_bit_set(mem: Seq<u8>, i_reg: int, x: int, y: int, idx: int) -> bool {
    byte_bit(mem[i_reg + cell_row(idx, y)], (7 - cell_col(idx, x)) as u16) == 1
}

/// Whether a sprite of `n` rows drawn at origin `(x, y)` covers cell `idx`
/// with a set bit.
pub open spec fn sprite_covers(mem: Seq<u8>, i_reg: int, n: int, x: int, y: int, idx: int) -> bool {
    cell_col(idx, x) < 8 && cell_row(idx, y) < n && cell_bit_set(mem, i_reg, x, y, idx)
}

/// Coverage by a prefix of the sprite: all of the first `rows` rows, then
/// the first `cols` columns of row `rows`.
pub open spec fn sprite_covers_partial(
    mem: Seq<u8>,
    i_reg: int,
    x: int,
    y: int,
    rows: int,
    cols: int,
    idx: int,
) -> bool {
    let r = cell_row(idx, y);
    let c = cell_col(idx, x);
    c < 8 && cell_bit_set(mem, i_reg, x, y, idx) && (r < rows || (r == rows && c < cols))
}

/// XOR-compositing a set sprite bit into a cell flips it between the two
/// sentinel values.
pub open spec fn flip_cell(b: u8) -> u8 {
    b ^ 0xFF
}

pub open spec fn draw_fb_partial(
    fb: Seq<u8>,
    mem: Seq<u8>,
    i_reg: int,
    x: int,
    y: int,
    rows: int,
    cols: int,
) -> Seq<u8> {
    Seq::new(
        fb.len(),
        |idx: int|
            if sprite_covers_partial(mem, i_reg, x, y, rows, cols, idx) {
                flip_cell(fb[idx])
            } else {
                fb[idx]
            },
    )
}

/// The framebuffer after XOR-compositing the whole sprite.
pub open spec fn draw_fb(fb: Seq<u8>, mem: Seq<u8>, i_reg: int, n: int, x: int, y: int) -> Seq<
    u8,
> {
    Seq::new(
        fb.len(),
        |idx: int|
            if sprite_covers(mem, i_reg, n, x, y, idx) {
                flip_cell(fb[idx])
            } else {
                fb[idx]
            },
    )
}

pub open spec fn draw_collision_partial(
    fb: Seq<u8>,
    mem: Seq<u8>,
    i_reg: int,
    x: int,
    y: int,
    rows: int,
    cols: int,
) -> bool {
    exists|idx: int|
        0 <= idx < fb.len() && sprite_covers_partial(mem, i_reg, x, y, rows, cols, idx)
            && fb[idx] == 0xFF
}

/// Whether the draw turns any previously-on cell off: the sticky collision
/// condition reported in the overflow flag.
pub open spec fn draw_collision(
    fb: Seq<u8>,
    mem: Seq<u8>,
    i_reg: int,
    n: int,
    x: int,
    y: int,
) -> bool {
    exists|idx: int|
        0 <= idx < fb.len() && sprite_covers(mem, i_reg, n, x, y, idx) && fb[idx] == 0xFF
}

impl StateView {
    /// Draw-sprite: XOR the `n`-row sprite at the address register into the
    /// framebuffer with wraparound, resetting the overflow flag and setting
    /// it to 1 exactly when a previously-on cell turns off.
    pub open spec fn spec_drw(self, vx: u8, vy: u8, n: u8) -> StateView {
        let x = self.reg(vx as int) as int % 64;
        let y = self.reg(vy as int) as int % 32;
        StateView {
            fb: draw_fb(self.fb, self.mem, self.i_reg() as int, n as int, x, y),
            regs: self.regs.update(
                15,
                if draw_collision(self.fb, self.mem, self.i_reg() as int, n as int, x, y) {
                    1u16
                } else {
                    0u16
                },
            ),
            ..self
        }
    }

    /// Register-load: registers 0 through `vx` receive consecutive memory
    /// bytes starting at the address register; the address register keeps
    /// its value.
    pub open spec fn spec_ldri(self, vx: u8) -> StateView {
        StateView {
            regs: Seq::new(
                self.regs.len(),
                |k: int|
                    if 0 <= k <= vx as int {
                        self.mem[self.i_reg() + k] as u16
                    } else {
                        self.regs[k]
                    },
            ),
            ..self
        }
    }

    /// Register-dump: consecutive memory bytes starting at the address
    /// register receive registers 0 through `vx`; the address register then
    /// points just past the written span.
    pub open spec fn spec_ldvxi(self, vx: u8) -> StateView {
        StateView {
            mem: Seq::new(
                self.mem.len(),
                |k: int|
                    if self.i_reg() <= k <= self.i_reg() + vx {
                        (self.regs[k - self.i_reg()] as u8)
                    } else {
                        self.mem[k]
                    },
            ),
            regs: self.regs.update(REG_I as int, ((self.i_reg() + vx + 1) as u16)),
            ..self
        }
    }
}

pub(crate) proof fn lemma_xor_byte(p: u8)
    by (bit_vector)
    ensures
        p ^ 0 == p,
        p ^ 0xFF == 255 - p,
{
}

/// How a wrapped coordinate relates to its unwrapped sum.
proof fn lemma_wrap_mod(base: int, off: int, m: int)
    requires
        0 <= base < m,
        0 <= off < m,
    ensures
        (base + off) % m == if base + off < m {
            base + off
        } else {
            base + off - m
        },
{
    if base + off < m {
        vstd::arithmetic::div_mod::lemma_small_mod((base + off) as nat, m as nat);
    } else {
        vstd::arithmetic::div_mod::lemma_mod_sub_multiples_vanish(base + off, m);
        vstd::arithmetic::div_mod::lemma_small_mod((base + off - m) as nat, m as nat);
    }
}

/// The framebuffer cell that sprite row `i`, column `j` lands on, and its
/// wrapped coordinates.
proof fn lemma_target_cell(gx: int, gy: int, i: int, j: int)
    requires
        0 <= gx < 64,
        0 <= gy < 32,
        0 <= i < 32,
        0 <= j < 8,
    ensures
        0 <= ((gy + i) % 32) * 64 + ((gx + j) % 64) < 2048,
        cell_row(((gy + i) % 32) * 64 + ((gx + j) % 64), gy) == i,
        cell_col(((gy + i) % 32) * 64 + ((gx + j) % 64), gx) == j,
{
    let cy = (gy + i) % 32;
    let cx = (gx + j) % 64;
    lemma_wrap_mod(gy, i, 32);
    lemma_wrap_mod(gx, j, 64);
    vstd::arithmetic::div_mod::lemma_fundamental_div_mod_converse(cy * 64 + cx, 64, cy, cx);
}

/// No two sprite positions land on the same framebuffer cell: a cell's
/// wrapped row and column determine it.
proof fn lemma_cell_unique(gx: int, gy: int, i: int, j: int, idx: int)
    requires
        0 <= gx < 64,
        0 <= gy < 32,
        0 <= i < 32,
        0 <= j < 64,
        0 <= idx < 2048,
        cell_row(idx, gy) == i,
        cell_col(idx, gx) == j,
    ensures
        idx == ((gy + i) % 32) * 64 + ((gx + j) % 64),
{
    let cy = idx / 64;
    let cx = idx % 64;
    vstd::arithmetic::div_mod::lemma_fundamental_div_mod(idx, 64);
    assert(0 <= cy < 32);
    lemma_wrap_mod(gy, i, 32);
    lemma_wrap_mod(gx, j, 64);
}

/// A blank draw prefix leaves the framebuffer as it is and reports no
/// collision.
proof fn lemma_draw_empty(fb: Seq<u8>, mem: Seq<u8>, gi: int, gx: int, gy: int)
    requires
        0 <= gx < 64,
        0 <= gy < 32,
        fb.len() == 2048,
    ensures
        draw_fb_partial(fb, mem, gi, gx, gy, 0, 0) == fb,
        !draw_collision_partial(fb, mem, gi, gx, gy, 0, 0),
{
    assert forall|idx: int| 0 <= idx < 2048 implies !sprite_covers_partial(
        mem,
        gi,
        gx,
        gy,
        0,
        0,
        idx,
    ) by {
        assert(cell_row(idx, gy) >= 0);
        assert(cell_col(idx, gx) >= 0);
    }
    assert(draw_fb_partial(fb, mem, gi, gx, gy, 0, 0) =~= fb);
}

/// Finishing row `rows` is the same as standing at the start of the next row.
proof fn lemma_draw_row_rollover(fb: Seq<u8>, mem: Seq<u8>, gi: int, gx: int, gy: int, rows: int)
    requires
        0 <= gx < 64,
        0 <= gy < 32,
        fb.len() == 2048,
    ensures
        draw_fb_partial(fb, mem, gi, gx, gy, rows, 8) == draw_fb_partial(
            fb,
            mem,
            gi,
            gx,
            gy,
            rows + 1,
            0,
        ),
        draw_collision_partial(fb, mem, gi, gx, gy, rows, 8) == draw_collision_partial(
            fb,
            mem,
            gi,
            gx,
            gy,
            rows + 1,
            0,
        ),
{
    assert forall|idx: int| 0 <= idx < 2048 implies sprite_covers_partial(
        mem,
        gi,
        gx,
        gy,
        rows,
        8,
        idx,
    ) == sprite_covers_partial(mem, gi, gx, gy, rows + 1, 0, idx) by {
        assert(0 <= idx / 64 < 32);
        assert(cell_row(idx, gy) >= 0);
        assert(cell_col(idx, gx) >= 0);
    }
    assert(draw_fb_partial(fb, mem, gi, gx, gy, rows, 8) =~= draw_fb_partial(
        fb,
        mem,
        gi,
        gx,
        gy,
        rows + 1,
        0,
    ));
    if draw_collision_partial(fb, mem, gi, gx, gy, rows, 8) {
        let idx = choose|idx: int|
            0 <= idx < fb.len() && sprite_covers_partial(mem, gi, gx, gy, rows, 8, idx) && fb[idx]
                == 0xFF;
        assert(sprite_covers_partial(mem, gi, gx, gy, rows + 1, 0, idx));
        assert(draw_collision_partial(fb, mem, gi, gx, gy, rows + 1, 0));
    }
    if draw_collision_partial(fb, mem, gi, gx, gy, rows + 1, 0) {
        let idx = choose|idx: int|
            0 <= idx < fb.len() && sprite_covers_partial(mem, gi, gx, gy, rows + 1, 0, idx)
                && fb[idx] == 0xFF;
        assert(sprite_covers_partial(mem, gi, gx, gy, rows, 8, idx));
        assert(draw_collision_partial(fb, mem, gi, gx, gy, rows, 8));
    }
}

/// A prefix of the whole sprite is the whole draw.
proof fn lemma_draw_complete(fb: Seq<u8>, mem: Seq<u8>, gi: int, gx: int, gy: int, n: int)
    requires
        0 <= gx < 64,
        0 <= gy < 32,
        fb.len() == 2048,
    ensures
        draw_fb_partial(fb, mem, gi, gx, gy, n, 0) == draw_fb(fb, mem, gi, n, gx, gy),
        draw_collision_partial(fb, mem, gi, gx, gy, n, 0) == draw_collision(fb, mem, gi, n, gx, gy),
{
    assert forall|idx: int| 0 <= idx < 2048 implies sprite_covers_partial(
        mem,
        gi,
        gx,
        gy,
        n,
        0,
        idx,
    ) == sprite_covers(mem, gi, n, gx, gy, idx) by {
        assert(0 <= idx / 64 < 32);
        assert(cell_row(idx, gy) >= 0);
        assert(cell_col(idx, gx) >= 0);
    }
    assert(draw_fb_partial(fb, mem, gi, gx, gy, n, 0) =~= draw_fb(fb, mem, gi, n, gx, gy));
    if draw_collision_partial(fb, mem, gi, gx, gy, n, 0) {
        let idx = choose|idx: int|
            0 <= idx < fb.len() && sprite_covers_partial(mem, gi, gx, gy, n, 0, idx) && fb[idx]
                == 0xFF;
        assert(sprite_covers(mem, gi, n, gx, gy, idx));
        assert(draw_collision(fb, mem, gi, n, gx, gy));
    }
    if draw_collision(fb, mem, gi, n, gx, gy) {
        let idx = choose|idx: int|
            0 <= idx < fb.len() && sprite_covers(mem, gi, n, gx, gy, idx) && fb[idx] == 0xFF;
        assert(sprite_covers_partial(mem, gi, gx, gy, n, 0, idx));
        assert(draw_collision_partial(fb, mem, gi, gx, gy, n, 0));
    }
}

proof fn lemma_word_fields(w: u16)
    by (bit_vector)
    ensures
        ((w as int / 256) % 16) * 256 + ((w as int / 16) % 16) * 16 + (w as int % 16) == w as int
            % 4096,
        ((w as int / 16) % 16) * 16 + (w as int % 16) == w as int % 256,
        ((w as int / 4096) % 16) * 4096 + ((w as int / 256) % 16) * 256 + ((w as int / 16) % 16)
            * 16 + (w as int % 16) == w,
        (w as int / 4096) % 16 == w as int / 4096,
{
}

proof fn lemma_low_byte_u16(x: u16)
    by (bit_vector)
    ensures
        x & 0xFF == x as int % 256,
{
}

proof fn lemma_shift_ops(v: u16)
    by (bit_vector)
    ensures
        (v >> 1u16) & 0xFF == (v / 2) % 256,
        (v >> 0u16) & 1 == v % 2,
        (v >> 7u16) & 1 == (v / 128) % 2,
{
}

proof fn lemma_shl_op(v: u16)
    by (bit_vector)
    ensures
        (v << 1u16) & 0xFF == (v * 2) % 256,
{
}

/// Effect of each opcode on the abstract machine state. The scheduler has
/// already advanced the program counter past the instruction word when these
/// apply, so control-flow opcodes simply overwrite it.
impl StateView {
    pub open spec fn spec_jmp(self, addr: u16) -> StateView {
        self.with_reg(REG_PC as int, addr)
    }

    /// Every framebuffer cell turns off.
    pub open spec fn spec_cls(self) -> StateView {
        StateView { fb: Seq::new(self.fb.len(), |i: int| 0u8), ..self }
    }

    pub open spec fn spec_ldv(self, vx: u8, value: u8) -> StateView {
        self.with_reg(vx as int, value as u16)
    }

    /// Add-immediate: wraps modulo 256 and touches no flag.
    pub open spec fn spec_addv(self, vx: u8, value: u8) -> StateView {
        self.with_reg(vx as int, ((self.reg(vx as int) + value) % 256) as u16)
    }

    pub open spec fn spec_ldi(self, value: u16) -> StateView {
        self.with_reg(REG_I as int, value)
    }

    pub open spec fn spec_ldr(self, vx: u8, vy: u8) -> StateView {
        self.with_reg(vx as int, self.reg(vy as int))
    }

    pub open spec fn spec_or(self, vx: u8, vy: u8) -> StateView {
        self.with_reg(vx as int, (self.reg(vx as int) | self.reg(vy as int)) & 0xFF)
    }

    pub open spec fn spec_and(self, vx: u8, vy: u8) -> StateView {
        self.with_reg(vx as int, (self.reg(vx as int) & self.reg(vy as int)) & 0xFF)
    }

    pub open spec fn spec_xor(self, vx: u8, vy: u8) -> StateView {
        self.with_reg(vx as int, (self.reg(vx as int) ^ self.reg(vy as int)) & 0xFF)
    }

    /// Add-registers: sum modulo 256 into the first register; the overflow
    /// flag becomes 1 exactly when the unmasked sum exceeds 255.
    pub open spec fn spec_add(self, vx: u8, vy: u8) -> StateView {
        let sum = self.reg(vx as int) + self.reg(vy as int);
        self.with_reg(vx as int, ((sum % 256) as u16)).with_reg(
            15,
            if sum > 255 {
                1u16
            } else {
                0u16
            },
        )
    }

    /// Subtract: difference modulo 256; the overflow flag becomes 1 exactly
    /// when the pre-operation first operand exceeds the second (not-borrow).
    pub open spec fn spec_sub(self, vx: u8, vy: u8) -> StateView {
        let diff = self.reg(vx as int) - self.reg(vy as int);
        self.with_reg(vx as int, ((diff % 256) as u16)).with_reg(
            15,
            if self.reg(vx as int) > self.reg(vy as int) {
                1u16
            } else {
                0u16
            },
        )
    }

    /// Subtract-reversed: the mirror of `spec_sub` with operands swapped,
    /// result still stored in the first register.
    pub open spec fn spec_subn(self, vx: u8, vy: u8) -> StateView {
        let diff = self.reg(vy as int) - self.reg(vx as int);
        self.with_reg(vx as int, ((diff % 256) as u16)).with_reg(
            15,
            if self.reg(vy as int) > self.reg(vx as int) {
                1u16
            } else {
                0u16
            },
        )
    }

    /// Shift right by one bit; the overflow flag receives the bit shifted out.
    pub open spec fn spec_shr(self, vx: u8) -> StateView {
        self.with_reg(vx as int, (((self.reg(vx as int) as int / 2) % 256) as u16)).with_reg(
            15,
            ((self.reg(vx as int) as int % 2) as u16),
        )
    }

    /// Shift left by one bit; the overflow flag receives the bit shifted out.
    pub open spec fn spec_shl(self, vx: u8) -> StateView {
        self.with_reg(vx as int, (((self.reg(vx as int) as int * 2) % 256) as u16)).with_reg(
            15,
            (((self.reg(vx as int) as int / 128) % 2) as u16),
        )
    }

    /// Skip the next instruction (two bytes) when `cond` holds.
    pub open spec fn spec_skip_if(self, cond: bool) -> StateView {
        if cond {
            self.with_reg(REG_PC as int, ((self.pc() + 2) as u16))
        } else {
            self
        }
    }

    pub open spec fn spec_skeqv(self, vx: u8, value: u8) -> StateView {
        self.spec_skip_if(self.reg(vx as int) as u8 == value)
    }

    pub open spec fn spec_skneqv(self, vx: u8, value: u8) -> StateView {
        self.spec_skip_if(self.reg(vx as int) as u8 != value)
    }

    pub open spec fn spec_ser(self, vx: u8, vy: u8) -> StateView {
        self.spec_skip_if(self.reg(vx as int) == self.reg(vy as int))
    }

    pub open spec fn spec_sner(self, vx: u8, vy: u8) -> StateView {
        self.spec_skip_if(self.reg(vx as int) != self.reg(vy as int))
    }

    /// Whether the keypad symbol held in register `vx` is currently pressed;
    /// a symbol outside the keypad is never pressed.
    pub open spec fn key_pressed_value(self, vx: u8) -> bool {
        let k = self.reg(vx as int) as u8;
        k < 16 && self.keys[k as int]
    }

    pub open spec fn spec_skp(self, vx: u8) -> StateView {
        self.spec_skip_if(self.key_pressed_value(vx))
    }

    pub open spec fn spec_sknp(self, vx: u8) -> StateView {
        self.spec_skip_if(!self.key_pressed_value(vx))
    }

    /// Enter the halt-for-key state, remembering the destination register.
    pub open spec fn spec_haltkp(self, vx: u8) -> StateView {
        StateView { halted_for_keypress: true, halt_store_reg: vx as int, ..self }
    }

    pub open spec fn spec_lddt(self, vx: u8) -> StateView {
        self.with_reg(vx as int, ((self.dt() as int % 256) as u16))
    }

    pub open spec fn spec_setdt(self, vx: u8) -> StateView {
        self.with_reg(REG_DT as int, self.reg(vx as int))
    }

    /// The address register points at the five-byte font glyph of the value
    /// held in register `vx`.
    pub open spec fn spec_ldhex(self, vx: u8) -> StateView {
        self.with_reg(REG_I as int, ((self.reg(vx as int) * 5) as u16))
    }

    pub open spec fn spec_addi(self, vx: u8) -> StateView {
        self.with_reg(REG_I as int, ((self.i_reg() + (self.reg(vx as int) as u8)) as u16))
    }

    /// The random opcode with the drawn byte `b` made explicit: the register
    /// receives the byte masked by the immediate.
    pub open spec fn spec_rnd(self, vx: u8, mask: u8, b: u8) -> StateView {
        self.with_reg(vx as int, ((b & mask) as u16))
    }

    /// Call: push the (already advanced) program counter, then jump.
    pub open spec fn spec_call(self, addr: u16) -> StateView {
        self.stack_push(self.pc()).with_reg(REG_PC as int, addr)
    }

    /// Return: pop the stack into the program counter.
    pub open spec fn spec_ret(self) -> StateView {
        self.stack_pop().with_reg(REG_PC as int, self.top())
    }

    /// Store the decimal digits of register `vx` at the address register:
    /// hundreds, tens, ones.
    pub open spec fn spec_ldbcd(self, vx: u8) -> StateView {
        let v = self.reg(vx as int) as u8 as int;
        let i = self.i_reg() as int;
        StateView {
            mem: self.mem.update(i, ((v / 100) as u8)).update(i + 1, (((v / 10) % 10) as u8)).update(
                i + 2,
                ((v % 10) as u8),
            ),
            ..self
        }
    }
}

/// The machine: state plus the fetch-decode-execute engine that drives it.
pub struct Chip8 {
    pub state: InternalState,
}

impl View for Chip8 {
    type V = StateView;

    open spec fn view(&self) -> StateView {
        self.state@
    }
}

impl Chip8 {
    /// A zeroed machine, not yet set up: see `setup`.
    pub fn new() -> (c: Chip8)
        ensures
            c@.wf(),
            forall|i: int| 0 <= i < MEMSIZE ==> c@.mem[i] == 0,
            forall|i: int| 0 <= i < NUM_REGISTERS ==> c@.regs[i] == 0,
            forall|i: int| 0 <= i < DISPLAYW * DISPLAYH ==> c@.fb[i] == 0,
            forall|i: int| 0 <= i < NUM_KEYS ==> !c@.keys[i],
            !c@.halted_for_keypress,
            c@.halt_store_reg == 0,
            c@.op_time_ns == 0,
            c@.timer_ns == 0,
    {
        Chip8 { state: InternalState::new() }
    }

    /// Index of general register `vx` in the register file. Only registers
    /// V0 to VF are valid.
    pub fn get_vx_i(vx: u8) -> (r: usize)
        requires
            vx <= 0xF,
        ensures
            r == vx as int,
    {
        Register::V0.index() + vx as usize
    }

    /// Decode one 16-bit instruction word. Pure and total: unrecognized
    /// patterns yield `UNKNOWN`.
    pub fn decode_instr(data: u16) -> (r: InstructionType)
        ensures
            r == spec_decode(data),
            instr_wf(r),
    {
        proof {
            lemma_word_fields(data);
        }
        match utils::nibbles_to_tuple(data) {
            (0x0, 0x0, 0xE, 0x0) => InstructionType::CLS,
            (0x0, 0x0, 0xE, 0xE) => InstructionType::RET,
            (0x1, n2, n1, n0) => InstructionType::JP {
                addr: utils::concat_nib_to_u16(0, n2, n1, n0),
            },
            (0x2, n2, n1, n0) => InstructionType::CALL {
                addr: utils::concat_nib_to_u16(0, n2, n1, n0),
            },
            (0x3, vx, n1, n0) => InstructionType::SKEQV {
                vx,
                value: utils::concat_nib_to_u8(n1, n0),
            },
            (0x4, vx, n1, n0) => InstructionType::SKNEQV {
                vx,
                value: utils::concat_nib_to_u8(n1, n0),
            },
            (0x5, vx, vy, 0x0) => InstructionType::SER { vx, vy },
            (0x6, vx, n1, n0) => InstructionType::LDV {
                vx,
                value: utils::concat_nib_to_u8(n1, n0),
            },
            (0x7, vx, n1, n0) => InstructionType::ADDV {
                vx,
                value: utils::concat_nib_to_u8(n1, n0),
            },
            (0x8, vx, vy, 0x0) => InstructionType::LDR { vx, vy },
            (0x8, vx, vy, 0x1) => InstructionType::OR { vx, vy },
            (0x8, vx, vy, 0x2) => InstructionType::AND { vx, vy },
            (0x8, vx, vy, 0x3) => InstructionType::XOR { vx, vy },
            (0x8, vx, vy, 0x4) => InstructionType::ADD { vx, vy },
            (0x8, vx, vy, 0x5) => InstructionType::SUB { vx, vy },
            (0x8, vx, vy, 0x6) => InstructionType::SHR { vx, vy },
            (0x8, vx, vy, 0x7) => InstructionType::SUBN { vx, vy },
            (0x8, vx, vy, 0xe) => InstructionType::SHL { vx, vy },
            (0x9, vx, vy, 0x0) => InstructionType::SNER { vx, vy },
            (0xA, n2, n1, n0) => InstructionType::LDI {
                value: utils::concat_nib_to_u16(0, n2, n1, n0),
            },
            (0xC, vx, n1, n0) => InstructionType::RND {
                vx,
                value: utils::concat_nib_to_u8(n1, n0),
            },
            (0xD, vx, vy, bytes) => InstructionType::DRW { vx, vy, bytes },
            (0xE, vx, 0xA, 0x1) => InstructionType::SKNP { vx },
            (0xE, vx, 0x9, 0xE) => InstructionType::SKP { vx },
            (0xF, vx, 0x0, 0x7) => InstructionType::LDDT { vx },
            (0xF, vx, 0x0, 0xA) => InstructionType::HALTKP { vx },
            (0xF, vx, 0x1, 0x5) => InstructionType::SETDT { vx },
            (0xF, vx, 0x1, 0x8) => InstructionType::LDST { vx },
            (0xF, vx, 0x1, 0xE) => InstructionType::ADDI { vx },
            (0xF, vx, 0x2, 0x9) => InstructionType::LDHEX { vx },
            (0xF, vx, 0x3, 0x3) => InstructionType::LDBCD { vx },
            (0xF, vx, 0x5, 0x5) => InstructionType::LDVXI { vx },
            (0xF, vx, 0x6, 0x5) => InstructionType::LDRI { vx },
            _ => InstructionType::UNKNOWN,
        }
    }

    pub fn jmp(&mut self, address: u16)
        requires
            old(self)@.wf(),
        ensures
            final(self)@ == old(self)@.spec_jmp(address),
    {
        self.state.set_register(Register::PC, address);
    }

    pub fn cls(&mut self)
        requires
            old(self)@.wf(),
        ensures
            final(self)@ == old(self)@.spec_cls(),
    {
        let ghost orig: StateView = self@;
        let len = self.state.framebuffer.len();
        let mut i: usize = 0;
        while i < len
            invariant
                i <= len,
                len == orig.fb.len(),
                self@.fb.len() == len,
                forall|j: int| 0 <= j < i ==> self@.fb[j] == 0,
                forall|j: int| i <= j < len ==> self@.fb[j] == orig.fb[j],
                self@.mem == orig.mem,
                self@.regs == orig.regs,
                self@.keys == orig.keys,
                self@.halted_for_keypress == orig.halted_for_keypress,
                self@.halt_store_reg == orig.halt_store_reg,
                self@.op_time_ns == orig.op_time_ns,
                self@.timer_ns == orig.timer_ns,
            decreases len - i,
        {
            self.state.framebuffer[i] = 0;
            i += 1;
        }
        proof {
            assert(self@ =~= orig.spec_cls());
        }
    }

    pub fn ldv(&mut self, vx: u8, value: u8)
        requires
            old(self)@.wf(),
            vx <= 0xF,
        ensures
            final(self)@ == old(self)@.spec_ldv(vx, value),
    {
        let i = Chip8::get_vx_i(vx);
        self.state.registers[i] = value as u16;
    }

    pub fn addv(&mut self, vx: u8, value: u8)
        requires
            old(self)@.wf(),
            vx <= 0xF,
        ensures
            final(self)@ == old(self)@.spec_addv(vx, value),
    {
        let i = Chip8::get_vx_i(vx);
        let sum: u16 = self.state.registers[i] + value as u16;
        self.state.registers[i] = sum & 0xFF;
        proof {
            lemma_low_byte_u16(sum);
            assert(self@ =~= old(self)@.spec_addv(vx, value));
        }
    }

    pub fn ldi(&mut self, value: u16)
        requires
            old(self)@.wf(),
        ensures
            final(self)@ == old(self)@.spec_ldi(value),
    {
        self.state.set_register(Register::I, value);
    }

    pub fn call(&mut self, addr: u16)
        requires
            old(self)@.wf(),
            old(self)@.stack_ok(),
            old(self)@.can_push(),
        ensures
            final(self)@ == old(self)@.spec_call(addr),
    {
        let pc = self.state.get_register(Register::PC);
        self.state.push_stack(pc);
        self.state.set_register(Register::PC, addr);
    }

    pub fn ret(&mut self)
        requires
            old(self)@.wf(),
            old(self)@.stack_ok(),
            old(self)@.can_pop(),
        ensures
            final(self)@ == old(self)@.spec_ret(),
    {
        let ret_addr = self.state.pop_stack();
        self.state.set_register(Register::PC, ret_addr);
    }

    pub fn skpeqv(&mut self, vx: u8, value: u8)
        requires
            old(self)@.wf(),
            vx <= 0xF,
            old(self)@.pc() + 2 <= u16::MAX,
        ensures
            final(self)@ == old(self)@.spec_skeqv(vx, value),
    {
        let i = Chip8::get_vx_i(vx);
        let vx_value = self.state.registers[i];
        if value == (vx_value as u8) {
            self.state.advance_pc();
        }
    }

    pub fn skpneqv(&mut self, vx: u8, value: u8)
        requires
            old(self)@.wf(),
            vx <= 0xF,
            old(self)@.pc() + 2 <= u16::MAX,
        ensures
            final(self)@ == old(self)@.spec_skneqv(vx, value),
    {
        let i = Chip8::get_vx_i(vx);
        let vx_value = self.state.registers[i];
        if value != (vx_value as u8) {
            self.state.advance_pc();
        }
    }

    /// Load a masked random byte into register `vx`. Which byte was drawn is
    /// not specified; every outcome is the mask applied to some byte.
    pub fn rnd(&mut self, vx: u8, value: u8)
        requires
            old(self)@.wf(),
            vx <= 0xF,
        ensures
            exists|b: u8| final(self)@ == old(self)@.spec_rnd(vx, value, b),
    {
        let rndm: u8 = rand::random();
        let masked = rndm & value;
        let i = Chip8::get_vx_i(vx);
        self.state.registers[i] = masked as u16;
        proof {
            assert(self@ == old(self)@.spec_rnd(vx, value, rndm));
        }
    }

    pub fn addi(&mut self, vx: u8)
        requires
            old(self)@.wf(),
            vx <= 0xF,
            old(self)@.i_reg() + (old(self)@.reg(vx as int) as u8) <= u16::MAX,
        ensures
            final(self)@ == old(self)@.spec_addi(vx),
    {
        let i = Chip8::get_vx_i(vx);
        let vx_value = self.state.registers[i] as u8;
        let vi_value = self.state.get_register(Register::I);
        let sum: u16 = vx_value as u16 + vi_value;
        self.state.set_register(Register::I, sum);
    }

    pub fn set_dt(&mut self, vx: u8)
        requires
            old(self)@.wf(),
            vx <= 0xF,
        ensures
            final(self)@ == old(self)@.spec_setdt(vx),
    {
        let i = Chip8::get_vx_i(vx);
        let value = self.state.registers[i];
        self.state.set_register(Register::DT, value);
    }

    pub fn haltkp(&mut self, vx: u8)
        requires
            old(self)@.wf(),
            vx <= 0xF,
        ensures
            final(self)@ == old(self)@.spec_haltkp(vx),
    {
        self.state.halted_for_keypress = true;
        self.state.halted_keypress_store_reg = Chip8::get_vx_i(vx);
    }

    pub fn lddt(&mut self, vx: u8)
        requires
            old(self)@.wf(),
            vx <= 0xF,
        ensures
            final(self)@ == old(self)@.spec_lddt(vx),
    {
        let i = Chip8::get_vx_i(vx);
        let dt = self.state.get_register(Register::DT) & 0xFF;
        self.state.registers[i] = dt;
        proof {
            lemma_low_byte_u16(old(self)@.dt());
            assert(self@ =~= old(self)@.spec_lddt(vx));
        }
    }

    pub fn ldbcd(&mut self, vx: u8)
        requires
            old(self)@.wf(),
            vx <= 0xF,
            old(self)@.i_reg() + 2 < MEMSIZE,
        ensures
            final(self)@ == old(self)@.spec_ldbcd(vx),
    {
        let i = Chip8::get_vx_i(vx);
        let value = self.state.registers[i] as u8;
        proof {
            lemma_bcd(value);
        }
        let hundreds = value / 100;
        let value2 = value - hundreds * 100;
        let tens = value2 / 10;
        let ones = value2 - tens * 10;
        let i_value = self.state.get_register(Register::I) as usize;
        self.state.main_memory[i_value] = hundreds;
        self.state.main_memory[i_value + 1] = tens;
        self.state.main_memory[i_value + 2] = ones;
        proof {
            assert(self@ =~= old(self)@.spec_ldbcd(vx));
        }
    }

    pub fn ldr(&mut self, vx: u8, vy: u8)
        requires
            old(self)@.wf(),
            vx <= 0xF,
            vy <= 0xF,
        ensures
            final(self)@ == old(self)@.spec_ldr(vx, vy),
    {
        let ix = Chip8::get_vx_i(vx);
        let iy = Chip8::get_vx_i(vy);
        let value = self.state.registers[iy];
        self.state.registers[ix] = value;
    }

    pub fn ser(&mut self, vx: u8, vy: u8)
        requires
            old(self)@.wf(),
            vx <= 0xF,
            vy <= 0xF,
            old(self)@.pc() + 2 <= u16::MAX,
        ensures
            final(self)@ == old(self)@.spec_ser(vx, vy),
    {
        let ix = Chip8::get_vx_i(vx);
        let iy = Chip8::get_vx_i(vy);
        if self.state.registers[ix] == self.state.registers[iy] {
            self.state.advance_pc();
        }
    }

    pub fn sner(&mut self, vx: u8, vy: u8)
        requires
            old(self)@.wf(),
            vx <= 0xF,
            vy <= 0xF,
            old(self)@.pc() + 2 <= u16::MAX,
        ensures
            final(self)@ == old(self)@.spec_sner(vx, vy),
    {
        let ix = Chip8::get_vx_i(vx);
        let iy = Chip8::get_vx_i(vy);
        if self.state.registers[ix] != self.state.registers[iy] {
            self.state.advance_pc();
        }
    }

    pub fn ldhex(&mut self, vx: u8)
        requires
            old(self)@.wf(),
            vx <= 0xF,
        ensures
            final(self)@ == old(self)@.spec_ldhex(vx),
    {
        let i = Chip8::get_vx_i(vx);
        let vx_value = self.state.registers[i];
        let sprite_location = vx_value * 5;
        self.state.set_register(Register::I, sprite_location);
    }

    pub fn or(&mut self, vx: u8, vy: u8)
        requires
            old(self)@.wf(),
            vx <= 0xF,
            vy <= 0xF,
        ensures
            final(self)@ == old(self)@.spec_or(vx, vy),
    {
        let ix = Chip8::get_vx_i(vx);
        let iy = Chip8::get_vx_i(vy);
        let vx_value = self.state.registers[ix];
        let vy_value = self.state.registers[iy];
        let result = (vx_value | vy_value) & 0xFF;
        self.state.registers[ix] = result;
    }

    pub fn and(&mut self, vx: u8, vy: u8)
        requires
            old(self)@.wf(),
            vx <= 0xF,
            vy <= 0xF,
        ensures
            final(self)@ == old(self)@.spec_and(vx, vy),
    {
        let ix = Chip8::get_vx_i(vx);
        let iy = Chip8::get_vx_i(vy);
        let vx_value = self.state.registers[ix];
        let vy_value = self.state.registers[iy];
        let result = (vx_value & vy_value) & 0xFF;
        self.state.registers[ix] = result;
    }

    pub fn xor(&mut self, vx: u8, vy: u8)
        requires
            old(self)@.wf(),
            vx <= 0xF,
            vy <= 0xF,
        ensures
            final(self)@ == old(self)@.spec_xor(vx, vy),
    {
        let ix = Chip8::get_vx_i(vx);
        let iy = Chip8::get_vx_i(vy);
        let vx_value = self.state.registers[ix];
        let vy_value = self.state.registers[iy];
        let result = (vx_value ^ vy_value) & 0xFF;
        self.state.registers[ix] = result;
    }

    pub fn add(&mut self, vx: u8, vy: u8)
        requires
            old(self)@.wf(),
            vx <= 0xF,
            vy <= 0xF,
        ensures
            final(self)@ == old(self)@.spec_add(vx, vy),
    {
        let ix = Chip8::get_vx_i(vx);
        let iy = Chip8::get_vx_i(vy);
        let x_value = self.state.registers[ix];
        let y_value = self.state.registers[iy];
        let result = x_value + y_value;
        self.state.registers[ix] = result & 0xFF;
        self.state.set_register(
            Register::VF,
            if result > 0xFF {
                1
            } else {
                0
            },
        );
        proof {
            lemma_low_byte_u16(result);
            assert(self@ =~= old(self)@.spec_add(vx, vy));
        }
    }

    pub fn sub(&mut self, vx: u8, vy: u8)
        requires
            old(self)@.wf(),
            vx <= 0xF,
            vy <= 0xF,
        ensures
            final(self)@ == old(self)@.spec_sub(vx, vy),
    {
        let ix = Chip8::get_vx_i(vx);
        let iy = Chip8::get_vx_i(vy);
        let vx_value = self.state.registers[ix];
        let vy_value = self.state.registers[iy];
        let result = (vx_value + 256 - vy_value) % 256;
        self.state.registers[ix] = result;
        self.state.set_register(
            Register::VF,
            if vx_value > vy_value {
                1
            } else {
                0
            },
        );
        proof {
            vstd::arithmetic::div_mod::lemma_mod_add_multiples_vanish(
                vx_value - vy_value,
                256,
            );
            assert(self@ =~= old(self)@.spec_sub(vx, vy));
        }
    }

    pub fn shr(&mut self, vx: u8, _vy: u8)
        requires
            old(self)@.wf(),
            vx <= 0xF,
        ensures
            final(self)@ == old(self)@.spec_shr(vx),
    {
        let i = Chip8::get_vx_i(vx);
        let vx_value = self.state.registers[i];
        let least_significant_bit = utils::get_nth_bit_u16(vx_value, 0);
        self.state.registers[i] = (vx_value >> 1) & 0xFF;
        self.state.set_register(
            Register::VF,
            if least_significant_bit == 1 {
                1
            } else {
                0
            },
        );
        proof {
            lemma_shift_ops(vx_value);
            assert(self@ =~= old(self)@.spec_shr(vx));
        }
    }

    pub fn subn(&mut self, vx: u8, vy: u8)
        requires
            old(self)@.wf(),
            vx <= 0xF,
            vy <= 0xF,
        ensures
            final(self)@ == old(self)@.spec_subn(vx, vy),
    {
        let ix = Chip8::get_vx_i(vx);
        let iy = Chip8::get_vx_i(vy);
        let vx_value = self.state.registers[ix];
        let vy_value = self.state.registers[iy];
        let result = (vy_value + 256 - vx_value) % 256;
        self.state.registers[ix] = result;
        self.state.set_register(
            Register::VF,
            if vy_value > vx_value {
                1
            } else {
                0
            },
        );
        proof {
            vstd::arithmetic::div_mod::lemma_mod_add_multiples_vanish(
                vy_value - vx_value,
                256,
            );
            assert(self@ =~= old(self)@.spec_subn(vx, vy));
        }
    }

    pub fn shl(&mut self, vx: u8, _vy: u8)
        requires
            old(self)@.wf(),
            vx <= 0xF,
        ensures
            final(self)@ == old(self)@.spec_shl(vx),
    {
        let i = Chip8::get_vx_i(vx);
        let vx_value = self.state.registers[i];
        let most_significant_bit = utils::get_nth_bit_u16(vx_value, 7);
        self.state.registers[i] = (vx_value << 1) & 0xFF;
        self.state.set_register(
            Register::VF,
            if most_significant_bit == 1 {
                1
            } else {
                0
            },
        );
        proof {
            lemma_shift_ops(vx_value);
            lemma_shl_op(vx_value);
            assert(self@ =~= old(self)@.spec_shl(vx));
        }
    }

    /// Set-sound-timer is accepted and has no observable effect.
    pub fn ldst(&mut self, _vx: u8)
        ensures
            final(self)@ == old(self)@,
    {
    }

    pub fn sknp(&mut self, vx: u8)
        requires
            old(self)@.wf(),
            vx <= 0xF,
            old(self)@.pc() + 2 <= u16::MAX,
        ensures
            final(self)@ == old(self)@.spec_sknp(vx),
    {
        let i = Chip8::get_vx_i(vx);
        let key = self.state.registers[i];
        if !self.state.keyboard_state.get_key_state_u8(key as u8) {
            self.state.advance_pc();
        }
    }

    pub fn skp(&mut self, vx: u8)
        requires
            old(self)@.wf(),
            vx <= 0xF,
            old(self)@.pc() + 2 <= u16::MAX,
        ensures
            final(self)@ == old(self)@.spec_skp(vx),
    {
        let i = Chip8::get_vx_i(vx);
        let key = self.state.registers[i];
        if self.state.keyboard_state.get_key_state_u8(key as u8) {
            self.state.advance_pc();
        }
    }

    /// XOR-composite a sprite of `bytes` rows into the framebuffer with
    /// wraparound at both edges, reporting a sticky collision in the
    /// overflow flag.
    pub fn drw(&mut self, vx: u8, vy: u8, bytes: u8)
        requires
            old(self)@.wf(),
            vx <= 0xF,
            vy <= 0xF,
            bytes <= 0xF,
            bytes > 0 ==> old(self)@.i_reg() + bytes <= MEMSIZE,
        ensures
            final(self)@ == old(self)@.spec_drw(vx, vy, bytes),
    {
        let ghost orig: StateView = self@;
        let ix = Chip8::get_vx_i(vx);
        let iy = Chip8::get_vx_i(vy);
        let x_coord = self.state.registers[ix] % 64;
        let y_coord = self.state.registers[iy] % 32;
        let ghost gx = orig.reg(vx as int) as int % 64;
        let ghost gy = orig.reg(vy as int) as int % 32;
        let ghost gi = orig.i_reg() as int;
        self.state.set_register(Register::VF, 0);
        proof {
            lemma_draw_empty(orig.fb, orig.mem, gi, gx, gy);
            assert(DISPLAYW * DISPLAYH == 2048);
            assert(self@.regs =~= orig.regs.update(
                15,
                if draw_collision_partial(orig.fb, orig.mem, gi, gx, gy, 0, 0) {
                    1u16
                } else {
                    0u16
                },
            ));
        }
        let mut i: u8 = 0;
        while i < bytes
            invariant
                orig.wf(),
                vx <= 15,
                vy <= 15,
                bytes <= 15,
                i <= bytes,
                bytes > 0 ==> orig.i_reg() + bytes <= MEMSIZE,
                gx == orig.reg(vx as int) as int % 64,
                gy == orig.reg(vy as int) as int % 32,
                gi == orig.i_reg() as int,
                0 <= gx < 64,
                0 <= gy < 32,
                x_coord as int == gx,
                y_coord as int == gy,
                orig.fb.len() == 2048,
                self@.mem == orig.mem,
                self@.fb == draw_fb_partial(orig.fb, orig.mem, gi, gx, gy, i as int, 0),
                self@.regs == orig.regs.update(
                    15,
                    if draw_collision_partial(orig.fb, orig.mem, gi, gx, gy, i as int, 0) {
                        1u16
                    } else {
                        0u16
                    },
                ),
                self@.keys == orig.keys,
                self@.halted_for_keypress == orig.halted_for_keypress,
                self@.halt_store_reg == orig.halt_store_reg,
                self@.op_time_ns == orig.op_time_ns,
                self@.timer_ns == orig.timer_ns,
            decreases bytes - i,
        {
            let i_value = self.state.registers[REG_I] + i as u16;
            let data = self.state.main_memory[i_value as usize];
            let circ_y_coord = (y_coord + i as u16) % 32;
            proof {
                lemma_wrap_mod(gy, i as int, 32);
            }
            let mut j: u8 = 0;
            while j < 8
                invariant
                    orig.wf(),
                    vx <= 15,
                    vy <= 15,
                    bytes <= 15,
                    i < bytes,
                    j <= 8,
                    orig.i_reg() + bytes <= MEMSIZE,
                    gx == orig.reg(vx as int) as int % 64,
                    gy == orig.reg(vy as int) as int % 32,
                    gi == orig.i_reg() as int,
                    0 <= gx < 64,
                    0 <= gy < 32,
                    x_coord as int == gx,
                    y_coord as int == gy,
                    orig.fb.len() == 2048,
                    data == orig.mem[gi + i],
                    circ_y_coord as int == (gy + i) % 32,
                    self@.mem == orig.mem,
                    self@.fb == draw_fb_partial(orig.fb, orig.mem, gi, gx, gy, i as int, j as int),
                    self@.regs == orig.regs.update(
                        15,
                        if draw_collision_partial(
                            orig.fb,
                            orig.mem,
                            gi,
                            gx,
                            gy,
                            i as int,
                            j as int,
                        ) {
                            1u16
                        } else {
                            0u16
                        },
                    ),
                    self@.keys == orig.keys,
                    self@.halted_for_keypress == orig.halted_for_keypress,
                    self@.halt_store_reg == orig.halt_store_reg,
                    self@.op_time_ns == orig.op_time_ns,
                    self@.timer_ns == orig.timer_ns,
                decreases 8 - j,
            {
                let circ_x_coord = (x_coord + j as u16) % 64;
                let fb_index = InternalState::get_fb_i_from_coord_in_fb(
                    circ_x_coord,
                    circ_y_coord,
                );
                let ghost idxt = circ_y_coord as int * 64 + circ_x_coord as int;
                proof {
                    lemma_wrap_mod(gy, i as int, 32);
                    lemma_wrap_mod(gx, j as int, 64);
                    lemma_target_cell(gx, gy, i as int, j as int);
                }
                let bit = utils::get_nth_bit_u16(data as u16, 7 - j);
                let color: u8 = if bit == 1 {
                    Color::White.value()
                } else {
                    Color::Black.value()
                };
                let previous_color = self.state.framebuffer[fb_index];
                let new_color = previous_color ^ color;
                let ghost fb_before = self@.fb;
                let ghost col_before = draw_collision_partial(
                    orig.fb,
                    orig.mem,
                    gi,
                    gx,
                    gy,
                    i as int,
                    j as int,
                );
                self.state.framebuffer[fb_index] = new_color;
                if previous_color == Color::White.value() && new_color == Color::Black.value() {
                    self.state.set_register(Register::VF, 1);
                }
                proof {
                    lemma_xor_byte(previous_color);
                    assert(cell_bit_set(orig.mem, gi, gx, gy, idxt) == (bit == 1));
                    assert(!sprite_covers_partial(orig.mem, gi, gx, gy, i as int, j as int, idxt));
                    assert(previous_color == orig.fb[idxt]);
                    assert forall|idx: int| 0 <= idx < 2048 implies self@.fb[idx]
                        == draw_fb_partial(
                        orig.fb,
                        orig.mem,
                        gi,
                        gx,
                        gy,
                        i as int,
                        j as int + 1,
                    )[idx] by {
                        if idx == idxt {
                            assert(self@.fb[idx] == new_color);
                        } else {
                            if sprite_covers_partial(
                                orig.mem,
                                gi,
                                gx,
                                gy,
                                i as int,
                                j as int + 1,
                                idx,
                            ) != sprite_covers_partial(
                                orig.mem,
                                gi,
                                gx,
                                gy,
                                i as int,
                                j as int,
                                idx,
                            ) {
                                assert(cell_row(idx, gy) == i as int && cell_col(idx, gx)
                                    == j as int);
                                lemma_cell_unique(gx, gy, i as int, j as int, idx);
                                assert(false);
                            }
                            assert(self@.fb[idx] == fb_before[idx]);
                        }
                    }
                    assert(self@.fb =~= draw_fb_partial(
                        orig.fb,
                        orig.mem,
                        gi,
                        gx,
                        gy,
                        i as int,
                        j as int + 1,
                    ));
                    let col_after = draw_collision_partial(
                        orig.fb,
                        orig.mem,
                        gi,
                        gx,
                        gy,
                        i as int,
                        j as int + 1,
                    );
                    if previous_color == 0xFF && new_color == 0x00 {
                        assert(bit == 1);
                        assert(sprite_covers_partial(
                            orig.mem,
                            gi,
                            gx,
                            gy,
                            i as int,
                            j as int + 1,
                            idxt,
                        ));
                        assert(col_after);
                        assert(self@.regs =~= orig.regs.update(15, 1u16));
                    } else {
                        if col_after && !col_before {
                            let idx = choose|idx: int|
                                0 <= idx < orig.fb.len() && sprite_covers_partial(
                                    orig.mem,
                                    gi,
                                    gx,
                                    gy,
                                    i as int,
                                    j as int + 1,
                                    idx,
                                ) && orig.fb[idx] == 0xFF;
                            if sprite_covers_partial(
                                orig.mem,
                                gi,
                                gx,
                                gy,
                                i as int,
                                j as int,
                                idx,
                            ) {
                                assert(col_before);
                            } else {
                                assert(cell_row(idx, gy) == i as int && cell_col(idx, gx)
                                    == j as int);
                                lemma_cell_unique(gx, gy, i as int, j as int, idx);
                                assert(idx == idxt);
                                assert(bit == 1 && previous_color == 0xFF);
                                assert(false);
                            }
                            assert(false);
                        }
                        if col_before {
                            let idx = choose|idx: int|
                                0 <= idx < orig.fb.len() && sprite_covers_partial(
                                    orig.mem,
                                    gi,
                                    gx,
                                    gy,
                                    i as int,
                                    j as int,
                                    idx,
                                ) && orig.fb[idx] == 0xFF;
                            assert(sprite_covers_partial(
                                orig.mem,
                                gi,
                                gx,
                                gy,
                                i as int,
                                j as int + 1,
                                idx,
                            ));
                            assert(col_after);
                        }
                        assert(col_after == col_before);
                    }
                }
                j += 1;
            }
            proof {
                lemma_draw_row_rollover(orig.fb, orig.mem, gi, gx, gy, i as int);
            }
            i += 1;
        }
        proof {
            lemma_draw_complete(orig.fb, orig.mem, gi, gx, gy, bytes as int);
            assert(self@ =~= old(self)@.spec_drw(vx, vy, bytes));
        }
    }

    /// Load registers 0 through `vx` from memory at the address register.
    pub fn ldri(&mut self, vx: u8)
        requires
            old(self)@.wf(),
            vx <= 0xF,
            old(self)@.i_reg() + vx < MEMSIZE,
        ensures
            final(self)@ == old(self)@.spec_ldri(vx),
    {
        let ghost orig: StateView = self@;
        let i_value = self.state.get_register(Register::I);
        let mut offset: u8 = 0;
        while offset <= vx
            invariant
                orig.wf(),
                vx <= 15,
                offset <= vx + 1,
                i_value == orig.i_reg(),
                orig.i_reg() + vx < MEMSIZE,
                self@.mem == orig.mem,
                self@.fb == orig.fb,
                self@.keys == orig.keys,
                self@.halted_for_keypress == orig.halted_for_keypress,
                self@.halt_store_reg == orig.halt_store_reg,
                self@.op_time_ns == orig.op_time_ns,
                self@.timer_ns == orig.timer_ns,
                self@.regs.len() == orig.regs.len(),
                forall|k: int| 0 <= k < offset ==> self@.regs[k] == orig.mem[orig.i_reg() + k] as u16,
                forall|k: int| offset <= k < NUM_REGISTERS ==> self@.regs[k] == orig.regs[k],
            decreases vx + 1 - offset,
        {
            let idx = (i_value as usize) + (offset as usize);
            let b = self.state.main_memory[idx];
            let r = Chip8::get_vx_i(offset);
            self.state.registers[r] = b as u16;
            offset += 1;
        }
        proof {
            assert(self@ =~= orig.spec_ldri(vx));
        }
    }

    /// Dump registers 0 through `vx` into memory at the address register,
    /// leaving the address register just past the written span.
    pub fn ldvxi(&mut self, vx: u8)
        requires
            old(self)@.wf(),
            vx <= 0xF,
            old(self)@.i_reg() + vx < MEMSIZE,
        ensures
            final(self)@ == old(self)@.spec_ldvxi(vx),
    {
        let ghost orig: StateView = self@;
        let i_value = self.state.get_register(Register::I);
        let mut k: u8 = 0;
        while k < vx + 1
            invariant
                orig.wf(),
                vx <= 15,
                k <= vx + 1,
                i_value == orig.i_reg(),
                orig.i_reg() + vx < MEMSIZE,
                self@.regs == orig.regs,
                self@.fb == orig.fb,
                self@.keys == orig.keys,
                self@.halted_for_keypress == orig.halted_for_keypress,
                self@.halt_store_reg == orig.halt_store_reg,
                self@.op_time_ns == orig.op_time_ns,
                self@.timer_ns == orig.timer_ns,
                self@.mem.len() == orig.mem.len(),
                forall|t: int|
                    orig.i_reg() <= t < orig.i_reg() + k ==> self@.mem[t] == (orig.regs[t
                        - orig.i_reg()] as u8),
                forall|t: int|
                    0 <= t < MEMSIZE && !(orig.i_reg() <= t < orig.i_reg() + k) ==> self@.mem[t]
                        == orig.mem[t],
            decreases vx + 1 - k,
        {
            let r = Chip8::get_vx_i(k);
            let value = self.state.registers[r] as u8;
            let idx = (i_value + k as u16) as usize;
            self.state.main_memory[idx] = value;
            k += 1;
        }
        self.state.set_register(Register::I, i_value + vx as u16 + 1);
        proof {
            assert(self@ =~= orig.spec_ldvxi(vx));
        }
    }

    /// Fetch the instruction word at the program counter.
    pub fn fetch_next(&self) -> (r: u16)
        requires
            self@.wf(),
            self@.can_fetch(),
        ensures
            r == self@.fetch_word(),
    {
        let nxt_inst_addr: u16 = self.state.registers[REG_PC];
        utils::concat_u8_to_u16(
            self.state.main_memory[nxt_inst_addr as usize],
            self.state.main_memory[(nxt_inst_addr + 1) as usize],
        )
    }

    /// Whether the fatal preconditions of `instruction` hold in the current
    /// state; the scheduler refuses to execute an instruction for which they
    /// do not.
    pub fn check_instr_ok(&self, instruction: &InstructionType) -> (r: bool)
        requires
            self@.wf(),
            instr_wf(*instruction),
        ensures
            r == self@.instr_ok(*instruction),
    {
        match *instruction {
            InstructionType::CALL { .. } => {
                let sp = self.state.registers[REG_SP];
                (STACK_START - STACK_SIZE) as u16 <= sp && sp <= STACK_START as u16 && sp % 2 == 0
                    && sp > (STACK_START - STACK_SIZE) as u16
            },
            InstructionType::RET => {
                let sp = self.state.registers[REG_SP];
                (STACK_START - STACK_SIZE) as u16 <= sp && sp <= STACK_START as u16 && sp % 2 == 0
                    && sp + 2 <= STACK_START as u16
            },
            InstructionType::SKEQV { .. } => self.state.registers[REG_PC] <= u16::MAX - 2,
            InstructionType::SKNEQV { .. } => self.state.registers[REG_PC] <= u16::MAX - 2,
            InstructionType::SER { .. } => self.state.registers[REG_PC] <= u16::MAX - 2,
            InstructionType::SNER { .. } => self.state.registers[REG_PC] <= u16::MAX - 2,
            InstructionType::SKP { .. } => self.state.registers[REG_PC] <= u16::MAX - 2,
            InstructionType::SKNP { .. } => self.state.registers[REG_PC] <= u16::MAX - 2,
            InstructionType::ADDI { vx } => {
                let i = Chip8::get_vx_i(vx);
                let v = self.state.registers[i] as u8;
                self.state.registers[REG_I] <= u16::MAX - (v as u16)
            },
            InstructionType::LDBCD { .. } => {
                (self.state.registers[REG_I] as usize) + 2 < MEMSIZE
            },
            InstructionType::DRW { bytes, .. } => {
                bytes == 0 || (self.state.registers[REG_I] as usize) + (bytes as usize) <= MEMSIZE
            },
            InstructionType::LDVXI { vx } => {
                (self.state.registers[REG_I] as usize) + (vx as usize) < MEMSIZE
            },
            InstructionType::LDRI { vx } => {
                (self.state.registers[REG_I] as usize) + (vx as usize) < MEMSIZE
            },
            _ => true,
        }
    }

    /// Apply one decoded instruction to the machine state. The program
    /// counter has already been advanced past the instruction word.
    pub fn execute_instruction(&mut self, instruction: &InstructionType)
        requires
            old(self)@.wf(),
            instr_wf(*instruction),
            old(self)@.instr_ok(*instruction),
        ensures
            exists|rb: u8| final(self)@ == old(self)@.spec_execute(*instruction, rb),
    {
        match *instruction {
            InstructionType::CLS => self.cls(),
            InstructionType::RET => self.ret(),
            InstructionType::JP { addr } => self.jmp(addr),
            InstructionType::CALL { addr } => self.call(addr),
            InstructionType::SKEQV { vx, value } => self.skpeqv(vx, value),
            InstructionType::SER { vx, vy } => self.ser(vx, vy),
            InstructionType::SKNEQV { vx, value } => self.skpneqv(vx, value),
            InstructionType::LDV { vx, value } => self.ldv(vx, value),
            InstructionType::ADDV { vx, value } => self.addv(vx, value),
            InstructionType::ADD { vx, vy } => self.add(vx, vy),
            InstructionType::SUB { vx, vy } => self.sub(vx, vy),
            InstructionType::SHR { vx, vy } => self.shr(vx, vy),
            InstructionType::SUBN { vx, vy } => self.subn(vx, vy),
            InstructionType::SHL { vx, vy } => self.shl(vx, vy),
            InstructionType::LDR { vx, vy } => self.ldr(vx, vy),
            InstructionType::OR { vx, vy } => self.or(vx, vy),
            InstructionType::AND { vx, vy } => self.and(vx, vy),
            InstructionType::XOR { vx, vy } => self.xor(vx, vy),
            InstructionType::SNER { vx, vy } => self.sner(vx, vy),
            InstructionType::LDI { value } => self.ldi(value),
            InstructionType::RND { vx, value } => self.rnd(vx, value),
            InstructionType::DRW { vx, vy, bytes } => self.drw(vx, vy, bytes),
            InstructionType::SKNP { vx } => self.sknp(vx),
            InstructionType::SKP { vx } => self.skp(vx),
            InstructionType::HALTKP { vx } => self.haltkp(vx),
            InstructionType::LDDT { vx } => self.lddt(vx),
            InstructionType::SETDT { vx } => self.set_dt(vx),
            InstructionType::LDST { vx } => self.ldst(vx),
            InstructionType::ADDI { vx } => self.addi(vx),
            InstructionType::LDHEX { vx } => self.ldhex(vx),
            InstructionType::LDBCD { vx } => self.ldbcd(vx),
            InstructionType::LDVXI { vx } => self.ldvxi(vx),
            InstructionType::LDRI { vx } => self.ldri(vx),
            InstructionType::UNKNOWN => (),
        }
        proof {
            match *instruction {
                InstructionType::RND { vx, value } => {
                    let b = choose|b: u8| self@ == old(self)@.spec_rnd(vx, value, b);
                    assert(self@ == old(self)@.spec_execute(*instruction, b));
                },
                _ => {
                    assert(self@ == old(self)@.spec_execute(*instruction, 0u8));
                },
            }
        }
    }

    /// Initialize the machine: program counter and stack pointer at the
    /// program start, the font table copied into low memory.
    pub fn setup(&mut self)
        requires
            old(self)@.wf(),
        ensures
            final(self)@ == old(self)@.spec_setup(),
            final(self)@.wf(),
            final(self)@.stack_ok(),
    {
        let ghost orig: StateView = self@;
        self.state.set_register(Register::PC, PROGRAM_START as u16);
        self.state.set_register(Register::SP, STACK_START as u16);
        let mut i: usize = 0;
        while i < 80
            invariant
                orig.wf(),
                i <= 80,
                self@.regs == orig.regs.update(REG_PC as int, (PROGRAM_START as u16)).update(
                    REG_SP as int,
                    (STACK_START as u16),
                ),
                self@.mem.len() == orig.mem.len(),
                forall|k: int| 0 <= k < i ==> self@.mem[k] == crate::state::font_table_byte(k),
                forall|k: int| i <= k < MEMSIZE ==> self@.mem[k] == orig.mem[k],
                self@.fb == orig.fb,
                self@.keys == orig.keys,
                self@.halted_for_keypress == orig.halted_for_keypress,
                self@.halt_store_reg == orig.halt_store_reg,
                self@.op_time_ns == orig.op_time_ns,
                self@.timer_ns == orig.timer_ns,
            decreases 80 - i,
        {
            let b = crate::state::font_byte_at(i);
            self.state.main_memory[i] = b;
            i += 1;
        }
        proof {
            assert(self@ =~= orig.spec_setup());
        }
    }

    /// Decay the delay timer: one decrement per full 16 ms of accumulated
    /// elapsed wall time; at zero it stays there and the accumulator resets.
    pub fn handle_timer(&mut self, elapsed_ns: u64)
        requires
            old(self)@.wf(),
        ensures
            final(self)@ == old(self)@.spec_timer(elapsed_ns),
    {
        let ghost orig: StateView = self@;
        if self.state.get_register(Register::DT) == 0 {
            self.state.timer_accumulator_ns = 0;
            proof {
                assert(self@ =~= orig.spec_timer(elapsed_ns));
            }
            return;
        }
        let t = self.state.timer_accumulator_ns;
        self.state.timer_accumulator_ns = if elapsed_ns > u64::MAX - t {
            u64::MAX
        } else {
            t + elapsed_ns
        };
        let ghost acc0: u64 = self@.timer_ns;
        let ghost dt0: u16 = orig.dt();
        while self.state.timer_accumulator_ns / 1000000 > 16 && self.state.get_register(
            Register::DT,
        ) > 0
            invariant
                orig.wf(),
                acc0 == sat_add_u64(orig.timer_ns, elapsed_ns),
                dt0 == orig.dt(),
                dt0 > 0,
                self@.regs.len() == NUM_REGISTERS,
                self@.dt() <= dt0,
                spec_decay(self@.dt(), self@.timer_ns) == spec_decay(dt0, acc0),
                forall|r: int|
                    0 <= r < NUM_REGISTERS && r != REG_DT ==> self@.regs[r] == orig.regs[r],
                self@.mem == orig.mem,
                self@.fb == orig.fb,
                self@.keys == orig.keys,
                self@.halted_for_keypress == orig.halted_for_keypress,
                self@.halt_store_reg == orig.halt_store_reg,
                self@.op_time_ns == orig.op_time_ns,
            decreases self.state.timer_accumulator_ns,
        {
            let current_dt = self.state.get_register(Register::DT);
            proof {
                vstd::arithmetic::div_mod::lemma_fundamental_div_mod(
                    self.state.timer_accumulator_ns as int,
                    1000000,
                );
            }
            self.state.set_register(Register::DT, current_dt - 1);
            self.state.timer_accumulator_ns = self.state.timer_accumulator_ns - 16000000;
        }
        if self.state.timer_accumulator_ns / 1000000 > 16 {
            self.state.timer_accumulator_ns = 0;
        }
        proof {
            assert(self@.regs =~= orig.regs.update(REG_DT as int, self@.dt()));
            assert(self@ =~= orig.spec_timer(elapsed_ns));
        }
    }

    /// Whether the machine invariants hold: the well-formedness of the
    /// state and the stack bounds that `run_cycles` requires. Unverified
    /// callers test this before ticking the machine.
    pub fn invariants_hold(&self) -> (r: bool)
        ensures
            r == (self@.wf() && self@.stack_ok()),
    {
        if self.state.main_memory.len() != MEMSIZE {
            return false;
        }
        if self.state.registers.len() != NUM_REGISTERS {
            return false;
        }
        if self.state.framebuffer.len() != DISPLAYW * DISPLAYH {
            return false;
        }
        if self.state.keyboard_state.keys.len() != NUM_KEYS {
            return false;
        }
        let mut i: usize = 0;
        while i < 16
            invariant
                i <= 16,
                self@.regs.len() == NUM_REGISTERS,
                forall|j: int| 0 <= j < i ==> self@.regs[j] < 256,
            decreases 16 - i,
        {
            if self.state.registers[i] >= 256 {
                return false;
            }
            i += 1;
        }
        if self.state.registers[REG_DT] >= 256 {
            return false;
        }
        if self.state.halted_keypress_store_reg >= 16 {
            return false;
        }
        let mut t: usize = 0;
        while t < DISPLAYW * DISPLAYH
            invariant
                t <= DISPLAYW * DISPLAYH,
                self@.fb.len() == DISPLAYW * DISPLAYH,
                forall|j: int| 0 <= j < t ==> self@.fb[j] == 0 || self@.fb[j] == 0xFF,
            decreases DISPLAYW * DISPLAYH - t,
        {
            let c = self.state.framebuffer[t];
            if c != 0 && c != 0xFF {
                return false;
            }
            t += 1;
        }
        let sp = self.state.registers[REG_SP];
        (STACK_START - STACK_SIZE) as u16 <= sp && sp <= STACK_START as u16 && sp % 2 == 0
    }

    /// One scheduler tick. While the banked wall time exceeds one nominal
    /// instruction duration and the machine is not halted for a key, fetch,
    /// decode, advance the program counter and execute, deducting one
    /// instruction duration per step. Then resolve the halt-for-key state,
    /// bank `elapsed_ns` of newly elapsed wall time, and decay the delay
    /// timer. Returns true when a fatal condition (an out-of-bounds fetch
    /// or a violated instruction precondition) stopped the machine
    /// mid-tick; the machine is left at the fault point and the caller
    /// aborts, since a malformed program or an upstream defect is
    /// indicated.
    pub fn run_cycles(&mut self, elapsed_ns: u64) -> (fault: bool)
        requires
            old(self)@.wf(),
            old(self)@.stack_ok(),
        ensures
            final(self)@.wf(),
            final(self)@.stack_ok(),
            fault ==> old(self)@.run_loop_rel(final(self)@, true),
            !fault ==> exists|mid: StateView|
                old(self)@.run_loop_rel(mid, false) && final(self)@ == mid.finish_tick(
                    elapsed_ns,
                ),
    {
        let ghost orig: StateView = self@;
        let mut fault_found = false;
        while !self.state.halted_for_keypress && self.state.time_since_last_op_ns
            > INSTRUCTION_TIME_NS
            invariant_except_break
                self@.wf(),
                self@.stack_ok(),
                !fault_found,
                forall|out: StateView, f: bool|
                    self@.run_loop_rel(out, f) ==> orig.run_loop_rel(out, f),
            ensures
                self@.wf(),
                self@.stack_ok(),
                orig.run_loop_rel(self@, fault_found),
            decreases self.state.time_since_last_op_ns,
        {
            let ghost v: StateView = self@;
            let pc = self.state.registers[REG_PC];
            if !((pc as usize) + 1 < MEMSIZE) {
                fault_found = true;
                proof {
                    assert(v.run_loop_rel(v, true));
                }
                break;
            }
            let next_inst = self.fetch_next();
            let next_inst_decoded = Chip8::decode_instr(next_inst);
            self.state.advance_pc();
            let ghost adv: StateView = self@;
            if !self.check_instr_ok(&next_inst_decoded) {
                fault_found = true;
                proof {
                    assert(adv.stack_ok());
                    assert(v.run_loop_rel(adv, true));
                }
                break;
            }
            self.execute_instruction(&next_inst_decoded);
            let ghost exed: StateView = self@;
            let ghost rb: u8 = choose|rb: u8|
                exed == adv.spec_execute(spec_decode(v.fetch_word()), rb);
            proof {
                lemma_decode_wf(v.fetch_word());
                lemma_execute_preserves(adv, spec_decode(v.fetch_word()), rb);
            }
            self.state.time_since_last_op_ns = self.state.time_since_last_op_ns
                - INSTRUCTION_TIME_NS;
            proof {
                lemma_step_preserves(v, rb);
                assert(self@ =~= v.spec_step(rb));
                assert forall|out: StateView, f: bool|
                    self@.run_loop_rel(out, f) implies orig.run_loop_rel(out, f) by {
                    assert(v.spec_step(rb).run_loop_rel(out, f));
                    assert(v.run_loop_rel(out, f));
                }
            }
        }
        if fault_found {
            return true;
        }
        let ghost mid: StateView = self@;
        if self.state.halted_for_keypress {
            self.state.time_since_last_op_ns = 0;
            let mut k: usize = 0;
            while k < NUM_KEYS
                invariant_except_break
                    mid.wf(),
                    mid.halted_for_keypress,
                    k <= NUM_KEYS,
                    self@.keys == mid.keys,
                    self@.regs == mid.regs,
                    self@.mem == mid.mem,
                    self@.fb == mid.fb,
                    self@.halted_for_keypress == mid.halted_for_keypress,
                    self@.halt_store_reg == mid.halt_store_reg,
                    self@.op_time_ns == 0,
                    self@.timer_ns == mid.timer_ns,
                    forall|t: int| 0 <= t < k ==> !mid.keys[t],
                    first_pressed_from(mid.keys, 0) == first_pressed_from(mid.keys, k as int),
                ensures
                    self@ == mid.resolve_halt(),
                decreases NUM_KEYS - k,
            {
                if self.state.keyboard_state.keys[k] {
                    let reg_i = self.state.halted_keypress_store_reg;
                    self.state.registers[reg_i] = k as u16;
                    self.state.halted_for_keypress = false;
                    proof {
                        assert(first_pressed_from(mid.keys, k as int) == k as int);
                        assert(self@ =~= mid.resolve_halt());
                    }
                    break;
                }
                k += 1;
            }
        } else {
            proof {
                assert(self@ =~= mid.resolve_halt());
            }
        }
        let ghost resolved: StateView = self@;
        let t = self.state.time_since_last_op_ns;
        self.state.time_since_last_op_ns = if elapsed_ns > u64::MAX - t {
            u64::MAX
        } else {
            t + elapsed_ns
        };
        let ghost banked: StateView = self@;
        proof {
            lemma_first_pressed_range(mid.keys, 0);
            assert(resolved.wf());
            assert(banked.wf());
        }
        self.handle_timer(elapsed_ns);
        proof {
            lemma_decay_le(banked.dt(), sat_add_u64(banked.timer_ns, elapsed_ns));
            assert(self@ =~= mid.finish_tick(elapsed_ns));
            assert(self@.wf());
        }
        false
    }
}

/// The lowest pressed symbol is a keypad index or the out-of-range mark 16.
proof fn lemma_first_pressed_range(keys: Seq<bool>, i: int)
    ensures
        0 <= first_pressed_from(keys, i) <= 16,
    decreases 16 - i,
{
    if 0 <= i < 16 && !keys[i] {
        lemma_first_pressed_range(keys, i + 1);
    }
}

/// The decayed timer never exceeds its starting value.
proof fn lemma_decay_le(dt: u16, acc: u64)
    ensures
        spec_decay(dt, acc).0 <= dt,
    decreases acc,
{
    if acc / 1000000 > 16 {
        if dt > 0 {
            vstd::arithmetic::div_mod::lemma_fundamental_div_mod(acc as int, 1000000);
            lemma_decay_le((dt - 1) as u16, (acc - 16000000) as u64);
        }
    }
}

/// Relies on rand::random, which draws a value from the thread-local
/// generator; nothing is assumed about which value comes back.
pub assume_specification<T>[ rand::random::<T> ]() -> (r: T)
    where
        rand::distributions::Standard: rand::distributions::Distribution<T>,
;

/// Saturating addition on nanosecond accumulators.
pub open spec fn sat_add_u64(a: u64, b: u64) -> u64 {
    if a + b > u64::MAX {
        u64::MAX
    } else {
        (a + b) as u64
    }
}

/// Timer decay: one decrement of the delay timer for each full 16 ms of
/// accumulated time; once the timer reaches 0 the accumulator is discarded.
pub open spec fn spec_decay(dt: u16, acc: u64) -> (u16, u64)
    decreases acc,
{
    if acc / 1000000 > 16 {
        if dt > 0 {
            spec_decay((dt - 1) as u16, (acc - 16000000) as u64)
        } else {
            (dt, 0u64)
        }
    } else {
        (dt, acc)
    }
}

/// Index of the lowest-numbered pressed keypad symbol at or above `i`, or 16
/// if none is pressed.
pub open spec fn first_pressed_from(keys: Seq<bool>, i: int) -> int
    decreases 16 - i,
{
    if i < 0 || i >= 16 {
        16
    } else if keys[i] {
        i
    } else {
        first_pressed_from(keys, i + 1)
    }
}

impl StateView {
    /// Whether an instruction word can be fetched: both its bytes are in
    /// bounds.
    pub open spec fn can_fetch(self) -> bool {
        self.pc() + 1 < MEMSIZE
    }

    /// The instruction word at the program counter, high byte first.
    pub open spec fn fetch_word(self) -> u16 {
        word_of_bytes(self.mem[self.pc() as int], self.mem[self.pc() + 1])
    }

    /// The fatal preconditions of an instruction: stack discipline for call
    /// and return, in-bounds memory spans, no address-register overflow.
    pub open spec fn instr_ok(self, i: InstructionType) -> bool {
        match i {
            InstructionType::CALL { addr } => self.stack_ok() && self.can_push(),
            InstructionType::RET => self.stack_ok() && self.can_pop(),
            InstructionType::SKEQV { vx, value } => self.pc() + 2 <= u16::MAX,
            InstructionType::SKNEQV { vx, value } => self.pc() + 2 <= u16::MAX,
            InstructionType::SER { vx, vy } => self.pc() + 2 <= u16::MAX,
            InstructionType::SNER { vx, vy } => self.pc() + 2 <= u16::MAX,
            InstructionType::SKP { vx } => self.pc() + 2 <= u16::MAX,
            InstructionType::SKNP { vx } => self.pc() + 2 <= u16::MAX,
            InstructionType::ADDI { vx } => self.i_reg() + (self.reg(vx as int) as u8)
                <= u16::MAX,
            InstructionType::LDBCD { vx } => self.i_reg() + 2 < MEMSIZE,
            InstructionType::DRW { vx, vy, bytes } => bytes > 0 ==> self.i_reg() + bytes
                <= MEMSIZE,
            InstructionType::LDVXI { vx } => self.i_reg() + vx < MEMSIZE,
            InstructionType::LDRI { vx } => self.i_reg() + vx < MEMSIZE,
            _ => true,
        }
    }

    /// The effect of one decoded instruction, with the byte a random opcode
    /// would draw made explicit in `rb`.
    pub open spec fn spec_execute(self, i: InstructionType, rb: u8) -> StateView {
        match i {
            InstructionType::CLS => self.spec_cls(),
            InstructionType::RET => self.spec_ret(),
            InstructionType::JP { addr } => self.spec_jmp(addr),
            InstructionType::CALL { addr } => self.spec_call(addr),
            InstructionType::SKEQV { vx, value } => self.spec_skeqv(vx, value),
            InstructionType::SER { vx, vy } => self.spec_ser(vx, vy),
            InstructionType::SKNEQV { vx, value } => self.spec_skneqv(vx, value),
            InstructionType::LDV { vx, value } => self.spec_ldv(vx, value),
            InstructionType::ADDV { vx, value } => self.spec_addv(vx, value),
            InstructionType::ADD { vx, vy } => self.spec_add(vx, vy),
            InstructionType::SUB { vx, vy } => self.spec_sub(vx, vy),
            InstructionType::SHR { vx, vy } => self.spec_shr(vx),
            InstructionType::SUBN { vx, vy } => self.spec_subn(vx, vy),
            InstructionType::SHL { vx, vy } => self.spec_shl(vx),
            InstructionType::LDR { vx, vy } => self.spec_ldr(vx, vy),
            InstructionType::OR { vx, vy } => self.spec_or(vx, vy),
            InstructionType::AND { vx, vy } => self.spec_and(vx, vy),
            InstructionType::XOR { vx, vy } => self.spec_xor(vx, vy),
            InstructionType::SNER { vx, vy } => self.spec_sner(vx, vy),
            InstructionType::LDI { value } => self.spec_ldi(value),
            InstructionType::RND { vx, value } => self.spec_rnd(vx, value, rb),
            InstructionType::DRW { vx, vy, bytes } => self.spec_drw(vx, vy, bytes),
            InstructionType::SKNP { vx } => self.spec_sknp(vx),
            InstructionType::SKP { vx } => self.spec_skp(vx),
            InstructionType::HALTKP { vx } => self.spec_haltkp(vx),
            InstructionType::LDDT { vx } => self.spec_lddt(vx),
            InstructionType::SETDT { vx } => self.spec_setdt(vx),
            InstructionType::LDST { vx } => self,
            InstructionType::ADDI { vx } => self.spec_addi(vx),
            InstructionType::LDHEX { vx } => self.spec_ldhex(vx),
            InstructionType::LDBCD { vx } => self.spec_ldbcd(vx),
            InstructionType::LDVXI { vx } => self.spec_ldvxi(vx),
            InstructionType::LDRI { vx } => self.spec_ldri(vx),
            InstructionType::UNKNOWN => self,
        }
    }

    /// One scheduler step: fetch, decode, advance the program counter by
    /// two, execute, and deduct one nominal instruction duration.
    pub open spec fn spec_step(self, rb: u8) -> StateView {
        let i = spec_decode(self.fetch_word());
        let adv = self.with_reg(REG_PC as int, ((self.pc() + 2) as u16));
        let ex = adv.spec_execute(i, rb);
        StateView { op_time_ns: ((self.op_time_ns - INSTRUCTION_TIME_NS) as u64), ..ex }
    }

    /// The fetch-decode-execute loop of one tick relates the state at the
    /// start of the loop to the state at its end; `fault` reports a fatal
    /// condition (out-of-bounds fetch or a violated instruction
    /// precondition), on which the machine stops mid-tick.
    pub open spec fn run_loop_rel(self, out: StateView, fault: bool) -> bool
        decreases self.op_time_ns,
    {
        if self.halted_for_keypress || self.op_time_ns <= INSTRUCTION_TIME_NS {
            out == self && !fault
        } else if !self.can_fetch() {
            out == self && fault
        } else {
            let i = spec_decode(self.fetch_word());
            let adv = self.with_reg(REG_PC as int, ((self.pc() + 2) as u16));
            if !adv.instr_ok(i) {
                out == adv && fault
            } else {
                exists|rb: u8| self.spec_step(rb).run_loop_rel(out, fault)
            }
        }
    }

    /// After the loop, a halted machine discards its instruction budget and
    /// resumes exactly when some key is pressed: the lowest pressed symbol
    /// is written to the register recorded at halt time.
    pub open spec fn resolve_halt(self) -> StateView {
        if self.halted_for_keypress {
            let k = first_pressed_from(self.keys, 0);
            if k < 16 {
                StateView {
                    op_time_ns: 0,
                    regs: self.regs.update(self.halt_store_reg, k as u16),
                    halted_for_keypress: false,
                    ..self
                }
            } else {
                StateView { op_time_ns: 0, ..self }
            }
        } else {
            self
        }
    }

    /// The delay timer decays by one per full 16 ms of accumulated wall
    /// time; at zero it stays and the accumulator is discarded.
    pub open spec fn spec_timer(self, elapsed_ns: u64) -> StateView {
        if self.dt() == 0 {
            StateView { timer_ns: 0, ..self }
        } else {
            let acc = sat_add_u64(self.timer_ns, elapsed_ns);
            let d = spec_decay(self.dt(), acc);
            StateView { regs: self.regs.update(REG_DT as int, d.0), timer_ns: d.1, ..self }
        }
    }

    /// Everything a tick does after its execute loop: halt resolution, then
    /// banking the elapsed wall time, then timer decay.
    pub open spec fn finish_tick(self, elapsed_ns: u64) -> StateView {
        let a = self.resolve_halt();
        let b = StateView { op_time_ns: sat_add_u64(a.op_time_ns, elapsed_ns), ..a };
        b.spec_timer(elapsed_ns)
    }

    /// Machine initialization: program counter and stack pointer at the
    /// program start, the font table copied into low memory.
    pub open spec fn spec_setup(self) -> StateView {
        StateView {
            regs: self.regs.update(REG_PC as int, (PROGRAM_START as u16)).update(
                REG_SP as int,
                (STACK_START as u16),
            ),
            mem: Seq::new(
                self.mem.len(),
                |k: int|
                    if 0 <= k < 80 {
                        crate::state::font_table_byte(k)
                    } else {
                        self.mem[k]
                    },
            ),
            ..self
        }
    }
}

/// Every instruction the decoder yields has its fields in range.
pub proof fn lemma_decode_wf(w: u16)
    ensures
        instr_wf(spec_decode(w)),
{
}

/// Executing an instruction whose fatal preconditions hold preserves
/// well-formedness and the stack bounds, and leaves the pacing accumulators
/// and the keypad alone.
pub proof fn lemma_execute_preserves(v: StateView, i: InstructionType, rb: u8)
    requires
        v.wf(),
        v.stack_ok(),
        instr_wf(i),
        v.instr_ok(i),
    ensures
        v.spec_execute(i, rb).wf(),
        v.spec_execute(i, rb).stack_ok(),
        v.spec_execute(i, rb).op_time_ns == v.op_time_ns,
        v.spec_execute(i, rb).timer_ns == v.timer_ns,
        v.spec_execute(i, rb).keys == v.keys,
{
    let ex = v.spec_execute(i, rb);
    match i {
        InstructionType::OR { vx, vy } => {
            lemma_low_byte_u16(v.reg(vx as int) | v.reg(vy as int));
        },
        InstructionType::AND { vx, vy } => {
            lemma_low_byte_u16(v.reg(vx as int) & v.reg(vy as int));
        },
        InstructionType::XOR { vx, vy } => {
            lemma_low_byte_u16(v.reg(vx as int) ^ v.reg(vy as int));
        },
        InstructionType::DRW { vx, vy, bytes } => {
            assert forall|t: int| 0 <= t < ex.fb.len() implies ex.fb[t] == 0 || ex.fb[t]
                == 0xFF by {
                lemma_xor_byte(v.fb[t]);
            }
        },
        _ => {},
    }
}

/// One loop step from a well-formed state whose instruction is executable
/// lands in a well-formed state.
pub proof fn lemma_step_preserves(v: StateView, rb: u8)
    requires
        v.wf(),
        v.stack_ok(),
        v.can_fetch(),
        ({
            let i = spec_decode(v.fetch_word());
            let adv = v.with_reg(REG_PC as int, ((v.pc() + 2) as u16));
            adv.instr_ok(i)
        }),
    ensures
        v.spec_step(rb).wf(),
        v.spec_step(rb).stack_ok(),
        v.spec_step(rb).keys == v.keys,
        v.spec_step(rb).timer_ns == v.timer_ns,
{
    let i = spec_decode(v.fetch_word());
    lemma_decode_wf(v.fetch_word());
    let adv = v.with_reg(REG_PC as int, ((v.pc() + 2) as u16));
    lemma_execute_preserves(adv, i, rb);
}

proof fn lemma_bcd(v: u8)
    by (bit_vector)
    ensures
        v / 100 <= 2,
        (v / 100) * 100 <= v,
        (v % 100) / 10 * 10 <= v % 100,
        v % 100 < 100,
        v - (v / 100) * 100 == v % 100,
        (v % 100) / 10 == (v / 10) % 10,
        (v % 100) - ((v % 100) / 10) * 10 == v % 10,
{
}

} // verus!
