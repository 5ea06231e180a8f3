//! General laws of the instruction set, stated over the abstract machine
//! view and proved from the opcode transformers.
use vstd::prelude::*;

use crate::exec::draw_collision;
use crate::exec::first_pressed_from;
use crate::exec::draw_fb;
use crate::exec::lemma_xor_byte;
use crate::exec::sprite_covers;
use crate::state::NUM_REGISTERS;
use crate::state::STACK_SIZE;
use crate::state::STACK_START;
use crate::state::StateView;

verus! {

/// Add-immediate wraps modulo 256 into its destination and touches no other
/// register — in particular no flag — nor any other part of the machine.
pub proof fn lemma_add_immediate(v: StateView, vx: u8, k: u8)
    requires
        v.wf(),
        vx < 16,
    ensures
        v.spec_addv(vx, k).reg(vx as int) == (v.reg(vx as int) + k) % 256,
        forall|j: int|
            0 <= j < NUM_REGISTERS && j != vx ==> v.spec_addv(vx, k).reg(j) == v.reg(j),
        v.spec_addv(vx, k).fb == v.fb,
        v.spec_addv(vx, k).mem == v.mem,
        v.spec_addv(vx, k).keys == v.keys,
        v.spec_addv(vx, k).halted_for_keypress == v.halted_for_keypress,
{
}

/// Add-registers sets the overflow flag to 1 exactly when the unmasked sum
/// exceeds 255, and the destination (when it is not the flag itself) holds
/// the sum modulo 256.
pub proof fn lemma_add_registers(v: StateView, vx: u8, vy: u8)
    requires
        v.wf(),
        vx < 16,
        vy < 16,
    ensures
        v.spec_add(vx, vy).reg(15) == if v.reg(vx as int) + v.reg(vy as int) > 255 {
            1u16
        } else {
            0u16
        },
        vx != 15 ==> v.spec_add(vx, vy).reg(vx as int) == (v.reg(vx as int) + v.reg(
            vy as int,
        )) % 256,
{
}

/// Subtract sets the overflow flag to 1 exactly when the pre-operation
/// minuend exceeds the subtrahend (not-borrow), and the destination (when
/// it is not the flag itself) holds the difference modulo 256.
pub proof fn lemma_subtract(v: StateView, vx: u8, vy: u8)
    requires
        v.wf(),
        vx < 16,
        vy < 16,
    ensures
        v.spec_sub(vx, vy).reg(15) == if v.reg(vx as int) > v.reg(vy as int) {
            1u16
        } else {
            0u16
        },
        vx != 15 ==> v.spec_sub(vx, vy).reg(vx as int) == (v.reg(vx as int) - v.reg(
            vy as int,
        )) % 256,
{
}

/// Stack round trip: a push followed by a pop restores the pointer, and the
/// value read back is exactly the value pushed. A push moves the pointer
/// one slot down, and another push is refused exactly at the sixteenth
/// slot.
pub proof fn lemma_stack_round_trip(v: StateView, value: u16)
    requires
        v.wf(),
        v.stack_ok(),
        v.can_push(),
    ensures
        v.stack_push(value).top() == value,
        v.stack_push(value).can_pop(),
        v.stack_push(value).stack_pop().sp() == v.sp(),
        v.stack_push(value).sp() == v.sp() - 2,
        !v.stack_push(value).can_push() <==> v.sp() == STACK_START - STACK_SIZE + 2,
{
    vstd::arithmetic::div_mod::lemma_fundamental_div_mod(value as int, 256);
}

/// The symbol written when a halt resolves is pressed, and no
/// lower-numbered symbol is; when no symbol is pressed the scan reports the
/// out-of-range mark 16 and the machine stays halted.
pub proof fn lemma_first_pressed_least(keys: Seq<bool>)
    requires
        keys.len() == 16,
    ensures
        0 <= first_pressed_from(keys, 0) <= 16,
        first_pressed_from(keys, 0) < 16 ==> keys[first_pressed_from(keys, 0)],
        forall|j: int| 0 <= j < first_pressed_from(keys, 0) ==> !keys[j],
        first_pressed_from(keys, 0) == 16 ==> forall|j: int| 0 <= j < 16 ==> !keys[j],
{
    lemma_first_pressed_least_from(keys, 0);
}

proof fn lemma_first_pressed_least_from(keys: Seq<bool>, i: int)
    requires
        keys.len() == 16,
        0 <= i <= 16,
    ensures
        i <= first_pressed_from(keys, i) <= 16,
        first_pressed_from(keys, i) < 16 ==> keys[first_pressed_from(keys, i)],
        forall|j: int| i <= j < first_pressed_from(keys, i) ==> !keys[j],
        first_pressed_from(keys, i) == 16 ==> forall|j: int| i <= j < 16 ==> !keys[j],
    decreases 16 - i,
{
    if i < 16 && !keys[i] {
        lemma_first_pressed_least_from(keys, i + 1);
    }
}

/// Draw idempotence: drawing the same sprite at the same coordinates twice
/// restores every cell to its value before the first draw, and the second
/// draw reports a collision exactly when the first draw turned some cell
/// on.
pub proof fn lemma_draw_idempotent(fb: Seq<u8>, mem: Seq<u8>, i_reg: int, n: int, x: int, y: int)
    requires
        fb.len() == 2048,
        forall|t: int| 0 <= t < 2048 ==> fb[t] == 0 || fb[t] == 0xFF,
    ensures
        draw_fb(draw_fb(fb, mem, i_reg, n, x, y), mem, i_reg, n, x, y) == fb,
        draw_collision(draw_fb(fb, mem, i_reg, n, x, y), mem, i_reg, n, x, y) == (exists|t: int|
            0 <= t < 2048 && sprite_covers(mem, i_reg, n, x, y, t) && fb[t] == 0),
{
    let fb1 = draw_fb(fb, mem, i_reg, n, x, y);
    assert forall|t: int| 0 <= t < 2048 implies draw_fb(fb1, mem, i_reg, n, x, y)[t] == fb[t] by {
        lemma_xor_byte(fb[t]);
        lemma_xor_byte((fb[t] ^ 0xFF) as u8);
    }
    assert(draw_fb(fb1, mem, i_reg, n, x, y) =~= fb);
    if draw_collision(fb1, mem, i_reg, n, x, y) {
        let t = choose|t: int|
            0 <= t < fb1.len() && sprite_covers(mem, i_reg, n, x, y, t) && fb1[t] == 0xFF;
        lemma_xor_byte(fb[t]);
        assert(fb[t] == 0);
    }
    if exists|t: int| 0 <= t < 2048 && sprite_covers(mem, i_reg, n, x, y, t) && fb[t] == 0 {
        let t = choose|t: int|
            0 <= t < 2048 && sprite_covers(mem, i_reg, n, x, y, t) && fb[t] == 0;
        lemma_xor_byte(fb[t]);
        assert(fb1[t] == 0xFF);
        assert(draw_collision(fb1, mem, i_reg, n, x, y));
    }
}

/// Draw idempotence at machine level: executing the same draw twice (with
/// coordinate registers other than the flag register, which the draw
/// itself overwrites) restores every framebuffer cell, and the second draw
/// raises the flag exactly when the first turned some cell on.
pub proof fn lemma_drw_idempotent(v: StateView, vx: u8, vy: u8, n: u8)
    requires
        v.wf(),
        vx < 15,
        vy < 15,
    ensures
        v.spec_drw(vx, vy, n).spec_drw(vx, vy, n).fb == v.fb,
        v.spec_drw(vx, vy, n).spec_drw(vx, vy, n).reg(15) == if (exists|t: int|
            0 <= t < 2048 && sprite_covers(
                v.mem,
                v.i_reg() as int,
                n as int,
                v.reg(vx as int) as int % 64,
                v.reg(vy as int) as int % 32,
                t,
            ) && v.fb[t] == 0) {
            1u16
        } else {
            0u16
        },
{
    assert(crate::state::DISPLAYW * crate::state::DISPLAYH == 2048);
    lemma_draw_idempotent(
        v.fb,
        v.mem,
        v.i_reg() as int,
        n as int,
        v.reg(vx as int) as int % 64,
        v.reg(vy as int) as int % 32,
    );
}

} // verus!
