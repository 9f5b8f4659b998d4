use vstd::prelude::*;

use crate::Fault;
use crate::cycle::{fetch_ok, spec_tick, word_at};
use crate::decode::{Op, lemma_op_field_bounds, op_n, op_nnn, op_x, op_y, spec_decode};
use crate::draw::{
    collision_at, display_ok, draw_i, draw_sets_pixel, draw_xs, draw_ys, fb_after_draw,
    in_region, lemma_pix_inverse, sets_at, spec_collides, spec_display,
};
use crate::machine::MachineView;
use crate::ops::{
    any_key_pressed, first_pressed_from, lemma_first_pressed_prefix, lemma_first_pressed_props,
    spec_add_reg, spec_clear, spec_sub_xy, vx, vy,
};

verus! {

/// Adding registers leaves (Vx + Vy) mod 256 in Vx, and the flag is 1
/// exactly when the sum carried nothing out of 8 bits; the inverted flag
/// convention is deliberate. Stated for X other than the flag register
/// itself, which the flag write would overwrite.
pub proof fn lemma_add_registers(s: MachineView)
    requires
        s.wf(),
        op_x(s.opcode) != 0xF,
    ensures
        spec_add_reg(s).registers[op_x(s.opcode) as int] == (vx(s) + vy(s)) % 256,
        spec_add_reg(s).registers[0xF as int] == 1 <==> vx(s) + vy(s) < 256,
{
    lemma_op_field_bounds(s.opcode);
    vstd::arithmetic::div_mod::lemma_mod_bound(vx(s) + vy(s), 256);
}

/// Subtracting registers leaves (Vx - Vy) mod 256 in Vx, and the flag is
/// 0 exactly when the subtraction borrowed (Vx < Vy). Stated for X other
/// than the flag register itself.
pub proof fn lemma_sub_registers(s: MachineView)
    requires
        s.wf(),
        op_x(s.opcode) != 0xF,
    ensures
        spec_sub_xy(s).registers[op_x(s.opcode) as int] == (vx(s) - vy(s)) % 256,
        spec_sub_xy(s).registers[0xF as int] == 0 <==> vx(s) < vy(s),
{
    lemma_op_field_bounds(s.opcode);
    vstd::arithmetic::div_mod::lemma_mod_bound(vx(s) - vy(s), 256);
}

/// A draw right after a clear screen never reports a collision: no pixel
/// was set for a sprite bit to land on.
pub proof fn lemma_clear_then_draw_no_collision(s: MachineView)
    requires
        s.wf(),
        display_ok(spec_clear(s)),
    ensures
        spec_display(spec_clear(s)).0.registers[0xF as int] == 0,
{
    lemma_op_field_bounds(s.opcode);
    let s1 = spec_clear(s);
    let xs = draw_xs(s1);
    let ys = draw_ys(s1);
    let i = draw_i(s1);
    let n = op_n(s1.opcode) as int;
    assert(0 <= xs < 64 && 0 <= ys < 32) by {
        vstd::arithmetic::div_mod::lemma_mod_pos_bound(vx(s1) as int, 64);
        vstd::arithmetic::div_mod::lemma_mod_pos_bound(vy(s1) as int, 32);
    }
    assert forall|r: int, c: int| in_region(n, 0, r, c) implies !collision_at(
        s1.fb,
        s1.mem,
        i,
        xs,
        ys,
        r,
        c,
    ) by {
        lemma_pix_inverse(xs, ys, r, c);
    }
    assert(!spec_collides(s1.fb, s1.mem, i, xs, ys, n));
}

/// XOR drawing is self-inverse on the framebuffer: the same sprite drawn
/// twice at the same spot changes nothing.
pub proof fn lemma_draw_self_inverse(fb: Seq<bool>, mem: Seq<u8>, i: int, xs: int, ys: int, n: int)
    requires
        fb.len() == 2048,
    ensures
        fb_after_draw(fb_after_draw(fb, mem, i, xs, ys, n), mem, i, xs, ys, n) == fb,
{
    let fb1 = fb_after_draw(fb, mem, i, xs, ys, n);
    assert(fb_after_draw(fb1, mem, i, xs, ys, n) =~= fb);
}

/// The second of two identical draws collides exactly where the first
/// one set a pixel: every cell the first draw turned on is hit again by
/// the same set sprite bit, and nothing else can collide.
pub proof fn lemma_second_draw_collides(
    fb: Seq<bool>,
    mem: Seq<u8>,
    i: int,
    xs: int,
    ys: int,
    n: int,
)
    requires
        fb.len() == 2048,
        0 <= xs < 64,
        0 <= ys < 32,
        0 <= n <= 16,
    ensures
        spec_collides(fb_after_draw(fb, mem, i, xs, ys, n), mem, i, xs, ys, n)
            <==> draw_sets_pixel(fb, mem, i, xs, ys, n),
{
    let fb1 = fb_after_draw(fb, mem, i, xs, ys, n);
    if spec_collides(fb1, mem, i, xs, ys, n) {
        let (r, c) = choose|r: int, c: int|
            in_region(n, 0, r, c) && #[trigger] collision_at(fb1, mem, i, xs, ys, r, c);
        lemma_pix_inverse(xs, ys, r, c);
        assert(sets_at(fb, mem, i, xs, ys, r, c));
    }
    if draw_sets_pixel(fb, mem, i, xs, ys, n) {
        let (r, c) = choose|r: int, c: int|
            in_region(n, 0, r, c) && #[trigger] sets_at(fb, mem, i, xs, ys, r, c);
        lemma_pix_inverse(xs, ys, r, c);
        assert(collision_at(fb1, mem, i, xs, ys, r, c));
    }
}

/// Drawing the same sprite twice at the same coordinates restores the
/// framebuffer, and the second draw's collision flag is 1 exactly when
/// the first draw set some pixel. Stated for X and Y other than the flag
/// register, whose value the first draw replaces.
pub proof fn lemma_draw_twice(s: MachineView)
    requires
        s.wf(),
        display_ok(s),
        op_x(s.opcode) != 0xF,
        op_y(s.opcode) != 0xF,
    ensures
        spec_display(spec_display(s).0).0.fb == s.fb,
        spec_display(spec_display(s).0).0.registers[0xF as int] == 1 <==> draw_sets_pixel(
            s.fb,
            s.mem,
            draw_i(s),
            draw_xs(s),
            draw_ys(s),
            op_n(s.opcode) as int,
        ),
{
    lemma_op_field_bounds(s.opcode);
    let s1 = spec_display(s).0;
    assert(vx(s1) == vx(s) && vy(s1) == vy(s));
    let xs = draw_xs(s);
    let ys = draw_ys(s);
    let i = draw_i(s);
    let n = op_n(s.opcode) as int;
    assert(0 <= xs < 64 && 0 <= ys < 32) by {
        vstd::arithmetic::div_mod::lemma_mod_pos_bound(vx(s) as int, 64);
        vstd::arithmetic::div_mod::lemma_mod_pos_bound(vy(s) as int, 32);
    }
    lemma_draw_self_inverse(s.fb, s.mem, i, xs, ys, n);
    lemma_second_draw_collides(s.fb, s.mem, i, xs, ys, n);
}

/// A waiting machine with no key pressed makes no progress: one whole
/// cycle of the wait-for-key instruction leaves the program counter
/// where it was, the fetch's advance undone by the rewind.
pub proof fn lemma_wait_key_no_press(s: MachineView, b: u8)
    requires
        s.wf(),
        fetch_ok(s),
        spec_decode(word_at(s)) == Op::WaitKey,
        forall|k: int| 0 <= k < 16 ==> !s.keys[k],
    ensures
        spec_tick(s, b).0.pc == s.pc,
        spec_tick(s, b).1 == Ok::<Option<u16>, Fault>(None),
{
    lemma_first_pressed_prefix(s.keys, 16);
}

/// Once a key is pressed, the wait-for-key instruction stores the
/// lowest-indexed pressed key in Vx and the program counter advances
/// normally.
pub proof fn lemma_wait_key_pressed(s: MachineView, b: u8)
    requires
        s.wf(),
        fetch_ok(s),
        spec_decode(word_at(s)) == Op::WaitKey,
        any_key_pressed(s.keys),
    ensures
        ({
            let k = first_pressed_from(s.keys, 0);
            &&& 0 <= k < 16
            &&& s.keys[k]
            &&& forall|j: int| 0 <= j < k ==> !s.keys[j]
            &&& spec_tick(s, b).0.pc == s.pc + 2
            &&& spec_tick(s, b).0.registers == s.registers.update(
                op_x(word_at(s)) as int,
                k as u8,
            )
        }),
{
    lemma_first_pressed_props(s.keys, 0);
    if first_pressed_from(s.keys, 0) == 16 {
        let w = choose|k: int| 0 <= k < 16 && s.keys[k];
        assert(false);
    }
}

/// Call then return round-trips the program counter: with the return
/// instruction at the call target, two cycles land on the instruction
/// immediately after the call.
pub proof fn lemma_call_return_round_trip(s: MachineView, b1: u8, b2: u8)
    requires
        s.wf(),
        fetch_ok(s),
        spec_decode(word_at(s)) == Op::Call,
        s.sp < 16,
        op_nnn(word_at(s)) + 1 < 4096,
        s.mem[op_nnn(word_at(s)) as int] == 0x00,
        s.mem[op_nnn(word_at(s)) as int + 1] == 0xEE,
    ensures
        spec_tick(spec_tick(s, b1).0, b2).0.pc == s.pc + 2,
        spec_tick(spec_tick(s, b1).0, b2).0.sp == s.sp,
        spec_tick(spec_tick(s, b1).0, b2).1 == Ok::<Option<u16>, Fault>(None),
{
    lemma_op_field_bounds(word_at(s));
    let s2 = spec_tick(s, b1).0;
    assert(word_at(s2) == ((0x00u16 << 8u16) | 0xEEu16));
    assert(((0x00u16 << 8u16) | 0xEEu16) == 0x00EEu16) by (bit_vector);
    assert(spec_decode(word_at(s2)) == Op::Return);
}

/// An unrecognized instruction word mutates no machine state: registers,
/// memory, framebuffer, stack, timers and keypad all keep their values,
/// and the cycle reports exactly one diagnostic carrying the word.
pub proof fn lemma_unknown_word_inert(s: MachineView, b: u8)
    requires
        s.wf(),
        fetch_ok(s),
        spec_decode(word_at(s)) == Op::Unknown,
    ensures
        spec_tick(s, b).0.registers == s.registers,
        spec_tick(s, b).0.mem == s.mem,
        spec_tick(s, b).0.fb == s.fb,
        spec_tick(s, b).0.stack == s.stack,
        spec_tick(s, b).0.sp == s.sp,
        spec_tick(s, b).0.delay_timer == s.delay_timer,
        spec_tick(s, b).0.sound_timer == s.sound_timer,
        spec_tick(s, b).0.keys == s.keys,
        spec_tick(s, b).0.index_register == s.index_register,
        spec_tick(s, b).1 == Ok::<Option<u16>, Fault>(Some(word_at(s))),
{
}

} // verus!
