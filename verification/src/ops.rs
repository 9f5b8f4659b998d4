use vstd::prelude::*;

use crate::Fault;
use crate::decode::{op_x, op_y, op_n, op_nn, op_nnn, lemma_op_field_bounds};
use crate::machine::{Chip8, MachineView};

verus! {

/// The register picked by the current instruction's X field.
pub open spec fn vx(s: MachineView) -> u8 {
    s.registers[op_x(s.opcode) as int]
}

/// The register picked by the current instruction's Y field.
pub open spec fn vy(s: MachineView) -> u8 {
    s.registers[op_y(s.opcode) as int]
}

/// The machine with register X replaced by `v`.
pub open spec fn set_vx(s: MachineView, v: u8) -> MachineView {
    MachineView { registers: s.registers.update(op_x(s.opcode) as int, v), ..s }
}

/// The machine with register X replaced by `v`, then the flag register
/// VF replaced by `f` (when X is 0xF, the flag write wins).
pub open spec fn set_vx_then_vf(s: MachineView, v: u8, f: u8) -> MachineView {
    MachineView {
        registers: s.registers.update(op_x(s.opcode) as int, v).update(0xF, f),
        ..s
    }
}

/// The machine with the flag register VF replaced by `f`, then register X
/// replaced by `v` (when X is 0xF, the result write wins).
pub open spec fn set_vf_then_vx(s: MachineView, f: u8, v: u8) -> MachineView {
    MachineView {
        registers: s.registers.update(0xF, f).update(op_x(s.opcode) as int, v),
        ..s
    }
}

/// The machine with the program counter moved past the next instruction.
pub open spec fn skipped(s: MachineView) -> MachineView {
    MachineView { pc: (s.pc + 2) as u16, ..s }
}

/// A value in [-256, 512) reduced modulo 256, written out.
pub proof fn lemma_wrap_byte(v: int)
    requires
        -256 <= v < 512,
    ensures
        v % 256 == if v < 0 {
            v + 256
        } else if v < 256 {
            v
        } else {
            v - 256
        },
{
    if v < 0 {
        vstd::arithmetic::div_mod::lemma_mod_add_multiples_vanish(v, 256);
        vstd::arithmetic::div_mod::lemma_small_mod((v + 256) as nat, 256nat);
    } else if v < 256 {
        vstd::arithmetic::div_mod::lemma_small_mod(v as nat, 256nat);
    } else {
        vstd::arithmetic::div_mod::lemma_mod_sub_multiples_vanish(v, 256);
        vstd::arithmetic::div_mod::lemma_small_mod((v - 256) as nat, 256nat);
    }
}

/// A value below `2 * m` reduced once modulo `m`, written out.
pub proof fn lemma_wrap_small(a: int, m: int)
    requires
        0 < m,
        0 <= a < 2 * m,
    ensures
        a % m == if a < m {
            a
        } else {
            a - m
        },
{
    if a < m {
        vstd::arithmetic::div_mod::lemma_small_mod(a as nat, m as nat);
    } else {
        vstd::arithmetic::div_mod::lemma_mod_sub_multiples_vanish(a, m);
        vstd::arithmetic::div_mod::lemma_small_mod((a - m) as nat, m as nat);
    }
}

/// A value in [0, 2 * 65536) reduced modulo 65536, written out.
pub proof fn lemma_wrap_word(v: int)
    requires
        0 <= v < 131072,
    ensures
        v % 65536 == if v < 65536 {
            v
        } else {
            v - 65536
        },
{
    if v < 65536 {
        vstd::arithmetic::div_mod::lemma_small_mod(v as nat, 65536nat);
    } else {
        vstd::arithmetic::div_mod::lemma_mod_sub_multiples_vanish(v, 65536);
        vstd::arithmetic::div_mod::lemma_small_mod((v - 65536) as nat, 65536nat);
    }
}

// Clear screen: every pixel of the framebuffer becomes unset.
pub open spec fn spec_clear(s: MachineView) -> MachineView {
    MachineView { fb: Seq::new(2048, |i: int| false), ..s }
}

// Jump: the program counter becomes the instruction's address field.
pub open spec fn spec_jump(s: MachineView) -> MachineView {
    MachineView { pc: op_nnn(s.opcode), ..s }
}

// Load immediate: Vx becomes the instruction's 8-bit immediate.
pub open spec fn spec_set(s: MachineView) -> MachineView {
    set_vx(s, op_nn(s.opcode))
}

// Add immediate: Vx becomes (Vx + NN) mod 256; no flag is written.
pub open spec fn spec_add(s: MachineView) -> MachineView {
    set_vx(s, ((vx(s) + op_nn(s.opcode)) % 256) as u8)
}

// Set index: the index register becomes the address field.
pub open spec fn spec_set_index(s: MachineView) -> MachineView {
    MachineView { index_register: op_nnn(s.opcode), ..s }
}

// Call: push the program counter, bump the stack pointer, jump to the
// address field. Faults when 16 calls are already pending.
pub open spec fn spec_call_sub(s: MachineView) -> (MachineView, Result<(), Fault>) {
    if s.sp < 16 {
        (
            MachineView {
                stack: s.stack.update(s.sp as int, s.pc),
                sp: (s.sp + 1) as u8,
                pc: op_nnn(s.opcode),
                ..s
            },
            Ok(()),
        )
    } else {
        (s, Err(Fault::StackOverflow))
    }
}

// Return: drop the stack pointer and pop the program counter. Faults when
// no call is pending.
pub open spec fn spec_return_sub(s: MachineView) -> (MachineView, Result<(), Fault>) {
    if s.sp > 0 {
        (
            MachineView { sp: (s.sp - 1) as u8, pc: s.stack[s.sp - 1], ..s },
            Ok(()),
        )
    } else {
        (s, Err(Fault::StackUnderflow))
    }
}

// Skip if Vx equals the immediate.
pub open spec fn spec_if_eq(s: MachineView) -> MachineView {
    if vx(s) == op_nn(s.opcode) {
        skipped(s)
    } else {
        s
    }
}

// Skip if Vx differs from the immediate.
pub open spec fn spec_if_ne(s: MachineView) -> MachineView {
    if vx(s) != op_nn(s.opcode) {
        skipped(s)
    } else {
        s
    }
}

// Skip if Vx equals Vy.
pub open spec fn spec_if_xy_eq(s: MachineView) -> MachineView {
    if vx(s) == vy(s) {
        skipped(s)
    } else {
        s
    }
}

// Skip if Vx differs from Vy.
pub open spec fn spec_if_xy_ne(s: MachineView) -> MachineView {
    if vx(s) != vy(s) {
        skipped(s)
    } else {
        s
    }
}

// Register copy: Vx becomes Vy.
pub open spec fn spec_set_arith(s: MachineView) -> MachineView {
    set_vx(s, vy(s))
}

// Bitwise OR: Vx becomes Vx | Vy.
pub open spec fn spec_or(s: MachineView) -> MachineView {
    set_vx(s, vx(s) | vy(s))
}

// Bitwise AND: Vx becomes Vx & Vy.
pub open spec fn spec_and(s: MachineView) -> MachineView {
    set_vx(s, vx(s) & vy(s))
}

// Bitwise XOR: Vx becomes Vx ^ Vy.
pub open spec fn spec_xor(s: MachineView) -> MachineView {
    set_vx(s, vx(s) ^ vy(s))
}

// Add registers: Vx becomes (Vx + Vy) mod 256, and VF becomes 1 exactly
// when no carry occurred (the inverse of the common convention, kept
// deliberately).
pub open spec fn spec_add_reg(s: MachineView) -> MachineView {
    set_vx_then_vf(
        s,
        ((vx(s) + vy(s)) % 256) as u8,
        if vx(s) + vy(s) < 256 {
            1
        } else {
            0
        },
    )
}

// Subtract: Vx becomes (Vx - Vy) mod 256, and VF becomes 0 exactly when
// the subtraction borrowed (Vx < Vy).
pub open spec fn spec_sub_xy(s: MachineView) -> MachineView {
    set_vx_then_vf(
        s,
        ((vx(s) - vy(s)) % 256) as u8,
        if vx(s) < vy(s) {
            0
        } else {
            1
        },
    )
}

// Reversed subtract: Vx becomes (Vy - Vx) mod 256, and VF becomes 0
// exactly when the subtraction borrowed (Vy < Vx).
pub open spec fn spec_sub_yx(s: MachineView) -> MachineView {
    set_vx_then_vf(
        s,
        ((vy(s) - vx(s)) % 256) as u8,
        if vy(s) < vx(s) {
            0
        } else {
            1
        },
    )
}

// Shift right: VF becomes the low bit of Vy, then Vx becomes Vy >> 1.
// The source is Vy, not Vx: a preserved variant quirk.
pub open spec fn spec_shift_right(s: MachineView) -> MachineView {
    set_vf_then_vx(s, vy(s) & 1, vy(s) >> 1u8)
}

// Shift left: VF becomes the high bit of Vy, then Vx becomes Vy << 1.
pub open spec fn spec_shift_left(s: MachineView) -> MachineView {
    set_vf_then_vx(s, (vy(s) >> 7u8) & 1, vy(s) << 1u8)
}

// Offset jump: the program counter becomes the address field plus V0
// (always V0, another preserved variant quirk).
pub open spec fn spec_jump_offset(s: MachineView) -> MachineView {
    MachineView { pc: (op_nnn(s.opcode) + s.registers[0]) as u16, ..s }
}

// Random: Vx becomes a byte masked by the immediate. The byte `b` is
// whatever the host's generator produced.
pub open spec fn spec_random(s: MachineView, b: u8) -> MachineView {
    set_vx(s, b & op_nn(s.opcode))
}

// Skip if the key indexed by Vx is pressed. Faults when Vx is not a key.
pub open spec fn spec_if_key_pressed(s: MachineView) -> (MachineView, Result<(), Fault>) {
    if vx(s) < 16 {
        (
            if s.keys[vx(s) as int] {
                skipped(s)
            } else {
                s
            },
            Ok(()),
        )
    } else {
        (s, Err(Fault::KeyOutOfRange))
    }
}

// Skip if the key indexed by Vx is not pressed. Faults when Vx is not a
// key.
pub open spec fn spec_if_key_non_pressed(s: MachineView) -> (MachineView, Result<(), Fault>) {
    if vx(s) < 16 {
        (
            if !s.keys[vx(s) as int] {
                skipped(s)
            } else {
                s
            },
            Ok(()),
        )
    } else {
        (s, Err(Fault::KeyOutOfRange))
    }
}

// Read the delay timer into Vx.
pub open spec fn spec_vx_timer(s: MachineView) -> MachineView {
    set_vx(s, s.delay_timer)
}

// Load the delay timer from Vx.
pub open spec fn spec_timer_vx(s: MachineView) -> MachineView {
    MachineView { delay_timer: vx(s), ..s }
}

// Load the sound timer from Vx.
pub open spec fn spec_sound_vx(s: MachineView) -> MachineView {
    MachineView { sound_timer: vx(s), ..s }
}

// Add to index: I becomes (I + Vx) mod 65536; no flag, no clamping.
pub open spec fn spec_add_index(s: MachineView) -> MachineView {
    MachineView { index_register: ((s.index_register + vx(s)) % 65536) as u16, ..s }
}

/// The smallest pressed key index at or after `i`, or 16 when none of the
/// keys from `i` up is pressed.
pub open spec fn first_pressed_from(keys: Seq<bool>, i: int) -> int
    decreases 16 - i,
{
    if i < 0 || i >= 16 {
        16
    } else if keys[i] {
        i
    } else {
        first_pressed_from(keys, i + 1)
    }
}

/// Some key of the 16 is pressed.
pub open spec fn any_key_pressed(keys: Seq<bool>) -> bool {
    exists|k: int| 0 <= k < 16 && keys[k]
}

// Wait for key: scan the keypad in ascending order; put the first pressed
// key's index in Vx, or rewind the program counter by 2 so the same
// instruction is refetched next cycle.
pub open spec fn spec_get_key(s: MachineView) -> MachineView {
    let k = first_pressed_from(s.keys, 0);
    if k < 16 {
        set_vx(s, k as u8)
    } else {
        MachineView { pc: (s.pc - 2) as u16, ..s }
    }
}

// Font character: I becomes the address of the 5-byte glyph for digit Vx.
pub open spec fn spec_font_car(s: MachineView) -> MachineView {
    MachineView { index_register: (0x50 + vx(s) * 5) as u16, ..s }
}

// BCD: the hundreds, tens and ones digits of Vx go to memory[I..I+3].
// Faults when I+2 is outside memory.
pub open spec fn spec_bcd(s: MachineView) -> (MachineView, Result<(), Fault>) {
    if s.index_register + 2 < 4096 {
        let v = vx(s);
        let i = s.index_register as int;
        (
            MachineView {
                mem: s.mem.update(i, (v / 100) % 10).update(i + 1, (v / 10) % 10).update(
                    i + 2,
                    v % 10,
                ),
                ..s
            },
            Ok(()),
        )
    } else {
        (s, Err(Fault::MemOutOfBounds))
    }
}

// Register dump: V0..=Vx go to memory starting at I. Faults when the last
// address I+X is outside memory.
pub open spec fn spec_store_mem(s: MachineView) -> (MachineView, Result<(), Fault>) {
    let x = op_x(s.opcode) as int;
    let i = s.index_register as int;
    if i + x < 4096 {
        (
            MachineView {
                mem: Seq::new(
                    4096,
                    |j: int|
                        if i <= j <= i + x {
                            s.registers[j - i]
                        } else {
                            s.mem[j]
                        },
                ),
                ..s
            },
            Ok(()),
        )
    } else {
        (s, Err(Fault::MemOutOfBounds))
    }
}

// Register load: V0..=Vx come from memory starting at I. Faults when the
// last address I+X is outside memory.
pub open spec fn spec_load_mem(s: MachineView) -> (MachineView, Result<(), Fault>) {
    let x = op_x(s.opcode) as int;
    let i = s.index_register as int;
    if i + x < 4096 {
        (
            MachineView {
                registers: Seq::new(
                    16,
                    |j: int|
                        if 0 <= j <= x {
                            s.mem[i + j]
                        } else {
                            s.registers[j]
                        },
                ),
                ..s
            },
            Ok(()),
        )
    } else {
        (s, Err(Fault::MemOutOfBounds))
    }
}

impl Chip8 {
    /// The X field of the current instruction, as an index.
    pub(crate) fn x_index(&self) -> (r: usize)
        ensures
            r == op_x(self@.opcode) as usize,
            r < 16,
    {
        proof {
            lemma_op_field_bounds(self.opcode);
        }
        ((self.opcode >> 8) & 0xF) as usize
    }

    /// The Y field of the current instruction, as an index.
    pub(crate) fn y_index(&self) -> (r: usize)
        ensures
            r == op_y(self@.opcode) as usize,
            r < 16,
    {
        proof {
            lemma_op_field_bounds(self.opcode);
        }
        ((self.opcode >> 4) & 0xF) as usize
    }

    /// Clear screen.
    pub fn clear(&mut self)
        requires
            old(self)@.wf(),
        ensures
            final(self)@.wf(),
            final(self)@ == spec_clear(old(self)@),
    {
        let mut fb: Vec<bool> = Vec::new();
        let mut p: usize = 0;
        while p < 2048
            invariant
                p <= 2048,
                fb@.len() == p,
                forall|i: int| 0 <= i < p ==> fb@[i] == false,
            decreases 2048 - p,
        {
            fb.push(false);
            p = p + 1;
        }
        self.display = fb;
        proof {
            assert(self@.fb =~= spec_clear(old(self)@).fb);
        }
    }

    /// Jump.
    pub fn jump(&mut self)
        requires
            old(self)@.wf(),
        ensures
            final(self)@.wf(),
            final(self)@ == spec_jump(old(self)@),
    {
        self.pc = self.opcode & 0x0FFF;
    }

    /// Load immediate.
    pub fn set(&mut self)
        requires
            old(self)@.wf(),
        ensures
            final(self)@.wf(),
            final(self)@ == spec_set(old(self)@),
    {
        let x = self.x_index();
        self.registers[x] = (self.opcode & 0x00FF) as u8;
    }

    /// Add immediate, wrapping, no flag.
    pub fn add(&mut self)
        requires
            old(self)@.wf(),
        ensures
            final(self)@.wf(),
            final(self)@ == spec_add(old(self)@),
    {
        let x = self.x_index();
        proof {
            lemma_op_field_bounds(self.opcode);
            lemma_wrap_byte(vx(old(self)@) + op_nn(old(self)@.opcode));
        }
        let sum = self.registers[x] as u16 + (self.opcode & 0xFF);
        self.registers[x] = (sum % 256) as u8;
    }

    /// Set index.
    pub fn set_index(&mut self)
        requires
            old(self)@.wf(),
        ensures
            final(self)@.wf(),
            final(self)@ == spec_set_index(old(self)@),
    {
        self.index_register = self.opcode & 0x0FFF;
    }

    /// Call a subroutine; faults on more than 16 pending calls.
    pub fn call_sub(&mut self) -> (r: Result<(), Fault>)
        requires
            old(self)@.wf(),
        ensures
            final(self)@.wf(),
            (final(self)@, r) == spec_call_sub(old(self)@),
    {
        if self.sp >= 16 {
            return Err(Fault::StackOverflow);
        }
        let sp = self.sp as usize;
        self.stack[sp] = self.pc;
        self.sp = self.sp + 1;
        self.pc = self.opcode & 0xFFF;
        Ok(())
    }

    /// Return from a subroutine; faults when no call is pending.
    pub fn return_sub(&mut self) -> (r: Result<(), Fault>)
        requires
            old(self)@.wf(),
        ensures
            final(self)@.wf(),
            (final(self)@, r) == spec_return_sub(old(self)@),
    {
        if self.sp == 0 {
            return Err(Fault::StackUnderflow);
        }
        self.sp = self.sp - 1;
        self.pc = self.stack[self.sp as usize];
        Ok(())
    }

    /// Skip if Vx equals the immediate.
    pub fn if_eq(&mut self)
        requires
            old(self)@.wf(),
            old(self)@.pc + 2 < 0x10000,
        ensures
            final(self)@.wf(),
            final(self)@ == spec_if_eq(old(self)@),
    {
        let x = self.x_index();
        if self.registers[x] == (self.opcode & 0xFF) as u8 {
            self.pc = self.pc + 2;
        }
    }

    /// Skip if Vx differs from the immediate.
    pub fn if_ne(&mut self)
        requires
            old(self)@.wf(),
            old(self)@.pc + 2 < 0x10000,
        ensures
            final(self)@.wf(),
            final(self)@ == spec_if_ne(old(self)@),
    {
        let x = self.x_index();
        if self.registers[x] != (self.opcode & 0xFF) as u8 {
            self.pc = self.pc + 2;
        }
    }

    /// Skip if Vx equals Vy.
    pub fn if_xy_eq(&mut self)
        requires
            old(self)@.wf(),
            old(self)@.pc + 2 < 0x10000,
        ensures
            final(self)@.wf(),
            final(self)@ == spec_if_xy_eq(old(self)@),
    {
        let x = self.x_index();
        let y = self.y_index();
        if self.registers[x] == self.registers[y] {
            self.pc = self.pc + 2;
        }
    }

    /// Skip if Vx differs from Vy.
    pub fn if_xy_ne(&mut self)
        requires
            old(self)@.wf(),
            old(self)@.pc + 2 < 0x10000,
        ensures
            final(self)@.wf(),
            final(self)@ == spec_if_xy_ne(old(self)@),
    {
        let x = self.x_index();
        let y = self.y_index();
        if self.registers[x] != self.registers[y] {
            self.pc = self.pc + 2;
        }
    }

    /// Register copy.
    pub fn set_arith(&mut self)
        requires
            old(self)@.wf(),
        ensures
            final(self)@.wf(),
            final(self)@ == spec_set_arith(old(self)@),
    {
        let x = self.x_index();
        let y = self.y_index();
        let v = self.registers[y];
        self.registers[x] = v;
    }

    /// Bitwise OR.
    pub fn or(&mut self)
        requires
            old(self)@.wf(),
        ensures
            final(self)@.wf(),
            final(self)@ == spec_or(old(self)@),
    {
        let x = self.x_index();
        let y = self.y_index();
        let v = self.registers[x] | self.registers[y];
        self.registers[x] = v;
    }

    /// Bitwise AND.
    pub fn and(&mut self)
        requires
            old(self)@.wf(),
        ensures
            final(self)@.wf(),
            final(self)@ == spec_and(old(self)@),
    {
        let x = self.x_index();
        let y = self.y_index();
        let v = self.registers[x] & self.registers[y];
        self.registers[x] = v;
    }

    /// Bitwise XOR.
    pub fn xor(&mut self)
        requires
            old(self)@.wf(),
        ensures
            final(self)@.wf(),
            final(self)@ == spec_xor(old(self)@),
    {
        let x = self.x_index();
        let y = self.y_index();
        let v = self.registers[x] ^ self.registers[y];
        self.registers[x] = v;
    }

    /// Add registers; VF records the carry outcome, 1 on no carry.
    pub fn add_(&mut self)
        requires
            old(self)@.wf(),
        ensures
            final(self)@.wf(),
            final(self)@ == spec_add_reg(old(self)@),
    {
        let x = self.x_index();
        let y = self.y_index();
        let sum = self.registers[x] as u16 + self.registers[y] as u16;
        proof {
            lemma_wrap_byte(vx(old(self)@) + vy(old(self)@));
        }
        self.registers[x] = (sum % 256) as u8;
        self.registers[0xF] = if sum < 256 {
            1
        } else {
            0
        };
    }

    /// Subtract Vy from Vx; VF is 0 exactly on borrow.
    pub fn sub_xy(&mut self)
        requires
            old(self)@.wf(),
        ensures
            final(self)@.wf(),
            final(self)@ == spec_sub_xy(old(self)@),
    {
        let x = self.x_index();
        let y = self.y_index();
        let a = self.registers[x];
        let b = self.registers[y];
        proof {
            lemma_wrap_byte(a - b);
        }
        self.registers[x] = if a >= b {
            a - b
        } else {
            (a as u16 + 256 - b as u16) as u8
        };
        self.registers[0xF] = if a < b {
            0
        } else {
            1
        };
    }

    /// Subtract Vx from Vy, into Vx; VF is 0 exactly on borrow.
    pub fn sub_yx(&mut self)
        requires
            old(self)@.wf(),
        ensures
            final(self)@.wf(),
            final(self)@ == spec_sub_yx(old(self)@),
    {
        let x = self.x_index();
        let y = self.y_index();
        let a = self.registers[x];
        let b = self.registers[y];
        proof {
            lemma_wrap_byte(b - a);
        }
        self.registers[x] = if b >= a {
            b - a
        } else {
            (b as u16 + 256 - a as u16) as u8
        };
        self.registers[0xF] = if b < a {
            0
        } else {
            1
        };
    }

    /// Shift right, reading Vy.
    pub fn shift_right(&mut self)
        requires
            old(self)@.wf(),
        ensures
            final(self)@.wf(),
            final(self)@ == spec_shift_right(old(self)@),
    {
        let x = self.x_index();
        let y = self.y_index();
        let v = self.registers[y];
        self.registers[0xF] = v & 0x1;
        self.registers[x] = v >> 1u8;
    }

    /// Shift left, reading Vy.
    pub fn shift_left(&mut self)
        requires
            old(self)@.wf(),
        ensures
            final(self)@.wf(),
            final(self)@ == spec_shift_left(old(self)@),
    {
        let x = self.x_index();
        let y = self.y_index();
        let v = self.registers[y];
        self.registers[0xF] = (v >> 7u8) & 0x1;
        self.registers[x] = v << 1u8;
    }

    /// Offset jump through V0.
    pub fn jump_offset(&mut self)
        requires
            old(self)@.wf(),
        ensures
            final(self)@.wf(),
            final(self)@ == spec_jump_offset(old(self)@),
    {
        proof {
            lemma_op_field_bounds(self.opcode);
        }
        self.pc = (self.opcode & 0xFFF) + self.registers[0] as u16;
    }

    /// Skip if the key indexed by Vx is pressed.
    pub fn if_key_pressed(&mut self) -> (r: Result<(), Fault>)
        requires
            old(self)@.wf(),
            old(self)@.pc + 2 < 0x10000,
        ensures
            final(self)@.wf(),
            (final(self)@, r) == spec_if_key_pressed(old(self)@),
    {
        let x = self.x_index();
        let k = self.registers[x];
        if k >= 16 {
            return Err(Fault::KeyOutOfRange);
        }
        if self.input_keys[k as usize] {
            self.pc = self.pc + 2;
        }
        Ok(())
    }

    /// Skip if the key indexed by Vx is not pressed.
    pub fn if_key_non_pressed(&mut self) -> (r: Result<(), Fault>)
        requires
            old(self)@.wf(),
            old(self)@.pc + 2 < 0x10000,
        ensures
            final(self)@.wf(),
            (final(self)@, r) == spec_if_key_non_pressed(old(self)@),
    {
        let x = self.x_index();
        let k = self.registers[x];
        if k >= 16 {
            return Err(Fault::KeyOutOfRange);
        }
        if !self.input_keys[k as usize] {
            self.pc = self.pc + 2;
        }
        Ok(())
    }

    /// Read the delay timer into Vx.
    pub fn vx_timer(&mut self)
        requires
            old(self)@.wf(),
        ensures
            final(self)@.wf(),
            final(self)@ == spec_vx_timer(old(self)@),
    {
        let x = self.x_index();
        let v = self.delay_timer;
        self.registers[x] = v;
    }

    /// Load the delay timer from Vx.
    pub fn timer_vx(&mut self)
        requires
            old(self)@.wf(),
        ensures
            final(self)@.wf(),
            final(self)@ == spec_timer_vx(old(self)@),
    {
        let x = self.x_index();
        self.delay_timer = self.registers[x];
    }

    /// Load the sound timer from Vx.
    pub fn sound_vx(&mut self)
        requires
            old(self)@.wf(),
        ensures
            final(self)@.wf(),
            final(self)@ == spec_sound_vx(old(self)@),
    {
        let x = self.x_index();
        self.sound_timer = self.registers[x];
    }

    /// Add Vx to the index register, wrapping.
    pub fn add_index(&mut self)
        requires
            old(self)@.wf(),
        ensures
            final(self)@.wf(),
            final(self)@ == spec_add_index(old(self)@),
    {
        let x = self.x_index();
        let v = self.registers[x];
        proof {
            lemma_wrap_word(old(self)@.index_register + vx(old(self)@));
        }
        self.index_register = self.index_register.wrapping_add(v as u16);
        proof {
            assert(self@.index_register == ((old(self)@.index_register + vx(old(self)@))
                % 65536) as u16);
        }
    }

    /// Wait for key: the lowest pressed key's index goes to Vx, or the
    /// program counter rewinds by 2 so the wait is retried next cycle.
    pub fn get_key(&mut self)
        requires
            old(self)@.wf(),
            any_key_pressed(old(self)@.keys) || old(self)@.pc >= 2,
        ensures
            final(self)@.wf(),
            final(self)@ == spec_get_key(old(self)@),
    {
        let x = self.x_index();
        let mut i: usize = 0;
        while i < 16
            invariant
                i <= 16,
                self == old(self),
                old(self)@.wf(),
                x == op_x(old(self)@.opcode) as usize,
                x < 16,
                forall|j: int| 0 <= j < i ==> !old(self)@.keys[j],
            decreases 16 - i,
        {
            if self.input_keys[i] {
                proof {
                    lemma_first_pressed_prefix(old(self)@.keys, i as int);
                    assert(first_pressed_from(old(self)@.keys, 0) == i);
                }
                self.registers[x] = i as u8;
                return;
            }
            i = i + 1;
        }
        proof {
            lemma_first_pressed_prefix(old(self)@.keys, 16);
            assert(first_pressed_from(old(self)@.keys, 0) == 16);
            assert(!any_key_pressed(old(self)@.keys)) by {
                assert(forall|k: int| 0 <= k < 16 ==> !old(self)@.keys[k]);
            }
        }
        self.pc = self.pc - 2;
    }

    /// Font character address: I becomes FONT_BASE + Vx * 5.
    pub fn font_car(&mut self)
        requires
            old(self)@.wf(),
        ensures
            final(self)@.wf(),
            final(self)@ == spec_font_car(old(self)@),
    {
        let x = self.x_index();
        self.index_register = 0x50 + self.registers[x] as u16 * 5;
    }

    /// BCD decode of Vx into memory[I..I+3].
    pub fn decode(&mut self) -> (r: Result<(), Fault>)
        requires
            old(self)@.wf(),
        ensures
            final(self)@.wf(),
            (final(self)@, r) == spec_bcd(old(self)@),
    {
        let i = self.index_register as usize;
        if i + 2 >= 4096 {
            return Err(Fault::MemOutOfBounds);
        }
        let x = self.x_index();
        let num = self.registers[x];
        self.mem[i] = (num / 100) % 10;
        self.mem[i + 1] = (num / 10) % 10;
        self.mem[i + 2] = num % 10;
        Ok(())
    }

    /// Register dump: V0..=Vx to memory starting at I.
    pub fn store_mem(&mut self) -> (r: Result<(), Fault>)
        requires
            old(self)@.wf(),
        ensures
            final(self)@.wf(),
            (final(self)@, r) == spec_store_mem(old(self)@),
    {
        let x = self.x_index();
        let i = self.index_register as usize;
        if i + x >= 4096 {
            return Err(Fault::MemOutOfBounds);
        }
        let mut k: usize = 0;
        while k <= x
            invariant
                old(self)@.wf(),
                x == op_x(old(self)@.opcode) as usize,
                x < 16,
                i == old(self)@.index_register as usize,
                i + x < 4096,
                k <= x + 1,
                self@ == (MachineView { mem: self@.mem, ..old(self)@ }),
                self@.mem.len() == 4096,
                forall|j: int| i <= j < i + k ==> self@.mem[j] == old(self)@.registers[j - i],
                forall|j: int|
                    0 <= j < 4096 && !(i <= j < i + k) ==> self@.mem[j] == old(self)@.mem[j],
            decreases x + 1 - k,
        {
            let v = self.registers[k];
            self.mem[i + k] = v;
            k = k + 1;
        }
        proof {
            assert(self@.mem =~= spec_store_mem(old(self)@).0.mem);
        }
        Ok(())
    }

    /// Register load: V0..=Vx from memory starting at I.
    pub fn load_mem(&mut self) -> (r: Result<(), Fault>)
        requires
            old(self)@.wf(),
        ensures
            final(self)@.wf(),
            (final(self)@, r) == spec_load_mem(old(self)@),
    {
        let x = self.x_index();
        let i = self.index_register as usize;
        if i + x >= 4096 {
            return Err(Fault::MemOutOfBounds);
        }
        let mut k: usize = 0;
        while k <= x
            invariant
                old(self)@.wf(),
                x == op_x(old(self)@.opcode) as usize,
                x < 16,
                i == old(self)@.index_register as usize,
                i + x < 4096,
                k <= x + 1,
                self@ == (MachineView { registers: self@.registers, ..old(self)@ }),
                self@.registers.len() == 16,
                forall|j: int| 0 <= j < k ==> self@.registers[j] == old(self)@.mem[i + j],
                forall|j: int|
                    k <= j < 16 ==> self@.registers[j] == old(self)@.registers[j],
            decreases x + 1 - k,
        {
            let v = self.mem[i + k];
            self.registers[k] = v;
            k = k + 1;
        }
        proof {
            assert(self@.registers =~= spec_load_mem(old(self)@).0.registers);
        }
        Ok(())
    }

    /// Decrement each timer by 1, floored at 0.
    pub fn update_timers(&mut self)
        requires
            old(self)@.wf(),
        ensures
            final(self)@.wf(),
            final(self)@ == spec_update_timers(old(self)@),
    {
        if self.delay_timer > 0 {
            self.delay_timer = self.delay_timer - 1;
        }
        if self.sound_timer > 0 {
            self.sound_timer = self.sound_timer - 1;
        }
    }
}

// Timer tick: each timer drops by exactly 1 while above 0, never below.
pub open spec fn spec_update_timers(s: MachineView) -> MachineView {
    MachineView {
        delay_timer: if s.delay_timer > 0 {
            (s.delay_timer - 1) as u8
        } else {
            0
        },
        sound_timer: if s.sound_timer > 0 {
            (s.sound_timer - 1) as u8
        } else {
            0
        },
        ..s
    }
}

/// When no key below `i` is pressed, the scan from 0 agrees with the scan
/// from `i`.
pub proof fn lemma_first_pressed_prefix(keys: Seq<bool>, i: int)
    requires
        0 <= i <= 16,
        forall|j: int| 0 <= j < i ==> !keys[j],
    ensures
        first_pressed_from(keys, 0) == first_pressed_from(keys, i),
    decreases i,
{
    if i > 0 {
        lemma_first_pressed_prefix(keys, i - 1);
        assert(first_pressed_from(keys, i - 1) == first_pressed_from(keys, i));
    }
}

/// What the keypad scan returns: a pressed key with none pressed below
/// it, or 16 when nothing is pressed.
pub proof fn lemma_first_pressed_props(keys: Seq<bool>, i: int)
    requires
        0 <= i <= 16,
    ensures
        i <= first_pressed_from(keys, i) <= 16,
        first_pressed_from(keys, i) < 16 ==> keys[first_pressed_from(keys, i)],
        forall|j: int| i <= j < first_pressed_from(keys, i) ==> !keys[j],
    decreases 16 - i,
{
    if i < 16 && !keys[i] {
        lemma_first_pressed_props(keys, i + 1);
    }
}

} // verus!
