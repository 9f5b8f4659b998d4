use vstd::prelude::*;

use crate::Fault;
use crate::decode::{Op, spec_decode, decode_word, lemma_op_field_bounds};
use crate::draw::spec_display;
use crate::machine::{Chip8, MachineView};
use crate::ops::{
    spec_clear, spec_jump, spec_set, spec_add, spec_set_index, spec_call_sub, spec_return_sub,
    spec_if_eq, spec_if_ne, spec_if_xy_eq, spec_if_xy_ne, spec_set_arith, spec_or, spec_and,
    spec_xor, spec_add_reg, spec_sub_xy, spec_sub_yx, spec_shift_right, spec_shift_left,
    spec_jump_offset, spec_random, spec_if_key_pressed, spec_if_key_non_pressed, spec_vx_timer,
    spec_timer_vx, spec_sound_vx, spec_add_index, spec_get_key, spec_font_car, spec_bcd,
    spec_store_mem, spec_load_mem,
};

verus! {

/// The fetch can read both bytes of the next instruction word.
pub open spec fn fetch_ok(s: MachineView) -> bool {
    s.pc + 1 < 4096
}

/// The big-endian instruction word at the program counter.
pub open spec fn word_at(s: MachineView) -> u16 {
    ((s.mem[s.pc as int] as u16) << 8u16) | (s.mem[s.pc as int + 1] as u16)
}

/// Fetch: latch the word at pc as the current instruction and advance pc
/// by 2.
pub open spec fn spec_fetch(s: MachineView) -> MachineView {
    MachineView { opcode: word_at(s), pc: (s.pc + 2) as u16, ..s }
}

/// A fallible instruction outcome folded into a cycle outcome: a fault is
/// passed on, success reports no diagnostic.
pub open spec fn lift_op(p: (MachineView, Result<(), Fault>)) -> (
    MachineView,
    Result<Option<u16>, Fault>,
) {
    (
        p.0,
        match p.1 {
            Ok(_) => Ok(None),
            Err(f) => Err(f),
        },
    )
}

/// Execute the already-fetched instruction of `s`. `b` is the byte the
/// host's random generator would hand a Random instruction; no other
/// instruction reads it. An unknown word changes nothing and is reported
/// as the diagnostic `Some(word)`.
pub open spec fn spec_exec_op(s: MachineView, b: u8) -> (MachineView, Result<Option<u16>, Fault>) {
    match spec_decode(s.opcode) {
        Op::Clear => (spec_clear(s), Ok(None)),
        Op::Return => lift_op(spec_return_sub(s)),
        Op::Jump => (spec_jump(s), Ok(None)),
        Op::Call => lift_op(spec_call_sub(s)),
        Op::SkipEqImm => (spec_if_eq(s), Ok(None)),
        Op::SkipNeImm => (spec_if_ne(s), Ok(None)),
        Op::SkipEqReg => (spec_if_xy_eq(s), Ok(None)),
        Op::SkipNeReg => (spec_if_xy_ne(s), Ok(None)),
        Op::SetImm => (spec_set(s), Ok(None)),
        Op::AddImm => (spec_add(s), Ok(None)),
        Op::Copy => (spec_set_arith(s), Ok(None)),
        Op::Or => (spec_or(s), Ok(None)),
        Op::And => (spec_and(s), Ok(None)),
        Op::Xor => (spec_xor(s), Ok(None)),
        Op::AddReg => (spec_add_reg(s), Ok(None)),
        Op::SubXY => (spec_sub_xy(s), Ok(None)),
        Op::SubYX => (spec_sub_yx(s), Ok(None)),
        Op::ShiftRight => (spec_shift_right(s), Ok(None)),
        Op::ShiftLeft => (spec_shift_left(s), Ok(None)),
        Op::SetIndex => (spec_set_index(s), Ok(None)),
        Op::JumpOffset => (spec_jump_offset(s), Ok(None)),
        Op::Random => (spec_random(s, b), Ok(None)),
        Op::Draw => lift_op(spec_display(s)),
        Op::SkipKey => lift_op(spec_if_key_pressed(s)),
        Op::SkipNoKey => lift_op(spec_if_key_non_pressed(s)),
        Op::GetDelay => (spec_vx_timer(s), Ok(None)),
        Op::SetDelay => (spec_timer_vx(s), Ok(None)),
        Op::SetSound => (spec_sound_vx(s), Ok(None)),
        Op::AddIndex => (spec_add_index(s), Ok(None)),
        Op::WaitKey => (spec_get_key(s), Ok(None)),
        Op::FontChar => (spec_font_car(s), Ok(None)),
        Op::Bcd => lift_op(spec_bcd(s)),
        Op::StoreMem => lift_op(spec_store_mem(s)),
        Op::LoadMem => lift_op(spec_load_mem(s)),
        Op::Unknown => (s, Ok(Some(s.opcode))),
    }
}

/// One whole cycle: fetch the word at pc, then execute it. A pc outside
/// memory faults with the machine unchanged.
pub open spec fn spec_tick(s: MachineView, b: u8) -> (MachineView, Result<Option<u16>, Fault>) {
    if fetch_ok(s) {
        spec_exec_op(spec_fetch(s), b)
    } else {
        (s, Err(Fault::MemOutOfBounds))
    }
}

/// Relies on rand::random: one byte drawn uniformly from the
/// thread-local generator. Nothing is promised of the value.
#[verifier::external_body]
fn random_byte() -> u8 {
    rand::random::<u8>()
}

impl Chip8 {
    /// Fetch: latch the big-endian word at pc and advance pc by 2; faults
    /// when pc leaves the 4096-byte memory.
    pub fn fetch(&mut self) -> (r: Result<(), Fault>)
        requires
            old(self)@.wf(),
        ensures
            final(self)@.wf(),
            fetch_ok(old(self)@) ==> r == Ok::<(), Fault>(()) && final(self)@ == spec_fetch(
                old(self)@,
            ),
            !fetch_ok(old(self)@) ==> r == Err::<(), Fault>(Fault::MemOutOfBounds) && final(self)@
                == old(self)@,
    {
        if self.pc >= 4095 {
            return Err(Fault::MemOutOfBounds);
        }
        let pc = self.pc as usize;
        let w = ((self.mem[pc] as u16) << 8u16) | (self.mem[pc + 1] as u16);
        self.opcode = w;
        self.pc = self.pc + 2;
        Ok(())
    }

    /// Random: Vx becomes a host-drawn random byte masked by the
    /// instruction's immediate.
    pub fn random(&mut self)
        requires
            old(self)@.wf(),
        ensures
            final(self)@.wf(),
            exists|b: u8| final(self)@ == spec_random(old(self)@, b),
    {
        let x = self.x_index();
        let b = random_byte();
        let v = b & (self.opcode & 0xFF) as u8;
        self.registers[x] = v;
        proof {
            lemma_op_field_bounds(old(self)@.opcode);
            assert(self@ == spec_random(old(self)@, b));
        }
    }

    /// One fetch-decode-execute cycle. `Ok(None)` is a completed
    /// instruction; `Ok(Some(word))` is the diagnostic for an unknown
    /// word, which changes no machine state beyond the fetch itself; a
    /// fault leaves the machine as the failing instruction's contract
    /// says. The cycle is `spec_tick` of the prior state for some random
    /// byte, and for exactly `spec_tick(_, 0)` whenever the instruction
    /// is not Random.
    pub fn tick(&mut self) -> (r: Result<Option<u16>, Fault>)
        requires
            old(self)@.wf(),
        ensures
            final(self)@.wf(),
            exists|b: u8| (final(self)@, r) == spec_tick(old(self)@, b),
            fetch_ok(old(self)@) && spec_decode(word_at(old(self)@)) != Op::Random ==> (
            final(self)@,
            r,
            ) == spec_tick(old(self)@, 0),
    {
        let fr = self.fetch();
        match fr {
            Err(f) => {
                proof {
                    assert((self@, Err::<Option<u16>, Fault>(f)) == spec_tick(old(self)@, 0u8));
                }
                return Err(f);
            },
            Ok(()) => {},
        }
        let ghost s1 = self@;
        proof {
            assert(s1 == spec_fetch(old(self)@));
            assert(s1.pc >= 2 && s1.pc <= 4096);
        }
        let op = decode_word(self.opcode);
        let r: Result<Option<u16>, Fault> = match op {
            Op::Clear => {
                self.clear();
                Ok(None)
            },
            Op::Return => {
                match self.return_sub() {
                    Ok(()) => Ok(None),
                    Err(f) => Err(f),
                }
            },
            Op::Jump => {
                self.jump();
                Ok(None)
            },
            Op::Call => {
                match self.call_sub() {
                    Ok(()) => Ok(None),
                    Err(f) => Err(f),
                }
            },
            Op::SkipEqImm => {
                self.if_eq();
                Ok(None)
            },
            Op::SkipNeImm => {
                self.if_ne();
                Ok(None)
            },
            Op::SkipEqReg => {
                self.if_xy_eq();
                Ok(None)
            },
            Op::SkipNeReg => {
                self.if_xy_ne();
                Ok(None)
            },
            Op::SetImm => {
                self.set();
                Ok(None)
            },
            Op::AddImm => {
                self.add();
                Ok(None)
            },
            Op::Copy => {
                self.set_arith();
                Ok(None)
            },
            Op::Or => {
                self.or();
                Ok(None)
            },
            Op::And => {
                self.and();
                Ok(None)
            },
            Op::Xor => {
                self.xor();
                Ok(None)
            },
            Op::AddReg => {
                self.add_();
                Ok(None)
            },
            Op::SubXY => {
                self.sub_xy();
                Ok(None)
            },
            Op::SubYX => {
                self.sub_yx();
                Ok(None)
            },
            Op::ShiftRight => {
                self.shift_right();
                Ok(None)
            },
            Op::ShiftLeft => {
                self.shift_left();
                Ok(None)
            },
            Op::SetIndex => {
                self.set_index();
                Ok(None)
            },
            Op::JumpOffset => {
                self.jump_offset();
                Ok(None)
            },
            Op::Random => {
                self.random();
                Ok(None)
            },
            Op::Draw => {
                match self.display() {
                    Ok(()) => Ok(None),
                    Err(f) => Err(f),
                }
            },
            Op::SkipKey => {
                match self.if_key_pressed() {
                    Ok(()) => Ok(None),
                    Err(f) => Err(f),
                }
            },
            Op::SkipNoKey => {
                match self.if_key_non_pressed() {
                    Ok(()) => Ok(None),
                    Err(f) => Err(f),
                }
            },
            Op::GetDelay => {
                self.vx_timer();
                Ok(None)
            },
            Op::SetDelay => {
                self.timer_vx();
                Ok(None)
            },
            Op::SetSound => {
                self.sound_vx();
                Ok(None)
            },
            Op::AddIndex => {
                self.add_index();
                Ok(None)
            },
            Op::WaitKey => {
                self.get_key();
                Ok(None)
            },
            Op::FontChar => {
                self.font_car();
                Ok(None)
            },
            Op::Bcd => {
                match self.decode() {
                    Ok(()) => Ok(None),
                    Err(f) => Err(f),
                }
            },
            Op::StoreMem => {
                match self.store_mem() {
                    Ok(()) => Ok(None),
                    Err(f) => Err(f),
                }
            },
            Op::LoadMem => {
                match self.load_mem() {
                    Ok(()) => Ok(None),
                    Err(f) => Err(f),
                }
            },
            Op::Unknown => Ok(Some(self.opcode)),
        };
        proof {
            if spec_decode(s1.opcode) == Op::Random {
                let b = choose|b: u8| self@ == spec_random(s1, b);
                assert((self@, r) == spec_tick(old(self)@, b));
            } else {
                assert((self@, r) == spec_tick(old(self)@, 0u8));
            }
        }
        r
    }
}

} // verus!
