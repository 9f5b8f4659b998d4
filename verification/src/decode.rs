use vstd::prelude::*;

verus! {

/// The closed set of operation identifiers an instruction word can decode
/// to. A word matching no known pattern decodes to `Unknown`, a first-class
/// variant, never an alias of a real operation.
#[derive(Clone, Copy, PartialEq, Eq, Structural, Debug)]
pub enum Op {
    /// 00E0: clear the framebuffer.
    Clear,
    /// 00EE: return from a subroutine.
    Return,
    /// 1NNN: jump to address NNN.
    Jump,
    /// 2NNN: call the subroutine at NNN.
    Call,
    /// 3XNN: skip the next instruction if Vx == NN.
    SkipEqImm,
    /// 4XNN: skip the next instruction if Vx != NN.
    SkipNeImm,
    /// 5XY0: skip the next instruction if Vx == Vy.
    SkipEqReg,
    /// 9XY0: skip the next instruction if Vx != Vy.
    SkipNeReg,
    /// 6XNN: Vx <- NN.
    SetImm,
    /// 7XNN: Vx <- Vx + NN, wrapping, no flag.
    AddImm,
    /// 8XY0: Vx <- Vy.
    Copy,
    /// 8XY1: Vx <- Vx | Vy.
    Or,
    /// 8XY2: Vx <- Vx & Vy.
    And,
    /// 8XY3: Vx <- Vx ^ Vy.
    Xor,
    /// 8XY4: Vx <- Vx + Vy wrapping; VF <- 1 on no carry, 0 on carry.
    AddReg,
    /// 8XY5: Vx <- Vx - Vy wrapping; VF <- 0 on borrow, 1 otherwise.
    SubXY,
    /// 8XY7: Vx <- Vy - Vx wrapping; VF <- 0 on borrow, 1 otherwise.
    SubYX,
    /// 8XY6: VF <- low bit of Vy; Vx <- Vy >> 1.
    ShiftRight,
    /// 8XYE: VF <- high bit of Vy; Vx <- Vy << 1.
    ShiftLeft,
    /// ANNN: I <- NNN.
    SetIndex,
    /// BNNN: pc <- NNN + V0.
    JumpOffset,
    /// CXNN: Vx <- random byte & NN.
    Random,
    /// DXYN: draw the N-row sprite at memory[I..] to (Vx, Vy).
    Draw,
    /// EX9E: skip the next instruction if key Vx is pressed.
    SkipKey,
    /// EXA1: skip the next instruction if key Vx is not pressed.
    SkipNoKey,
    /// FX07: Vx <- delay timer.
    GetDelay,
    /// FX15: delay timer <- Vx.
    SetDelay,
    /// FX18: sound timer <- Vx.
    SetSound,
    /// FX1E: I <- I + Vx, wrapping, no flag.
    AddIndex,
    /// FX0A: wait for a key press; rewind pc while none is pressed.
    WaitKey,
    /// FX29: I <- address of the font glyph for digit Vx.
    FontChar,
    /// FX33: store the decimal digits of Vx at memory[I..I+3].
    Bcd,
    /// FX55: copy V0..=Vx to memory starting at I.
    StoreMem,
    /// FX65: load V0..=Vx from memory starting at I.
    LoadMem,
    /// Any word matching no pattern above.
    Unknown,
}

/// The X field of an instruction word: its second nibble, selecting a
/// destination register.
pub open spec fn op_x(op: u16) -> u16 {
    (op >> 8) & 0xF
}

/// The Y field of an instruction word: its third nibble, selecting a
/// source register.
pub open spec fn op_y(op: u16) -> u16 {
    (op >> 4) & 0xF
}

/// The N field of an instruction word: its low nibble, a 4-bit count.
pub open spec fn op_n(op: u16) -> u16 {
    op & 0xF
}

/// The NN field of an instruction word: its low byte, an 8-bit immediate.
pub open spec fn op_nn(op: u16) -> u8 {
    (op & 0xFF) as u8
}

/// The NNN field of an instruction word: its low 12 bits, an address.
pub open spec fn op_nnn(op: u16) -> u16 {
    op & 0xFFF
}

/// Ranges of the decoded fields: register indices fit the 16 registers,
/// the count fits a nibble, and the address fits the 4096-byte memory.
pub proof fn lemma_op_field_bounds(op: u16)
    ensures
        op_x(op) < 16,
        op_y(op) < 16,
        op_n(op) < 16,
        op_nnn(op) < 4096,
        op_nn(op) as u16 == op & 0xFF,
{
    assert((op >> 8) & 0xF < 16 && (op >> 4) & 0xF < 16 && (op & 0xF) < 16 && (op & 0xFFF)
        < 4096 && op & 0xFF < 256) by (bit_vector);
}

/// Decoding: the four nibbles of the word pick the operation, the most
/// specific pattern first; anything else is `Unknown`.
pub open spec fn spec_decode(op: u16) -> Op {
    let n1 = (op >> 12) & 0xF;
    let n3 = (op >> 4) & 0xF;
    let n4 = op & 0xF;
    if op == 0x00E0 {
        Op::Clear
    } else if op == 0x00EE {
        Op::Return
    } else if n1 == 0x1 {
        Op::Jump
    } else if n1 == 0x2 {
        Op::Call
    } else if n1 == 0x3 {
        Op::SkipEqImm
    } else if n1 == 0x4 {
        Op::SkipNeImm
    } else if n1 == 0x5 && n4 == 0x0 {
        Op::SkipEqReg
    } else if n1 == 0x6 {
        Op::SetImm
    } else if n1 == 0x7 {
        Op::AddImm
    } else if n1 == 0x8 && n4 == 0x0 {
        Op::Copy
    } else if n1 == 0x8 && n4 == 0x1 {
        Op::Or
    } else if n1 == 0x8 && n4 == 0x2 {
        Op::And
    } else if n1 == 0x8 && n4 == 0x3 {
        Op::Xor
    } else if n1 == 0x8 && n4 == 0x4 {
        Op::AddReg
    } else if n1 == 0x8 && n4 == 0x5 {
        Op::SubXY
    } else if n1 == 0x8 && n4 == 0x6 {
        Op::ShiftRight
    } else if n1 == 0x8 && n4 == 0x7 {
        Op::SubYX
    } else if n1 == 0x8 && n4 == 0xE {
        Op::ShiftLeft
    } else if n1 == 0x9 && n4 == 0x0 {
        Op::SkipNeReg
    } else if n1 == 0xA {
        Op::SetIndex
    } else if n1 == 0xB {
        Op::JumpOffset
    } else if n1 == 0xC {
        Op::Random
    } else if n1 == 0xD {
        Op::Draw
    } else if n1 == 0xE && n3 == 0x9 && n4 == 0xE {
        Op::SkipKey
    } else if n1 == 0xE && n3 == 0xA && n4 == 0x1 {
        Op::SkipNoKey
    } else if n1 == 0xF && n3 == 0x0 && n4 == 0x7 {
        Op::GetDelay
    } else if n1 == 0xF && n3 == 0x1 && n4 == 0x5 {
        Op::SetDelay
    } else if n1 == 0xF && n3 == 0x1 && n4 == 0x8 {
        Op::SetSound
    } else if n1 == 0xF && n3 == 0x1 && n4 == 0xE {
        Op::AddIndex
    } else if n1 == 0xF && n3 == 0x0 && n4 == 0xA {
        Op::WaitKey
    } else if n1 == 0xF && n3 == 0x2 && n4 == 0x9 {
        Op::FontChar
    } else if n1 == 0xF && n3 == 0x3 && n4 == 0x3 {
        Op::Bcd
    } else if n1 == 0xF && n3 == 0x5 && n4 == 0x5 {
        Op::StoreMem
    } else if n1 == 0xF && n3 == 0x6 && n4 == 0x5 {
        Op::LoadMem
    } else {
        Op::Unknown
    }
}

/// Decodes an instruction word to its operation identifier, exactly as
/// `spec_decode` says.
pub fn decode_word(op: u16) -> (r: Op)
    ensures
        r == spec_decode(op),
{
    let n1 = (op >> 12) & 0xF;
    let n3 = (op >> 4) & 0xF;
    let n4 = op & 0xF;
    if op == 0x00E0 {
        Op::Clear
    } else if op == 0x00EE {
        Op::Return
    } else if n1 == 0x1 {
        Op::Jump
    } else if n1 == 0x2 {
        Op::Call
    } else if n1 == 0x3 {
        Op::SkipEqImm
    } else if n1 == 0x4 {
        Op::SkipNeImm
    } else if n1 == 0x5 && n4 == 0x0 {
        Op::SkipEqReg
    } else if n1 == 0x6 {
        Op::SetImm
    } else if n1 == 0x7 {
        Op::AddImm
    } else if n1 == 0x8 && n4 == 0x0 {
        Op::Copy
    } else if n1 == 0x8 && n4 == 0x1 {
        Op::Or
    } else if n1 == 0x8 && n4 == 0x2 {
        Op::And
    } else if n1 == 0x8 && n4 == 0x3 {
        Op::Xor
    } else if n1 == 0x8 && n4 == 0x4 {
        Op::AddReg
    } else if n1 == 0x8 && n4 == 0x5 {
        Op::SubXY
    } else if n1 == 0x8 && n4 == 0x6 {
        Op::ShiftRight
    } else if n1 == 0x8 && n4 == 0x7 {
        Op::SubYX
    } else if n1 == 0x8 && n4 == 0xE {
        Op::ShiftLeft
    } else if n1 == 0x9 && n4 == 0x0 {
        Op::SkipNeReg
    } else if n1 == 0xA {
        Op::SetIndex
    } else if n1 == 0xB {
        Op::JumpOffset
    } else if n1 == 0xC {
        Op::Random
    } else if n1 == 0xD {
        Op::Draw
    } else if n1 == 0xE && n3 == 0x9 && n4 == 0xE {
        Op::SkipKey
    } else if n1 == 0xE && n3 == 0xA && n4 == 0x1 {
        Op::SkipNoKey
    } else if n1 == 0xF && n3 == 0x0 && n4 == 0x7 {
        Op::GetDelay
    } else if n1 == 0xF && n3 == 0x1 && n4 == 0x5 {
        Op::SetDelay
    } else if n1 == 0xF && n3 == 0x1 && n4 == 0x8 {
        Op::SetSound
    } else if n1 == 0xF && n3 == 0x1 && n4 == 0xE {
        Op::AddIndex
    } else if n1 == 0xF && n3 == 0x0 && n4 == 0xA {
        Op::WaitKey
    } else if n1 == 0xF && n3 == 0x2 && n4 == 0x9 {
        Op::FontChar
    } else if n1 == 0xF && n3 == 0x3 && n4 == 0x3 {
        Op::Bcd
    } else if n1 == 0xF && n3 == 0x5 && n4 == 0x5 {
        Op::StoreMem
    } else if n1 == 0xF && n3 == 0x6 && n4 == 0x5 {
        Op::LoadMem
    } else {
        Op::Unknown
    }
}

} // verus!
