use vstd::prelude::*;

use crate::Fault;

verus! {

/// Memory address at which a loaded program begins.
pub const START_ADDRESS: u16 = 0x200;

/// First memory address of the built-in font glyphs.
pub const FONT_BASE: u16 = 0x50;

/// The interpreter's whole mutable state: sixteen 8-bit registers, 4096
/// bytes of memory, the index register, the program counter, a 16-entry
/// call stack with its stack pointer, two countdown timers, the 16-key
/// keypad, the 64x32 monochrome framebuffer, and the instruction word
/// currently being executed.
pub struct Chip8 {
    pub registers: Vec<u8>,
    pub mem: Vec<u8>,
    pub index_register: u16,
    pub pc: u16,
    pub stack: Vec<u16>,
    pub sp: u8,
    pub delay_timer: u8,
    pub sound_timer: u8,
    pub input_keys: Vec<bool>,
    pub display: Vec<bool>,
    pub opcode: u16,
}

/// The mathematical model of the machine: every `Chip8` field as a plain
/// value or a sequence. All contracts speak of this view.
pub ghost struct MachineView {
    pub registers: Seq<u8>,
    pub mem: Seq<u8>,
    pub index_register: u16,
    pub pc: u16,
    pub stack: Seq<u16>,
    pub sp: u8,
    pub delay_timer: u8,
    pub sound_timer: u8,
    pub keys: Seq<bool>,
    pub fb: Seq<bool>,
    pub opcode: u16,
}

impl View for Chip8 {
    type V = MachineView;

    open spec fn view(&self) -> MachineView {
        MachineView {
            registers: self.registers@,
            mem: self.mem@,
            index_register: self.index_register,
            pc: self.pc,
            stack: self.stack@,
            sp: self.sp,
            delay_timer: self.delay_timer,
            sound_timer: self.sound_timer,
            keys: self.input_keys@,
            fb: self.display@,
            opcode: self.opcode,
        }
    }
}

impl MachineView {
    /// The machine's capacities: 16 registers, 4096 bytes of memory, a
    /// 16-deep call stack whose pointer never passes 16, 16 keys, and a
    /// 64x32 framebuffer.
    pub open spec fn wf(self) -> bool {
        &&& self.registers.len() == 16
        &&& self.mem.len() == 4096
        &&& self.stack.len() == 16
        &&& self.sp <= 16
        &&& self.keys.len() == 16
        &&& self.fb.len() == 2048
    }
}

/// The sixteen 5-byte font glyphs for the hexadecimal digits 0 through F,
/// as they sit in memory starting at `FONT_BASE`.
pub open spec fn font_seq() -> Seq<u8> {
    seq![
        0xF0u8, 0x90, 0x90, 0x90, 0xF0, // 0
        0x20, 0x60, 0x20, 0x20, 0x70, // 1
        0xF0, 0x10, 0xF0, 0x80, 0xF0, // 2
        0xF0, 0x10, 0xF0, 0x10, 0xF0, // 3
        0x90, 0x90, 0xF0, 0x10, 0x10, // 4
        0xF0, 0x80, 0xF0, 0x10, 0xF0, // 5
        0xF0, 0x80, 0xF0, 0x90, 0xF0, // 6
        0xF0, 0x10, 0x20, 0x40, 0x40, // 7
        0xF0, 0x90, 0xF0, 0x90, 0xF0, // 8
        0xF0, 0x90, 0xF0, 0x10, 0xF0, // 9
        0xF0, 0x90, 0xF0, 0x90, 0x90, // A
        0xE0, 0x90, 0xE0, 0x90, 0xE0, // B
        0xF0, 0x80, 0x80, 0x80, 0xF0, // C
        0xE0, 0x90, 0x90, 0x90, 0xE0, // D
        0xF0, 0x80, 0xF0, 0x80, 0xF0, // E
        0xF0, 0x80, 0xF0, 0x80, 0x80, // F
    ]
}

/// The initial machine: memory zero except the font glyphs at
/// `FONT_BASE`, the program counter at `START_ADDRESS`, and every
/// register, timer, key, stack slot and pixel cleared.
pub open spec fn spec_new() -> MachineView {
    MachineView {
        registers: Seq::new(16, |i: int| 0u8),
        mem: Seq::new(
            4096,
            |i: int|
                if FONT_BASE <= i < FONT_BASE + 80 {
                    font_seq()[i - FONT_BASE]
                } else {
                    0u8
                },
        ),
        index_register: 0,
        pc: START_ADDRESS,
        stack: Seq::new(16, |i: int| 0u16),
        sp: 0,
        delay_timer: 0,
        sound_timer: 0,
        keys: Seq::new(16, |i: int| false),
        fb: Seq::new(2048, |i: int| false),
        opcode: 0,
    }
}

impl Chip8 {
    /// Builds the initial machine described by `spec_new`.
    pub fn new() -> (m: Chip8)
        ensures
            m@ == spec_new(),
            m@.wf(),
    {
        let mut mem: Vec<u8> = Vec::new();
        let mut k: usize = 0;
        while k < 4096
            invariant
                k <= 4096,
                mem@.len() == k,
                forall|i: int| 0 <= i < k ==> mem@[i] == 0u8,
            decreases 4096 - k,
        {
            mem.push(0u8);
            k = k + 1;
        }
        let font = font_data();
        let mut g: usize = 0;
        while g < 80
            invariant
                g <= 80,
                mem@.len() == 4096,
                font@ == font_seq(),
                forall|i: int|
                    0 <= i < 4096 && !(FONT_BASE <= i < FONT_BASE + g) ==> mem@[i] == 0u8,
                forall|i: int|
                    FONT_BASE <= i < FONT_BASE + g ==> mem@[i] == font_seq()[i - FONT_BASE],
            decreases 80 - g,
        {
            mem.set(0x50 + g, font[g]);
            g = g + 1;
        }
        let mut registers: Vec<u8> = Vec::new();
        let mut stack: Vec<u16> = Vec::new();
        let mut input_keys: Vec<bool> = Vec::new();
        let mut j: usize = 0;
        while j < 16
            invariant
                j <= 16,
                registers@.len() == j,
                stack@.len() == j,
                input_keys@.len() == j,
                forall|i: int| 0 <= i < j ==> registers@[i] == 0u8,
                forall|i: int| 0 <= i < j ==> stack@[i] == 0u16,
                forall|i: int| 0 <= i < j ==> input_keys@[i] == false,
            decreases 16 - j,
        {
            registers.push(0u8);
            stack.push(0u16);
            input_keys.push(false);
            j = j + 1;
        }
        let mut display: Vec<bool> = Vec::new();
        let mut p: usize = 0;
        while p < 2048
            invariant
                p <= 2048,
                display@.len() == p,
                forall|i: int| 0 <= i < p ==> display@[i] == false,
            decreases 2048 - p,
        {
            display.push(false);
            p = p + 1;
        }
        let m = Chip8 {
            registers,
            mem,
            index_register: 0,
            pc: START_ADDRESS,
            stack,
            sp: 0,
            delay_timer: 0,
            sound_timer: 0,
            input_keys,
            display,
            opcode: 0,
        };
        proof {
            assert(m@.registers =~= spec_new().registers);
            assert(m@.mem =~= spec_new().mem);
            assert(m@.stack =~= spec_new().stack);
            assert(m@.keys =~= spec_new().keys);
            assert(m@.fb =~= spec_new().fb);
        }
        m
    }
}

/// The machine's memory with a program copied in verbatim from
/// `START_ADDRESS` on.
pub open spec fn spec_load_rom(s: MachineView, rom: Seq<u8>) -> MachineView {
    MachineView {
        mem: Seq::new(
            4096,
            |i: int|
                if START_ADDRESS <= i < START_ADDRESS + rom.len() {
                    rom[i - START_ADDRESS]
                } else {
                    s.mem[i]
                },
        ),
        ..s
    }
}

impl Chip8 {
    /// Copies a program's bytes into memory starting at `START_ADDRESS`.
    /// A program longer than the 3584 bytes of memory from there up
    /// faults, and nothing is copied.
    pub fn load_rom(&mut self, rom: &Vec<u8>) -> (r: Result<(), Fault>)
        requires
            old(self)@.wf(),
        ensures
            final(self)@.wf(),
            rom@.len() <= 3584 ==> r == Ok::<(), Fault>(()) && final(self)@ == spec_load_rom(
                old(self)@,
                rom@,
            ),
            rom@.len() > 3584 ==> r == Err::<(), Fault>(Fault::MemOutOfBounds) && final(self)@
                == old(self)@,
    {
        if rom.len() > 3584 {
            return Err(Fault::MemOutOfBounds);
        }
        let mut k: usize = 0;
        while k < rom.len()
            invariant
                old(self)@.wf(),
                rom@.len() <= 3584,
                k <= rom@.len(),
                self@ == (MachineView { mem: self@.mem, ..old(self)@ }),
                self@.mem.len() == 4096,
                forall|j: int| 0x200 <= j < 0x200 + k ==> self@.mem[j] == rom@[j - 0x200],
                forall|j: int|
                    0 <= j < 4096 && !(0x200 <= j < 0x200 + k) ==> self@.mem[j] == old(
                        self,
                    )@.mem[j],
            decreases rom@.len() - k,
        {
            let b = rom[k];
            self.mem[0x200 + k] = b;
            k = k + 1;
        }
        proof {
            assert(self@.mem =~= spec_load_rom(old(self)@, rom@).mem);
        }
        Ok(())
    }

    /// Applies a host key-down or key-up event to keypad slot `key`.
    pub fn set_key(&mut self, key: usize, pressed: bool)
        requires
            old(self)@.wf(),
            key < 16,
        ensures
            final(self)@.wf(),
            final(self)@ == (MachineView {
                keys: old(self)@.keys.update(key as int, pressed),
                ..old(self)@
            }),
    {
        self.input_keys[key] = pressed;
    }
}

/// The font glyph bytes as executable data, equal to `font_seq`.
fn font_data() -> (r: Vec<u8>)
    ensures
        r@ == font_seq(),
{
    let mut v: Vec<u8> = Vec::new();
    v.push(0xF0);
    v.push(0x90);
    v.push(0x90);
    v.push(0x90);
    v.push(0xF0);
    v.push(0x20);
    v.push(0x60);
    v.push(0x20);
    v.push(0x20);
    v.push(0x70);
    v.push(0xF0);
    v.push(0x10);
    v.push(0xF0);
    v.push(0x80);
    v.push(0xF0);
    v.push(0xF0);
    v.push(0x10);
    v.push(0xF0);
    v.push(0x10);
    v.push(0xF0);
    v.push(0x90);
    v.push(0x90);
    v.push(0xF0);
    v.push(0x10);
    v.push(0x10);
    v.push(0xF0);
    v.push(0x80);
    v.push(0xF0);
    v.push(0x10);
    v.push(0xF0);
    v.push(0xF0);
    v.push(0x80);
    v.push(0xF0);
    v.push(0x90);
    v.push(0xF0);
    v.push(0xF0);
    v.push(0x10);
    v.push(0x20);
    v.push(0x40);
    v.push(0x40);
    v.push(0xF0);
    v.push(0x90);
    v.push(0xF0);
    v.push(0x90);
    v.push(0xF0);
    v.push(0xF0);
    v.push(0x90);
    v.push(0xF0);
    v.push(0x10);
    v.push(0xF0);
    v.push(0xF0);
    v.push(0x90);
    v.push(0xF0);
    v.push(0x90);
    v.push(0x90);
    v.push(0xE0);
    v.push(0x90);
    v.push(0xE0);
    v.push(0x90);
    v.push(0xE0);
    v.push(0xF0);
    v.push(0x80);
    v.push(0x80);
    v.push(0x80);
    v.push(0xF0);
    v.push(0xE0);
    v.push(0x90);
    v.push(0x90);
    v.push(0x90);
    v.push(0xE0);
    v.push(0xF0);
    v.push(0x80);
    v.push(0xF0);
    v.push(0x80);
    v.push(0xF0);
    v.push(0xF0);
    v.push(0x80);
    v.push(0xF0);
    v.push(0x80);
    v.push(0x80);
    proof {
        assert(v@ =~= font_seq());
    }
    v
}

} // verus!
