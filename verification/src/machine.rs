//! The executable CHIP-8 machine.
use vstd::prelude::*;

use crate::instruction::{decode, spec_decode, Inst, Instruction};
use crate::model::{first_pressed, fontset, initial_state, Chip8View};
use crate::sprite::draw_sprite;
use crate::{MAX_ROM_SIZE, START_ADDR};

pub use crate::model::StepFault;

verus! {

/// A CHIP-8 machine: memory, screen, registers, stack, timers and keypad.
#[derive(Debug)]
pub struct Chip8 {
    ram: [u8; 4096],
    display: [bool; 2048],
    pc: u16,
    i: u16,
    stack: [u16; 16],
    stack_ptr: u16,
    delay_timer: u8,
    sound_timer: u8,
    v_reg: [u8; 16],
    keypad: [bool; 16],
    inst: Inst,
}

impl View for Chip8 {
    type V = Chip8View;

    closed spec fn view(&self) -> Chip8View {
        Chip8View {
            ram: self.ram@,
            display: self.display@,
            pc: self.pc,
            i: self.i,
            stack: self.stack@,
            stack_ptr: self.stack_ptr,
            delay_timer: self.delay_timer,
            sound_timer: self.sound_timer,
            v_reg: self.v_reg@,
            keypad: self.keypad@,
            inst: self.inst,
        }
    }
}

/// The built-in font as it is copied into memory.
fn font_bytes() -> (f: [u8; 80])
    ensures
        f@ == fontset(),
{
    let f: [u8; 80] = [
        0xF0, 0x90, 0x90, 0x90, 0xF0, // 0
        0x20, 0x60, 0x20, 0x20, 0x70, // 1
        0xF0, 0x10, 0xF0, 0x80, 0xF0, // 2
        0xF0, 0x10, 0xF0, 0x10, 0xF0, // 3
        0x90, 0x90, 0xF0, 0x10, 0x10, // 4
        0xF0, 0x80, 0xF0, 0x10, 0xF0, // 5
        0xF0, 0x80, 0xF0, 0x90, 0xF0, // 6
        0xF0, 0x10, 0x20, 0x40, 0x40, // 7
        0xF0, 0x90, 0xF0, 0x90, 0xF0, // 8
        0xF0, 0x90, 0xF0, 0x10, 0xF0, // 9
        0xF0, 0x90, 0xF0, 0x90, 0x90, // A
        0xE0, 0x90, 0xE0, 0x90, 0xE0, // B
        0xF0, 0x80, 0x80, 0x80, 0xF0, // C
        0xE0, 0x90, 0x90, 0x90, 0xE0, // D
        0xF0, 0x80, 0xF0, 0x80, 0xF0, // E
        0xF0, 0x80, 0xF0, 0x80, 0x80, // F
    ];
    assert(f@ =~= fontset());
    f
}

/// Whether `ins` can be carried out on `s` once it has been fetched.
spec fn performable(s: Chip8View, ins: Instruction) -> bool {
    &&& s.wf()
    &&& 2 <= s.pc <= 4096
    &&& match ins {
        Instruction::Call { .. } => s.stack_ptr < 16,
        Instruction::Return => s.stack_ptr > 0,
        Instruction::Draw { x, y, n } => x < 16 && y < 16 && n < 16 && (n == 0 || s.i + n
            <= 4096),
        Instruction::SkipIfEqual { x, .. } => x < 16,
        Instruction::SkipIfNotEqual { x, .. } => x < 16,
        Instruction::SkipIfRegistersEqual { x, y } => x < 16 && y < 16,
        Instruction::SetRegister { x, .. } => x < 16,
        Instruction::AddToRegister { x, .. } => x < 16,
        Instruction::CopyRegister { x, y } => x < 16 && y < 16,
        Instruction::Or { x, y } => x < 16 && y < 16,
        Instruction::And { x, y } => x < 16 && y < 16,
        Instruction::Xor { x, y } => x < 16 && y < 16,
        Instruction::AddRegisters { x, y } => x < 16 && y < 16,
        Instruction::SubRegisters { x, y } => x < 16 && y < 16,
        Instruction::ShiftRight { x } => x < 16,
        Instruction::SubReversed { x, y } => x < 16 && y < 16,
        Instruction::ShiftLeft { x } => x < 16,
        Instruction::SkipIfRegistersNotEqual { x, y } => x < 16 && y < 16,
        Instruction::ReadDelayTimer { x } => x < 16,
        Instruction::WaitForKey { x } => x < 16,
        Instruction::SetDelayTimer { x } => x < 16,
        Instruction::SetSoundTimer { x } => x < 16,
        Instruction::AddToIndex { x } => x < 16,
        Instruction::FontCharacter { x } => x < 16,
        _ => true,
    }
}

proof fn lemma_shift_bits(v: u8)
    ensures
        v & 1 == v % 2,
        v >> 1 == v / 2,
        (v >> 7) & 1 == v / 128,
        v << 1 == (v * 2) % 256,
{
    assert(v & 1 == v % 2) by (bit_vector);
    assert(v >> 1 == v / 2) by (bit_vector);
    assert((v >> 7) & 1 == v / 128) by (bit_vector);
    assert(v << 1 == (v * 2) % 256) by (bit_vector);
}

proof fn lemma_opcode_bytes(high: u8, low: u8)
    ensures
        ((high as u16) << 8) | (low as u16) == high as int * 256 + low as int,
{
    assert(((high as u16) << 8) | (low as u16) == high as int * 256 + low as int) by (bit_vector);
}

impl Chip8 {
    /// The stack never holds more than 16 return addresses.
    #[verifier::type_invariant]
    spec fn stack_fits(self) -> bool {
        self.stack_ptr <= 16
    }

    /// A machine with the font at address 0 and `rom` loaded at 0x200,
    /// ready to run from 0x200 with everything else zero.
    pub fn new(rom: &[u8]) -> (chip8: Chip8)
        requires
            rom@.len() <= MAX_ROM_SIZE,
        ensures
            chip8@ == initial_state(rom@),
            chip8@.wf(),
    {
        let mut chip8 = Chip8 {
            ram: [0u8; 4096],
            display: [false; 2048],
            pc: START_ADDR,
            i: 0,
            stack: [0u16; 16],
            stack_ptr: 0,
            delay_timer: 0,
            sound_timer: 0,
            v_reg: [0u8; 16],
            keypad: [false; 16],
            inst: Inst::new(),
        };
        let font = font_bytes();
        let mut a: usize = 0;
        while a < 80
            invariant
                a <= 80,
                font@ == fontset(),
                chip8.ram@.len() == 4096,
                forall|k: int| 0 <= k < a ==> chip8.ram@[k] == fontset()[k],
                forall|k: int| a <= k < 4096 ==> chip8.ram@[k] == 0,
                chip8.display@ == Seq::new(2048, |p: int| false),
                chip8.pc == 0x200,
                chip8.i == 0,
                chip8.stack@ == Seq::new(16, |k: int| 0u16),
                chip8.stack_ptr == 0,
                chip8.delay_timer == 0,
                chip8.sound_timer == 0,
                chip8.v_reg@ == Seq::new(16, |k: int| 0u8),
                chip8.keypad@ == Seq::new(16, |k: int| false),
                chip8.inst == (Inst { x: 0, y: 0, n: 0, nn: 0, nnn: 0 }),
            decreases 80 - a,
        {
            chip8.ram[a] = font[a];
            a = a + 1;
        }
        chip8.load_chip(rom);
        assert(chip8@ =~= initial_state(rom@));
        chip8
    }

    /// Copies `rom` into memory at the start address.
    fn load_chip(&mut self, rom: &[u8])
        requires
            rom@.len() <= 3584,
        ensures
            final(self)@ == (Chip8View {
                ram: Seq::new(
                    4096,
                    |a: int|
                        if 0x200 <= a < 0x200 + rom@.len() {
                            rom@[a - 0x200]
                        } else {
                            old(self).ram@[a]
                        },
                ),
                ..old(self)@
            }),
    {
        proof {
            use_type_invariant(&*self);
        }
        let start: usize = START_ADDR as usize;
        let mut k: usize = 0;
        while k < rom.len()
            invariant
                start == 0x200,
                k <= rom@.len(),
                rom@.len() <= 3584,
                self.ram@.len() == 4096,
                forall|a: int|
                    0 <= a < 4096 ==> self.ram@[a] == if 0x200 <= a < 0x200 + k {
                        rom@[a - 0x200]
                    } else {
                        old(self).ram@[a]
                    },
                self.display == old(self).display,
                self.pc == old(self).pc,
                self.i == old(self).i,
                self.stack == old(self).stack,
                self.stack_ptr == old(self).stack_ptr,
                self.stack_ptr <= 16,
                self.delay_timer == old(self).delay_timer,
                self.sound_timer == old(self).sound_timer,
                self.v_reg == old(self).v_reg,
                self.keypad == old(self).keypad,
                self.inst == old(self).inst,
            decreases rom@.len() - k,
        {
            self.ram[start + k] = rom[k];
            k = k + 1;
        }
        assert(self.ram@ =~= Seq::new(
            4096,
            |a: int|
                if 0x200 <= a < 0x200 + rom@.len() {
                    rom@[a - 0x200]
                } else {
                    old(self).ram@[a]
                },
        ));
    }

    /// The screen, row-major: pixel (x, y) is at index `x + 64 * y`.
    pub fn get_display(&self) -> (display: &[bool])
        ensures
            display@ == self@.display,
            display@.len() == 2048,
    {
        &self.display
    }

    /// Reads the opcode at the program counter and advances past it.
    fn extract_opcode(&mut self) -> (opcode: u16)
        requires
            old(self)@.wf(),
            old(self).pc + 1 < 4096,
        ensures
            opcode == old(self)@.current_opcode(),
            final(self)@ == (Chip8View { pc: (old(self).pc + 2) as u16, ..old(self)@ }),
    {
        let high_byte = self.ram[self.pc as usize];
        let low_byte = self.ram[self.pc as usize + 1];
        self.pc += 2;
        proof {
            lemma_opcode_bytes(high_byte, low_byte);
        }
        ((high_byte as u16) << 8) | (low_byte as u16)
    }

    /// Why the next step cannot be taken, if it cannot: the conditions under
    /// which `execute` would stop the program.
    pub fn step_fault(&self) -> (fault: Option<StepFault>)
        ensures
            fault == self@.fault(),
    {
        if self.pc as usize + 1 >= 4096 {
            return Some(StepFault::PcOutOfRange);
        }
        let high_byte = self.ram[self.pc as usize];
        let low_byte = self.ram[self.pc as usize + 1];
        proof {
            lemma_opcode_bytes(high_byte, low_byte);
        }
        let opcode = ((high_byte as u16) << 8) | (low_byte as u16);
        match decode(opcode) {
            Instruction::Call { .. } => if self.stack_ptr >= 16 {
                Some(StepFault::StackFull)
            } else {
                None
            },
            Instruction::Return => if self.stack_ptr == 0 {
                Some(StepFault::StackEmpty)
            } else {
                None
            },
            Instruction::Draw { n, .. } => if n > 0 && self.i as usize + n as usize > 4096 {
                Some(StepFault::SpriteOutOfRange)
            } else {
                None
            },
            _ => None,
        }
    }

    /// Runs one fetch/decode/execute cycle.
    pub fn execute(&mut self)
        requires
            old(self)@.fault() is None,
        ensures
            final(self)@ == old(self)@.step(),
            final(self)@.wf(),
    {
        proof {
            use_type_invariant(&*self);
        }
        let opcode = self.extract_opcode();
        self.inst = Inst::from_opcode(opcode);
        let ins = decode(opcode);
        assert(self@ == old(self)@.fetched());
        self.perform(ins);
    }

    /// Carries out a fetched instruction.
    fn perform(&mut self, ins: Instruction)
        requires
            performable(old(self)@, ins),
        ensures
            final(self)@ == old(self)@.apply(ins),
    {
        match ins {
            Instruction::ClearScreen => {
                self.display = [false; 2048];
                assert(self.display@ =~= Seq::new(2048, |p: int| false));
            },
            Instruction::Jump { nnn } => {
                self.pc = nnn;
            },
            Instruction::Call { nnn } => {
                self.stack[self.stack_ptr as usize] = self.pc;
                self.stack_ptr += 1;
                self.pc = nnn;
            },
            Instruction::Return => {
                self.stack_ptr -= 1;
                self.pc = self.stack[self.stack_ptr as usize];
            },
            Instruction::SkipIfEqual { x, nn } => {
                if self.v_reg[x as usize] == nn {
                    self.pc += 2;
                }
            },
            Instruction::SkipIfNotEqual { x, nn } => {
                if self.v_reg[x as usize] != nn {
                    self.pc += 2;
                }
            },
            Instruction::SkipIfRegistersEqual { x, y } => {
                if self.v_reg[x as usize] == self.v_reg[y as usize] {
                    self.pc += 2;
                }
            },
            Instruction::SetRegister { x, nn } => {
                self.v_reg[x as usize] = nn;
            },
            Instruction::AddToRegister { x, nn } => {
                self.v_reg[x as usize] = self.v_reg[x as usize].wrapping_add(nn);
            },
            Instruction::CopyRegister { x, y } => {
                self.v_reg[x as usize] = self.v_reg[y as usize];
            },
            Instruction::Or { x, y } => {
                self.v_reg[x as usize] = self.v_reg[x as usize] | self.v_reg[y as usize];
            },
            Instruction::And { x, y } => {
                self.v_reg[x as usize] = self.v_reg[x as usize] & self.v_reg[y as usize];
            },
            Instruction::Xor { x, y } => {
                self.v_reg[x as usize] = self.v_reg[x as usize] ^ self.v_reg[y as usize];
            },
            Instruction::AddRegisters { x, y } => {
                let vx = self.v_reg[x as usize];
                let vy = self.v_reg[y as usize];
                let overflow = vx as u16 + vy as u16 > 255;
                let value = vx.wrapping_add(vy);
                let rest: u8 = if overflow {
                    1
                } else {
                    0
                };
                self.v_reg[x as usize] = value;
                self.v_reg[0xF] = rest;
            },
            Instruction::SubRegisters { x, y } => {
                let vx = self.v_reg[x as usize];
                let vy = self.v_reg[y as usize];
                let underflow = vx < vy;
                let value = vx.wrapping_sub(vy);
                let rest: u8 = if underflow {
                    0
                } else {
                    1
                };
                self.v_reg[x as usize] = value;
                self.v_reg[0xF] = rest;
            },
            Instruction::ShiftRight { x } => {
                let vx = self.v_reg[x as usize];
                proof {
                    lemma_shift_bits(vx);
                }
                let least_bit = vx & 1;
                self.v_reg[x as usize] = vx >> 1;
                self.v_reg[0xF] = least_bit;
            },
            Instruction::SubReversed { x, y } => {
                let vx = self.v_reg[x as usize];
                let vy = self.v_reg[y as usize];
                let underflow = vy < vx;
                let value = vy.wrapping_sub(vx);
                let rest: u8 = if underflow {
                    0
                } else {
                    1
                };
                self.v_reg[x as usize] = value;
                self.v_reg[0xF] = rest;
            },
            Instruction::ShiftLeft { x } => {
                let vx = self.v_reg[x as usize];
                proof {
                    lemma_shift_bits(vx);
                }
                let most_sig = (vx >> 7) & 1;
                self.v_reg[x as usize] = vx << 1;
                self.v_reg[0xF] = most_sig;
            },
            Instruction::SkipIfRegistersNotEqual { x, y } => {
                if self.v_reg[x as usize] != self.v_reg[y as usize] {
                    self.pc += 2;
                }
            },
            Instruction::SetIndex { nnn } => {
                self.i = nnn;
            },
            Instruction::Draw { x, y, n } => {
                let x_coords = self.v_reg[x as usize] as usize % 64;
                let y_coords = self.v_reg[y as usize] as usize % 32;
                let collision = draw_sprite(&mut self.display, &self.ram, self.i, n, x_coords, y_coords);
                self.v_reg[0xF] = if collision {
                    1
                } else {
                    0
                };
            },
            Instruction::ReadDelayTimer { x } => {
                self.v_reg[x as usize] = self.delay_timer;
            },
            Instruction::WaitForKey { x } => {
                let mut k: usize = 0;
                while k < 16 && !self.keypad[k]
                    invariant
                        k <= 16,
                        self.keypad@.len() == 16,
                        first_pressed(self.keypad@, 0) == first_pressed(self.keypad@, k as int),
                    decreases 16 - k,
                {
                    k = k + 1;
                }
                if k < 16 {
                    self.v_reg[x as usize] = k as u8;
                } else {
                    self.pc -= 2;
                }
            },
            Instruction::SetDelayTimer { x } => {
                self.delay_timer = self.v_reg[x as usize];
            },
            Instruction::SetSoundTimer { x } => {
                self.sound_timer = self.v_reg[x as usize];
            },
            Instruction::AddToIndex { x } => {
                self.i = self.i.wrapping_add(self.v_reg[x as usize] as u16);
            },
            Instruction::FontCharacter { x } => {
                self.i = self.v_reg[x as usize] as u16 * 5;
            },
            Instruction::StoreBcd { .. } => {},
            Instruction::StoreRegisters { .. } => {},
            Instruction::LoadRegisters { .. } => {},
            Instruction::Unknown => {},
        }
    }
    /// The program counter.
    pub fn pc(&self) -> (pc: u16)
        ensures
            pc == self@.pc,
    {
        self.pc
    }

    /// The index register I.
    pub fn index_register(&self) -> (i: u16)
        ensures
            i == self@.i,
    {
        self.i
    }

    /// Registers V0..VF.
    pub fn registers(&self) -> (v: &[u8])
        ensures
            v@ == self@.v_reg,
            v@.len() == 16,
    {
        &self.v_reg
    }

    /// Number of return addresses on the stack.
    pub fn stack_pointer(&self) -> (sp: u16)
        ensures
            sp == self@.stack_ptr,
            sp <= 16,
    {
        proof {
            use_type_invariant(self);
        }
        self.stack_ptr
    }

    /// The delay timer.
    pub fn delay_timer(&self) -> (t: u8)
        ensures
            t == self@.delay_timer,
    {
        self.delay_timer
    }

    /// The sound timer.
    pub fn sound_timer(&self) -> (t: u8)
        ensures
            t == self@.sound_timer,
    {
        self.sound_timer
    }

    /// The 4096 bytes of memory.
    pub fn memory(&self) -> (ram: &[u8])
        ensures
            ram@ == self@.ram,
            ram@.len() == 4096,
    {
        &self.ram
    }

    /// Marks keypad key `key` as held down or released.
    pub fn set_key(&mut self, key: usize, pressed: bool)
        requires
            key < 16,
        ensures
            final(self)@ == (Chip8View { keypad: old(self)@.keypad.update(key as int, pressed), ..old(self)@ }),
            final(self)@.wf(),
    {
        proof {
            use_type_invariant(&*self);
        }
        self.keypad[key] = pressed;
    }
}

} // verus!
