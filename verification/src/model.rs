//! The mathematical model of a CHIP-8 machine and the meaning of one step.
use vstd::prelude::*;

use crate::instruction::{inst_of, spec_decode, Inst, Instruction};
use crate::sprite::{draw_collides, drawn_display};

verus! {

/// The abstract state of a machine.
#[verifier::ext_equal]
pub struct Chip8View {
    /// 4096 bytes of memory.
    pub ram: Seq<u8>,
    /// 64x32 pixels, row-major: pixel (x, y) is at `x + 64 * y`.
    pub display: Seq<bool>,
    /// Address of the next opcode.
    pub pc: u16,
    /// The index register I.
    pub i: u16,
    /// 16 return addresses; the first `stack_ptr` are in use.
    pub stack: Seq<u16>,
    /// Number of return addresses on the stack.
    pub stack_ptr: u16,
    pub delay_timer: u8,
    pub sound_timer: u8,
    /// Registers V0..VF; VF is the flag register.
    pub v_reg: Seq<u8>,
    /// Which of the 16 keys are held down.
    pub keypad: Seq<bool>,
    /// Operand fields of the last fetched opcode.
    pub inst: Inst,
}

/// The built-in font: five bytes per hexadecimal digit 0..F.
pub open spec fn fontset() -> Seq<u8> {
    seq![
        0xF0u8, 0x90, 0x90, 0x90, 0xF0, // 0
        0x20, 0x60, 0x20, 0x20, 0x70, // 1
        0xF0, 0x10, 0xF0, 0x80, 0xF0, // 2
        0xF0, 0x10, 0xF0, 0x10, 0xF0, // 3
        0x90, 0x90, 0xF0, 0x10, 0x10, // 4
        0xF0, 0x80, 0xF0, 0x10, 0xF0, // 5
        0xF0, 0x80, 0xF0, 0x90, 0xF0, // 6
        0xF0, 0x10, 0x20, 0x40, 0x40, // 7
        0xF0, 0x90, 0xF0, 0x90, 0xF0, // 8
        0xF0, 0x90, 0xF0, 0x10, 0xF0, // 9
        0xF0, 0x90, 0xF0, 0x90, 0x90, // A
        0xE0, 0x90, 0xE0, 0x90, 0xE0, // B
        0xF0, 0x80, 0x80, 0x80, 0xF0, // C
        0xE0, 0x90, 0x90, 0x90, 0xE0, // D
        0xF0, 0x80, 0xF0, 0x80, 0xF0, // E
        0xF0, 0x80, 0xF0, 0x80, 0x80, // F
    ]
}

/// Memory of a freshly loaded machine: the font at address 0, the program
/// at 0x200, zero elsewhere.
pub open spec fn initial_ram(rom: Seq<u8>) -> Seq<u8> {
    Seq::new(
        4096,
        |a: int|
            if a < 80 {
                fontset()[a]
            } else if 0x200 <= a < 0x200 + rom.len() {
                rom[a - 0x200]
            } else {
                0u8
            },
    )
}

/// A freshly loaded machine running `rom`.
pub open spec fn initial_state(rom: Seq<u8>) -> Chip8View {
    Chip8View {
        ram: initial_ram(rom),
        display: Seq::new(2048, |p: int| false),
        pc: 0x200,
        i: 0,
        stack: Seq::new(16, |k: int| 0u16),
        stack_ptr: 0,
        delay_timer: 0,
        sound_timer: 0,
        v_reg: Seq::new(16, |k: int| 0u8),
        keypad: Seq::new(16, |k: int| false),
        inst: Inst { x: 0, y: 0, n: 0, nn: 0, nnn: 0 },
    }
}

/// The index of the first key held down at or after `from`, or the number
/// of keys when there is none.
pub open spec fn first_pressed(keys: Seq<bool>, from: int) -> int
    decreases keys.len() - from,
{
    if from >= keys.len() {
        keys.len() as int
    } else if keys[from] {
        from
    } else {
        first_pressed(keys, from + 1)
    }
}

/// Why a step cannot be taken.
#[derive(Debug, Clone, Copy, PartialEq, Eq, Structural)]
pub enum StepFault {
    /// The opcode at the program counter lies (partly) outside memory.
    PcOutOfRange,
    /// A call with all 16 stack slots in use.
    StackFull,
    /// A return with an empty stack.
    StackEmpty,
    /// A sprite whose rows extend past the end of memory.
    SpriteOutOfRange,
}

impl Chip8View {
    /// The shape every reachable state has.
    pub open spec fn wf(self) -> bool {
        &&& self.ram.len() == 4096
        &&& self.display.len() == 2048
        &&& self.stack.len() == 16
        &&& self.stack_ptr <= 16
        &&& self.v_reg.len() == 16
        &&& self.keypad.len() == 16
    }

    /// The big-endian opcode stored at `addr` and `addr + 1`.
    pub open spec fn opcode_at(self, addr: int) -> u16 {
        (self.ram[addr] as int * 256 + self.ram[addr + 1] as int) as u16
    }

    /// The opcode at the program counter.
    pub open spec fn current_opcode(self) -> u16 {
        self.opcode_at(self.pc as int)
    }

    /// The instruction at the program counter.
    pub open spec fn current_instruction(self) -> Instruction {
        spec_decode(self.current_opcode())
    }

    /// Why the next step cannot be taken, if it cannot.
    pub open spec fn fault(self) -> Option<StepFault> {
        if self.pc as int + 1 >= 4096 {
            Some(StepFault::PcOutOfRange)
        } else {
            match self.current_instruction() {
                Instruction::Call { .. } => if self.stack_ptr >= 16 {
                    Some(StepFault::StackFull)
                } else {
                    None
                },
                Instruction::Return => if self.stack_ptr == 0 {
                    Some(StepFault::StackEmpty)
                } else {
                    None
                },
                Instruction::Draw { n, .. } => if n > 0 && self.i + n > 4096 {
                    Some(StepFault::SpriteOutOfRange)
                } else {
                    None
                },
                _ => None,
            }
        }
    }

    /// The machine is well formed and its next step is defined.
    pub open spec fn can_step(self) -> bool {
        self.wf() && self.fault() is None
    }

    /// Register VX.
    pub open spec fn reg(self, x: u8) -> u8 {
        self.v_reg[x as int]
    }

    /// The state with VX set to `val`.
    pub open spec fn set_reg(self, x: u8, val: u8) -> Chip8View {
        Chip8View { v_reg: self.v_reg.update(x as int, val), ..self }
    }

    /// The state with the next instruction skipped when `cond` holds.
    pub open spec fn skip_if(self, cond: bool) -> Chip8View {
        if cond {
            Chip8View { pc: (self.pc + 2) as u16, ..self }
        } else {
            self
        }
    }

    /// The state after fetching the opcode at the program counter.
    pub open spec fn fetched(self) -> Chip8View {
        Chip8View { pc: (self.pc + 2) as u16, inst: inst_of(self.current_opcode()), ..self }
    }

    /// The effect of executing `ins` once it has been fetched.
    pub open spec fn apply(self, ins: Instruction) -> Chip8View {
        match ins {
            Instruction::ClearScreen => Chip8View { display: Seq::new(2048, |p: int| false), ..self },
            Instruction::Jump { nnn } => Chip8View { pc: nnn, ..self },
            Instruction::Call { nnn } => Chip8View {
                stack: self.stack.update(self.stack_ptr as int, self.pc),
                stack_ptr: (self.stack_ptr + 1) as u16,
                pc: nnn,
                ..self
            },
            Instruction::Return => Chip8View {
                stack_ptr: (self.stack_ptr - 1) as u16,
                pc: self.stack[self.stack_ptr - 1],
                ..self
            },
            Instruction::SkipIfEqual { x, nn } => self.skip_if(self.reg(x) == nn),
            Instruction::SkipIfNotEqual { x, nn } => self.skip_if(self.reg(x) != nn),
            Instruction::SkipIfRegistersEqual { x, y } => self.skip_if(self.reg(x) == self.reg(y)),
            Instruction::SetRegister { x, nn } => self.set_reg(x, nn),
            Instruction::AddToRegister { x, nn } => self.set_reg(
                x,
                ((self.reg(x) + nn) % 256) as u8,
            ),
            Instruction::CopyRegister { x, y } => self.set_reg(x, self.reg(y)),
            Instruction::Or { x, y } => self.set_reg(x, self.reg(x) | self.reg(y)),
            Instruction::And { x, y } => self.set_reg(x, self.reg(x) & self.reg(y)),
            Instruction::Xor { x, y } => self.set_reg(x, self.reg(x) ^ self.reg(y)),
            Instruction::AddRegisters { x, y } => self.set_reg(
                x,
                ((self.reg(x) + self.reg(y)) % 256) as u8,
            ).set_reg(
                15,
                if self.reg(x) + self.reg(y) > 255 {
                    1u8
                } else {
                    0u8
                },
            ),
            Instruction::SubRegisters { x, y } => self.set_reg(
                x,
                ((self.reg(x) - self.reg(y) + 256) % 256) as u8,
            ).set_reg(
                15,
                if self.reg(x) >= self.reg(y) {
                    1u8
                } else {
                    0u8
                },
            ),
            Instruction::ShiftRight { x } => self.set_reg(x, self.reg(x) / 2).set_reg(
                15,
                self.reg(x) % 2,
            ),
            Instruction::SubReversed { x, y } => self.set_reg(
                x,
                ((self.reg(y) - self.reg(x) + 256) % 256) as u8,
            ).set_reg(
                15,
                if self.reg(y) >= self.reg(x) {
                    1u8
                } else {
                    0u8
                },
            ),
            Instruction::ShiftLeft { x } => self.set_reg(
                x,
                ((self.reg(x) * 2) % 256) as u8,
            ).set_reg(15, self.reg(x) / 128),
            Instruction::SkipIfRegistersNotEqual { x, y } => self.skip_if(
                self.reg(x) != self.reg(y),
            ),
            Instruction::SetIndex { nnn } => Chip8View { i: nnn, ..self },
            Instruction::Draw { x, y, n } => self.draw(x, y, n),
            Instruction::ReadDelayTimer { x } => self.set_reg(x, self.delay_timer),
            Instruction::WaitForKey { x } => {
                let k = first_pressed(self.keypad, 0);
                if k < 16 {
                    self.set_reg(x, k as u8)
                } else {
                    Chip8View { pc: (self.pc - 2) as u16, ..self }
                }
            },
            Instruction::SetDelayTimer { x } => Chip8View { delay_timer: self.reg(x), ..self },
            Instruction::SetSoundTimer { x } => Chip8View { sound_timer: self.reg(x), ..self },
            Instruction::AddToIndex { x } => Chip8View {
                i: ((self.i + self.reg(x)) % 65536) as u16,
                ..self
            },
            Instruction::FontCharacter { x } => Chip8View { i: (self.reg(x) * 5) as u16, ..self },
            Instruction::StoreBcd { .. } => self,
            Instruction::StoreRegisters { .. } => self,
            Instruction::LoadRegisters { .. } => self,
            Instruction::Unknown => self,
        }
    }

    /// `DXYN`: the sprite of `n` rows at I is drawn with its top-left corner
    /// at (VX mod 64, VY mod 32); VF is 1 exactly when a pixel that was on
    /// is turned off.
    pub open spec fn draw(self, x: u8, y: u8, n: u8) -> Chip8View {
        let x0 = self.reg(x) as int % 64;
        let y0 = self.reg(y) as int % 32;
        Chip8View {
            display: drawn_display(self.display, self.ram, self.i as int, n as int, x0, y0),
            v_reg: self.v_reg.update(
                15,
                if draw_collides(self.display, self.ram, self.i as int, n as int, x0, y0) {
                    1u8
                } else {
                    0u8
                },
            ),
            ..self
        }
    }

    /// One fetch/decode/execute cycle.
    pub open spec fn step(self) -> Chip8View {
        self.fetched().apply(self.current_instruction())
    }
}

} // verus!
