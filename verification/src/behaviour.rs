//! What the operations do, stated directly over opcode bits, memory bytes,
//! screen coordinates and keys.
use vstd::prelude::*;

use crate::input::{key_index, spec_handle_event, EventOutcome, InputEvent, Key};
use crate::instruction::{lemma_opcode_fields, spec_decode, Instruction};
use crate::model::Chip8View;
use crate::render::{lit_rects, PixelRect};
use crate::sprite::{draw_collides, drawn_display, lemma_target, sprite_bit, sprite_col, sprite_hit, sprite_row};

verus! {

/// Every opcode decodes by its bit fields `CXYN` (`NN` the low byte, `NNN`
/// the low twelve bits) to the instruction the CHIP-8 encoding assigns it.
pub proof fn lemma_decode_by_bits(op: u16)
    ensures
        ({
            let c = op >> 12;
            let x = ((op >> 8) & 0xF) as u8;
            let y = ((op >> 4) & 0xF) as u8;
            let n = (op & 0xF) as u8;
            let nn = (op & 0xFF) as u8;
            let nnn = op & 0xFFF;
            let d = spec_decode(op);
            &&& op == 0x00E0 ==> d == Instruction::ClearScreen
            &&& op == 0x00EE ==> d == Instruction::Return
            &&& c == 0 && op != 0x00E0 && op != 0x00EE ==> d == Instruction::Unknown
            &&& c == 1 ==> d == Instruction::Jump { nnn }
            &&& c == 2 ==> d == Instruction::Call { nnn }
            &&& c == 3 ==> d == Instruction::SkipIfEqual { x, nn }
            &&& c == 4 ==> d == Instruction::SkipIfNotEqual { x, nn }
            &&& c == 5 && n == 0 ==> d == Instruction::SkipIfRegistersEqual { x, y }
            &&& c == 5 && n != 0 ==> d == Instruction::Unknown
            &&& c == 6 ==> d == Instruction::SetRegister { x, nn }
            &&& c == 7 ==> d == Instruction::AddToRegister { x, nn }
            &&& c == 8 && n == 0 ==> d == Instruction::CopyRegister { x, y }
            &&& c == 8 && n == 1 ==> d == Instruction::Or { x, y }
            &&& c == 8 && n == 2 ==> d == Instruction::And { x, y }
            &&& c == 8 && n == 3 ==> d == Instruction::Xor { x, y }
            &&& c == 8 && n == 4 ==> d == Instruction::AddRegisters { x, y }
            &&& c == 8 && n == 5 ==> d == Instruction::SubRegisters { x, y }
            &&& c == 8 && n == 6 ==> d == Instruction::ShiftRight { x }
            &&& c == 8 && n == 7 ==> d == Instruction::SubReversed { x, y }
            &&& c == 8 && n == 0xE ==> d == Instruction::ShiftLeft { x }
            &&& c == 8 && 8 <= n < 0xE ==> d == Instruction::Unknown
            &&& c == 8 && n == 0xF ==> d == Instruction::Unknown
            &&& c == 9 && n == 0 ==> d == Instruction::SkipIfRegistersNotEqual { x, y }
            &&& c == 9 && n != 0 ==> d == Instruction::Unknown
            &&& c == 0xA ==> d == Instruction::SetIndex { nnn }
            &&& c == 0xB ==> d == Instruction::Unknown
            &&& c == 0xC ==> d == Instruction::Unknown
            &&& c == 0xD ==> d == Instruction::Draw { x, y, n }
            &&& c == 0xE ==> d == Instruction::Unknown
            &&& c == 0xF && nn == 0x07 ==> d == Instruction::ReadDelayTimer { x }
            &&& c == 0xF && nn == 0x0A ==> d == Instruction::WaitForKey { x }
            &&& c == 0xF && nn == 0x15 ==> d == Instruction::SetDelayTimer { x }
            &&& c == 0xF && nn == 0x18 ==> d == Instruction::SetSoundTimer { x }
            &&& c == 0xF && nn == 0x1E ==> d == Instruction::AddToIndex { x }
            &&& c == 0xF && nn == 0x29 ==> d == Instruction::FontCharacter { x }
            &&& c == 0xF && nn == 0x33 ==> d == Instruction::StoreBcd { x }
            &&& c == 0xF && nn == 0x55 ==> d == Instruction::StoreRegisters { x }
            &&& c == 0xF && nn == 0x65 ==> d == Instruction::LoadRegisters { x }
            &&& c == 0xF && nn != 0x07 && nn != 0x0A && nn != 0x15 && nn != 0x18 && nn != 0x1E
                && nn != 0x29 && nn != 0x33 && nn != 0x55 && nn != 0x65 ==> d == Instruction::Unknown
        }),
{
    lemma_opcode_fields(op);
    assert(op >> 12 == op / 4096) by (bit_vector);
    assert((op & 0xFF) == 16 * ((op >> 4) & 0xF) + (op & 0xF)) by (bit_vector);
    assert(op == 0x00E0 <==> (op >> 12 == 0 && (op >> 8) & 0xF == 0 && (op >> 4) & 0xF == 0xE
        && op & 0xF == 0)) by (bit_vector);
    assert(op == 0x00EE <==> (op >> 12 == 0 && (op >> 8) & 0xF == 0 && (op >> 4) & 0xF == 0xE
        && op & 0xF == 0xE)) by (bit_vector);
}

/// The high nibble, the register nibble and the low byte of the opcode made
/// of the bytes `hi`, `lo`.
proof fn lemma_opcode_byte_fields(hi: u8, lo: u8)
    ensures
        ({
            let op = (hi as int * 256 + lo as int) as u16;
            &&& op >> 12 == (hi >> 4) as u16
            &&& (op >> 8) & 0xF == (hi & 0xF) as u16
            &&& (op & 0xFF) == lo as u16
        }),
{
    let op = (hi as int * 256 + lo as int) as u16;
    assert(op == ((hi as u16) << 8) | (lo as u16)) by {
        assert(((hi as u16) << 8) | (lo as u16) == hi as int * 256 + lo as int) by (bit_vector);
    }
    assert((((hi as u16) << 8) | (lo as u16)) >> 12 == (hi >> 4) as u16) by (bit_vector);
    assert(((((hi as u16) << 8) | (lo as u16)) >> 8) & 0xF == (hi & 0xF) as u16) by (bit_vector);
    assert(((((hi as u16) << 8) | (lo as u16)) & 0xFF) == lo as u16) by (bit_vector);
}

/// Timer opcodes, read off the two bytes at the program counter: `FX15`
/// loads the delay timer from VX and leaves the sound timer alone, `FX18`
/// loads the sound timer from VX and leaves the delay timer alone, and `FX07`
/// copies the delay timer into VX; none touches another register or timer.
pub proof fn lemma_timer_instructions(s: Chip8View)
    requires
        s.can_step(),
    ensures
        ({
            let hi = s.ram[s.pc as int];
            let lo = s.ram[s.pc + 1];
            let x = (hi & 0xF) as int;
            let t = s.step();
            &&& (hi >> 4 == 0xF && lo == 0x15) ==> t.delay_timer == s.v_reg[x] && t.sound_timer
                == s.sound_timer && t.v_reg == s.v_reg
            &&& (hi >> 4 == 0xF && lo == 0x18) ==> t.sound_timer == s.v_reg[x] && t.delay_timer
                == s.delay_timer && t.v_reg == s.v_reg
            &&& (hi >> 4 == 0xF && lo == 0x07) ==> t.v_reg == s.v_reg.update(x, s.delay_timer)
                && t.delay_timer == s.delay_timer && t.sound_timer == s.sound_timer
        }),
{
    let hi = s.ram[s.pc as int];
    let lo = s.ram[s.pc + 1];
    lemma_opcode_byte_fields(hi, lo);
    lemma_decode_by_bits(s.current_opcode());
}

/// After a step, the recorded operands are the fields of the two bytes at
/// the old program counter: X the low nibble of the first, Y and N the
/// nibbles of the second, NN the second byte, NNN the low twelve bits.
pub proof fn lemma_step_records_operands(s: Chip8View)
    requires
        s.can_step(),
    ensures
        ({
            let hi = s.ram[s.pc as int];
            let lo = s.ram[s.pc + 1];
            let t = s.step();
            &&& t.inst.x == hi & 0xF
            &&& t.inst.y == lo >> 4
            &&& t.inst.n == lo & 0xF
            &&& t.inst.nn == lo
            &&& t.inst.nnn == (hi & 0xF) as int * 256 + lo as int
        }),
{
    let hi = s.ram[s.pc as int];
    let lo = s.ram[s.pc + 1];
    let op = s.current_opcode();
    lemma_opcode_byte_fields(hi, lo);
    lemma_opcode_fields(op);
    assert((op >> 4) & 0xF == ((op & 0xFF) as u8 >> 4) as u16) by (bit_vector);
    assert(op & 0xF == ((op & 0xFF) as u8 & 0xF) as u16) by (bit_vector);
    assert(op & 0xFFF == ((op >> 8) & 0xF) * 256 + (op & 0xFF)) by (bit_vector);
}

/// A step is refused exactly when the two opcode bytes lie outside memory,
/// when a call (`2NNN`) finds all 16 stack slots used, when a return (`00EE`)
/// finds the stack empty, or when a sprite (`DXYN`) with N > 0 rows would
/// read past the end of memory.
pub proof fn lemma_fault_conditions(s: Chip8View)
    requires
        s.wf(),
    ensures
        s.pc + 1 >= 4096 ==> s.fault() is Some,
        s.pc + 1 < 4096 ==> ({
            let hi = s.ram[s.pc as int];
            let lo = s.ram[s.pc + 1];
            let n = (lo & 0xF) as int;
            (s.fault() is None) == (!(hi >> 4 == 2 && s.stack_ptr >= 16) && !(hi == 0 && lo == 0xEE
                && s.stack_ptr == 0) && !(hi >> 4 == 0xD && n > 0 && s.i + n > 4096))
        }),
{
    if s.pc + 1 < 4096 {
        let hi = s.ram[s.pc as int];
        let lo = s.ram[s.pc + 1];
        let op = s.current_opcode();
        lemma_opcode_byte_fields(hi, lo);
        lemma_decode_by_bits(op);
        assert(op == 0x00EE <==> (hi == 0 && lo == 0xEE)) by {
            assert(op == ((hi as u16) << 8) | (lo as u16)) by {
                assert(((hi as u16) << 8) | (lo as u16) == hi as int * 256 + lo as int)
                    by (bit_vector);
            }
            assert((((hi as u16) << 8) | (lo as u16)) == 0x00EE <==> (hi == 0 && lo == 0xEE))
                by (bit_vector);
        }
        assert(op & 0xF == (lo & 0xF) as u16) by {
            assert(op == ((hi as u16) << 8) | (lo as u16)) by {
                assert(((hi as u16) << 8) | (lo as u16) == hi as int * 256 + lo as int)
                    by (bit_vector);
            }
            assert(((((hi as u16) << 8) | (lo as u16)) & 0xF) == (lo & 0xF) as u16)
                by (bit_vector);
        }
        let n = (lo & 0xF) as int;
        lemma_opcode_fields(op);
        assert((op >> 12) & 0xF == op >> 12) by (bit_vector);
        if hi >> 4 == 2 {
            assert(s.current_instruction() is Call);
        } else if hi == 0 && lo == 0xEE {
            assert(s.current_instruction() is Return);
        } else if hi >> 4 == 0xD {
            assert(s.current_instruction() == Instruction::Draw {
                x: ((op >> 8) & 0xF) as u8,
                y: #[verifier::truncate] (((op >> 4) & 0xF) as u8),
                n: (op & 0xF) as u8,
            });
        } else {
            assert(op >> 12 < 16) by (bit_vector);
            assert(!(s.current_instruction() is Return));
            assert(!(s.current_instruction() is Draw));
        }
    }
}

/// A freshly loaded machine has the program's bytes from 0x200 on, zero
/// between the font and 0x200 and after the program, starts at 0x200 with a
/// blank screen, zero registers, timers and index, and an empty stack.
pub proof fn lemma_initial_layout(rom: Seq<u8>)
    requires
        rom.len() <= 3584,
    ensures
        ({
            let s = crate::model::initial_state(rom);
            &&& forall|k: int| 0 <= k < rom.len() ==> s.ram[0x200 + k] == rom[k]
            &&& forall|a: int| 80 <= a < 0x200 ==> s.ram[a] == 0
            &&& forall|a: int| 0x200 + rom.len() <= a < 4096 ==> s.ram[a] == 0
            &&& s.pc == 0x200
            &&& s.i == 0
            &&& s.stack_ptr == 0
            &&& s.delay_timer == 0
            &&& s.sound_timer == 0
            &&& forall|p: int| 0 <= p < 2048 ==> !s.display[p]
            &&& forall|k: int| 0 <= k < 16 ==> s.v_reg[k] == 0 && !s.keypad[k]
        }),
{
}

/// Register and index instructions: each changes only the register or
/// index it names, the way the CHIP-8 specification says.
pub proof fn lemma_register_instructions(s: Chip8View, x: u8, y: u8, nn: u8, nnn: u16)
    requires
        s.wf(),
        x < 16,
        y < 16,
    ensures
        ({
            let t = s.apply(Instruction::SetRegister { x, nn });
            t.v_reg[x as int] == nn && forall|k: int| 0 <= k < 16 && k != x ==> t.v_reg[k] == s.v_reg[k]
        }),
        ({
            let t = s.apply(Instruction::AddToRegister { x, nn });
            &&& t.v_reg[x as int] == (s.v_reg[x as int] + nn) % 256
            &&& forall|k: int| 0 <= k < 16 && k != x ==> t.v_reg[k] == s.v_reg[k]
        }),
        ({
            let t = s.apply(Instruction::CopyRegister { x, y });
            t.v_reg[x as int] == s.v_reg[y as int] && forall|k: int|
                0 <= k < 16 && k != x ==> t.v_reg[k] == s.v_reg[k]
        }),
        s.apply(Instruction::Or { x, y }).v_reg[x as int] == s.v_reg[x as int] | s.v_reg[y as int],
        s.apply(Instruction::And { x, y }).v_reg[x as int] == s.v_reg[x as int] & s.v_reg[y as int],
        s.apply(Instruction::Xor { x, y }).v_reg[x as int] == s.v_reg[x as int] ^ s.v_reg[y as int],
        s.apply(Instruction::SetIndex { nnn }).i == nnn,
        s.apply(Instruction::AddToIndex { x }).i == (s.i + s.v_reg[x as int]) % 65536,
        s.apply(Instruction::ReadDelayTimer { x }).v_reg[x as int] == s.delay_timer,
        s.apply(Instruction::SetDelayTimer { x }).delay_timer == s.v_reg[x as int],
        s.apply(Instruction::SetDelayTimer { x }).sound_timer == s.sound_timer,
        s.apply(Instruction::SetSoundTimer { x }).sound_timer == s.v_reg[x as int],
        s.apply(Instruction::SetSoundTimer { x }).delay_timer == s.delay_timer,
{
}

/// Control instructions: a skip moves past the next opcode exactly when its
/// condition holds, a jump goes to its target, a call saves the return
/// address on top of the stack, a return resumes at the top address, and
/// clearing turns every pixel off.
pub proof fn lemma_control_instructions(s: Chip8View, x: u8, y: u8, nn: u8, nnn: u16)
    requires
        s.wf(),
        x < 16,
        y < 16,
        s.pc <= 4096,
    ensures
        s.apply(Instruction::SkipIfEqual { x, nn }).pc == if s.v_reg[x as int] == nn {
            s.pc + 2
        } else {
            s.pc as int
        },
        s.apply(Instruction::SkipIfNotEqual { x, nn }).pc == if s.v_reg[x as int] != nn {
            s.pc + 2
        } else {
            s.pc as int
        },
        s.apply(Instruction::SkipIfRegistersEqual { x, y }).pc == if s.v_reg[x as int]
            == s.v_reg[y as int] {
            s.pc + 2
        } else {
            s.pc as int
        },
        s.apply(Instruction::SkipIfRegistersNotEqual { x, y }).pc == if s.v_reg[x as int]
            != s.v_reg[y as int] {
            s.pc + 2
        } else {
            s.pc as int
        },
        s.apply(Instruction::SkipIfEqual { x, nn }).v_reg == s.v_reg,
        s.apply(Instruction::Jump { nnn }).pc == nnn,
        s.stack_ptr < 16 ==> ({
            let t = s.apply(Instruction::Call { nnn });
            &&& t.pc == nnn
            &&& t.stack_ptr == s.stack_ptr + 1
            &&& t.stack[s.stack_ptr as int] == s.pc
            &&& forall|k: int| 0 <= k < s.stack_ptr ==> t.stack[k] == s.stack[k]
        }),
        s.stack_ptr > 0 ==> ({
            let t = s.apply(Instruction::Return);
            t.pc == s.stack[s.stack_ptr - 1] && t.stack_ptr == s.stack_ptr - 1
        }),
        forall|p: int| 0 <= p < 2048 ==> !s.apply(Instruction::ClearScreen).display[p],
        s.apply(Instruction::ClearScreen).display.len() == 2048,
{
}

/// What each instruction leaves alone: only control instructions move the
/// program counter or touch the stack; only clearing and drawing touch the
/// screen; only the timer writes touch the timers; only the index
/// instructions touch I; memory and keypad are never written; and an
/// instruction that writes one register VX leaves every other register as
/// it was. This holds for every instruction an opcode decodes to.
pub proof fn lemma_instruction_frame(s: Chip8View, op: u16)
    requires
        s.wf(),
    ensures
        ({
            let ins = spec_decode(op);
            let t = s.apply(ins);
            &&& t.ram == s.ram
            &&& t.keypad == s.keypad
            &&& !(ins is Jump || ins is Call || ins is Return || ins is SkipIfEqual
                || ins is SkipIfNotEqual || ins is SkipIfRegistersEqual
                || ins is SkipIfRegistersNotEqual || ins is WaitForKey) ==> t.pc == s.pc
            &&& !(ins is Call || ins is Return) ==> t.stack == s.stack && t.stack_ptr
                == s.stack_ptr
            &&& !(ins is ClearScreen || ins is Draw) ==> t.display == s.display
            &&& !(ins is SetDelayTimer) ==> t.delay_timer == s.delay_timer
            &&& !(ins is SetSoundTimer) ==> t.sound_timer == s.sound_timer
            &&& !(ins is SetIndex || ins is AddToIndex || ins is FontCharacter) ==> t.i == s.i
            &&& (ins is ClearScreen || ins is Jump || ins is Call || ins is Return
                || ins is SkipIfEqual || ins is SkipIfNotEqual || ins is SkipIfRegistersEqual
                || ins is SkipIfRegistersNotEqual || ins is SetIndex || ins is SetDelayTimer
                || ins is SetSoundTimer || ins is AddToIndex || ins is FontCharacter
                || ins is StoreBcd || ins is StoreRegisters || ins is LoadRegisters
                || ins is Unknown) ==> t.v_reg == s.v_reg
            &&& forall|k: int|
                0 <= k < 16 ==> match ins {
                    Instruction::SetRegister { x, .. } => k != x ==> t.v_reg[k] == s.v_reg[k],
                    Instruction::AddToRegister { x, .. } => k != x ==> t.v_reg[k] == s.v_reg[k],
                    Instruction::CopyRegister { x, .. } => k != x ==> t.v_reg[k] == s.v_reg[k],
                    Instruction::Or { x, .. } => k != x ==> t.v_reg[k] == s.v_reg[k],
                    Instruction::And { x, .. } => k != x ==> t.v_reg[k] == s.v_reg[k],
                    Instruction::Xor { x, .. } => k != x ==> t.v_reg[k] == s.v_reg[k],
                    Instruction::ReadDelayTimer { x } => k != x ==> t.v_reg[k] == s.v_reg[k],
                    Instruction::WaitForKey { x } => k != x ==> t.v_reg[k] == s.v_reg[k],
                    Instruction::AddRegisters { x, .. } => k != x && k != 15 ==> t.v_reg[k]
                        == s.v_reg[k],
                    Instruction::SubRegisters { x, .. } => k != x && k != 15 ==> t.v_reg[k]
                        == s.v_reg[k],
                    Instruction::SubReversed { x, .. } => k != x && k != 15 ==> t.v_reg[k]
                        == s.v_reg[k],
                    Instruction::ShiftRight { x } => k != x && k != 15 ==> t.v_reg[k]
                        == s.v_reg[k],
                    Instruction::ShiftLeft { x } => k != x && k != 15 ==> t.v_reg[k]
                        == s.v_reg[k],
                    Instruction::Draw { .. } => k != 15 ==> t.v_reg[k] == s.v_reg[k],
                    _ => true,
                }
        }),
{
}

/// Screen position of sprite row `r`, column `c` when the sprite's top-left
/// corner is at `(x0, y0)`: column `x0 + c` and row `y0 + r`, each wrapped
/// around the 64x32 screen.
pub open spec fn sprite_pixel(x0: int, y0: int, r: int, c: int) -> int {
    (x0 + c) % 64 + 64 * ((y0 + r) % 32)
}

/// Bit `7 - c` of the sprite byte `b`, the pixel in column `c` counted from
/// the left.
pub open spec fn row_bit(b: u8, c: int) -> bool {
    (b >> ((7 - c) as u8)) & 1u8 == 1u8
}

proof fn lemma_row_bit(b: u8, c: u8)
    requires
        c < 8,
    ensures
        row_bit(b, c as int) == sprite_bit(b, c as int),
{
    assert(((b >> ((7 - c) as u8)) & 1u8 == 1u8) == ((b & (0x80u8 >> c)) != 0)) by (bit_vector)
        requires
            c < 8,
    ;
    assert((7 - c as int) as u8 == (7 - c) as u8);
}

/// `DXYN`: byte `I + r` of memory is drawn on screen row `VY + r`, its bit
/// `7 - c` on screen column `VX + c` (both wrapped), flipping exactly the
/// pixels under set bits; every other pixel and V0..VE are unchanged; VF is
/// 1 exactly when some set bit lands on a pixel that was on.
pub proof fn lemma_draw_pixels(s: Chip8View, x: u8, y: u8, n: u8)
    requires
        s.wf(),
        x < 16,
        y < 16,
        n < 16,
        n == 0 || s.i + n <= 4096,
    ensures
        ({
            let t = s.apply(Instruction::Draw { x, y, n });
            let x0 = s.v_reg[x as int] as int % 64;
            let y0 = s.v_reg[y as int] as int % 32;
            &&& t.display.len() == 2048
            &&& forall|r: int, c: int|
                0 <= r < n && 0 <= c < 8 ==> t.display[#[trigger] sprite_pixel(x0, y0, r, c)] == (
                s.display[sprite_pixel(x0, y0, r, c)] != row_bit(s.ram[s.i + r], c))
            &&& forall|p: int|
                0 <= p < 2048 && (forall|r: int, c: int|
                    0 <= r < n && 0 <= c < 8 ==> p != #[trigger] sprite_pixel(x0, y0, r, c))
                    ==> t.display[p] == s.display[p]
            &&& t.v_reg[15] == if exists|r: int, c: int|
                0 <= r < n && 0 <= c < 8 && row_bit(s.ram[s.i + r], c)
                    && s.display[#[trigger] sprite_pixel(x0, y0, r, c)] {
                1u8
            } else {
                0u8
            }
            &&& forall|k: int| 0 <= k < 15 ==> t.v_reg[k] == s.v_reg[k]
        }),
{
    let t = s.apply(Instruction::Draw { x, y, n });
    let x0 = s.v_reg[x as int] as int % 64;
    let y0 = s.v_reg[y as int] as int % 32;
    let ii = s.i as int;
    let ni = n as int;
    assert forall|r: int, c: int| 0 <= r < n && 0 <= c < 8 implies
        sprite_hit(s.ram, ii, ni, x0, y0, #[trigger] sprite_pixel(x0, y0, r, c)) == row_bit(
            s.ram[s.i + r],
            c,
        ) by {
        lemma_target(x0, y0, r, c);
        lemma_row_bit(s.ram[s.i + r], c as u8);
    }
    assert forall|r: int, c: int| 0 <= r < n && 0 <= c < 8 implies t.display[
        #[trigger] sprite_pixel(x0, y0, r, c)] == (s.display[sprite_pixel(x0, y0, r, c)]
        != row_bit(s.ram[s.i + r], c)) by {
        lemma_target(x0, y0, r, c);
        assert(sprite_hit(s.ram, ii, ni, x0, y0, sprite_pixel(x0, y0, r, c)) == row_bit(
            s.ram[s.i + r],
            c,
        ));
    }
    assert forall|p: int|
        0 <= p < 2048 && (forall|r: int, c: int|
            0 <= r < n && 0 <= c < 8 ==> p != #[trigger] sprite_pixel(x0, y0, r, c)) implies t.display[p]
        == s.display[p] by {
        if sprite_hit(s.ram, ii, ni, x0, y0, p) {
            let r = sprite_row(p, y0);
            let c = sprite_col(p, x0);
            lemma_target(x0, y0, r, c);
            assert(p != sprite_pixel(x0, y0, r, c));
        }
    }
    let rc_exists = exists|r: int, c: int|
        0 <= r < n && 0 <= c < 8 && row_bit(s.ram[s.i + r], c)
            && s.display[#[trigger] sprite_pixel(x0, y0, r, c)];
    if draw_collides(s.display, s.ram, ii, ni, x0, y0) {
        let p = choose|p: int|
            0 <= p < 2048 && #[trigger] sprite_hit(s.ram, ii, ni, x0, y0, p) && s.display[p];
        let r = sprite_row(p, y0);
        let c = sprite_col(p, x0);
        lemma_target(x0, y0, r, c);
        assert(p == sprite_pixel(x0, y0, r, c));
        assert(sprite_hit(s.ram, ii, ni, x0, y0, sprite_pixel(x0, y0, r, c)));
        assert(rc_exists);
    }
    if rc_exists {
        let (r, c) = choose|r: int, c: int|
            0 <= r < n && 0 <= c < 8 && row_bit(s.ram[s.i + r], c)
                && s.display[#[trigger] sprite_pixel(x0, y0, r, c)];
        lemma_target(x0, y0, r, c);
        assert(sprite_hit(s.ram, ii, ni, x0, y0, sprite_pixel(x0, y0, r, c)));
        assert(draw_collides(s.display, s.ram, ii, ni, x0, y0));
    }
}

/// The host key labelled with the hexadecimal digit `h`.
pub open spec fn hex_key(h: int) -> Key {
    if h == 0 {
        Key::Num0
    } else if h == 1 {
        Key::Num1
    } else if h == 2 {
        Key::Num2
    } else if h == 3 {
        Key::Num3
    } else if h == 4 {
        Key::Num4
    } else if h == 5 {
        Key::Num5
    } else if h == 6 {
        Key::Num6
    } else if h == 7 {
        Key::Num7
    } else if h == 8 {
        Key::Num8
    } else if h == 9 {
        Key::Num9
    } else if h == 10 {
        Key::A
    } else if h == 11 {
        Key::B
    } else if h == 12 {
        Key::C
    } else if h == 13 {
        Key::D
    } else if h == 14 {
        Key::E
    } else {
        Key::F
    }
}

/// Each key labelled with a hexadecimal digit stands for that digit on the
/// keypad, and Escape, Space and every other key stand for none.
pub proof fn lemma_keys_map_to_their_digit(h: int)
    requires
        0 <= h < 16,
    ensures
        key_index(hex_key(h)) == Some(h as usize),
        key_index(Key::Escape) is None,
        key_index(Key::Space) is None,
        key_index(Key::Other) is None,
        forall|st: crate::input::State|
            spec_handle_event(st, InputEvent::KeyDown(hex_key(h))) == (
            st,
            EventOutcome::Pressed(h as usize),
            ),
        forall|st: crate::input::State|
            spec_handle_event(st, InputEvent::KeyUp(hex_key(h))) == (
            st,
            EventOutcome::Released(h as usize),
            ),
{
}

/// Number of lit pixels in `display`.
pub open spec fn lit_count(display: Seq<bool>) -> nat
    decreases display.len(),
{
    if display.len() == 0 {
        0
    } else {
        lit_count(display.drop_last()) + if display.last() {
            1nat
        } else {
            0nat
        }
    }
}

/// There is exactly one rectangle per lit pixel, in index order: the lit
/// pixel `k` with `j` lit pixels before it gets rectangle `j`, at
/// `((k % width) * scale, (k / width) * scale)`, `scale` pixels square.
pub proof fn lemma_one_rect_per_lit_pixel(display: Seq<bool>, width: int, scale: u32)
    ensures
        lit_rects(display, width, scale).len() == lit_count(display),
        forall|k: int|
            0 <= k < display.len() && #[trigger] display[k] ==> lit_rects(display, width, scale)[lit_count(
                display.take(k),
            ) as int] == (PixelRect {
                x: (((k % width) as u32) * scale) as i32,
                y: (((k / width) as u32) * scale) as i32,
                width: scale,
                height: scale,
            }),
    decreases display.len(),
{
    if display.len() > 0 {
        let prefix = display.drop_last();
        lemma_one_rect_per_lit_pixel(prefix, width, scale);
        assert forall|k: int|
            0 <= k < display.len() && #[trigger] display[k] implies lit_rects(display, width, scale)[lit_count(
                display.take(k),
            ) as int] == (PixelRect {
                x: (((k % width) as u32) * scale) as i32,
                y: (((k / width) as u32) * scale) as i32,
                width: scale,
                height: scale,
            }) by {
            if k < display.len() - 1 {
                assert(display.take(k) =~= prefix.take(k));
                assert(prefix[k] == display[k]);
                assert(lit_count(prefix.take(k)) < lit_count(prefix)) by {
                    lemma_lit_count_prefix(prefix, k);
                }
            } else {
                assert(display.take(k) =~= prefix);
            }
        }
    }
}

/// A lit pixel at `k` has fewer lit pixels before it than there are in all.
proof fn lemma_lit_count_prefix(display: Seq<bool>, k: int)
    requires
        0 <= k < display.len(),
        display[k],
    ensures
        lit_count(display.take(k)) < lit_count(display),
    decreases display.len(),
{
    let prefix = display.drop_last();
    if k < display.len() - 1 {
        lemma_lit_count_prefix(prefix, k);
        assert(display.take(k) =~= prefix.take(k));
    } else {
        assert(display.take(k) =~= prefix);
    }
}

} // verus!
