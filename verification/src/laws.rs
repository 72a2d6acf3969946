//! Properties that hold of every run of the machine and of the front-end logic.
use vstd::prelude::*;

use crate::input::{
    space_presses, spec_handle_event, state_after_events, toggled_times, EventOutcome, InputEvent,
    Key, State,
};
use crate::instruction::{inst_of, Instruction};
use crate::model::{first_pressed, fontset, initial_state, Chip8View};
use crate::sprite::{drawn_display, sprite_hit};

verus! {

/// A freshly loaded machine is well formed.
pub proof fn lemma_initial_wf(rom: Seq<u8>)
    ensures
        initial_state(rom).wf(),
{
}

/// Every defined step keeps the machine well formed: memory, screen, stack,
/// registers and keypad keep their sizes and the stack never holds more than
/// 16 return addresses.
pub proof fn lemma_step_preserves_wf(s: Chip8View)
    requires
        s.can_step(),
    ensures
        s.step().wf(),
{
}

/// No instruction writes memory or the keypad.
pub proof fn lemma_step_keeps_memory_and_keys(s: Chip8View)
    requires
        s.can_step(),
    ensures
        s.step().ram == s.ram,
        s.step().keypad == s.keypad,
{
}

/// Where the program counter goes: jumps and calls go to their target, a
/// return to the saved address, a skip moves past one or two opcodes, waiting
/// for a key either repeats the instruction or moves on, and every other
/// instruction moves on to the next opcode.
pub proof fn lemma_pc_after_step(s: Chip8View)
    requires
        s.can_step(),
    ensures
        ({
            let t = s.step();
            match s.current_instruction() {
                Instruction::Jump { nnn } => t.pc == nnn,
                Instruction::Call { nnn } => t.pc == nnn,
                Instruction::Return => t.pc == s.stack[s.stack_ptr - 1],
                Instruction::SkipIfEqual { .. } => t.pc == s.pc + 2 || t.pc == s.pc + 4,
                Instruction::SkipIfNotEqual { .. } => t.pc == s.pc + 2 || t.pc == s.pc + 4,
                Instruction::SkipIfRegistersEqual { .. } => t.pc == s.pc + 2 || t.pc == s.pc + 4,
                Instruction::SkipIfRegistersNotEqual {
                    ..
                } => t.pc == s.pc + 2 || t.pc == s.pc + 4,
                Instruction::WaitForKey { .. } => t.pc == s.pc || t.pc == s.pc + 2,
                _ => t.pc == s.pc + 2,
            }
        }),
{
}

/// A call followed by a return at the called address comes back to the
/// opcode after the call, with the stack depth it had before; only the stack
/// slot that was used and the last fetched operands differ.
pub proof fn lemma_call_then_return(s: Chip8View, nnn: u16)
    requires
        s.can_step(),
        s.current_instruction() == (Instruction::Call { nnn }),
        s.step().can_step(),
        s.step().current_instruction() == Instruction::Return,
    ensures
        s.step().step() == (Chip8View {
            stack: s.stack.update(s.stack_ptr as int, (s.pc + 2) as u16),
            pc: (s.pc + 2) as u16,
            inst: inst_of(s.opcode_at(nnn as int)),
            ..s
        }),
{
    assert(s.step().step().stack =~= s.stack.update(s.stack_ptr as int, (s.pc + 2) as u16));
}

/// Waiting for a key while no key is held down repeats the wait: apart from
/// the last fetched operands, nothing changes.
pub proof fn lemma_wait_without_key(s: Chip8View, x: u8)
    requires
        s.can_step(),
        s.current_instruction() == (Instruction::WaitForKey { x }),
        forall|k: int| 0 <= k < 16 ==> !s.keypad[k],
    ensures
        s.step() == (Chip8View { inst: inst_of(s.current_opcode()), ..s }),
{
    lemma_no_key_pressed(s.keypad, 0);
}

proof fn lemma_no_key_pressed(keys: Seq<bool>, from: int)
    requires
        0 <= from <= keys.len(),
        forall|k: int| 0 <= k < keys.len() ==> !keys[k],
    ensures
        first_pressed(keys, from) == keys.len(),
    decreases keys.len() - from,
{
    if from < keys.len() {
        lemma_no_key_pressed(keys, from + 1);
    }
}

/// Waiting for a key while keys are held down stores the lowest such key in
/// VX and moves on.
pub proof fn lemma_wait_with_key(s: Chip8View, x: u8, k: int)
    requires
        s.can_step(),
        s.current_instruction() == (Instruction::WaitForKey { x }),
        0 <= k < 16,
        s.keypad[k],
        forall|j: int| 0 <= j < k ==> !s.keypad[j],
    ensures
        s.step().reg(x) == k,
        s.step().pc == s.pc + 2,
{
    lemma_first_pressed_is_lowest(s.keypad, 0, k);
}

proof fn lemma_first_pressed_is_lowest(keys: Seq<bool>, from: int, k: int)
    requires
        0 <= from <= k < keys.len(),
        keys[k],
        forall|j: int| from <= j < k ==> !keys[j],
    ensures
        first_pressed(keys, from) == k,
    decreases k - from,
{
    if from < k {
        lemma_first_pressed_is_lowest(keys, from + 1, k);
    }
}

/// `8XY4`: the new VX together with the carry in VF is the exact sum, when X
/// is not the flag register itself.
pub proof fn lemma_add_carry(s: Chip8View, x: u8, y: u8)
    requires
        s.wf(),
        x < 15,
        y < 16,
    ensures
        ({
            let t = s.apply(Instruction::AddRegisters { x, y });
            t.reg(x) + 256 * t.reg(15) == s.reg(x) + s.reg(y)
        }),
{
}

/// `8XY5` and `8XY7`: the new VX is the exact difference, plus 256 when VF
/// reports a borrow, when X is not the flag register itself.
pub proof fn lemma_sub_borrow(s: Chip8View, x: u8, y: u8)
    requires
        s.wf(),
        x < 15,
        y < 16,
    ensures
        ({
            let t = s.apply(Instruction::SubRegisters { x, y });
            t.reg(x) == s.reg(x) - s.reg(y) + 256 * (1 - t.reg(15))
        }),
        ({
            let t = s.apply(Instruction::SubReversed { x, y });
            t.reg(x) == s.reg(y) - s.reg(x) + 256 * (1 - t.reg(15))
        }),
{
}

/// `8XY6` and `8XYE`: the new VX together with the bit shifted out into VF
/// gives back the old VX, when X is not the flag register itself.
pub proof fn lemma_shift_out(s: Chip8View, x: u8)
    requires
        s.wf(),
        x < 15,
    ensures
        ({
            let t = s.apply(Instruction::ShiftRight { x });
            2 * t.reg(x) + t.reg(15) == s.reg(x)
        }),
        ({
            let t = s.apply(Instruction::ShiftLeft { x });
            t.reg(x) + 256 * t.reg(15) == 2 * s.reg(x)
        }),
{
}

/// Drawing the same sprite twice at the same place leaves the screen as it
/// was, when neither coordinate register is the flag register (which the
/// first drawing overwrites).
pub proof fn lemma_draw_twice_restores(s: Chip8View, x: u8, y: u8, n: u8)
    requires
        s.wf(),
        x < 15,
        y < 15,
        n < 16,
    ensures
        s.apply(Instruction::Draw { x, y, n }).apply(Instruction::Draw { x, y, n }).display
            == s.display,
{
    let t = s.apply(Instruction::Draw { x, y, n });
    let u = t.apply(Instruction::Draw { x, y, n });
    assert(t.reg(x) == s.reg(x) && t.reg(y) == s.reg(y));
    assert(u.display =~= s.display);
}

/// Drawing the same sprite twice at the same place reports a collision the
/// second time exactly when the sprite has a set pixel that was off before.
pub proof fn lemma_draw_twice_collision(s: Chip8View, x: u8, y: u8, n: u8)
    requires
        s.wf(),
        x < 15,
        y < 15,
        n < 16,
    ensures
        ({
            let x0 = s.reg(x) as int % 64;
            let y0 = s.reg(y) as int % 32;
            let u = s.apply(Instruction::Draw { x, y, n }).apply(Instruction::Draw { x, y, n });
            (u.reg(15) == 1) == exists|p: int|
                0 <= p < 2048 && #[trigger] sprite_hit(s.ram, s.i as int, n as int, x0, y0, p)
                    && !s.display[p]
        }),
{
    let t = s.apply(Instruction::Draw { x, y, n });
    assert(t.reg(x) == s.reg(x) && t.reg(y) == s.reg(y));
}

/// `FX29` points I at the five font bytes of the hexadecimal digit in VX,
/// as long as the font is where a freshly loaded machine has it.
pub proof fn lemma_font_character_points_to_glyph(s: Chip8View, x: u8)
    requires
        s.wf(),
        x < 16,
        s.reg(x) < 16,
        forall|a: int| 0 <= a < 80 ==> s.ram[a] == fontset()[a],
    ensures
        ({
            let t = s.apply(Instruction::FontCharacter { x });
            t.ram.subrange(t.i as int, t.i + 5) == fontset().subrange(
                5 * s.reg(x),
                5 * s.reg(x) + 5,
            )
        }),
{
    let t = s.apply(Instruction::FontCharacter { x });
    assert(t.ram.subrange(t.i as int, t.i + 5) =~= fontset().subrange(
        5 * s.reg(x),
        5 * s.reg(x) + 5,
    ));
}

/// Along a run of events with neither a window close nor Escape, no event
/// stops event handling, and the state ends up toggled once for every Space
/// key press and is changed by nothing else.
pub proof fn lemma_events_toggle_on_space(state: State, events: Seq<InputEvent>)
    requires
        forall|k: int|
            0 <= k < events.len() ==> #[trigger] events[k] != InputEvent::Quit && events[k]
                != InputEvent::KeyDown(Key::Escape),
    ensures
        state_after_events(state, events) == toggled_times(state, space_presses(events)),
        forall|k: int|
            0 <= k < events.len() ==> spec_handle_event(
                state_after_events(state, events.take(k)),
                #[trigger] events[k],
            ).1 != EventOutcome::Stop,
    decreases events.len(),
{
    if events.len() > 0 {
        let prefix = events.drop_last();
        assert forall|k: int|
            0 <= k < prefix.len() implies #[trigger] prefix[k] != InputEvent::Quit && prefix[k]
                != InputEvent::KeyDown(Key::Escape) by {
            assert(prefix[k] == events[k]);
        }
        lemma_events_toggle_on_space(state, prefix);
        assert(events.last() == events[events.len() - 1]);
    }
}

/// Space pressed twice while running or paused returns to the same state.
pub proof fn lemma_pause_toggle_twice(state: State)
    requires
        state != State::QUIT,
    ensures
        ({
            let once = spec_handle_event(state, InputEvent::KeyDown(Key::Space)).0;
            spec_handle_event(once, InputEvent::KeyDown(Key::Space)).0 == state
        }),
{
}

/// Closing the window or pressing Escape always quits and stops event
/// handling, whatever the state.
pub proof fn lemma_quit_always_stops(state: State)
    ensures
        spec_handle_event(state, InputEvent::Quit) == (
        State::QUIT,
        EventOutcome::Stop,
        ),
        spec_handle_event(state, InputEvent::KeyDown(Key::Escape)) == (
        State::QUIT,
        EventOutcome::Stop,
        ),
{
}

} // verus!
