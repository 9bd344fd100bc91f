//! Laws of the instruction set and of the key model, proved of the
//! interpreter's semantics.

use crate::display::{
    blank, covers, lemma_draw_on_blank_has_no_collision, lemma_draw_twice_restores,
    lemma_redraw_collides, sprite_pixel,
};
use crate::instruction::Instruction;
use crate::interpreter::sprite_at;
use crate::machine::{is_lowest_pressed, lowest_pressed, none_pressed, MachineState};
use vstd::prelude::*;

verus! {

/// 8XY1, 8XY2 and 8XY3 set Vx to the bitwise OR, AND and XOR of Vx and Vy as
/// they were before the step. No other register changes; in particular VF is
/// left alone unless it is the destination.
pub proof fn lemma_bitwise_instructions(s: MachineState, x: u8, y: u8, random: u8)
    requires
        s.is_machine(),
        x < 16,
        y < 16,
    ensures
        s.next_instruction() == (Instruction::Or { x, y }) ==> s.step(random).vreg[x as int]
            == s.vreg[x as int] | s.vreg[y as int],
        s.next_instruction() == (Instruction::And { x, y }) ==> s.step(random).vreg[x as int]
            == s.vreg[x as int] & s.vreg[y as int],
        s.next_instruction() == (Instruction::Xor { x, y }) ==> s.step(random).vreg[x as int]
            == s.vreg[x as int] ^ s.vreg[y as int],
        s.next_instruction() == (Instruction::Or { x, y }) || s.next_instruction() == (
        Instruction::And { x, y }) || s.next_instruction() == (Instruction::Xor { x, y })
            ==> forall|r: int|
            0 <= r < 16 && r != x ==> s.step(random).vreg[r] == s.vreg[r],
{
}

/// 6XNN followed at once by 7XNN on the same register leaves the wrapped sum
/// of the two constants in Vx. No other register changes; in particular VF
/// is left alone unless it is the register in question.
pub proof fn lemma_load_then_add(
    s: MachineState,
    x: u8,
    first: u8,
    second: u8,
    random1: u8,
    random2: u8,
)
    requires
        s.is_machine(),
        x < 16,
        s.next_instruction() == (Instruction::LoadImm { x, nn: first }),
        s.step(random1).next_instruction() == (Instruction::AddImm { x, nn: second }),
    ensures
        s.step(random1).step(random2).vreg[x as int] == (first + second) % 256,
        forall|r: int| 0 <= r < 16 && r != x ==> s.step(random1).step(random2).vreg[r] == s.vreg[r],
{
}

/// FX33 stores the decimal digits of Vx: three bytes below 10 at I, I+1 and
/// I+2 that read as Vx, hundreds first. The rest of memory stays.
pub proof fn lemma_bcd_digits(s: MachineState, x: u8, random: u8)
    requires
        s.is_machine(),
        x < 16,
        s.step_fault() is None,
        s.next_instruction() == (Instruction::StoreBcd { x }),
    ensures
        ({
            let mem = s.step(random).mem;
            let i = s.ireg as int;
            &&& mem[i] < 10 && mem[i + 1] < 10 && mem[i + 2] < 10
            &&& 100 * mem[i] + 10 * mem[i + 1] + mem[i + 2] == s.vreg[x as int]
            &&& forall|a: int| 0 <= a < 4096 && !(i <= a <= i + 2) ==> mem[a] == s.mem[a]
        }),
{
}

/// A return that is executed right after a call leads to the instruction
/// that follows the call, and leaves the stack as deep as it was before the
/// call. The return is not refused, unless it lies at the very end of memory
/// where no instruction word can be fetched.
pub proof fn lemma_return_after_call(s: MachineState, addr: u16, random1: u8, random2: u8)
    requires
        s.is_machine(),
        s.step_fault() is None,
        s.next_instruction() == (Instruction::Call { addr }),
        s.step(random1).next_instruction() == Instruction::Return,
    ensures
        s.step(random1).program_counter == addr,
        s.step(random1).stack_pointer == s.stack_pointer + 1,
        s.step(random1).fault_of(Instruction::Return) is None,
        addr + 1 < 4096 ==> s.step(random1).step_fault() is None,
        s.step(random1).step(random2).program_counter == s.program_counter + 2,
        s.step(random1).step(random2).stack_pointer == s.stack_pointer,
{
}

/// DXYN executed twice in a row with the same operands restores the frame
/// buffer from before the first of the two. VF is the collision flag that the
/// draws write, so it may serve as neither coordinate register here.
pub proof fn lemma_draw_twice_restores_frame(
    s: MachineState,
    x: u8,
    y: u8,
    n: u8,
    random1: u8,
    random2: u8,
)
    requires
        s.is_machine(),
        x < 15,
        y < 15,
        s.next_instruction() == (Instruction::Draw { x, y, n }),
        s.step(random1).next_instruction() == (Instruction::Draw { x, y, n }),
    ensures
        s.step(random1).step(random2).gfx == s.gfx,
{
    let sprite = sprite_at(s.mem, s.ireg as int, n as int);
    lemma_draw_twice_restores(s.gfx, sprite, s.vreg[x as int], s.vreg[y as int]);
}

/// DXYN on a blank frame buffer reports no collision. Executed again right
/// away with the same operands it reports one, provided that a lit pixel of the
/// sprite lands at some position `(column, row)` of the frame buffer.
pub proof fn lemma_draw_twice_collides(
    s: MachineState,
    x: u8,
    y: u8,
    n: u8,
    column: int,
    row: int,
    random1: u8,
    random2: u8,
)
    requires
        s.is_machine(),
        x < 15,
        y < 15,
        s.gfx == blank(),
        s.next_instruction() == (Instruction::Draw { x, y, n }),
        s.step(random1).next_instruction() == (Instruction::Draw { x, y, n }),
        0 <= column < 64,
        0 <= row < 32,
        covers(
            sprite_at(s.mem, s.ireg as int, n as int),
            s.vreg[x as int],
            s.vreg[y as int],
            column,
            row,
        ),
        sprite_pixel(
            sprite_at(s.mem, s.ireg as int, n as int),
            s.vreg[x as int],
            s.vreg[y as int],
            column,
            row,
        ) == 1,
    ensures
        s.step(random1).vreg[0xF] == 0,
        s.step(random1).step(random2).vreg[0xF] == 1,
{
    let sprite = sprite_at(s.mem, s.ireg as int, n as int);
    lemma_draw_on_blank_has_no_collision(sprite, s.vreg[x as int], s.vreg[y as int]);
    lemma_redraw_collides(sprite, s.vreg[x as int], s.vreg[y as int], column, row);
}

/// FX0A with no key pressed changes nothing but the latched instruction word:
/// the program counter stays, so that the instruction is fetched again.
pub proof fn lemma_wait_key_polls(s: MachineState, x: u8, random: u8)
    requires
        s.is_machine(),
        s.step_fault() is None,
        s.next_instruction() == (Instruction::WaitKey { x }),
        none_pressed(s.keys),
    ensures
        s.step(random).program_counter == s.program_counter,
        s.step(random) == (MachineState { opcode: s.next_opcode(), ..s }),
{
}

/// Once a key is pressed, FX0A stores its index in Vx and the program counter
/// moves on to the following instruction.
pub proof fn lemma_wait_key_takes_pressed_key(s: MachineState, x: u8, key: u8, random: u8)
    requires
        s.is_machine(),
        s.step_fault() is None,
        s.next_instruction() == (Instruction::WaitKey { x }),
        x < 16,
        key < 16,
    ensures
        s.press_key(key).step(random).vreg[x as int] == key,
        s.press_key(key).step(random).program_counter == s.program_counter + 2,
{
    let keys = s.press_key(key).keys;
    assert(is_lowest_pressed(keys, key as int));
    let found = lowest_pressed(keys);
    assert(is_lowest_pressed(keys, found));
    assert(found == key) by {
        if found != key {
            assert(keys[found] == 0);
        }
    }
    assert(!none_pressed(keys)) by {
        assert(keys[key as int] > 0);
    }
}

/// FX0A that found no key, followed by a key press, finds the key on the next
/// step: the instruction that polled is the one that is run again.
pub proof fn lemma_wait_key_resumes(s: MachineState, x: u8, key: u8, random1: u8, random2: u8)
    requires
        s.is_machine(),
        s.step_fault() is None,
        s.next_instruction() == (Instruction::WaitKey { x }),
        none_pressed(s.keys),
        x < 16,
        key < 16,
    ensures
        s.step(random1).press_key(key).step(random2).vreg[x as int] == key,
        s.step(random1).press_key(key).step(random2).program_counter == s.program_counter + 2,
{
    lemma_wait_key_polls(s, x, random1);
    let polled = s.step(random1);
    assert(polled.next_instruction() == s.next_instruction());
    lemma_wait_key_takes_pressed_key(polled, x, key, random2);
}

/// A pressed key counts as pressed for exactly two key-decay ticks, and no
/// other key counts as pressed in the meantime.
pub proof fn lemma_key_decays_in_two_ticks(s: MachineState, key: u8)
    requires
        s.is_machine(),
        key < 16,
    ensures
        s.press_key(key).keys[key as int] == 2,
        s.press_key(key).decay_keys().keys[key as int] == 1,
        s.press_key(key).decay_keys().decay_keys().keys[key as int] == 0,
        forall|other: int|
            0 <= other < 16 && other != key ==> s.press_key(key).keys[other] == 0 && s.press_key(
                key,
            ).decay_keys().keys[other] == 0 && s.press_key(key).decay_keys().decay_keys().keys[other]
                == 0,
{
}

} // verus!
