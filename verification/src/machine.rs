//! The machine state: memory, registers, stack, timers, keys and frame buffer.

use crate::display::{blank, is_grid, is_monochrome, Display, Grid};
use crate::error::Chip8Error;
use crate::font::{with_font, FONT_SET, FONT_SIZE};
use vstd::prelude::*;

verus! {

/// Number of bytes of memory.
pub const MEMORY_SIZE: usize = 4096;

/// Address at which a program is loaded and at which execution starts.
pub const PROGRAM_START: u16 = 0x200;

/// Largest program that fits between 0x200 and the end of memory.
pub const MAX_ROM_SIZE: usize = 3584;

/// Number of return addresses that the stack holds.
pub const STACK_DEPTH: u16 = 16;

/// Counter value that a key gets when it is pressed.
pub const KEY_PRESS_TICKS: u8 = 2;

/// The mathematical value of a machine: every field of [`Chip8`], with arrays
/// as sequences and the frame buffer as a [`Grid`].
#[verifier::ext_equal]
pub struct MachineState {
    pub opcode: u16,
    pub program_counter: u16,
    pub mem: Seq<u8>,
    pub vreg: Seq<u8>,
    pub ireg: u16,
    pub gfx: Grid,
    pub delay_timer: u8,
    pub sound_timer: u8,
    pub stack: Seq<u16>,
    pub stack_pointer: u16,
    pub keys: Seq<u8>,
    pub desc: Seq<char>,
}

/// Memory with `rom` copied to 0x200 and the following addresses.
pub open spec fn with_program(mem: Seq<u8>, rom: Seq<u8>) -> Seq<u8> {
    Seq::new(
        mem.len(),
        |i: int|
            if 0x200 <= i < 0x200 + rom.len() {
                rom[i - 0x200]
            } else {
                mem[i]
            },
    )
}

/// `k` is the lowest key whose counter is above 0.
pub open spec fn is_lowest_pressed(keys: Seq<u8>, k: int) -> bool {
    &&& 0 <= k < 16
    &&& keys[k] > 0
    &&& forall|j: int| 0 <= j < k ==> keys[j] == 0
}

/// No key counter is above 0.
pub open spec fn none_pressed(keys: Seq<u8>) -> bool {
    forall|j: int| 0 <= j < 16 ==> keys[j] == 0
}

/// The lowest key whose counter is above 0, where there is one.
pub open spec fn lowest_pressed(keys: Seq<u8>) -> int {
    choose|k: int| is_lowest_pressed(keys, k)
}

/// The machine as it is when it is switched on: everything zero, the font in
/// memory, and the program counter at 0x200.
pub open spec fn initial_state() -> MachineState {
    MachineState {
        opcode: 0,
        program_counter: 0x200,
        mem: with_font(Seq::new(4096, |i: int| 0u8)),
        vreg: Seq::new(16, |i: int| 0u8),
        ireg: 0,
        gfx: blank(),
        delay_timer: 0,
        sound_timer: 0,
        stack: Seq::new(16, |i: int| 0u16),
        stack_pointer: 0,
        keys: Seq::new(16, |i: int| 0u8),
        desc: Seq::empty(),
    }
}

impl MachineState {
    /// The sequences have the sizes of the machine's arrays.
    pub open spec fn is_machine(self) -> bool {
        &&& self.mem.len() == 4096
        &&& self.vreg.len() == 16
        &&& self.stack.len() == 16
        &&& self.keys.len() == 16
        &&& is_grid(self.gfx)
    }

    /// What the machine maintains in normal operation: at most 16 return
    /// addresses on the stack, and pixels that are 0 or 1.
    pub open spec fn well_formed(self) -> bool {
        &&& self.is_machine()
        &&& self.stack_pointer <= 16
        &&& is_monochrome(self.gfx)
    }

    /// Key `k` counts as pressed.
    pub open spec fn key_pressed(self, k: int) -> bool {
        self.keys[k] > 0
    }

    /// The state after key `key` was pressed: it alone is active, for two
    /// decay ticks.
    pub open spec fn press_key(self, key: u8) -> MachineState {
        MachineState {
            keys: Seq::new(
                16,
                |i: int|
                    if i == key {
                        2u8
                    } else {
                        0u8
                    },
            ),
            ..self
        }
    }

    /// The state after one key-decay tick: every counter above 0 is one less.
    pub open spec fn decay_keys(self) -> MachineState {
        MachineState {
            keys: Seq::new(
                16,
                |i: int|
                    if self.keys[i] > 0 {
                        (self.keys[i] - 1) as u8
                    } else {
                        0u8
                    },
            ),
            ..self
        }
    }

    /// The state after one timer tick: the delay timer is one less unless it is 0.
    pub open spec fn decrement_delay_timer(self) -> MachineState {
        MachineState {
            delay_timer: if self.delay_timer > 0 {
                (self.delay_timer - 1) as u8
            } else {
                0u8
            },
            ..self
        }
    }

    /// The state with the font in memory.
    pub open spec fn load_fonts(self) -> MachineState {
        MachineState { mem: with_font(self.mem), ..self }
    }

    /// The state with `rom` in memory from 0x200 on.
    pub open spec fn load_game(self, rom: Seq<u8>) -> MachineState {
        MachineState { mem: with_program(self.mem, rom), ..self }
    }
}

/// A CHIP-8 machine. A value holds everything there is to the machine, so that
/// a clone is a snapshot of it.
#[derive(Debug, PartialEq, Eq)]
pub struct Chip8 {
    /// The instruction word fetched last.
    pub opcode: u16,
    pub program_counter: u16,
    pub mem: [u8; 4096],
    /// V0 to VF. VF doubles as the flag that several instructions write.
    pub vreg: [u8; 16],
    pub ireg: u16,
    pub gfx: Display,
    pub delay_timer: u8,
    pub sound_timer: u8,
    /// Return addresses; the entries below `stack_pointer` are in use.
    pub stack: [u16; 16],
    pub stack_pointer: u16,
    /// Press counters, one per key: 0 is released, above 0 is pressed.
    pub keys: [u8; 16],
    /// What the last clear-screen or return instruction did, in words.
    pub desc: String,
}

impl View for Chip8 {
    type V = MachineState;

    open spec fn view(&self) -> MachineState {
        MachineState {
            opcode: self.opcode,
            program_counter: self.program_counter,
            mem: self.mem@,
            vreg: self.vreg@,
            ireg: self.ireg,
            gfx: self.gfx@,
            delay_timer: self.delay_timer,
            sound_timer: self.sound_timer,
            stack: self.stack@,
            stack_pointer: self.stack_pointer,
            keys: self.keys@,
            desc: self.desc@,
        }
    }
}

impl Clone for Chip8 {
    /// A snapshot: equal to the machine in every field.
    fn clone(&self) -> (copy: Self)
        ensures
            copy == *self,
    {
        Chip8 {
            opcode: self.opcode,
            program_counter: self.program_counter,
            mem: self.mem,
            vreg: self.vreg,
            ireg: self.ireg,
            gfx: self.gfx.clone(),
            delay_timer: self.delay_timer,
            sound_timer: self.sound_timer,
            stack: self.stack,
            stack_pointer: self.stack_pointer,
            keys: self.keys,
            desc: self.desc.clone(),
        }
    }
}

impl Chip8 {
    /// See [`MachineState::well_formed`].
    pub open spec fn well_formed(&self) -> bool {
        self@.well_formed()
    }

    /// A machine as it is when switched on, with the font loaded and no program.
    pub fn new() -> (chip8: Self)
        ensures
            chip8@ == initial_state(),
            chip8.well_formed(),
    {
        let mut chip8 = Chip8 {
            opcode: 0,
            program_counter: PROGRAM_START,
            mem: [0u8; 4096],
            vreg: [0u8; 16],
            ireg: 0,
            gfx: Display::new(),
            delay_timer: 0,
            sound_timer: 0,
            stack: [0u16; 16],
            stack_pointer: 0,
            keys: [0u8; 16],
            desc: String::new(),
        };
        chip8.load_fonts();
        assert(chip8@.mem =~= initial_state().mem);
        assert(chip8@.vreg =~= initial_state().vreg);
        assert(chip8@.stack =~= initial_state().stack);
        assert(chip8@.keys =~= initial_state().keys);
        chip8
    }

    /// Registers a key press: all counters are cleared, then the counter of
    /// `key` is set to 2, so that one key is active at a time.
    pub fn press_key(&mut self, key: u8)
        requires
            key < 16,
        ensures
            final(self)@ == old(self)@.press_key(key),
            old(self).well_formed() ==> final(self).well_formed(),
    {
        let mut keys = [0u8; 16];
        keys[key as usize] = KEY_PRESS_TICKS;
        self.keys = keys;
        assert(self@.keys =~= old(self)@.press_key(key).keys);
    }

    /// Whether `key` counts as pressed.
    pub fn key_pressed(&self, key: u8) -> (pressed: bool)
        requires
            key < 16,
        ensures
            pressed == self@.key_pressed(key as int),
    {
        self.keys[key as usize] > 0
    }

    /// The lowest key that counts as pressed.
    pub fn first_pressed_key(&self) -> (found: Option<u8>)
        ensures
            match found {
                Some(k) => is_lowest_pressed(self@.keys, k as int) && k == lowest_pressed(self@.keys),
                None => none_pressed(self@.keys),
            },
    {
        let mut k: u8 = 0;
        while k < 16
            invariant
                k <= 16,
                forall|j: int| 0 <= j < k ==> self.keys[j] == 0,
            decreases 16 - k,
        {
            if self.keys[k as usize] > 0 {
                assert(is_lowest_pressed(self@.keys, k as int));
                let ghost c = lowest_pressed(self@.keys);
                assert(is_lowest_pressed(self@.keys, c));
                assert(c == k) by {
                    if c < k {
                        assert(self.keys[c] == 0);
                    } else if k < c {
                        assert(self@.keys[k as int] == 0);
                    }
                }
                return Some(k);
            }
            k += 1;
        }
        None
    }

    /// One key-decay tick: every counter above 0 goes down by one.
    pub fn decay_keys(&mut self)
        ensures
            final(self)@ == old(self)@.decay_keys(),
            old(self).well_formed() ==> final(self).well_formed(),
    {
        let mut keys = self.keys;
        let mut i: usize = 0;
        while i < 16
            invariant
                i <= 16,
                forall|j: int| 0 <= j < i ==> keys[j] == old(self)@.decay_keys().keys[j],
                forall|j: int| i <= j < 16 ==> keys[j] == old(self).keys[j],
            decreases 16 - i,
        {
            if keys[i] > 0 {
                keys[i] = keys[i] - 1;
            }
            i += 1;
        }
        self.keys = keys;
        assert(self@.keys =~= old(self)@.decay_keys().keys);
    }

    /// Copies the font to 0x50..=0x9F.
    pub fn load_fonts(&mut self)
        ensures
            final(self)@ == old(self)@.load_fonts(),
            old(self).well_formed() ==> final(self).well_formed(),
    {
        let mut mem = self.mem;
        let mut i: usize = 0;
        while i < FONT_SIZE
            invariant
                i <= 80,
                forall|j: int| 0x50 <= j < 0x50 + i ==> mem[j] == FONT_SET[j - 0x50],
                forall|j: int| 0 <= j < 4096 && !(0x50 <= j < 0x50 + i) ==> mem[j] == old(self).mem[j],
            decreases 80 - i,
        {
            mem[0x50 + i] = FONT_SET[i];
            i += 1;
        }
        self.mem = mem;
        assert(self@.mem =~= old(self)@.load_fonts().mem);
    }

    /// Copies a program into memory from 0x200 on. A program of more than 3584
    /// bytes does not fit: it is refused and the machine stays as it is.
    pub fn load_game(&mut self, rom: &Vec<u8>) -> (loaded: Result<(), Chip8Error>)
        ensures
            rom.len() <= 3584 ==> loaded == Ok::<(), Chip8Error>(()) && final(self)@ == old(self)@.load_game(rom@),
            rom.len() > 3584 ==> loaded == Err::<(), Chip8Error>(Chip8Error::RomTooLarge) && *final(self) == *old(self),
            old(self).well_formed() ==> final(self).well_formed(),
    {
        if rom.len() > MAX_ROM_SIZE {
            return Err(Chip8Error::RomTooLarge);
        }
        let mut mem = self.mem;
        let mut i: usize = 0;
        while i < rom.len()
            invariant
                i <= rom.len() <= 3584,
                forall|j: int| 0x200 <= j < 0x200 + i ==> mem[j] == rom[j - 0x200],
                forall|j: int| 0 <= j < 4096 && !(0x200 <= j < 0x200 + i) ==> mem[j] == old(self).mem[j],
            decreases rom.len() - i,
        {
            mem[0x200 + i] = rom[i];
            i += 1;
        }
        self.mem = mem;
        assert(self@.mem =~= old(self)@.load_game(rom@).mem);
        Ok(())
    }

    /// One timer tick: the delay timer goes down by one unless it is 0.
    pub fn decrement_delay_timer(&mut self)
        ensures
            final(self)@ == old(self)@.decrement_delay_timer(),
            old(self).well_formed() ==> final(self).well_formed(),
    {
        if self.delay_timer > 0 {
            self.delay_timer -= 1;
        }
    }
}

} // verus!
