//! The interpreter: what one instruction does to the machine, and the
//! fetch-decode-execute step that applies it.

use crate::display::{
    blank, collides, drawn, has_full_columns, lemma_draw_keeps_monochrome, Grid,
};
use crate::error::Chip8Error;
use crate::instruction::{decode, decode_spec, lemma_decode_well_formed, Instruction};
use crate::machine::{lowest_pressed, none_pressed, Chip8, MachineState};
use crate::trace::{clear_text, describe_clear, describe_return, return_text};
use vstd::prelude::*;

verus! {

/// The instruction word at `pc`: two bytes, the high one first.
pub open spec fn opcode_at(mem: Seq<u8>, pc: int) -> u16 {
    (mem[pc] as int * 256 + mem[pc + 1] as int) as u16
}

/// `n` reduced to a byte, as wrapping arithmetic does.
pub open spec fn wrap8(n: int) -> u8 {
    (n % 256) as u8
}

/// The sprite of `n` rows stored at `addr`: 8 columns, where column `c` of row
/// `r` is bit `7 - c` of the byte at `addr + r`.
pub open spec fn sprite_at(mem: Seq<u8>, addr: int, n: int) -> Grid {
    Seq::new(8, |c: int| Seq::new(n as nat, |r: int| (mem[addr + r] >> ((7 - c) as u8)) & 1u8))
}

/// Memory with V0..=Vx stored from `addr` on.
pub open spec fn with_registers(mem: Seq<u8>, vreg: Seq<u8>, addr: int, x: int) -> Seq<u8> {
    Seq::new(
        mem.len(),
        |i: int|
            if addr <= i <= addr + x {
                vreg[i - addr]
            } else {
                mem[i]
            },
    )
}

/// The registers with V0..=Vx loaded from `addr` on.
pub open spec fn from_memory(vreg: Seq<u8>, mem: Seq<u8>, addr: int, x: int) -> Seq<u8> {
    Seq::new(
        vreg.len(),
        |r: int|
            if r <= x {
                mem[addr + r]
            } else {
                vreg[r]
            },
    )
}

/// The registers after 8XY4. VF is written first: 1 if the sum of Vx and Vy
/// fits in a byte, else 0. Vx is then the wrapped sum of the registers as they
/// are after that write, which matters where `x` or `y` is 0xF.
pub open spec fn add_registers(v: Seq<u8>, x: int, y: int) -> Seq<u8> {
    let w = v.update(
        0xF,
        if v[x] + v[y] <= 255 {
            1u8
        } else {
            0u8
        },
    );
    w.update(x, wrap8(w[x] + w[y]))
}

/// The registers after 8XY5. VF is written first: 1 if Vx is below Vy, else 0.
/// Vx is then the wrapped difference Vx - Vy of the registers as they are
/// after that write.
pub open spec fn sub_registers(v: Seq<u8>, x: int, y: int) -> Seq<u8> {
    let w = v.update(
        0xF,
        if v[x] >= v[y] {
            0u8
        } else {
            1u8
        },
    );
    w.update(x, wrap8(w[x] - w[y]))
}

/// The registers after 8XY7. VF is written first: 1 if Vy is below Vx, else 0.
/// Vx is then the wrapped difference Vy - Vx of the registers as they are
/// after that write.
pub open spec fn sub_from_registers(v: Seq<u8>, x: int, y: int) -> Seq<u8> {
    let w = v.update(
        0xF,
        if v[y] >= v[x] {
            0u8
        } else {
            1u8
        },
    );
    w.update(x, wrap8(w[y] - w[x]))
}

/// The registers after 8XY6. VF is written first: the lowest bit of Vx. Vx is
/// then shifted right by one, as it is after that write.
pub open spec fn shift_right_registers(v: Seq<u8>, x: int) -> Seq<u8> {
    let w = v.update(0xF, v[x] & 1);
    w.update(x, w[x] >> 1u8)
}

/// The registers after 8XYE. VF is written first: the highest bit of Vx. Vx is
/// then shifted left by one, as it is after that write.
pub open spec fn shift_left_registers(v: Seq<u8>, x: int) -> Seq<u8> {
    let w = v.update(0xF, (v[x] >> 7u8) & 1);
    w.update(x, w[x] << 1u8)
}

impl MachineState {
    /// The state with Vx set to `value`.
    pub open spec fn set_reg(self, x: u8, value: u8) -> MachineState {
        MachineState { vreg: self.vreg.update(x as int, value), ..self }
    }

    /// The state with the program counter moved to `addr`.
    pub open spec fn jump(self, addr: int) -> MachineState {
        MachineState { program_counter: addr as u16, ..self }
    }

    /// The state with the next instruction skipped if `condition` holds.
    pub open spec fn skip_if(self, condition: bool) -> MachineState {
        if condition {
            self.jump(self.program_counter + 2)
        } else {
            self
        }
    }

    /// The state after a call to `addr`: the program counter is pushed.
    pub open spec fn call(self, addr: u16) -> MachineState {
        MachineState {
            stack: self.stack.update(self.stack_pointer as int, self.program_counter),
            stack_pointer: (self.stack_pointer + 1) as u16,
            program_counter: addr,
            ..self
        }
    }

    /// The instruction word at the program counter.
    pub open spec fn next_opcode(self) -> u16 {
        opcode_at(self.mem, self.program_counter as int)
    }

    /// The instruction at the program counter.
    pub open spec fn next_instruction(self) -> Instruction {
        decode_spec(self.next_opcode())
    }

    /// The fault, if any, that keeps `instruction` from being executed in
    /// this state.
    pub open spec fn fault_of(self, instruction: Instruction) -> Option<Chip8Error> {
        match instruction {
            Instruction::SysCall { .. } | Instruction::Call { .. } => {
                if self.stack_pointer >= 16 {
                    Some(Chip8Error::StackOverflow)
                } else {
                    None
                }
            },
            Instruction::Return => {
                if self.stack_pointer == 0 {
                    Some(Chip8Error::StackUnderflow)
                } else if self.stack_pointer > 16 {
                    Some(Chip8Error::StackOverflow)
                } else {
                    None
                }
            },
            Instruction::Draw { n, .. } => {
                if self.ireg + n > 4096 {
                    Some(Chip8Error::MemoryOutOfBounds)
                } else {
                    None
                }
            },
            Instruction::SkipKeyPressed { x } | Instruction::SkipKeyNotPressed { x } => {
                if self.vreg[x as int] >= 16 {
                    Some(Chip8Error::InvalidKey)
                } else {
                    None
                }
            },
            Instruction::StoreBcd { .. } => {
                if self.ireg + 2 >= 4096 {
                    Some(Chip8Error::MemoryOutOfBounds)
                } else {
                    None
                }
            },
            Instruction::StoreRegs { x } | Instruction::LoadRegs { x } => {
                if self.ireg + x >= 4096 {
                    Some(Chip8Error::MemoryOutOfBounds)
                } else {
                    None
                }
            },
            _ => None,
        }
    }

    /// The fault, if any, that keeps the machine from making its next step:
    /// the instruction word lies beyond the end of memory, or the instruction
    /// cannot be executed.
    pub open spec fn step_fault(self) -> Option<Chip8Error> {
        if self.program_counter + 1 >= 4096 {
            Some(Chip8Error::MemoryOutOfBounds)
        } else {
            self.fault_of(self.next_instruction())
        }
    }

    /// The state after the fetch: the word is latched and the program counter
    /// points to the following instruction.
    pub open spec fn fetched(self) -> MachineState {
        MachineState {
            opcode: self.next_opcode(),
            program_counter: (self.program_counter + 2) as u16,
            ..self
        }
    }

    /// The state after `instruction` has been executed. `self` is the state
    /// after the fetch; `random` is the byte that a `Random` instruction uses.
    pub open spec fn execute(self, instruction: Instruction, random: u8) -> MachineState {
        let v = self.vreg;
        match instruction {
            Instruction::ClearScreen => MachineState { gfx: blank(), desc: clear_text(), ..self },
            Instruction::Return => MachineState {
                stack_pointer: (self.stack_pointer - 1) as u16,
                program_counter: self.stack[self.stack_pointer - 1],
                desc: return_text(self.stack_pointer as nat, (self.stack_pointer - 1) as nat),
                ..self
            },
            Instruction::SysCall { addr } => self.call(addr),
            Instruction::Jump { addr } => self.jump(addr as int),
            Instruction::Call { addr } => self.call(addr),
            Instruction::SkipEqImm { x, nn } => self.skip_if(v[x as int] == nn),
            Instruction::SkipNeImm { x, nn } => self.skip_if(v[x as int] != nn),
            Instruction::SkipEqReg { x, y } => self.skip_if(v[x as int] == v[y as int]),
            Instruction::LoadImm { x, nn } => self.set_reg(x, nn),
            Instruction::AddImm { x, nn } => self.set_reg(x, wrap8(v[x as int] + nn)),
            Instruction::Move { x, y } => self.set_reg(x, v[y as int]),
            Instruction::Or { x, y } => self.set_reg(x, v[x as int] | v[y as int]),
            Instruction::And { x, y } => self.set_reg(x, v[x as int] & v[y as int]),
            Instruction::Xor { x, y } => self.set_reg(x, v[x as int] ^ v[y as int]),
            Instruction::AddReg { x, y } => MachineState {
                vreg: add_registers(v, x as int, y as int),
                ..self
            },
            Instruction::SubReg { x, y } => MachineState {
                vreg: sub_registers(v, x as int, y as int),
                ..self
            },
            Instruction::ShiftRight { x } => MachineState {
                vreg: shift_right_registers(v, x as int),
                ..self
            },
            Instruction::SubFrom { x, y } => MachineState {
                vreg: sub_from_registers(v, x as int, y as int),
                ..self
            },
            Instruction::ShiftLeft { x } => MachineState {
                vreg: shift_left_registers(v, x as int),
                ..self
            },
            Instruction::SkipNeReg { x, y } => self.skip_if(v[x as int] != v[y as int]),
            Instruction::LoadIndex { addr } => MachineState { ireg: addr, ..self },
            Instruction::JumpOffset { addr } => self.jump(v[0] + addr),
            Instruction::Random { x, nn } => self.set_reg(x, random & nn),
            Instruction::Draw { x, y, n } => {
                let sprite = sprite_at(self.mem, self.ireg as int, n as int);
                MachineState {
                    gfx: drawn(self.gfx, sprite, v[x as int], v[y as int]),
                    vreg: v.update(
                        0xF,
                        if collides(self.gfx, sprite, v[x as int], v[y as int]) {
                            1u8
                        } else {
                            0u8
                        },
                    ),
                    ..self
                }
            },
            Instruction::SkipKeyPressed { x } => self.skip_if(self.keys[v[x as int] as int] > 0),
            Instruction::SkipKeyNotPressed { x } => self.skip_if(!(self.keys[v[x as int] as int] > 0)),
            Instruction::ReadDelay { x } => self.set_reg(x, self.delay_timer),
            Instruction::WaitKey { x } => {
                if none_pressed(self.keys) {
                    self.jump(self.program_counter - 2)
                } else {
                    self.set_reg(x, lowest_pressed(self.keys) as u8)
                }
            },
            Instruction::SetDelay { x } => MachineState { delay_timer: v[x as int], ..self },
            Instruction::SetSound { x } => MachineState { sound_timer: v[x as int], ..self },
            Instruction::AddIndex { x } => MachineState {
                ireg: ((self.ireg + v[x as int]) % 65536) as u16,
                ..self
            },
            Instruction::FontAddr { x } => MachineState { ireg: (0x50 + 5 * v[x as int]) as u16, ..self },
            Instruction::StoreBcd { x } => MachineState {
                mem: self.mem.update(self.ireg as int, v[x as int] / 100 % 10).update(
                    self.ireg + 1,
                    v[x as int] / 10 % 10,
                ).update(self.ireg + 2, v[x as int] % 10),
                ..self
            },
            Instruction::StoreRegs { x } => MachineState {
                mem: with_registers(self.mem, v, self.ireg as int, x as int),
                ..self
            },
            Instruction::LoadRegs { x } => MachineState {
                vreg: from_memory(v, self.mem, self.ireg as int, x as int),
                ..self
            },
        }
    }

    /// The state after one fetch-decode-execute step, where no fault keeps the
    /// machine from making it.
    pub open spec fn step(self, random: u8) -> MachineState {
        self.fetched().execute(self.next_instruction(), random)
    }
}

/// Only a `Random` instruction looks at the random byte.
pub proof fn lemma_random_only_matters_to_random(s: MachineState, r1: u8, r2: u8)
    requires
        !(s.next_instruction() is Random),
    ensures
        s.step(r1) == s.step(r2),
{
}

/// A step that no fault prevents keeps a well-formed machine well-formed.
pub proof fn lemma_step_keeps_well_formed(s: MachineState, random: u8)
    requires
        s.well_formed(),
        s.step_fault() is None,
    ensures
        s.step(random).well_formed(),
{
    let f = s.fetched();
    let instruction = s.next_instruction();
    lemma_decode_well_formed(s.next_opcode());
    match instruction {
        Instruction::Draw { x, y, n } => {
            let sprite = sprite_at(f.mem, f.ireg as int, n as int);
            assert forall|c: int, r: int|
                0 <= c < sprite.len() && 0 <= r < sprite[c].len() implies #[trigger] sprite[c][r]
                <= 1 by {
                let b = f.mem[f.ireg + r];
                let k = (7 - c) as u8;
                assert((b >> k) & 1u8 <= 1) by (bit_vector);
            }
            lemma_draw_keeps_monochrome(f.gfx, sprite, f.vreg[x as int], f.vreg[y as int]);
        },
        _ => {},
    }
}

/// 8XY4 on the register file.
fn add_with_flag(vreg: &mut [u8; 16], x: usize, y: usize)
    requires
        x < 16,
        y < 16,
    ensures
        final(vreg)@ == add_registers(old(vreg)@, x as int, y as int),
{
    vreg[0xF] = match vreg[x].checked_add(vreg[y]) {
        Some(_) => 1,
        None => 0,
    };
    vreg[x] = vreg[x].wrapping_add(vreg[y]);
    assert(vreg@ =~= add_registers(old(vreg)@, x as int, y as int));
}

/// 8XY5 on the register file.
fn sub_with_flag(vreg: &mut [u8; 16], x: usize, y: usize)
    requires
        x < 16,
        y < 16,
    ensures
        final(vreg)@ == sub_registers(old(vreg)@, x as int, y as int),
{
    vreg[0xF] = match vreg[x].checked_sub(vreg[y]) {
        Some(_) => 0,
        None => 1,
    };
    vreg[x] = vreg[x].wrapping_sub(vreg[y]);
    assert(vreg@ =~= sub_registers(old(vreg)@, x as int, y as int));
}

/// 8XY7 on the register file.
fn sub_from_with_flag(vreg: &mut [u8; 16], x: usize, y: usize)
    requires
        x < 16,
        y < 16,
    ensures
        final(vreg)@ == sub_from_registers(old(vreg)@, x as int, y as int),
{
    vreg[0xF] = match vreg[y].checked_sub(vreg[x]) {
        Some(_) => 0,
        None => 1,
    };
    vreg[x] = vreg[y].wrapping_sub(vreg[x]);
    assert(vreg@ =~= sub_from_registers(old(vreg)@, x as int, y as int));
}

/// 8XY6 on the register file.
fn shift_right_with_flag(vreg: &mut [u8; 16], x: usize)
    requires
        x < 16,
    ensures
        final(vreg)@ == shift_right_registers(old(vreg)@, x as int),
{
    vreg[0xF] = vreg[x] & 1;
    vreg[x] = vreg[x] >> 1u8;
    assert(vreg@ =~= shift_right_registers(old(vreg)@, x as int));
}

/// 8XYE on the register file.
fn shift_left_with_flag(vreg: &mut [u8; 16], x: usize)
    requires
        x < 16,
    ensures
        final(vreg)@ == shift_left_registers(old(vreg)@, x as int),
{
    vreg[0xF] = (vreg[x] >> 7u8) & 1;
    vreg[x] = vreg[x] << 1u8;
    assert(vreg@ =~= shift_left_registers(old(vreg)@, x as int));
}

impl Chip8 {
    /// The instruction word at the program counter.
    pub fn fetch(&self) -> (word: Result<u16, Chip8Error>)
        ensures
            self.program_counter + 1 < 4096 ==> word == Ok::<u16, Chip8Error>(self@.next_opcode()),
            self.program_counter + 1 >= 4096 ==> word == Err::<u16, Chip8Error>(
                Chip8Error::MemoryOutOfBounds,
            ),
    {
        let pc = self.program_counter as usize;
        if pc + 1 >= 4096 {
            return Err(Chip8Error::MemoryOutOfBounds);
        }
        let high: u8 = self.mem[pc];
        let low: u8 = self.mem[pc + 1];
        assert((high as u16) << 8 | (low as u16) == high as u16 * 256 + low as u16) by (bit_vector);
        Ok((high as u16) << 8 | (low as u16))
    }

    /// The fault, if any, that keeps `instruction` from being executed.
    pub fn check(&self, instruction: Instruction) -> (fault: Option<Chip8Error>)
        requires
            instruction.well_formed(),
        ensures
            fault == self@.fault_of(instruction),
    {
        match instruction {
            Instruction::SysCall { .. } | Instruction::Call { .. } => {
                if self.stack_pointer >= 16 {
                    Some(Chip8Error::StackOverflow)
                } else {
                    None
                }
            },
            Instruction::Return => {
                if self.stack_pointer == 0 {
                    Some(Chip8Error::StackUnderflow)
                } else if self.stack_pointer > 16 {
                    Some(Chip8Error::StackOverflow)
                } else {
                    None
                }
            },
            Instruction::Draw { n, .. } => {
                if self.ireg as usize + n as usize > 4096 {
                    Some(Chip8Error::MemoryOutOfBounds)
                } else {
                    None
                }
            },
            Instruction::SkipKeyPressed { x } | Instruction::SkipKeyNotPressed { x } => {
                if self.vreg[x as usize] >= 16 {
                    Some(Chip8Error::InvalidKey)
                } else {
                    None
                }
            },
            Instruction::StoreBcd { .. } => {
                if self.ireg as usize + 2 >= 4096 {
                    Some(Chip8Error::MemoryOutOfBounds)
                } else {
                    None
                }
            },
            Instruction::StoreRegs { x } | Instruction::LoadRegs { x } => {
                if self.ireg as usize + x as usize >= 4096 {
                    Some(Chip8Error::MemoryOutOfBounds)
                } else {
                    None
                }
            },
            _ => None,
        }
    }

    /// The instruction at the program counter, if the machine can make its
    /// next step, else the fault that prevents it.
    pub fn peek(&self) -> (next: Result<Instruction, Chip8Error>)
        ensures
            match next {
                Ok(instruction) => self@.step_fault() is None && instruction
                    == self@.next_instruction() && instruction.well_formed(),
                Err(fault) => self@.step_fault() == Some(fault),
            },
    {
        let opcode = match self.fetch() {
            Ok(word) => word,
            Err(fault) => {
                return Err(fault);
            },
        };
        let instruction = decode(opcode);
        match self.check(instruction) {
            Some(fault) => Err(fault),
            None => Ok(instruction),
        }
    }

    /// The sprite of `n` rows at the index register, column by column.
    fn sprite(&self, n: u8) -> (sprite: Vec<Vec<u8>>)
        requires
            self.ireg + n <= 4096,
        ensures
            sprite.deep_view() == sprite_at(self@.mem, self.ireg as int, n as int),
            has_full_columns(sprite.deep_view()),
    {
        let ghost expected = sprite_at(self@.mem, self.ireg as int, n as int);
        let base = self.ireg as usize;
        let mut sprite: Vec<Vec<u8>> = Vec::new();
        let mut c: u8 = 0;
        while c < 8
            invariant
                c <= 8,
                base == self.ireg,
                base + n <= 4096,
                expected == sprite_at(self@.mem, self.ireg as int, n as int),
                sprite.len() == c,
                forall|j: int| 0 <= j < c ==> (#[trigger] sprite@[j])@ == expected[j],
            decreases 8 - c,
        {
            let mut column: Vec<u8> = Vec::new();
            let mut r: usize = 0;
            while r < n as usize
                invariant
                    r <= n,
                    c < 8,
                    base == self.ireg,
                    base + n <= 4096,
                    expected == sprite_at(self@.mem, self.ireg as int, n as int),
                    column.len() == r,
                    forall|k: int| 0 <= k < r ==> column@[k] == expected[c as int][k],
                decreases n - r,
            {
                column.push((self.mem[base + r] >> (7 - c)) & 1);
                r += 1;
            }
            assert(column@ =~= expected[c as int]);
            sprite.push(column);
            c += 1;
        }
        proof {
            assert forall|j: int| 0 <= j < 8 implies #[trigger] sprite.deep_view()[j] == expected[j] by {
                assert(sprite@[j].deep_view() =~= sprite@[j]@);
            }
            assert(sprite.deep_view() =~= expected);
        }
        sprite
    }

    /// Executes the instructions that read or write memory at the index register.
    fn execute_memory(&mut self, instruction: Instruction)
        requires
            instruction.well_formed(),
            instruction is StoreBcd || instruction is StoreRegs || instruction is LoadRegs,
            old(self)@.fault_of(instruction) is None,
        ensures
            final(self)@ == old(self)@.execute(instruction, 0),
    {
        let base = self.ireg as usize;
        match instruction {
            Instruction::StoreBcd { x } => {
                let value = self.vreg[x as usize];
                self.mem[base] = value / 100 % 10;
                self.mem[base + 1] = value / 10 % 10;
                self.mem[base + 2] = value % 10;
            },
            Instruction::StoreRegs { x } => {
                let mut mem = self.mem;
                let mut r: usize = 0;
                while r <= x as usize
                    invariant
                        x < 16,
                        r <= x + 1,
                        base == self.ireg,
                        base + x < 4096,
                        forall|i: int| base <= i < base + r ==> mem[i] == self.vreg[i - base],
                        forall|i: int|
                            0 <= i < 4096 && !(base <= i < base + r) ==> mem[i] == self.mem[i],
                    decreases x + 1 - r,
                {
                    mem[base + r] = self.vreg[r];
                    r += 1;
                }
                self.mem = mem;
                assert(self@.mem =~= old(self)@.execute(instruction, 0).mem);
            },
            Instruction::LoadRegs { x } => {
                let mut vreg = self.vreg;
                let mut r: usize = 0;
                while r <= x as usize
                    invariant
                        x < 16,
                        r <= x + 1,
                        base == self.ireg,
                        base + x < 4096,
                        forall|i: int| 0 <= i < r ==> vreg[i] == self.mem[base + i],
                        forall|i: int| r <= i < 16 ==> vreg[i] == self.vreg[i],
                    decreases x + 1 - r,
                {
                    vreg[r] = self.mem[base + r];
                    r += 1;
                }
                self.vreg = vreg;
                assert(self@.vreg =~= old(self)@.execute(instruction, 0).vreg);
            },
            _ => {},
        }
    }

    /// Executes `instruction` on the machine as it is after the fetch.
    fn execute(&mut self, instruction: Instruction, random: u8)
        requires
            instruction.well_formed(),
            old(self)@.fault_of(instruction) is None,
            2 <= old(self).program_counter <= 4096,
        ensures
            final(self)@ == old(self)@.execute(instruction, random),
    {
        match instruction {
            Instruction::ClearScreen => {
                self.gfx.cls();
                self.desc = describe_clear();
            },
            Instruction::Return => {
                self.desc = describe_return(self.stack_pointer, self.stack_pointer - 1);
                self.stack_pointer -= 1;
                self.program_counter = self.stack[self.stack_pointer as usize];
            },
            Instruction::SysCall { addr } | Instruction::Call { addr } => {
                self.stack[self.stack_pointer as usize] = self.program_counter;
                self.stack_pointer += 1;
                self.program_counter = addr;
            },
            Instruction::Jump { addr } => {
                self.program_counter = addr;
            },
            Instruction::SkipEqImm { x, nn } => {
                if self.vreg[x as usize] == nn {
                    self.program_counter += 2;
                }
            },
            Instruction::SkipNeImm { x, nn } => {
                if self.vreg[x as usize] != nn {
                    self.program_counter += 2;
                }
            },
            Instruction::SkipEqReg { x, y } => {
                if self.vreg[x as usize] == self.vreg[y as usize] {
                    self.program_counter += 2;
                }
            },
            Instruction::LoadImm { x, nn } => {
                self.vreg[x as usize] = nn;
            },
            Instruction::AddImm { x, nn } => {
                self.vreg[x as usize] = self.vreg[x as usize].wrapping_add(nn);
            },
            Instruction::Move { x, y } => {
                self.vreg[x as usize] = self.vreg[y as usize];
            },
            Instruction::Or { x, y } => {
                self.vreg[x as usize] = self.vreg[x as usize] | self.vreg[y as usize];
            },
            Instruction::And { x, y } => {
                self.vreg[x as usize] = self.vreg[x as usize] & self.vreg[y as usize];
            },
            Instruction::Xor { x, y } => {
                self.vreg[x as usize] = self.vreg[x as usize] ^ self.vreg[y as usize];
            },
            Instruction::AddReg { x, y } => {
                add_with_flag(&mut self.vreg, x as usize, y as usize);
            },
            Instruction::SubReg { x, y } => {
                sub_with_flag(&mut self.vreg, x as usize, y as usize);
            },
            Instruction::ShiftRight { x } => {
                shift_right_with_flag(&mut self.vreg, x as usize);
            },
            Instruction::SubFrom { x, y } => {
                sub_from_with_flag(&mut self.vreg, x as usize, y as usize);
            },
            Instruction::ShiftLeft { x } => {
                shift_left_with_flag(&mut self.vreg, x as usize);
            },
            Instruction::SkipNeReg { x, y } => {
                if self.vreg[x as usize] != self.vreg[y as usize] {
                    self.program_counter += 2;
                }
            },
            Instruction::LoadIndex { addr } => {
                self.ireg = addr;
            },
            Instruction::JumpOffset { addr } => {
                self.program_counter = self.vreg[0] as u16 + addr;
            },
            Instruction::Random { x, nn } => {
                self.vreg[x as usize] = random & nn;
            },
            Instruction::Draw { x, y, n } => {
                let x_coord = self.vreg[x as usize];
                let y_coord = self.vreg[y as usize];
                let sprite = self.sprite(n);
                let collision = self.gfx.draw_sprite(x_coord, y_coord, sprite);
                self.vreg[0xF] = if collision {
                    1
                } else {
                    0
                };
            },
            Instruction::SkipKeyPressed { x } => {
                if self.keys[self.vreg[x as usize] as usize] > 0 {
                    self.program_counter += 2;
                }
            },
            Instruction::SkipKeyNotPressed { x } => {
                if !(self.keys[self.vreg[x as usize] as usize] > 0) {
                    self.program_counter += 2;
                }
            },
            Instruction::ReadDelay { x } => {
                self.vreg[x as usize] = self.delay_timer;
            },
            Instruction::WaitKey { x } => {
                match self.first_pressed_key() {
                    Some(key) => {
                        self.vreg[x as usize] = key;
                    },
                    None => {
                        self.program_counter -= 2;
                    },
                }
            },
            Instruction::SetDelay { x } => {
                self.delay_timer = self.vreg[x as usize];
            },
            Instruction::SetSound { x } => {
                self.sound_timer = self.vreg[x as usize];
            },
            Instruction::AddIndex { x } => {
                self.ireg = self.ireg.wrapping_add(self.vreg[x as usize] as u16);
            },
            Instruction::FontAddr { x } => {
                self.ireg = 0x50 + 5 * (self.vreg[x as usize] as u16);
            },
            Instruction::StoreBcd { .. }
            | Instruction::StoreRegs { .. }
            | Instruction::LoadRegs { .. } => {
                self.execute_memory(instruction);
            },
        }
        assert(self@ =~= old(self)@.execute(instruction, random));
    }

    /// One fetch-decode-execute step in which a `Random` instruction uses the
    /// byte `random`. A step that would leave the stack or the memory, or ask
    /// for a key that does not exist, is refused: the fault is returned and the
    /// machine stays as it is.
    pub fn step_with(&mut self, random: u8) -> (outcome: Result<(), Chip8Error>)
        ensures
            match outcome {
                Ok(()) => old(self)@.step_fault() is None && final(self)@ == old(self)@.step(random),
                Err(fault) => old(self)@.step_fault() == Some(fault) && *final(self) == *old(self),
            },
            old(self).well_formed() ==> final(self).well_formed(),
    {
        let instruction = match self.peek() {
            Ok(instruction) => instruction,
            Err(fault) => {
                return Err(fault);
            },
        };
        proof {
            if self.well_formed() {
                lemma_step_keeps_well_formed(self@, random);
            }
        }
        let word = self.fetch();
        self.opcode = word.unwrap();
        self.program_counter += 2;
        assert(self@ =~= old(self)@.fetched());
        self.execute(instruction, random);
        Ok(())
    }

    /// Whether the next step executes a `Random` instruction.
    pub fn needs_random(&self) -> (needed: bool)
        ensures
            needed == (self@.step_fault() is None && self@.next_instruction() is Random),
    {
        match self.peek() {
            Ok(Instruction::Random { .. }) => true,
            _ => false,
        }
    }

    /// The byte for the next step: a random one where the step executes a
    /// `Random` instruction, 0 where it does not look at the byte. Of the
    /// random one nothing is known: any byte may come back.
    pub(crate) fn random_operand(&self) -> (operand: u8)
        ensures
            !(self@.step_fault() is None && self@.next_instruction() is Random) ==> operand == 0,
    {
        if self.needs_random() {
            random_byte()
        } else {
            0
        }
    }

    /// One fetch-decode-execute step. A `Random` instruction draws its byte
    /// from the thread's random number generator; every other instruction
    /// has one outcome. Faults are reported as by [`Chip8::step_with`].
    pub fn emulation_cycle(&mut self) -> (outcome: Result<(), Chip8Error>)
        ensures
            match outcome {
                Ok(()) => old(self)@.step_fault() is None && exists|random: u8|
                    final(self)@ == #[trigger] old(self)@.step(random),
                Err(fault) => old(self)@.step_fault() == Some(fault) && *final(self) == *old(self),
            },
            outcome is Ok && !(old(self)@.next_instruction() is Random) ==> forall|random: u8|
                final(self)@ == #[trigger] old(self)@.step(random),
            old(self).well_formed() ==> final(self).well_formed(),
    {
        let random = self.random_operand();
        let outcome = self.step_with(random);
        proof {
            if outcome is Ok && !(old(self)@.next_instruction() is Random) {
                assert forall|r: u8| self@ == #[trigger] old(self)@.step(r) by {
                    lemma_random_only_matters_to_random(old(self)@, random, r);
                }
            }
        }
        outcome
    }
}

/// A byte from `rand::thread_rng()`, drawn with `Rng::gen_range(0..=255)`.
/// Nothing is claimed of the value: any byte may come back, and two calls may
/// differ. The generator is seeded from the operating system on the thread's
/// first call and panics there if the system gives it no entropy.
#[verifier::external_body]
fn random_byte() -> u8 {
    rand::Rng::gen_range(&mut rand::thread_rng(), 0..=255)
}

} // verus!
