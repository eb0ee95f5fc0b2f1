//! The engine: the machine's state in executable form, and the cycle that
//! fetches, decodes and carries out one instruction.

use vstd::prelude::*;
use vstd::slice::slice_subrange;
use crate::display::{cell, lemma_cell_index, Display};
use crate::error::CpuError;
use crate::font::FONT_SET;
use crate::machine::{
    address_of, byte_of, digit0, digit1, digit2, digit3, execute, fault, first_pressed,
    first_pressed_from, key_down, opcode_at, power_on, skip_when, sprite_rows, step, Machine,
    DISPLAY_HEIGHT, DISPLAY_WIDTH, FLAG, MEMORY_SIZE, OPCODE_SIZE, PROGRAM_START, REGISTER_COUNT,
    STACK_SIZE,
};
use crate::rng::random_byte;
use crate::stack::Stack;

verus! {

/// The machine: memory, registers, call stack, timers and frame buffer.
pub struct Cpu {
    memory: [u8; 4096],
    v_registers: [u8; 16],
    index_register: u16,
    program_counter: usize,
    stack: Stack<usize>,
    delay_timer: u8,
    sound_timer: u8,
    keypad_waiting: bool,
    keypad_register: usize,
    display: Display,
}

/// What a cycle hands to the caller: the frame, whether the cycle wrote
/// it, and whether a tone is due.
pub struct OutputState {
    /// The frame as rows of pixels, 1 for lit and 0 for dark.
    pub display: [[u8; 64]; 32],
    pub display_changed: bool,
    pub beep: bool,
}

impl View for Cpu {
    type V = Machine;

    closed spec fn view(&self) -> Machine {
        Machine {
            memory: self.memory@,
            v: self.v_registers@,
            index: self.index_register,
            pc: self.program_counter,
            stack: self.stack@,
            delay: self.delay_timer,
            sound: self.sound_timer,
            waiting: self.keypad_waiting,
            wait_register: self.keypad_register,
            screen: self.display@,
            dirty: self.display.dirty,
        }
    }
}

/// What an instruction asks of the program counter.
#[derive(Clone, Copy, Debug, PartialEq, Eq, Structural)]
pub enum PcInstructions {
    /// Go on with the instruction that follows.
    Next,
    /// Pass over the instruction that follows.
    Skip,
    /// Go on at the given address.
    Jump(usize),
}

impl PcInstructions {
    /// `Skip` if `condition` holds, else `Next`.
    pub fn skip_if(condition: bool) -> (effect: PcInstructions)
        ensures
            effect == skip_when(condition),
    {
        if condition {
            PcInstructions::Skip
        } else {
            PcInstructions::Next
        }
    }
}

impl OutputState {
    /// The frame as rows of booleans.
    pub open spec fn grid(&self) -> Seq<Seq<bool>> {
        Seq::new(
            DISPLAY_HEIGHT as nat,
            |r: int| Seq::new(DISPLAY_WIDTH as nat, |c: int| self.display@[r]@[c] == 1u8),
        )
    }

    /// Whether this is what a cycle hands out that leaves the machine in
    /// state `m`: the frame of `m` with each pixel as 0 or 1, whether the
    /// cycle wrote the frame, and a tone exactly while the sound timer
    /// runs.
    pub open spec fn shows(&self, m: Machine) -> bool {
        &&& self.grid() == m.screen
        &&& forall|r: int, c: int|
            0 <= r < DISPLAY_HEIGHT && 0 <= c < DISPLAY_WIDTH ==> #[trigger] self.display@[r]@[c]
                <= 1
        &&& self.display_changed == m.dirty
        &&& self.beep == (m.sound > 0)
    }
}

/// Whether a cycle that found the machine in state `before`, with the
/// keys `keys` and the random byte `random`, may end with the machine in
/// state `after` and hand out `result`: on success the machine has made
/// one step and the output shows it; on failure the error is the step's
/// and the machine is as it was.
pub open spec fn cycle_outcome(
    before: Machine,
    keys: Seq<bool>,
    random: u8,
    after: Machine,
    result: Result<OutputState, CpuError>,
) -> bool {
    match result {
        Ok(out) => step(before, keys, random) == Ok::<Machine, CpuError>(after) && out.shows(after),
        Err(error) => step(before, keys, random) == Err::<Machine, CpuError>(error) && after
            == before,
    }
}

impl Cpu {
    /// The frame buffer has the machine's size and holds only 0 and 1, the
    /// stack is within its capacity, and the waiting register exists.
    pub closed spec fn wf(&self) -> bool {
        &&& self.display.wf()
        &&& self.display.width == DISPLAY_WIDTH
        &&& self.display.height == DISPLAY_HEIGHT
        &&& self.stack@.len() <= STACK_SIZE
        &&& self.keypad_register < REGISTER_COUNT
    }

    /// A well-formed engine stands for a well-formed machine.
    pub proof fn lemma_view_wf(&self)
        requires
            self.wf(),
        ensures
            self@.wf(),
    {
    }

    /// The machine as it is switched on.
    pub fn new() -> (cpu: Cpu)
        ensures
            cpu.wf(),
            cpu@ == power_on(),
    {
        let mut memory: [u8; 4096] = [0u8; 4096];
        let mut i: usize = 0;
        while i < 80
            invariant
                i <= 80,
                forall|a: int| 0 <= a < i ==> memory@[a] == FONT_SET@[a],
                forall|a: int| i <= a < 4096 ==> memory@[a] == 0u8,
            decreases 80 - i,
        {
            memory[i] = FONT_SET[i];
            i += 1;
        }
        let cpu = Cpu {
            memory,
            v_registers: [0u8; 16],
            index_register: 0,
            program_counter: PROGRAM_START,
            stack: Stack::new(),
            delay_timer: 0,
            sound_timer: 0,
            keypad_waiting: false,
            keypad_register: 0,
            display: Display::new(DISPLAY_WIDTH, DISPLAY_HEIGHT),
        };
        proof {
            assert(cpu@.memory =~= power_on().memory);
            assert(cpu@.v =~= power_on().v);
        }
        cpu
    }

    /// Copies `program` into memory from the load address on. A program
    /// that does not fit is refused and nothing is written.
    pub fn load_program(&mut self, program: &[u8]) -> (loaded: Result<(), CpuError>)
        requires
            old(self).wf(),
        ensures
            final(self).wf(),
            program@.len() > MEMORY_SIZE - PROGRAM_START ==> loaded == Err::<(), CpuError>(
                CpuError::ProgramTooLarge { len: program.len() },
            ) && final(self)@ == old(self)@,
            program@.len() <= MEMORY_SIZE - PROGRAM_START ==> loaded.is_ok() && final(self)@ == old(
                self,
            )@.load(program@),
    {
        let len: usize = program.len();
        if len > MEMORY_SIZE - PROGRAM_START {
            return Err(CpuError::ProgramTooLarge { len });
        }
        let mut i: usize = 0;
        while i < len
            invariant
                i <= len,
                len == program@.len(),
                len <= MEMORY_SIZE - PROGRAM_START,
                self.wf(),
                self@ == (Machine { memory: self@.memory, ..old(self)@ }),
                forall|a: int|
                    0 <= a < 4096 ==> self@.memory[a] == if PROGRAM_START <= a < PROGRAM_START + i {
                        program@[a - PROGRAM_START]
                    } else {
                        old(self)@.memory[a]
                    },
            decreases len - i,
        {
            self.memory[PROGRAM_START + i] = program[i];
            i += 1;
        }
        proof {
            assert(self@.memory =~= old(self)@.load(program@).memory);
        }
        Ok(())
    }

    /// The value of register `x`.
    pub fn register(&self, x: usize) -> (value: u8)
        requires
            x < REGISTER_COUNT,
        ensures
            value == self@.v[x as int],
    {
        self.v_registers[x]
    }

    /// The byte of memory at `address`.
    pub fn memory_at(&self, address: usize) -> (value: u8)
        requires
            address < MEMORY_SIZE,
        ensures
            value == self@.memory[address as int],
    {
        self.memory[address]
    }

    pub fn program_counter(&self) -> (pc: usize)
        ensures
            pc == self@.pc,
    {
        self.program_counter
    }

    pub fn index_register(&self) -> (index: u16)
        ensures
            index == self@.index,
    {
        self.index_register
    }

    pub fn delay_timer(&self) -> (value: u8)
        ensures
            value == self@.delay,
    {
        self.delay_timer
    }

    pub fn sound_timer(&self) -> (value: u8)
        ensures
            value == self@.sound,
    {
        self.sound_timer
    }

    /// How many return addresses are on the stack.
    pub fn stack_depth(&self) -> (depth: usize)
        ensures
            depth == self@.stack.len(),
    {
        self.stack.length()
    }

    /// Whether the machine is stalled until a key is pressed.
    pub fn is_waiting(&self) -> (waiting: bool)
        ensures
            waiting == self@.waiting,
    {
        self.keypad_waiting
    }
}

/// The handlers of the instructions. Each takes the operands that the
/// opcode holds, changes the machine, and says what the program counter is
/// to do; none moves the program counter itself.
impl Cpu {
    /// 00E0: clears the screen.
    pub fn op_00e0(&mut self) -> (effect: PcInstructions)
        requires
            old(self).wf(),
        ensures
            final(self).wf(),
            final(self)@ == old(self)@.clear_screen(),
            effect == PcInstructions::Next,
    {
        self.display.clear();
        PcInstructions::Next
    }

    /// 00EE: returns from a subroutine, to the address on top of the stack.
    pub fn op_00ee(&mut self) -> (effect: PcInstructions)
        requires
            old(self).wf(),
            old(self)@.stack.len() > 0,
        ensures
            final(self).wf(),
            final(self)@ == old(self)@.pop_return(),
            effect == PcInstructions::Jump(old(self)@.stack.last()),
    {
        match self.stack.pop() {
            Some(address) => PcInstructions::Jump(address),
            None => PcInstructions::Next,
        }
    }

    /// 1nnn: jumps to `nnn`.
    pub fn op_1nnn(&mut self, nnn: usize) -> (effect: PcInstructions)
        ensures
            *final(self) == *old(self),
            effect == PcInstructions::Jump(nnn),
    {
        PcInstructions::Jump(nnn)
    }

    /// 2nnn: calls the subroutine at `nnn`; the address of the instruction
    /// after this one goes on the stack.
    pub fn op_2nnn(&mut self, nnn: usize) -> (effect: PcInstructions)
        requires
            old(self).wf(),
            old(self)@.stack.len() < STACK_SIZE,
            old(self)@.pc + OPCODE_SIZE <= usize::MAX,
        ensures
            final(self).wf(),
            final(self)@ == old(self)@.push_return(),
            effect == PcInstructions::Jump(nnn),
    {
        self.stack.push(self.program_counter + OPCODE_SIZE);
        PcInstructions::Jump(nnn)
    }

    /// 3xkk: skips the next instruction if Vx equals `kk`.
    pub fn op_3xkk(&mut self, x: usize, kk: u8) -> (effect: PcInstructions)
        requires
            x < REGISTER_COUNT,
        ensures
            *final(self) == *old(self),
            effect == skip_when(old(self)@.v[x as int] == kk),
    {
        PcInstructions::skip_if(self.v_registers[x] == kk)
    }

    /// 4xkk: skips the next instruction if Vx differs from `kk`.
    pub fn op_4xkk(&mut self, x: usize, kk: u8) -> (effect: PcInstructions)
        requires
            x < REGISTER_COUNT,
        ensures
            *final(self) == *old(self),
            effect == skip_when(old(self)@.v[x as int] != kk),
    {
        PcInstructions::skip_if(self.v_registers[x] != kk)
    }

    /// 5xy0: skips the next instruction if Vx equals Vy.
    pub fn op_5xy0(&mut self, x: usize, y: usize) -> (effect: PcInstructions)
        requires
            x < REGISTER_COUNT,
            y < REGISTER_COUNT,
        ensures
            *final(self) == *old(self),
            effect == skip_when(old(self)@.v[x as int] == old(self)@.v[y as int]),
    {
        PcInstructions::skip_if(self.v_registers[x] == self.v_registers[y])
    }

    /// 6xkk: Vx = `kk`.
    pub fn op_6xkk(&mut self, x: usize, kk: u8) -> (effect: PcInstructions)
        requires
            old(self).wf(),
            x < REGISTER_COUNT,
        ensures
            final(self).wf(),
            final(self)@ == old(self)@.with_register(x as int, kk),
            effect == PcInstructions::Next,
    {
        self.v_registers[x] = kk;
        PcInstructions::Next
    }

    /// 7xkk: Vx = Vx + `kk`, wrapping; VF is left alone.
    pub fn op_7xkk(&mut self, x: usize, kk: u8) -> (effect: PcInstructions)
        requires
            old(self).wf(),
            x < REGISTER_COUNT,
        ensures
            final(self).wf(),
            final(self)@ == old(self)@.add_byte(x as int, kk),
            effect == PcInstructions::Next,
    {
        let sum: u8 = self.v_registers[x].wrapping_add(kk);
        self.v_registers[x] = sum;
        PcInstructions::Next
    }

    /// 8xy0: Vx = Vy.
    pub fn op_8xy0(&mut self, x: usize, y: usize) -> (effect: PcInstructions)
        requires
            old(self).wf(),
            x < REGISTER_COUNT,
            y < REGISTER_COUNT,
        ensures
            final(self).wf(),
            final(self)@ == old(self)@.with_register(x as int, old(self)@.v[y as int]),
            effect == PcInstructions::Next,
    {
        let value: u8 = self.v_registers[y];
        self.v_registers[x] = value;
        PcInstructions::Next
    }

    /// 8xy1: Vx = Vx OR Vy.
    pub fn op_8xy1(&mut self, x: usize, y: usize) -> (effect: PcInstructions)
        requires
            old(self).wf(),
            x < REGISTER_COUNT,
            y < REGISTER_COUNT,
        ensures
            final(self).wf(),
            final(self)@ == old(self)@.with_register(
                x as int,
                old(self)@.v[x as int] | old(self)@.v[y as int],
            ),
            effect == PcInstructions::Next,
    {
        let value: u8 = self.v_registers[x] | self.v_registers[y];
        self.v_registers[x] = value;
        PcInstructions::Next
    }

    /// 8xy2: Vx = Vx AND Vy.
    pub fn op_8xy2(&mut self, x: usize, y: usize) -> (effect: PcInstructions)
        requires
            old(self).wf(),
            x < REGISTER_COUNT,
            y < REGISTER_COUNT,
        ensures
            final(self).wf(),
            final(self)@ == old(self)@.with_register(
                x as int,
                old(self)@.v[x as int] & old(self)@.v[y as int],
            ),
            effect == PcInstructions::Next,
    {
        let value: u8 = self.v_registers[x] & self.v_registers[y];
        self.v_registers[x] = value;
        PcInstructions::Next
    }

    /// 8xy3: Vx = Vx XOR Vy.
    pub fn op_8xy3(&mut self, x: usize, y: usize) -> (effect: PcInstructions)
        requires
            old(self).wf(),
            x < REGISTER_COUNT,
            y < REGISTER_COUNT,
        ensures
            final(self).wf(),
            final(self)@ == old(self)@.with_register(
                x as int,
                old(self)@.v[x as int] ^ old(self)@.v[y as int],
            ),
            effect == PcInstructions::Next,
    {
        let value: u8 = self.v_registers[x] ^ self.v_registers[y];
        self.v_registers[x] = value;
        PcInstructions::Next
    }

    /// 8xy4: Vx = Vx + Vy, wrapping; then VF = 1 if the sum did not fit
    /// into a byte, else 0.
    pub fn op_8xy4(&mut self, x: usize, y: usize) -> (effect: PcInstructions)
        requires
            old(self).wf(),
            x < REGISTER_COUNT,
            y < REGISTER_COUNT,
        ensures
            final(self).wf(),
            final(self)@ == old(self)@.add_registers(x as int, y as int),
            effect == PcInstructions::Next,
    {
        let a: u8 = self.v_registers[x];
        let b: u8 = self.v_registers[y];
        let carry: u8 = if a > 255 - b {
            1
        } else {
            0
        };
        self.v_registers[x] = a.wrapping_add(b);
        self.v_registers[FLAG] = carry;
        PcInstructions::Next
    }

    /// 8xy5: Vx = Vx - Vy, wrapping; then VF = 1 if Vx was greater than
    /// Vy, else 0.
    pub fn op_8xy5(&mut self, x: usize, y: usize) -> (effect: PcInstructions)
        requires
            old(self).wf(),
            x < REGISTER_COUNT,
            y < REGISTER_COUNT,
        ensures
            final(self).wf(),
            final(self)@ == old(self)@.subtract(x as int, y as int),
            effect == PcInstructions::Next,
    {
        let a: u8 = self.v_registers[x];
        let b: u8 = self.v_registers[y];
        let no_borrow: u8 = if a > b {
            1
        } else {
            0
        };
        self.v_registers[x] = a.wrapping_sub(b);
        self.v_registers[FLAG] = no_borrow;
        PcInstructions::Next
    }

    /// 8xy6: Vx is shifted right by one; then VF = the bit shifted out.
    pub fn op_8x06(&mut self, x: usize) -> (effect: PcInstructions)
        requires
            old(self).wf(),
            x < REGISTER_COUNT,
        ensures
            final(self).wf(),
            final(self)@ == old(self)@.shift_right(x as int),
            effect == PcInstructions::Next,
    {
        let a: u8 = self.v_registers[x];
        let out: u8 = a & 0x1;
        let shifted: u8 = a >> 1;
        proof {
            assert(a & 0x1 == a % 2) by (bit_vector);
            assert(a >> 1 == a / 2) by (bit_vector);
        }
        self.v_registers[x] = shifted;
        self.v_registers[FLAG] = out;
        PcInstructions::Next
    }

    /// 8xy7: Vx = Vy - Vx, wrapping; then VF = 1 if Vy was greater than
    /// Vx, else 0.
    pub fn op_8xy7(&mut self, x: usize, y: usize) -> (effect: PcInstructions)
        requires
            old(self).wf(),
            x < REGISTER_COUNT,
            y < REGISTER_COUNT,
        ensures
            final(self).wf(),
            final(self)@ == old(self)@.subtract_from(x as int, y as int),
            effect == PcInstructions::Next,
    {
        let a: u8 = self.v_registers[x];
        let b: u8 = self.v_registers[y];
        let no_borrow: u8 = if b > a {
            1
        } else {
            0
        };
        self.v_registers[x] = b.wrapping_sub(a);
        self.v_registers[FLAG] = no_borrow;
        PcInstructions::Next
    }

    /// 8xyE: Vx is shifted left by one; then VF = the bit shifted out.
    pub fn op_8x0e(&mut self, x: usize) -> (effect: PcInstructions)
        requires
            old(self).wf(),
            x < REGISTER_COUNT,
        ensures
            final(self).wf(),
            final(self)@ == old(self)@.shift_left(x as int),
            effect == PcInstructions::Next,
    {
        let a: u8 = self.v_registers[x];
        let out: u8 = a >> 7;
        let shifted: u8 = a << 1;
        proof {
            assert(a >> 7 == a / 128) by (bit_vector);
            assert(a << 1 == (a * 2) % 256) by (bit_vector);
        }
        self.v_registers[x] = shifted;
        self.v_registers[FLAG] = out;
        PcInstructions::Next
    }

    /// 9xy0: skips the next instruction if Vx differs from Vy.
    pub fn op_9xy0(&mut self, x: usize, y: usize) -> (effect: PcInstructions)
        requires
            x < REGISTER_COUNT,
            y < REGISTER_COUNT,
        ensures
            *final(self) == *old(self),
            effect == skip_when(old(self)@.v[x as int] != old(self)@.v[y as int]),
    {
        PcInstructions::skip_if(self.v_registers[x] != self.v_registers[y])
    }
}

impl Cpu {
    /// Annn: the index register = `nnn`.
    pub fn op_annn(&mut self, nnn: usize) -> (effect: PcInstructions)
        requires
            old(self).wf(),
            nnn <= 0xFFF,
        ensures
            final(self).wf(),
            final(self)@ == (Machine { index: nnn as u16, ..old(self)@ }),
            effect == PcInstructions::Next,
    {
        self.index_register = nnn as u16;
        PcInstructions::Next
    }

    /// Bnnn: jumps to `nnn` + V0.
    pub fn op_bnnn(&mut self, nnn: usize) -> (effect: PcInstructions)
        requires
            nnn <= 0xFFF,
        ensures
            *final(self) == *old(self),
            effect == PcInstructions::Jump((nnn + old(self)@.v[0]) as usize),
    {
        let address: usize = nnn + self.v_registers[0] as usize;
        PcInstructions::Jump(address)
    }

    /// Cxkk: Vx = `random` AND `kk`, where `random` is a byte drawn for
    /// this instruction.
    pub fn op_cxkk(&mut self, x: usize, kk: u8, random: u8) -> (effect: PcInstructions)
        requires
            old(self).wf(),
            x < REGISTER_COUNT,
        ensures
            final(self).wf(),
            final(self)@ == old(self)@.with_register(x as int, random & kk),
            effect == PcInstructions::Next,
    {
        let value: u8 = random & kk;
        self.v_registers[x] = value;
        PcInstructions::Next
    }

    /// Dxyn: clears VF, draws the `n` bytes at the index register as a
    /// sprite at column Vx, row Vy, and sets VF to 1 if that darkened a
    /// pixel.
    pub fn op_dxyn(&mut self, x: usize, y: usize, n: usize) -> (effect: PcInstructions)
        requires
            old(self).wf(),
            x < REGISTER_COUNT,
            y < REGISTER_COUNT,
            n > 0 ==> old(self)@.index + n <= MEMORY_SIZE,
        ensures
            final(self).wf(),
            final(self)@ == old(self)@.draw(x as int, y as int, n as int),
            effect == PcInstructions::Next,
    {
        self.v_registers[FLAG] = 0;
        let col: usize = self.v_registers[x] as usize;
        let row: usize = self.v_registers[y] as usize;
        let start: usize = if n == 0 {
            0
        } else {
            self.index_register as usize
        };
        let sprite = slice_subrange(self.memory.as_slice(), start, start + n);
        proof {
            assert(sprite@ =~= sprite_rows(old(self)@.memory, old(self)@.index as int, n as int));
        }
        let hit: bool = self.display.draw_sprite(col, row, sprite);
        self.v_registers[FLAG] = if hit {
            1
        } else {
            0
        };
        PcInstructions::Next
    }

    /// Ex9E: skips the next instruction if the key whose number is in Vx
    /// is held down. A number that is no key counts as a key not held down.
    pub fn op_ex9e(&mut self, x: usize, keypad: &[bool; 16]) -> (effect: PcInstructions)
        requires
            x < REGISTER_COUNT,
        ensures
            *final(self) == *old(self),
            effect == skip_when(key_down(keypad@, old(self)@.v[x as int] as int)),
    {
        let key: usize = self.v_registers[x] as usize;
        PcInstructions::skip_if(key < 16 && keypad[key])
    }

    /// ExA1: skips the next instruction unless the key whose number is in
    /// Vx is held down.
    pub fn op_exa1(&mut self, x: usize, keypad: &[bool; 16]) -> (effect: PcInstructions)
        requires
            x < REGISTER_COUNT,
        ensures
            *final(self) == *old(self),
            effect == skip_when(!key_down(keypad@, old(self)@.v[x as int] as int)),
    {
        let key: usize = self.v_registers[x] as usize;
        PcInstructions::skip_if(!(key < 16 && keypad[key]))
    }

    /// Fx07: Vx = the delay timer.
    pub fn op_fx07(&mut self, x: usize) -> (effect: PcInstructions)
        requires
            old(self).wf(),
            x < REGISTER_COUNT,
        ensures
            final(self).wf(),
            final(self)@ == old(self)@.with_register(x as int, old(self)@.delay),
            effect == PcInstructions::Next,
    {
        let value: u8 = self.delay_timer;
        self.v_registers[x] = value;
        PcInstructions::Next
    }

    /// Fx0A: stalls the machine until a key is pressed; the key then goes
    /// to Vx. The program counter moves on at once.
    pub fn op_fx0a(&mut self, x: usize) -> (effect: PcInstructions)
        requires
            old(self).wf(),
            x < REGISTER_COUNT,
        ensures
            final(self).wf(),
            final(self)@ == old(self)@.wait_for_key(x),
            effect == PcInstructions::Next,
    {
        self.keypad_waiting = true;
        self.keypad_register = x;
        PcInstructions::Next
    }

    /// Fx15: the delay timer = Vx.
    pub fn op_fx15(&mut self, x: usize) -> (effect: PcInstructions)
        requires
            old(self).wf(),
            x < REGISTER_COUNT,
        ensures
            final(self).wf(),
            final(self)@ == (Machine { delay: old(self)@.v[x as int], ..old(self)@ }),
            effect == PcInstructions::Next,
    {
        self.delay_timer = self.v_registers[x];
        PcInstructions::Next
    }

    /// Fx18: the sound timer = Vx.
    pub fn op_fx18(&mut self, x: usize) -> (effect: PcInstructions)
        requires
            old(self).wf(),
            x < REGISTER_COUNT,
        ensures
            final(self).wf(),
            final(self)@ == (Machine { sound: old(self)@.v[x as int], ..old(self)@ }),
            effect == PcInstructions::Next,
    {
        self.sound_timer = self.v_registers[x];
        PcInstructions::Next
    }

    /// Fx1E: the index register grows by Vx, wrapping at sixteen bits;
    /// then VF = 1 if it is over 0xF00, else 0.
    pub fn op_fx1e(&mut self, x: usize) -> (effect: PcInstructions)
        requires
            old(self).wf(),
            x < REGISTER_COUNT,
        ensures
            final(self).wf(),
            final(self)@ == old(self)@.add_to_index(x as int),
            effect == PcInstructions::Next,
    {
        let sum: u16 = self.index_register.wrapping_add(self.v_registers[x] as u16);
        self.index_register = sum;
        self.v_registers[FLAG] = if sum > 0x0F00 {
            1
        } else {
            0
        };
        PcInstructions::Next
    }

    /// Fx29: the index register = the address of the glyph of the digit in
    /// Vx.
    pub fn op_fx29(&mut self, x: usize) -> (effect: PcInstructions)
        requires
            old(self).wf(),
            x < REGISTER_COUNT,
        ensures
            final(self).wf(),
            final(self)@ == old(self)@.point_at_glyph(x as int),
            effect == PcInstructions::Next,
    {
        self.index_register = (self.v_registers[x] as u16) * 5;
        PcInstructions::Next
    }

    /// Fx33: writes the decimal digits of Vx, hundreds first, to the three
    /// bytes at the index register.
    pub fn op_fx33(&mut self, x: usize) -> (effect: PcInstructions)
        requires
            old(self).wf(),
            x < REGISTER_COUNT,
            old(self)@.index + 2 < MEMORY_SIZE,
        ensures
            final(self).wf(),
            final(self)@ == old(self)@.store_decimal(x as int),
            effect == PcInstructions::Next,
    {
        let value: u8 = self.v_registers[x];
        let i: usize = self.index_register as usize;
        self.memory[i] = value / 100;
        self.memory[i + 1] = (value / 10) % 10;
        self.memory[i + 2] = value % 10;
        PcInstructions::Next
    }

    /// Fx55: writes V0 to Vx, Vx included, to memory at the index
    /// register.
    pub fn op_fx55(&mut self, x: usize) -> (effect: PcInstructions)
        requires
            old(self).wf(),
            x < REGISTER_COUNT,
            old(self)@.index + x < MEMORY_SIZE,
        ensures
            final(self).wf(),
            final(self)@ == old(self)@.store_registers(x as int),
            effect == PcInstructions::Next,
    {
        let base: usize = self.index_register as usize;
        let mut i: usize = 0;
        while i <= x
            invariant
                i <= x + 1,
                x < REGISTER_COUNT,
                base + x < MEMORY_SIZE,
                base == old(self)@.index,
                self.wf(),
                self@ == (Machine { memory: self@.memory, ..old(self)@ }),
                forall|a: int|
                    0 <= a < 4096 ==> self@.memory[a] == if base <= a < base + i {
                        old(self)@.v[a - base]
                    } else {
                        old(self)@.memory[a]
                    },
            decreases x + 1 - i,
        {
            self.memory[base + i] = self.v_registers[i];
            i += 1;
        }
        proof {
            assert(self@.memory =~= old(self)@.store_registers(x as int).memory);
        }
        PcInstructions::Next
    }

    /// Fx65: reads V0 to Vx, Vx included, from memory at the index
    /// register.
    pub fn op_fx65(&mut self, x: usize) -> (effect: PcInstructions)
        requires
            old(self).wf(),
            x < REGISTER_COUNT,
            old(self)@.index + x < MEMORY_SIZE,
        ensures
            final(self).wf(),
            final(self)@ == old(self)@.load_registers(x as int),
            effect == PcInstructions::Next,
    {
        let base: usize = self.index_register as usize;
        let mut i: usize = 0;
        while i <= x
            invariant
                i <= x + 1,
                x < REGISTER_COUNT,
                base + x < MEMORY_SIZE,
                base == old(self)@.index,
                self.wf(),
                self@ == (Machine { v: self@.v, ..old(self)@ }),
                forall|r: int|
                    0 <= r < 16 ==> self@.v[r] == if r < i {
                        old(self)@.memory[base + r]
                    } else {
                        old(self)@.v[r]
                    },
            decreases x + 1 - i,
        {
            self.v_registers[i] = self.memory[base + i];
            i += 1;
        }
        proof {
            assert(self@.v =~= old(self)@.load_registers(x as int).v);
        }
        PcInstructions::Next
    }
}

/// The four hexadecimal digits of an opcode, the most significant first.
pub fn decode_opcode(opcode: u16) -> (digits: (usize, usize, usize, usize))
    ensures
        digits.0 == digit0(opcode),
        digits.1 == digit1(opcode),
        digits.2 == digit2(opcode),
        digits.3 == digit3(opcode),
{
    let d0: u16 = (opcode & 0xF000) >> 12;
    let d1: u16 = (opcode & 0x0F00) >> 8;
    let d2: u16 = (opcode & 0x00F0) >> 4;
    let d3: u16 = opcode & 0x000F;
    proof {
        assert((opcode & 0xF000) >> 12 == opcode / 0x1000) by (bit_vector);
        assert((opcode & 0x0F00) >> 8 == (opcode / 0x100) % 16) by (bit_vector);
        assert((opcode & 0x00F0) >> 4 == (opcode / 0x10) % 16) by (bit_vector);
        assert(opcode & 0x000F == opcode % 16) by (bit_vector);
    }
    (d0 as usize, d1 as usize, d2 as usize, d3 as usize)
}

impl Cpu {
    /// The opcode at the program counter.
    pub fn fetch_opcode(&self) -> (opcode: u16)
        requires
            self@.pc + 1 < MEMORY_SIZE,
        ensures
            opcode == opcode_at(self@.memory, self@.pc as int),
    {
        let first_byte: u16 = self.memory[self.program_counter] as u16;
        let second_byte: u16 = self.memory[self.program_counter + 1] as u16;
        proof {
            assert((first_byte << 8) | second_byte == first_byte * 256 + second_byte)
                by (bit_vector)
                requires
                    first_byte < 256,
                    second_byte < 256,
            ;
        }
        (first_byte << 8) | second_byte
    }

    /// Says why `opcode` cannot be carried out in the present state, if it
    /// cannot.
    pub fn check_opcode(&self, opcode: u16) -> (found: Option<CpuError>)
        requires
            self.wf(),
        ensures
            found == fault(self@, opcode),
    {
        let (d0, x, y, n) = decode_opcode(opcode);
        let pc: usize = self.program_counter;
        let index: usize = self.index_register as usize;
        if d0 == 0x0 && x == 0x0 && y == 0xE && n == 0xE && self.stack.is_empty() {
            Some(CpuError::StackUnderflow { opcode, pc })
        } else if d0 == 0x2 && self.stack.length() >= STACK_SIZE {
            Some(CpuError::StackOverflow { opcode, pc })
        } else if d0 == 0xD && n > 0 && index + n > MEMORY_SIZE {
            Some(CpuError::MemoryOutOfBounds { opcode, pc })
        } else if d0 == 0xF && y == 0x3 && n == 0x3 && index + 2 >= MEMORY_SIZE {
            Some(CpuError::MemoryOutOfBounds { opcode, pc })
        } else if d0 == 0xF && (y == 0x5 || y == 0x6) && n == 0x5 && index + x >= MEMORY_SIZE {
            Some(CpuError::MemoryOutOfBounds { opcode, pc })
        } else {
            None
        }
    }

    /// Carries out the instruction `opcode`: finds its handler by the
    /// opcode's digits and runs it. An opcode that is no instruction does
    /// nothing.
    pub fn exec_opcode(&mut self, opcode: u16, keypad: &[bool; 16], random: u8) -> (effect:
        PcInstructions)
        requires
            old(self).wf(),
            fault(old(self)@, opcode).is_none(),
            old(self)@.pc + OPCODE_SIZE <= usize::MAX,
        ensures
            final(self).wf(),
            (final(self)@, effect) == execute(old(self)@, opcode, keypad@, random),
    {
        let nibbles = decode_opcode(opcode);
        let nnn: usize = (opcode & 0x0FFF) as usize;
        let kk: u8 = (opcode & 0x00FF) as u8;
        let x: usize = nibbles.1;
        let y: usize = nibbles.2;
        let n: usize = nibbles.3;
        proof {
            assert(opcode & 0x0FFF == opcode % 0x1000) by (bit_vector);
            assert(opcode & 0x00FF == opcode % 0x100) by (bit_vector);
            assert(nnn == address_of(opcode));
            assert(kk == byte_of(opcode));
        }
        match nibbles {
            (0x0, 0x0, 0xE, 0x0) => self.op_00e0(),
            (0x0, 0x0, 0xE, 0xE) => self.op_00ee(),
            (0x1, _, _, _) => self.op_1nnn(nnn),
            (0x2, _, _, _) => self.op_2nnn(nnn),
            (0x3, _, _, _) => self.op_3xkk(x, kk),
            (0x4, _, _, _) => self.op_4xkk(x, kk),
            (0x5, _, _, 0x0) => self.op_5xy0(x, y),
            (0x6, _, _, _) => self.op_6xkk(x, kk),
            (0x7, _, _, _) => self.op_7xkk(x, kk),
            (0x8, _, _, 0x0) => self.op_8xy0(x, y),
            (0x8, _, _, 0x1) => self.op_8xy1(x, y),
            (0x8, _, _, 0x2) => self.op_8xy2(x, y),
            (0x8, _, _, 0x3) => self.op_8xy3(x, y),
            (0x8, _, _, 0x4) => self.op_8xy4(x, y),
            (0x8, _, _, 0x5) => self.op_8xy5(x, y),
            (0x8, _, _, 0x6) => self.op_8x06(x),
            (0x8, _, _, 0x7) => self.op_8xy7(x, y),
            (0x8, _, _, 0xE) => self.op_8x0e(x),
            (0x9, _, _, 0x0) => self.op_9xy0(x, y),
            (0xA, _, _, _) => self.op_annn(nnn),
            (0xB, _, _, _) => self.op_bnnn(nnn),
            (0xC, _, _, _) => self.op_cxkk(x, kk, random),
            (0xD, _, _, _) => self.op_dxyn(x, y, n),
            (0xE, _, 0x9, 0xE) => self.op_ex9e(x, keypad),
            (0xE, _, 0xA, 0x1) => self.op_exa1(x, keypad),
            (0xF, _, 0x0, 0x7) => self.op_fx07(x),
            (0xF, _, 0x0, 0xA) => self.op_fx0a(x),
            (0xF, _, 0x1, 0x5) => self.op_fx15(x),
            (0xF, _, 0x1, 0x8) => self.op_fx18(x),
            (0xF, _, 0x1, 0xE) => self.op_fx1e(x),
            (0xF, _, 0x2, 0x9) => self.op_fx29(x),
            (0xF, _, 0x3, 0x3) => self.op_fx33(x),
            (0xF, _, 0x5, 0x5) => self.op_fx55(x),
            (0xF, _, 0x6, 0x5) => self.op_fx65(x),
            _ => PcInstructions::Next,
        }
    }
}

impl Cpu {
    /// The frame, whether the present cycle wrote it, and whether a tone
    /// is due.
    pub fn snapshot(&self) -> (out: OutputState)
        requires
            self.wf(),
        ensures
            out.shows(self@),
    {
        let mut grid: [[u8; 64]; 32] = [[0u8; 64]; 32];
        let mut r: usize = 0;
        while r < DISPLAY_HEIGHT
            invariant
                r <= DISPLAY_HEIGHT,
                self.wf(),
                forall|rr: int, c: int|
                    0 <= rr < r && 0 <= c < DISPLAY_WIDTH ==> #[trigger] grid@[rr]@[c]
                        == self.display.buffer@[cell(DISPLAY_WIDTH as int, c, rr)],
            decreases DISPLAY_HEIGHT - r,
        {
            let mut row: [u8; 64] = [0u8; 64];
            let mut c: usize = 0;
            while c < DISPLAY_WIDTH
                invariant
                    c <= DISPLAY_WIDTH,
                    r < DISPLAY_HEIGHT,
                    self.wf(),
                    forall|cc: int|
                        0 <= cc < c ==> #[trigger] row@[cc] == self.display.buffer@[cell(
                            DISPLAY_WIDTH as int,
                            cc,
                            r as int,
                        )],
                decreases DISPLAY_WIDTH - c,
            {
                proof {
                    lemma_cell_index(
                        DISPLAY_WIDTH as int,
                        DISPLAY_HEIGHT as int,
                        c as int,
                        r as int,
                    );
                }
                row[c] = self.display.buffer[r * DISPLAY_WIDTH + c];
                c += 1;
            }
            grid[r] = row;
            r += 1;
        }
        let out = OutputState {
            display: grid,
            display_changed: self.display.dirty,
            beep: self.sound_timer > 0,
        };
        proof {
            assert forall|rr: int, c: int|
                0 <= rr < DISPLAY_HEIGHT && 0 <= c < DISPLAY_WIDTH implies #[trigger] out.display@[rr]@[c]
                <= 1 by {
                lemma_cell_index(DISPLAY_WIDTH as int, DISPLAY_HEIGHT as int, c, rr);
            }
            assert(out.grid() =~~= self@.screen);
        }
        out
    }

    /// A stalled machine looks at the keys: the lowest key that is held
    /// down goes to the waiting register and ends the stall.
    fn poll_keys(&mut self, keypad: &[bool; 16])
        requires
            old(self).wf(),
        ensures
            final(self).wf(),
            final(self)@ == old(self)@.poll_keys(keypad@),
    {
        let mut i: usize = 0;
        while i < 16
            invariant
                i <= 16,
                *self == *old(self),
                self.wf(),
                first_pressed(keypad@) == first_pressed_from(keypad@, i as int),
            decreases 16 - i,
        {
            if keypad[i] {
                self.keypad_waiting = false;
                self.v_registers[self.keypad_register] = i as u8;
                return ;
            }
            i += 1;
        }
    }

    /// One cycle with `random` as the byte that a random instruction
    /// would use. A stalled machine only looks at the keys; a running one
    /// carries out the instruction at the program counter, moves the
    /// program counter and lets the timers count down. Where the
    /// instruction cannot be fetched or carried out, the error says why
    /// and the machine is left as it was.
    pub fn cycle_with(&mut self, keypad: [bool; 16], random: u8) -> (result: Result<
        OutputState,
        CpuError,
    >)
        requires
            old(self).wf(),
        ensures
            final(self).wf(),
            cycle_outcome(old(self)@, keypad@, random, final(self)@, result),
    {
        if self.keypad_waiting {
            self.display.dirty = false;
            self.poll_keys(&keypad);
        } else {
            if self.program_counter >= MEMORY_SIZE - 1 {
                return Err(CpuError::PcOutOfBounds { pc: self.program_counter });
            }
            let opcode: u16 = self.fetch_opcode();
            match self.check_opcode(opcode) {
                Some(error) => {
                    return Err(error);
                },
                None => {},
            }
            self.display.dirty = false;
            let pc_instruction = self.exec_opcode(opcode, &keypad, random);
            match pc_instruction {
                PcInstructions::Next => {
                    self.program_counter += OPCODE_SIZE;
                },
                PcInstructions::Skip => {
                    self.program_counter += 2 * OPCODE_SIZE;
                },
                PcInstructions::Jump(address) => {
                    self.program_counter = address;
                },
            }
            if self.delay_timer > 0 {
                self.delay_timer -= 1;
            }
            if self.sound_timer > 0 {
                self.sound_timer -= 1;
            }
        }
        Ok(self.snapshot())
    }

    /// Whether the next cycle carries out a random instruction.
    pub fn draws_random(&self) -> (drawn: bool)
        ensures
            drawn == (!self@.waiting && self@.pc + 1 < MEMORY_SIZE && digit0(
                opcode_at(self@.memory, self@.pc as int),
            ) == 0xC),
    {
        if self.keypad_waiting || self.program_counter >= MEMORY_SIZE - 1 {
            false
        } else {
            let opcode: u16 = self.fetch_opcode();
            decode_opcode(opcode).0 == 0xC
        }
    }

    /// One cycle. Where the instruction is a random one, its byte is drawn
    /// from the generator of the `rand` crate; what the cycle does is what
    /// `cycle_with` does with some byte.
    pub fn cycle(&mut self, keypad: [bool; 16]) -> (result: Result<OutputState, CpuError>)
        requires
            old(self).wf(),
        ensures
            final(self).wf(),
            exists|random: u8| cycle_outcome(old(self)@, keypad@, random, final(self)@, result),
    {
        let random: u8 = if self.draws_random() {
            random_byte()
        } else {
            0
        };
        self.cycle_with(keypad, random)
    }
}

} // verus!
