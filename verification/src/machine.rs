//! The machine as a mathematical value, and what each instruction and each
//! cycle does to it.

use vstd::prelude::*;
use crate::cpu::PcInstructions;
use crate::display::blank;
use crate::error::CpuError;
use crate::font::FONT_SET;
use crate::sprite::{collides, drawn, shaped};

verus! {

pub const MEMORY_SIZE: usize = 4096;

pub const PROGRAM_START: usize = 0x200;

pub const REGISTER_COUNT: usize = 16;

pub const STACK_SIZE: usize = 16;

pub const OPCODE_SIZE: usize = 2;

pub const DISPLAY_WIDTH: usize = 64;

pub const DISPLAY_HEIGHT: usize = 32;

/// The number of the register that doubles as the carry, borrow and
/// collision flag.
pub const FLAG: usize = 0xF;

/// The whole state of the machine.
pub struct Machine {
    /// The 4096 bytes of memory.
    pub memory: Seq<u8>,
    /// The sixteen general registers, V0 to VF.
    pub v: Seq<u8>,
    /// The index register.
    pub index: u16,
    /// The address of the next instruction.
    pub pc: usize,
    /// The return addresses of the calls under way, the oldest first.
    pub stack: Seq<usize>,
    pub delay: u8,
    pub sound: u8,
    /// Whether the machine is stalled until a key is pressed.
    pub waiting: bool,
    /// The register that gets the key which ends the stall.
    pub wait_register: usize,
    /// The frame buffer, as rows of pixels.
    pub screen: Seq<Seq<bool>>,
    /// Whether the frame buffer was written in the current cycle.
    pub dirty: bool,
}

/// The most significant hexadecimal digit of an opcode.
pub open spec fn digit0(opcode: u16) -> usize {
    (opcode / 0x1000) as usize
}

/// The second hexadecimal digit of an opcode: the register operand `x`.
pub open spec fn digit1(opcode: u16) -> usize {
    ((opcode / 0x100) % 16) as usize
}

/// The third hexadecimal digit of an opcode: the register operand `y`.
pub open spec fn digit2(opcode: u16) -> usize {
    ((opcode / 0x10) % 16) as usize
}

/// The last hexadecimal digit of an opcode: the operand `n`.
pub open spec fn digit3(opcode: u16) -> usize {
    (opcode % 16) as usize
}

/// The low twelve bits of an opcode: the address operand `nnn`.
pub open spec fn address_of(opcode: u16) -> usize {
    (opcode % 0x1000) as usize
}

/// The low eight bits of an opcode: the immediate operand `kk`.
pub open spec fn byte_of(opcode: u16) -> u8 {
    (opcode % 0x100) as u8
}

/// The opcode at `pc`: two bytes, the more significant first.
pub open spec fn opcode_at(memory: Seq<u8>, pc: int) -> u16 {
    (memory[pc] * 256 + memory[pc + 1]) as u16
}

/// Whether key number `key` exists and is held down.
pub open spec fn key_down(keys: Seq<bool>, key: int) -> bool {
    0 <= key < keys.len() && keys[key]
}

/// The lowest key from `from` upwards that is held down, if there is one.
pub open spec fn first_pressed_from(keys: Seq<bool>, from: int) -> Option<int>
    decreases keys.len() - from,
{
    if from < 0 || from >= keys.len() {
        None
    } else if keys[from] {
        Some(from)
    } else {
        first_pressed_from(keys, from + 1)
    }
}

/// The lowest key that is held down, if there is one.
pub open spec fn first_pressed(keys: Seq<bool>) -> Option<int> {
    first_pressed_from(keys, 0)
}

/// Skip the next instruction if `condition` holds, else go on with it.
pub open spec fn skip_when(condition: bool) -> PcInstructions {
    if condition {
        PcInstructions::Skip
    } else {
        PcInstructions::Next
    }
}

/// The `n` sprite rows that a draw instruction reads at `index`.
pub open spec fn sprite_rows(memory: Seq<u8>, index: int, n: int) -> Seq<u8> {
    if n <= 0 {
        Seq::empty()
    } else {
        memory.subrange(index, index + n)
    }
}

/// The machine as it is switched on: the glyphs at the bottom of memory,
/// everything else zero, the program counter at the load address, the stack
/// empty, the screen dark.
pub open spec fn power_on() -> Machine {
    Machine {
        memory: Seq::new(
            MEMORY_SIZE as nat,
            |a: int|
                if 0 <= a < FONT_SET@.len() {
                    FONT_SET@[a]
                } else {
                    0u8
                },
        ),
        v: Seq::new(REGISTER_COUNT as nat, |r: int| 0u8),
        index: 0,
        pc: PROGRAM_START,
        stack: Seq::empty(),
        delay: 0,
        sound: 0,
        waiting: false,
        wait_register: 0,
        screen: blank(DISPLAY_WIDTH as nat, DISPLAY_HEIGHT as nat),
        dirty: false,
    }
}

impl Machine {
    /// The sizes that every state of the machine has.
    pub open spec fn wf(self) -> bool {
        &&& self.memory.len() == MEMORY_SIZE
        &&& self.v.len() == REGISTER_COUNT
        &&& self.stack.len() <= STACK_SIZE
        &&& self.wait_register < REGISTER_COUNT
        &&& shaped(self.screen, DISPLAY_WIDTH as int, DISPLAY_HEIGHT as int)
    }

    /// The program's bytes in memory from the load address on, the rest of
    /// the state as it was.
    pub open spec fn load(self, program: Seq<u8>) -> Machine {
        Machine {
            memory: Seq::new(
                self.memory.len(),
                |a: int|
                    if PROGRAM_START <= a < PROGRAM_START + program.len() {
                        program[a - PROGRAM_START]
                    } else {
                        self.memory[a]
                    },
            ),
            ..self
        }
    }

    /// The registers with `value` in register `x`.
    pub open spec fn with_register(self, x: int, value: u8) -> Machine {
        Machine { v: self.v.update(x, value), ..self }
    }

    /// The registers with `value` in register `x` and then `flag` in VF:
    /// the flag is written last, so it wins where `x` is VF itself.
    pub open spec fn with_result(self, x: int, value: u8, flag: u8) -> Machine {
        Machine { v: self.v.update(x, value).update(FLAG as int, flag), ..self }
    }

    /// 00E0: every pixel dark.
    pub open spec fn clear_screen(self) -> Machine {
        Machine { screen: blank(DISPLAY_WIDTH as nat, DISPLAY_HEIGHT as nat), dirty: true, ..self }
    }

    /// 00EE: the newest return address leaves the stack.
    pub open spec fn pop_return(self) -> Machine {
        Machine { stack: self.stack.drop_last(), ..self }
    }

    /// 2nnn: the address of the instruction after the call goes on the
    /// stack.
    pub open spec fn push_return(self) -> Machine {
        Machine { stack: self.stack.push((self.pc + OPCODE_SIZE) as usize), ..self }
    }

    /// 7xkk: Vx = Vx + kk modulo 256; VF is not touched.
    pub open spec fn add_byte(self, x: int, kk: u8) -> Machine {
        self.with_register(x, ((self.v[x] + kk) % 256) as u8)
    }

    /// 8xy4: Vx = Vx + Vy modulo 256; VF = 1 if the sum is over 255, else 0.
    pub open spec fn add_registers(self, x: int, y: int) -> Machine {
        let sum = self.v[x] + self.v[y];
        self.with_result(
            x,
            (sum % 256) as u8,
            if sum > 255 {
                1u8
            } else {
                0u8
            },
        )
    }

    /// 8xy5: Vx = Vx - Vy modulo 256; VF = 1 if Vx was greater than Vy,
    /// else 0.
    pub open spec fn subtract(self, x: int, y: int) -> Machine {
        self.with_result(
            x,
            ((self.v[x] - self.v[y]) % 256) as u8,
            if self.v[x] > self.v[y] {
                1u8
            } else {
                0u8
            },
        )
    }

    /// 8xy7: Vx = Vy - Vx modulo 256; VF = 1 if Vy was greater than Vx,
    /// else 0.
    pub open spec fn subtract_from(self, x: int, y: int) -> Machine {
        self.with_result(
            x,
            ((self.v[y] - self.v[x]) % 256) as u8,
            if self.v[y] > self.v[x] {
                1u8
            } else {
                0u8
            },
        )
    }

    /// 8xy6: Vx is halved; VF = the bit of Vx that the shift pushes out,
    /// its least significant one.
    pub open spec fn shift_right(self, x: int) -> Machine {
        self.with_result(x, (self.v[x] / 2) as u8, (self.v[x] % 2) as u8)
    }

    /// 8xyE: Vx is doubled modulo 256; VF = the bit of Vx that the shift
    /// pushes out, its most significant one.
    pub open spec fn shift_left(self, x: int) -> Machine {
        self.with_result(x, ((self.v[x] * 2) % 256) as u8, (self.v[x] / 128) as u8)
    }

    /// Dxyn: VF is cleared, then the `n` bytes at the index register are
    /// drawn as a sprite at column Vx, row Vy, and VF = 1 if a set bit
    /// found its pixel lit, else 0.
    pub open spec fn draw(self, x: int, y: int, n: int) -> Machine {
        let cleared = self.v.update(FLAG as int, 0u8);
        let sprite = sprite_rows(self.memory, self.index as int, n);
        let w = DISPLAY_WIDTH as int;
        let h = DISPLAY_HEIGHT as int;
        let col = cleared[x] as int;
        let row = cleared[y] as int;
        Machine {
            v: cleared.update(
                FLAG as int,
                if collides(self.screen, w, h, col, row, sprite, 8 * n) {
                    1u8
                } else {
                    0u8
                },
            ),
            screen: drawn(self.screen, w, h, col, row, sprite, 8 * n),
            dirty: true,
            ..self
        }
    }

    /// Fx0A: the machine stalls until a key is pressed, which then goes to
    /// Vx.
    pub open spec fn wait_for_key(self, x: usize) -> Machine {
        Machine { waiting: true, wait_register: x, ..self }
    }

    /// Fx1E: the index register grows by Vx, modulo 65536; VF = 1 if it is
    /// then over 0xF00, else 0.
    pub open spec fn add_to_index(self, x: int) -> Machine {
        let sum = ((self.index + self.v[x]) % 0x10000) as u16;
        Machine {
            index: sum,
            v: self.v.update(
                FLAG as int,
                if sum > 0x0F00 {
                    1u8
                } else {
                    0u8
                },
            ),
            ..self
        }
    }

    /// Fx29: the index register points at the glyph of the digit in Vx;
    /// glyphs are five bytes long and start at address 0.
    pub open spec fn point_at_glyph(self, x: int) -> Machine {
        Machine { index: (self.v[x] * 5) as u16, ..self }
    }

    /// Fx33: the hundreds, tens and ones of Vx go to the three bytes at the
    /// index register.
    pub open spec fn store_decimal(self, x: int) -> Machine {
        let i = self.index as int;
        let value = self.v[x];
        Machine {
            memory: self.memory.update(i, (value / 100) as u8).update(
                i + 1,
                ((value / 10) % 10) as u8,
            ).update(i + 2, (value % 10) as u8),
            ..self
        }
    }

    /// Fx55: V0 to Vx, Vx included, go to memory at the index register.
    pub open spec fn store_registers(self, x: int) -> Machine {
        let i = self.index as int;
        Machine {
            memory: Seq::new(
                self.memory.len(),
                |a: int|
                    if i <= a <= i + x {
                        self.v[a - i]
                    } else {
                        self.memory[a]
                    },
            ),
            ..self
        }
    }

    /// Fx65: V0 to Vx, Vx included, are read from memory at the index
    /// register.
    pub open spec fn load_registers(self, x: int) -> Machine {
        let i = self.index as int;
        Machine {
            v: Seq::new(
                self.v.len(),
                |r: int|
                    if r <= x {
                        self.memory[i + r]
                    } else {
                        self.v[r]
                    },
            ),
            ..self
        }
    }

    /// The program counter after an instruction with the given effect.
    pub open spec fn advance(self, effect: PcInstructions) -> Machine {
        Machine {
            pc: match effect {
                PcInstructions::Next => (self.pc + OPCODE_SIZE) as usize,
                PcInstructions::Skip => (self.pc + 2 * OPCODE_SIZE) as usize,
                PcInstructions::Jump(address) => address,
            },
            ..self
        }
    }

    /// Both timers count down by one, and stay at 0 once there.
    pub open spec fn tick(self) -> Machine {
        Machine {
            delay: if self.delay > 0 {
                (self.delay - 1) as u8
            } else {
                0u8
            },
            sound: if self.sound > 0 {
                (self.sound - 1) as u8
            } else {
                0u8
            },
            ..self
        }
    }

    /// A stalled machine looks at the keys: the lowest key held down goes
    /// to the waiting register and ends the stall; with no key down nothing
    /// changes.
    pub open spec fn poll_keys(self, keys: Seq<bool>) -> Machine {
        match first_pressed(keys) {
            Some(key) => Machine {
                waiting: false,
                v: self.v.update(self.wait_register as int, key as u8),
                ..self
            },
            None => self,
        }
    }
}

/// Why the instruction `opcode` cannot be carried out in state `m`, if it
/// cannot: a return with an empty stack, a call with a full one, or an
/// instruction that reaches past the end of memory.
pub open spec fn fault(m: Machine, opcode: u16) -> Option<CpuError> {
    let d0 = digit0(opcode);
    let x = digit1(opcode);
    let y = digit2(opcode);
    let n = digit3(opcode);
    if d0 == 0x0 && x == 0x0 && y == 0xE && n == 0xE && m.stack.len() == 0 {
        Some(CpuError::StackUnderflow { opcode, pc: m.pc })
    } else if d0 == 0x2 && m.stack.len() >= STACK_SIZE {
        Some(CpuError::StackOverflow { opcode, pc: m.pc })
    } else if d0 == 0xD && n > 0 && m.index + n > MEMORY_SIZE {
        Some(CpuError::MemoryOutOfBounds { opcode, pc: m.pc })
    } else if d0 == 0xF && y == 0x3 && n == 0x3 && m.index + 2 >= MEMORY_SIZE {
        Some(CpuError::MemoryOutOfBounds { opcode, pc: m.pc })
    } else if d0 == 0xF && (y == 0x5 || y == 0x6) && n == 0x5 && m.index + x >= MEMORY_SIZE {
        Some(CpuError::MemoryOutOfBounds { opcode, pc: m.pc })
    } else {
        None
    }
}

/// The state after the instruction `opcode`, and what the instruction
/// asks of the program counter. `keys` says which keys are held down and
/// `random` is the byte that a random instruction uses. An opcode that is
/// no instruction changes nothing and goes on to the next one.
pub open spec fn execute(m: Machine, opcode: u16, keys: Seq<bool>, random: u8) -> (
    Machine,
    PcInstructions,
) {
    let d0 = digit0(opcode);
    let x = digit1(opcode) as int;
    let y = digit2(opcode) as int;
    let n = digit3(opcode);
    let nnn = address_of(opcode);
    let kk = byte_of(opcode);
    if d0 == 0x0 && x == 0x0 && y == 0xE && n == 0x0 {
        (m.clear_screen(), PcInstructions::Next)
    } else if d0 == 0x0 && x == 0x0 && y == 0xE && n == 0xE {
        (m.pop_return(), PcInstructions::Jump(m.stack.last()))
    } else if d0 == 0x1 {
        (m, PcInstructions::Jump(nnn))
    } else if d0 == 0x2 {
        (m.push_return(), PcInstructions::Jump(nnn))
    } else if d0 == 0x3 {
        (m, skip_when(m.v[x] == kk))
    } else if d0 == 0x4 {
        (m, skip_when(m.v[x] != kk))
    } else if d0 == 0x5 && n == 0x0 {
        (m, skip_when(m.v[x] == m.v[y]))
    } else if d0 == 0x6 {
        (m.with_register(x, kk), PcInstructions::Next)
    } else if d0 == 0x7 {
        (m.add_byte(x, kk), PcInstructions::Next)
    } else if d0 == 0x8 && n == 0x0 {
        (m.with_register(x, m.v[y]), PcInstructions::Next)
    } else if d0 == 0x8 && n == 0x1 {
        (m.with_register(x, m.v[x] | m.v[y]), PcInstructions::Next)
    } else if d0 == 0x8 && n == 0x2 {
        (m.with_register(x, m.v[x] & m.v[y]), PcInstructions::Next)
    } else if d0 == 0x8 && n == 0x3 {
        (m.with_register(x, m.v[x] ^ m.v[y]), PcInstructions::Next)
    } else if d0 == 0x8 && n == 0x4 {
        (m.add_registers(x, y), PcInstructions::Next)
    } else if d0 == 0x8 && n == 0x5 {
        (m.subtract(x, y), PcInstructions::Next)
    } else if d0 == 0x8 && n == 0x6 {
        (m.shift_right(x), PcInstructions::Next)
    } else if d0 == 0x8 && n == 0x7 {
        (m.subtract_from(x, y), PcInstructions::Next)
    } else if d0 == 0x8 && n == 0xE {
        (m.shift_left(x), PcInstructions::Next)
    } else if d0 == 0x9 && n == 0x0 {
        (m, skip_when(m.v[x] != m.v[y]))
    } else if d0 == 0xA {
        (Machine { index: nnn as u16, ..m }, PcInstructions::Next)
    } else if d0 == 0xB {
        (m, PcInstructions::Jump((nnn + m.v[0]) as usize))
    } else if d0 == 0xC {
        (m.with_register(x, random & kk), PcInstructions::Next)
    } else if d0 == 0xD {
        (m.draw(x, y, n as int), PcInstructions::Next)
    } else if d0 == 0xE && y == 0x9 && n == 0xE {
        (m, skip_when(key_down(keys, m.v[x] as int)))
    } else if d0 == 0xE && y == 0xA && n == 0x1 {
        (m, skip_when(!key_down(keys, m.v[x] as int)))
    } else if d0 == 0xF && y == 0x0 && n == 0x7 {
        (m.with_register(x, m.delay), PcInstructions::Next)
    } else if d0 == 0xF && y == 0x0 && n == 0xA {
        (m.wait_for_key(x as usize), PcInstructions::Next)
    } else if d0 == 0xF && y == 0x1 && n == 0x5 {
        (Machine { delay: m.v[x], ..m }, PcInstructions::Next)
    } else if d0 == 0xF && y == 0x1 && n == 0x8 {
        (Machine { sound: m.v[x], ..m }, PcInstructions::Next)
    } else if d0 == 0xF && y == 0x1 && n == 0xE {
        (m.add_to_index(x), PcInstructions::Next)
    } else if d0 == 0xF && y == 0x2 && n == 0x9 {
        (m.point_at_glyph(x), PcInstructions::Next)
    } else if d0 == 0xF && y == 0x3 && n == 0x3 {
        (m.store_decimal(x), PcInstructions::Next)
    } else if d0 == 0xF && y == 0x5 && n == 0x5 {
        (m.store_registers(x), PcInstructions::Next)
    } else if d0 == 0xF && y == 0x6 && n == 0x5 {
        (m.load_registers(x), PcInstructions::Next)
    } else {
        (m, PcInstructions::Next)
    }
}

/// One cycle. A stalled machine only looks at the keys. A running one
/// fetches the opcode at the program counter, carries it out, moves the
/// program counter as the instruction asks and lets the timers count down;
/// where the opcode cannot be fetched or carried out, the cycle fails and
/// nothing is changed. Either way the frame buffer counts as unwritten when
/// the cycle starts.
pub open spec fn step(m: Machine, keys: Seq<bool>, random: u8) -> Result<Machine, CpuError> {
    let fresh = Machine { dirty: false, ..m };
    if m.waiting {
        Ok(fresh.poll_keys(keys))
    } else if m.pc + 1 >= MEMORY_SIZE {
        Err(CpuError::PcOutOfBounds { pc: m.pc })
    } else {
        let opcode = opcode_at(m.memory, m.pc as int);
        match fault(m, opcode) {
            Some(error) => Err(error),
            None => {
                let done = execute(fresh, opcode, keys, random);
                Ok(done.0.advance(done.1).tick())
            },
        }
    }
}

} // verus!
