use crate::error::Chip8Error;
use crate::font::{glyph_address, initial_byte};
use crate::opcode::{address, decode, low_byte, nibble, reg_x, reg_y, word, Operation};
use crate::sprite::{blank_display, collides, drawn, is_display};
use vstd::prelude::*;

verus! {

/// Number of memory cells.
pub const MEMORY_SIZE: usize = 4096;

/// Address at which a program conventionally starts, and at which a fresh
/// machine begins to run.
pub const PROGRAM_START: u16 = 0x200;

/// The machine as a mathematical value: what the contracts of the interpreter
/// speak of.
pub struct State {
    /// The sixteen general registers; register 15 doubles as the flag.
    pub registers: Seq<u8>,
    /// The 4096 memory cells.
    pub memory: Seq<u8>,
    /// The index register, a pointer into memory.
    pub index: u16,
    /// The program counter: address of the next instruction.
    pub pc: u16,
    /// The sixteen return addresses.
    pub stack: Seq<u16>,
    /// The slot of `stack` that the next call fills.
    pub sp: u8,
    pub delay_timer: u8,
    pub sound_timer: u8,
    /// The pixels, row by row.
    pub display: Seq<Seq<bool>>,
    /// The instruction word fetched last.
    pub opcode: u16,
    /// Which of the sixteen keys are held down.
    pub keypad: Seq<bool>,
}

/// The 16-bit value that a sum or difference leaves in a 16-bit register.
pub open spec fn wrap16(v: int) -> u16 {
    (v % 0x1_0000) as u16
}

/// The 8-bit value that a sum or difference leaves in an 8-bit register.
pub open spec fn wrap8(v: int) -> u8 {
    (v % 0x100) as u8
}

/// 1 for true, 0 for false: the way a condition is stored in the flag register.
pub open spec fn flag(b: bool) -> u8 {
    if b {
        1u8
    } else {
        0u8
    }
}

/// The lowest index from `from` on at which a key is held down; 16 where there
/// is none.
pub open spec fn first_pressed_from(keys: Seq<bool>, from: int) -> int
    decreases 16 - from,
{
    if from >= 16 {
        16
    } else if keys[from] {
        from
    } else {
        first_pressed_from(keys, from + 1)
    }
}

/// The lowest index of a key that is held down; 16 where no key is.
pub open spec fn first_pressed(keys: Seq<bool>) -> int {
    first_pressed_from(keys, 0)
}

impl State {
    /// The shape that every machine state has.
    pub open spec fn wf(self) -> bool {
        &&& self.registers.len() == 16
        &&& self.memory.len() == MEMORY_SIZE
        &&& self.stack.len() == 16
        &&& self.sp < 16
        &&& self.keypad.len() == 16
        &&& is_display(self.display)
    }

    /// The state of a machine that was just made: the glyphs in memory, the
    /// program counter at `PROGRAM_START`, everything else zero.
    pub open spec fn initial() -> State {
        State {
            registers: Seq::new(16, |i: int| 0u8),
            memory: Seq::new(MEMORY_SIZE as nat, |a: int| initial_byte(a)),
            index: 0,
            pc: PROGRAM_START,
            stack: Seq::new(16, |i: int| 0u16),
            sp: 0,
            delay_timer: 0,
            sound_timer: 0,
            display: blank_display(),
            opcode: 0,
            keypad: Seq::new(16, |i: int| false),
        }
    }

    /// Register `i`.
    pub open spec fn reg(self, i: int) -> u8 {
        self.registers[i]
    }

    /// The state with register `i` set to `v`.
    pub open spec fn set_reg(self, i: int, v: u8) -> State {
        State { registers: self.registers.update(i, v), ..self }
    }

    /// The state with the flag register set to 1 or 0.
    pub open spec fn set_flag(self, b: bool) -> State {
        self.set_reg(0xF, flag(b))
    }

    /// The state with `image` copied into memory from `start` on.
    pub open spec fn with_image(self, image: Seq<u8>, start: int) -> State {
        State {
            memory: Seq::new(
                MEMORY_SIZE as nat,
                |a: int|
                    if start <= a < start + image.len() {
                        image[a - start]
                    } else {
                        self.memory[a]
                    },
            ),
            ..self
        }
    }

    /// The state with the keypad replaced.
    pub open spec fn with_keys(self, keys: Seq<bool>) -> State {
        State { keypad: keys, ..self }
    }

    /// Whether a whole instruction lies at the program counter.
    pub open spec fn can_fetch(self) -> bool {
        self.pc as int + 1 < MEMORY_SIZE
    }

    /// The state after the instruction at the program counter was read: the
    /// word is in `opcode`, the program counter is past it.
    pub open spec fn fetch(self) -> State {
        State {
            opcode: word(self.memory[self.pc as int], self.memory[self.pc as int + 1]),
            pc: wrap16(self.pc as int + 2),
            ..self
        }
    }

    /// The state with the program counter moved past one more instruction
    /// where `cond` holds.
    pub open spec fn skip_if(self, cond: bool) -> State {
        if cond {
            State { pc: wrap16(self.pc as int + 2), ..self }
        } else {
            self
        }
    }

    pub open spec fn clear_display(self) -> State {
        State { display: blank_display(), ..self }
    }

    /// Return: the stack pointer steps back, from slot 0 round to slot 15, and
    /// the program counter takes the address in that slot.
    pub open spec fn ret(self) -> State {
        let sp = (self.sp as int + 15) % 16;
        State { sp: sp as u8, pc: self.stack[sp], ..self }
    }

    pub open spec fn jump(self, target: u16) -> State {
        State { pc: target, ..self }
    }

    /// Call: the program counter is stored in the current stack slot, the
    /// stack pointer steps on, from slot 15 round to slot 0, and the program
    /// counter takes the target.
    pub open spec fn call(self, target: u16) -> State {
        State {
            stack: self.stack.update(self.sp as int, self.pc),
            sp: ((self.sp as int + 1) % 16) as u8,
            pc: target,
            ..self
        }
    }

    pub open spec fn add_immediate(self, x: int, kk: u8) -> State {
        self.set_reg(x, wrap8(self.reg(x) as int + kk as int))
    }

    /// Addition with carry. The flag is written first, the sum afterwards, so
    /// with register 15 as destination the sum stays.
    pub open spec fn add_registers(self, x: int, y: int) -> State {
        let sum = self.reg(x) as int + self.reg(y) as int;
        self.set_flag(sum > 255).set_reg(x, wrap8(sum))
    }

    /// Subtraction of register Y from register X. The flag (1 where nothing
    /// was borrowed) is written first; the difference is then taken of the
    /// registers as they are after that.
    pub open spec fn subtract(self, x: int, y: int) -> State {
        let flagged = self.set_flag(self.reg(x) >= self.reg(y));
        flagged.set_reg(x, wrap8(flagged.reg(x) as int - flagged.reg(y) as int))
    }

    /// Subtraction of register X from register Y, stored in X; the flag as in
    /// `subtract`, with the operands exchanged.
    pub open spec fn subtract_reversed(self, x: int, y: int) -> State {
        let flagged = self.set_flag(self.reg(y) >= self.reg(x));
        flagged.set_reg(x, wrap8(flagged.reg(y) as int - flagged.reg(x) as int))
    }

    /// Shift right by one. The flag takes the lowest bit first; the register
    /// as it is after that is halved.
    pub open spec fn shift_right(self, x: int) -> State {
        let flagged = self.set_reg(0xF, (self.reg(x) % 2) as u8);
        flagged.set_reg(x, (flagged.reg(x) / 2) as u8)
    }

    /// Shift left by one. The flag takes the highest bit first; the register
    /// as it is after that is doubled, and the bit shifted out is lost.
    pub open spec fn shift_left(self, x: int) -> State {
        let flagged = self.set_reg(0xF, (self.reg(x) / 128) as u8);
        flagged.set_reg(x, wrap8(flagged.reg(x) as int * 2))
    }

    pub open spec fn set_index(self, target: u16) -> State {
        State { index: target, ..self }
    }

    pub open spec fn jump_offset(self, base: u16) -> State {
        State { pc: (self.reg(0) as int + base as int) as u16, ..self }
    }

    /// Register X takes a random byte, masked.
    pub open spec fn random(self, x: int, kk: u8, random: u8) -> State {
        self.set_reg(x, random & kk)
    }

    /// The `n` bytes that a sprite occupies in memory, from the index
    /// register on.
    pub open spec fn sprite(self, n: int) -> Seq<u8> {
        Seq::new(n as nat, |i: int| self.memory[self.index as int + i])
    }

    /// Whether a sprite of `n` rows lies within memory. An empty sprite lies
    /// anywhere.
    pub open spec fn sprite_in_bounds(self, n: int) -> bool {
        n == 0 || self.index as int + n <= MEMORY_SIZE
    }

    /// Draw: the sprite of `n` rows at the index register is drawn with its
    /// top-left corner at column `reg(x) % 64`, row `reg(y) % 32`; the flag says
    /// whether a lit pixel went off.
    pub open spec fn draw(self, x: int, y: int, n: int) -> State {
        let sprite = self.sprite(n);
        let col = self.reg(x) as int % 64;
        let row = self.reg(y) as int % 32;
        State {
            display: drawn(self.display, sprite, col, row),
            registers: self.registers.update(0xF, flag(collides(self.display, sprite, col, row))),
            ..self
        }
    }

    /// Whether the key that register X names is held down. Only the low four
    /// bits of the register count.
    pub open spec fn key_down(self, x: int) -> bool {
        self.keypad[self.reg(x) as int % 16]
    }

    pub open spec fn read_delay(self, x: int) -> State {
        self.set_reg(x, self.delay_timer)
    }

    /// Wait for a key: register X takes the lowest key that is held down;
    /// where none is, the program counter steps back onto this instruction.
    pub open spec fn wait_key(self, x: int) -> State {
        let k = first_pressed(self.keypad);
        if k < 16 {
            self.set_reg(x, k as u8)
        } else {
            State { pc: wrap16(self.pc as int - 2), ..self }
        }
    }

    pub open spec fn set_delay(self, x: int) -> State {
        State { delay_timer: self.reg(x), ..self }
    }

    pub open spec fn set_sound(self, x: int) -> State {
        State { sound_timer: self.reg(x), ..self }
    }

    pub open spec fn add_index(self, x: int) -> State {
        State { index: wrap16(self.index as int + self.reg(x) as int), ..self }
    }

    /// The index register takes the address of the glyph for the low four
    /// bits of register X.
    pub open spec fn font_glyph(self, x: int) -> State {
        State { index: glyph_address(self.reg(x) as int % 16) as u16, ..self }
    }

    /// Whether the three cells from the index register on lie within memory.
    pub open spec fn decimal_in_bounds(self) -> bool {
        self.index as int + 2 < MEMORY_SIZE
    }

    /// The hundreds, tens and units of register X go to the three cells from
    /// the index register on.
    pub open spec fn decimal(self, x: int) -> State {
        let v = self.reg(x) as int;
        let i = self.index as int;
        State {
            memory: self.memory.update(i + 2, (v % 10) as u8).update(
                i + 1,
                ((v / 10) % 10) as u8,
            ).update(i, (v / 100) as u8),
            ..self
        }
    }

    /// Whether the cells for registers 0 to `x` lie within memory.
    pub open spec fn block_in_bounds(self, x: int) -> bool {
        self.index as int + x < MEMORY_SIZE
    }

    /// Registers 0 to `x` go to memory from the index register on.
    pub open spec fn dump_registers(self, x: int) -> State {
        let i = self.index as int;
        State {
            memory: Seq::new(
                MEMORY_SIZE as nat,
                |a: int|
                    if i <= a <= i + x {
                        self.registers[a - i]
                    } else {
                        self.memory[a]
                    },
            ),
            ..self
        }
    }

    /// Registers 0 to `x` are read from memory from the index register on.
    pub open spec fn load_registers(self, x: int) -> State {
        State {
            registers: Seq::new(
                16,
                |r: int|
                    if r <= x {
                        self.memory[self.index as int + r]
                    } else {
                        self.registers[r]
                    },
            ),
            ..self
        }
    }

    /// Both timers count down by one, and stop at zero.
    pub open spec fn tick(self) -> State {
        State {
            delay_timer: if self.delay_timer > 0 {
                (self.delay_timer - 1) as u8
            } else {
                0
            },
            sound_timer: if self.sound_timer > 0 {
                (self.sound_timer - 1) as u8
            } else {
                0
            },
            ..self
        }
    }

    /// The reason for which the instruction in `opcode` cannot be carried
    /// out, if there is one: it would reach beyond the end of memory.
    pub open spec fn fault(self) -> Option<Chip8Error> {
        let op = self.opcode;
        let in_bounds = match decode(op) {
            Operation::Draw => self.sprite_in_bounds(nibble(op)),
            Operation::Decimal => self.decimal_in_bounds(),
            Operation::DumpRegisters => self.block_in_bounds(reg_x(op)),
            Operation::LoadRegisters => self.block_in_bounds(reg_x(op)),
            _ => true,
        };
        if in_bounds {
            None
        } else {
            Some(Chip8Error::MemoryOutOfBounds)
        }
    }

    /// The state after the instruction in `opcode` was carried out, `random`
    /// being the byte that the random instruction draws.
    pub open spec fn execute(self, random: u8) -> State {
        let op = self.opcode;
        let x = reg_x(op);
        let y = reg_y(op);
        let kk = low_byte(op);
        let nnn = address(op);
        match decode(op) {
            Operation::ClearDisplay => self.clear_display(),
            Operation::Return => self.ret(),
            Operation::Jump => self.jump(nnn),
            Operation::Call => self.call(nnn),
            Operation::SkipIfEqualImmediate => self.skip_if(self.reg(x) == kk),
            Operation::SkipIfNotEqualImmediate => self.skip_if(self.reg(x) != kk),
            Operation::SkipIfEqualRegister => self.skip_if(self.reg(x) == self.reg(y)),
            Operation::LoadImmediate => self.set_reg(x, kk),
            Operation::AddImmediate => self.add_immediate(x, kk),
            Operation::Copy => self.set_reg(x, self.reg(y)),
            Operation::Or => self.set_reg(x, self.reg(x) | self.reg(y)),
            Operation::And => self.set_reg(x, self.reg(x) & self.reg(y)),
            Operation::Xor => self.set_reg(x, self.reg(x) ^ self.reg(y)),
            Operation::Add => self.add_registers(x, y),
            Operation::Subtract => self.subtract(x, y),
            Operation::ShiftRight => self.shift_right(x),
            Operation::SubtractReversed => self.subtract_reversed(x, y),
            Operation::ShiftLeft => self.shift_left(x),
            Operation::SkipIfNotEqualRegister => self.skip_if(self.reg(x) != self.reg(y)),
            Operation::SetIndex => self.set_index(nnn),
            Operation::JumpOffset => self.jump_offset(nnn),
            Operation::Random => self.random(x, kk, random),
            Operation::Draw => self.draw(x, y, nibble(op)),
            Operation::SkipIfKey => self.skip_if(self.key_down(x)),
            Operation::SkipIfNotKey => self.skip_if(!self.key_down(x)),
            Operation::ReadDelay => self.read_delay(x),
            Operation::WaitKey => self.wait_key(x),
            Operation::SetDelay => self.set_delay(x),
            Operation::SetSound => self.set_sound(x),
            Operation::AddIndex => self.add_index(x),
            Operation::FontGlyph => self.font_glyph(x),
            Operation::Decimal => self.decimal(x),
            Operation::DumpRegisters => self.dump_registers(x),
            Operation::LoadRegisters => self.load_registers(x),
            Operation::Unknown => self,
        }
    }

    /// The reason for which no step can be taken from this state, if there
    /// is one.
    pub open spec fn step_fault(self) -> Option<Chip8Error> {
        if !self.can_fetch() {
            Some(Chip8Error::ProgramCounterOutOfBounds)
        } else {
            self.fetch().fault()
        }
    }

    /// The state after one step: fetch, execute, tick. It is meant for states
    /// from which a step can be taken.
    pub open spec fn step(self, random: u8) -> State {
        self.fetch().execute(random).tick()
    }

    /// Whether the next step draws a random byte.
    pub open spec fn draws_random(self) -> bool {
        self.can_fetch() && decode(self.fetch().opcode) == Operation::Random
    }
}

} // verus!
