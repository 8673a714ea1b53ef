use crate::error::Chip8Error;
use crate::font::{font_table, FONT_START, GLYPH_HEIGHT};
use crate::opcode::{
    address, decode, decode_word, kk_of, low_byte, make_word, n_of, nibble, nnn_of, reg_x, reg_y,
    x_of, y_of, Operation,
};
use crate::random::next_random_word;
use crate::sprite::{
    blank_display, lemma_partly_end, lemma_partly_next_row, lemma_partly_start, lemma_partly_step,
    partly_collides, partly_covers, wrapped, COLUMNS, ROWS,
};
use crate::state::{
    first_pressed, first_pressed_from, flag, State, MEMORY_SIZE, PROGRAM_START,
};
use vstd::prelude::*;

verus! {

/// The interpreter: one machine with its memory, registers, stack, timers,
/// display and keypad.
pub struct Chip8 {
    registers: [u8; 16],
    memory: [u8; 4096],
    index_register: u16,
    pc: u16,
    stack: [u16; 16],
    sp: u8,
    delay_timer: u8,
    sound_timer: u8,
    display: [[bool; 64]; 32],
    opcode: u16,
    keypad: [bool; 16],
}

impl View for Chip8 {
    type V = State;

    closed spec fn view(&self) -> State {
        State {
            registers: self.registers@,
            memory: self.memory@,
            index: self.index_register,
            pc: self.pc,
            stack: self.stack@,
            sp: self.sp,
            delay_timer: self.delay_timer,
            sound_timer: self.sound_timer,
            display: Seq::new(ROWS as nat, |r: int| self.display@[r]@),
            opcode: self.opcode,
            keypad: self.keypad@,
        }
    }
}

impl Chip8 {
    /// The machine's invariant: its state has the shape that `State::wf`
    /// describes. `new` establishes it and every operation keeps it.
    pub open spec fn wf(&self) -> bool {
        self@.wf()
    }

    /// A machine with the glyphs in memory, the program counter at the
    /// conventional program start and everything else zero.
    pub fn new() -> (machine: Chip8)
        ensures
            machine.wf(),
            machine@ == State::initial(),
    {
        let table = font_table();
        let mut memory: [u8; 4096] = [0; 4096];
        let mut i: usize = 0;
        while i < 80
            invariant
                i <= 80,
                forall|k: int| 0 <= k < 80 ==> table[k] == crate::font::font_byte(k),
                forall|a: int|
                    0 <= a < 4096 ==> memory[a] == if FONT_START as int <= a < FONT_START as int
                        + i {
                        crate::font::font_byte(a - FONT_START as int)
                    } else {
                        0u8
                    },
            decreases 80 - i,
        {
            memory[i + 0x50] = table[i];
            i += 1;
        }
        let machine = Chip8 {
            registers: [0; 16],
            memory,
            index_register: 0,
            pc: PROGRAM_START,
            stack: [0; 16],
            sp: 0,
            delay_timer: 0,
            sound_timer: 0,
            display: [[false; 64]; 32],
            opcode: 0,
            keypad: [false; 16],
        };
        proof {
            let s = State::initial();
            assert(machine@.registers =~= s.registers);
            assert(machine@.memory =~= s.memory);
            assert(machine@.stack =~= s.stack);
            assert(machine@.keypad =~= s.keypad);
            assert(machine@.display =~~= s.display);
        }
        machine
    }

    /// Clears the display.
    pub fn op_00e0(&mut self)
        requires
            old(self).wf(),
        ensures
            final(self).wf(),
            final(self)@ == old(self)@.clear_display(),
    {
        self.display = [[false; 64]; 32];
        proof {
            assert(self@.display =~~= blank_display());
        }
    }

    /// Returns from a subroutine: the stack pointer steps back, round from
    /// slot 0 to slot 15, and the program counter takes the address found there.
    pub fn op_00ee(&mut self)
        requires
            old(self).wf(),
        ensures
            final(self).wf(),
            final(self)@ == old(self)@.ret(),
    {
        self.sp = (self.sp + 15) % 16;
        self.pc = self.stack[self.sp as usize];
    }

    /// Jumps to the address in the instruction.
    pub fn op_1nnn(&mut self)
        requires
            old(self).wf(),
        ensures
            final(self).wf(),
            final(self)@ == old(self)@.jump(address(old(self)@.opcode)),
    {
        self.pc = nnn_of(self.opcode);
    }

    /// Calls the subroutine at the address in the instruction: the program
    /// counter is stored on the stack, whose pointer steps on, round from slot 15
    /// to slot 0.
    pub fn op_2nnn(&mut self)
        requires
            old(self).wf(),
        ensures
            final(self).wf(),
            final(self)@ == old(self)@.call(address(old(self)@.opcode)),
    {
        let addr = nnn_of(self.opcode);
        self.stack[self.sp as usize] = self.pc;
        self.sp += 1;
        self.sp %= 16;
        self.pc = addr;
    }

    /// Skips the next instruction where register X equals the low byte.
    pub fn op_3xkk(&mut self)
        requires
            old(self).wf(),
        ensures
            final(self).wf(),
            final(self)@ == old(self)@.skip_if(
                old(self)@.reg(reg_x(old(self)@.opcode)) == low_byte(old(self)@.opcode),
            ),
    {
        let vx = x_of(self.opcode);
        let byte = kk_of(self.opcode);
        if self.registers[vx] == byte {
            self.pc = self.pc.wrapping_add(2);
        }
    }

    /// Skips the next instruction where register X differs from the low byte.
    pub fn op_4xkk(&mut self)
        requires
            old(self).wf(),
        ensures
            final(self).wf(),
            final(self)@ == old(self)@.skip_if(
                old(self)@.reg(reg_x(old(self)@.opcode)) != low_byte(old(self)@.opcode),
            ),
    {
        let vx = x_of(self.opcode);
        let byte = kk_of(self.opcode);
        if self.registers[vx] != byte {
            self.pc = self.pc.wrapping_add(2);
        }
    }

    /// Skips the next instruction where registers X and Y are equal.
    pub fn op_5xy0(&mut self)
        requires
            old(self).wf(),
        ensures
            final(self).wf(),
            final(self)@ == old(self)@.skip_if(
                old(self)@.reg(reg_x(old(self)@.opcode)) == old(self)@.reg(
                    reg_y(old(self)@.opcode),
                ),
            ),
    {
        let vx = x_of(self.opcode);
        let vy = y_of(self.opcode);
        if self.registers[vx] == self.registers[vy] {
            self.pc = self.pc.wrapping_add(2);
        }
    }

    /// Loads the low byte into register X.
    pub fn op_6xkk(&mut self)
        requires
            old(self).wf(),
        ensures
            final(self).wf(),
            final(self)@ == old(self)@.set_reg(
                reg_x(old(self)@.opcode),
                low_byte(old(self)@.opcode),
            ),
    {
        let vx = x_of(self.opcode);
        let byte = kk_of(self.opcode);
        self.registers[vx] = byte;
    }

    /// Adds the low byte to register X; what passes 255 is dropped and the
    /// flag register is left alone.
    pub fn op_7xkk(&mut self)
        requires
            old(self).wf(),
        ensures
            final(self).wf(),
            final(self)@ == old(self)@.add_immediate(
                reg_x(old(self)@.opcode),
                low_byte(old(self)@.opcode),
            ),
    {
        let vx = x_of(self.opcode);
        let byte = kk_of(self.opcode);
        self.registers[vx] = self.registers[vx].wrapping_add(byte);
    }

    /// Copies register Y into register X.
    pub fn op_8xy0(&mut self)
        requires
            old(self).wf(),
        ensures
            final(self).wf(),
            final(self)@ == old(self)@.set_reg(
                reg_x(old(self)@.opcode),
                old(self)@.reg(reg_y(old(self)@.opcode)),
            ),
    {
        let vx = x_of(self.opcode);
        let vy = y_of(self.opcode);
        self.registers[vx] = self.registers[vy];
    }

    /// Register X takes the bitwise or of registers X and Y.
    pub fn op_8xy1(&mut self)
        requires
            old(self).wf(),
        ensures
            final(self).wf(),
            final(self)@ == old(self)@.set_reg(
                reg_x(old(self)@.opcode),
                old(self)@.reg(reg_x(old(self)@.opcode)) | old(self)@.reg(
                    reg_y(old(self)@.opcode),
                ),
            ),
    {
        let vx = x_of(self.opcode);
        let vy = y_of(self.opcode);
        self.registers[vx] = self.registers[vx] | self.registers[vy];
    }

    /// Register X takes the bitwise and of registers X and Y.
    pub fn op_8xy2(&mut self)
        requires
            old(self).wf(),
        ensures
            final(self).wf(),
            final(self)@ == old(self)@.set_reg(
                reg_x(old(self)@.opcode),
                old(self)@.reg(reg_x(old(self)@.opcode)) & old(self)@.reg(
                    reg_y(old(self)@.opcode),
                ),
            ),
    {
        let vx = x_of(self.opcode);
        let vy = y_of(self.opcode);
        self.registers[vx] = self.registers[vx] & self.registers[vy];
    }

    /// Register X takes the bitwise exclusive or of registers X and Y.
    pub fn op_8xy3(&mut self)
        requires
            old(self).wf(),
        ensures
            final(self).wf(),
            final(self)@ == old(self)@.set_reg(
                reg_x(old(self)@.opcode),
                old(self)@.reg(reg_x(old(self)@.opcode)) ^ old(self)@.reg(
                    reg_y(old(self)@.opcode),
                ),
            ),
    {
        let vx = x_of(self.opcode);
        let vy = y_of(self.opcode);
        self.registers[vx] = self.registers[vx] ^ self.registers[vy];
    }

    /// Adds register Y to register X; the flag register says whether the sum
    /// passed 255.
    pub fn op_8xy4(&mut self)
        requires
            old(self).wf(),
        ensures
            final(self).wf(),
            final(self)@ == old(self)@.add_registers(
                reg_x(old(self)@.opcode),
                reg_y(old(self)@.opcode),
            ),
    {
        let vx = x_of(self.opcode);
        let vy = y_of(self.opcode);
        let sum: u16 = self.registers[vx] as u16 + self.registers[vy] as u16;
        if sum > 255 {
            self.registers[0xF] = 1;
        } else {
            self.registers[0xF] = 0;
        }
        proof {
            lemma_low_byte_of_sum(sum);
        }
        self.registers[vx] = (sum & 0xff) as u8;
    }

    /// Subtracts register Y from register X; the flag register is 1 where X
    /// was at least Y, so that nothing was borrowed.
    pub fn op_8xy5(&mut self)
        requires
            old(self).wf(),
        ensures
            final(self).wf(),
            final(self)@ == old(self)@.subtract(
                reg_x(old(self)@.opcode),
                reg_y(old(self)@.opcode),
            ),
    {
        let vx = x_of(self.opcode);
        let vy = y_of(self.opcode);
        if self.registers[vx] >= self.registers[vy] {
            self.registers[0xF] = 1;
        } else {
            self.registers[0xF] = 0;
        }
        self.registers[vx] = self.registers[vx].wrapping_sub(self.registers[vy]);
    }

    /// Shifts register X right by one place; the flag register takes the bit
    /// shifted out.
    pub fn op_8xy6(&mut self)
        requires
            old(self).wf(),
        ensures
            final(self).wf(),
            final(self)@ == old(self)@.shift_right(reg_x(old(self)@.opcode)),
    {
        let vx = x_of(self.opcode);
        let before = self.registers[vx];
        proof {
            lemma_shifts(before);
        }
        self.registers[0xF] = before & 0x1;
        let flagged = self.registers[vx];
        proof {
            lemma_shifts(flagged);
        }
        self.registers[vx] = flagged >> 1;
    }

    /// Register X takes register Y minus register X; the flag register is 1
    /// where Y was at least X.
    pub fn op_8xy7(&mut self)
        requires
            old(self).wf(),
        ensures
            final(self).wf(),
            final(self)@ == old(self)@.subtract_reversed(
                reg_x(old(self)@.opcode),
                reg_y(old(self)@.opcode),
            ),
    {
        let vx = x_of(self.opcode);
        let vy = y_of(self.opcode);
        if self.registers[vy] >= self.registers[vx] {
            self.registers[0xF] = 1;
        } else {
            self.registers[0xF] = 0;
        }
        self.registers[vx] = self.registers[vy].wrapping_sub(self.registers[vx]);
    }

    /// Shifts register X left by one place; the flag register takes the bit
    /// shifted out.
    pub fn op_8xye(&mut self)
        requires
            old(self).wf(),
        ensures
            final(self).wf(),
            final(self)@ == old(self)@.shift_left(reg_x(old(self)@.opcode)),
    {
        let vx = x_of(self.opcode);
        let before = self.registers[vx];
        proof {
            lemma_shifts(before);
        }
        self.registers[0xF] = (before & 0x80) >> 7;
        let flagged = self.registers[vx];
        proof {
            lemma_shift_left(flagged);
        }
        self.registers[vx] = flagged << 1;
    }

    /// Skips the next instruction where registers X and Y differ.
    pub fn op_9xy0(&mut self)
        requires
            old(self).wf(),
        ensures
            final(self).wf(),
            final(self)@ == old(self)@.skip_if(
                old(self)@.reg(reg_x(old(self)@.opcode)) != old(self)@.reg(
                    reg_y(old(self)@.opcode),
                ),
            ),
    {
        let vx = x_of(self.opcode);
        let vy = y_of(self.opcode);
        if self.registers[vx] != self.registers[vy] {
            self.pc = self.pc.wrapping_add(2);
        }
    }

    /// Loads the address in the instruction into the index register.
    pub fn op_annn(&mut self)
        requires
            old(self).wf(),
        ensures
            final(self).wf(),
            final(self)@ == old(self)@.set_index(address(old(self)@.opcode)),
    {
        self.index_register = nnn_of(self.opcode);
    }

    /// Jumps to the address in the instruction plus register 0.
    pub fn op_bnnn(&mut self)
        requires
            old(self).wf(),
        ensures
            final(self).wf(),
            final(self)@ == old(self)@.jump_offset(address(old(self)@.opcode)),
    {
        self.pc = self.registers[0] as u16 + nnn_of(self.opcode);
    }

    /// The random instruction, on a byte that was drawn already: register X
    /// takes the byte masked with the low byte of the instruction.
    pub fn op_cxkk_with(&mut self, random: u8)
        requires
            old(self).wf(),
        ensures
            final(self).wf(),
            final(self)@ == old(self)@.random(
                reg_x(old(self)@.opcode),
                low_byte(old(self)@.opcode),
                random,
            ),
    {
        let vx = x_of(self.opcode);
        let byte = kk_of(self.opcode);
        self.registers[vx] = random & byte;
    }

    /// The random instruction: draws a byte from the generator, then acts as
    /// `op_cxkk_with` does on it.
    pub fn op_cxkk(&mut self)
        requires
            old(self).wf(),
        ensures
            final(self).wf(),
            exists|random: u8|
                final(self)@ == #[trigger] old(self)@.random(
                    reg_x(old(self)@.opcode),
                    low_byte(old(self)@.opcode),
                    random,
                ),
    {
        let random = low_byte_of(next_random_word());
        self.op_cxkk_with(random);
    }

    /// Draws the sprite of N rows that lies at the index register, its
    /// top-left corner at column `VX % 64`, row `VY % 32`. Set sprite pixels flip
    /// the display's pixels; what passes an edge comes back in at the opposite
    /// one. The flag register says whether a lit pixel went off. A sprite that
    /// reaches beyond the end of memory is refused.
    pub fn op_dxyn(&mut self) -> (result: Result<(), Chip8Error>)
        requires
            old(self).wf(),
        ensures
            final(self).wf(),
            match result {
                Ok(()) => old(self)@.sprite_in_bounds(nibble(old(self)@.opcode)) && final(self)@
                    == old(self)@.draw(
                    reg_x(old(self)@.opcode),
                    reg_y(old(self)@.opcode),
                    nibble(old(self)@.opcode),
                ),
                Err(e) => e == Chip8Error::MemoryOutOfBounds && !old(self)@.sprite_in_bounds(
                    nibble(old(self)@.opcode),
                ) && final(self)@ == old(self)@,
            },
    {
        let vx = x_of(self.opcode);
        let vy = y_of(self.opcode);
        let height = n_of(self.opcode);
        if height > 0 && self.index_register as usize + height as usize > MEMORY_SIZE {
            return Err(Chip8Error::MemoryOutOfBounds);
        }
        let x_pos: u8 = self.registers[vx] % 64;
        let y_pos: u8 = self.registers[vy] % 32;
        let ghost before = self@;
        let ghost sprite = before.sprite(height as int);
        let ghost x = x_pos as int;
        let ghost y = y_pos as int;

        self.registers[0xF] = 0;
        proof {
            lemma_partly_start(before.display, sprite, x, y);
        }
        let mut row: u8 = 0;
        while row < height
            invariant
                row <= height < 16,
                x == x_pos < 64,
                y == y_pos < 32,
                before.wf(),
                sprite == before.sprite(height as int),
                height > 0 ==> before.index as int + height as int <= MEMORY_SIZE,
                self@ == (State {
                    registers: before.registers.update(
                        0xF,
                        flag(partly_collides(before.display, sprite, x, y, row as int, 0)),
                    ),
                    display: self@.display,
                    ..before
                }),
                forall|r: int, c: int|
                    0 <= r < ROWS && 0 <= c < COLUMNS ==> self.display@[r]@[c] == (
                    before.display[r][c] != partly_covers(sprite, x, y, r, c, row as int, 0)),
            decreases height - row,
        {
            let spr_byte = self.memory[self.index_register as usize + row as usize];
            let mut col: u8 = 0;
            while col < 8
                invariant
                    row < height < 16,
                    col <= 8,
                    x == x_pos < 64,
                    y == y_pos < 32,
                    before.wf(),
                    sprite == before.sprite(height as int),
                    spr_byte == sprite[row as int],
                    self@ == (State {
                        registers: before.registers.update(
                            0xF,
                            flag(
                                partly_collides(
                                    before.display,
                                    sprite,
                                    x,
                                    y,
                                    row as int,
                                    col as int,
                                ),
                            ),
                        ),
                        display: self@.display,
                        ..before
                    }),
                    forall|r: int, c: int|
                        0 <= r < ROWS && 0 <= c < COLUMNS ==> self.display@[r]@[c] == (
                        before.display[r][c] != partly_covers(
                            sprite,
                            x,
                            y,
                            r,
                            c,
                            row as int,
                            col as int,
                        )),
                decreases 8 - col,
            {
                let spr_pixel = spr_byte & (0x80u8 >> col);
                let pr = (y_pos + row) as usize % 32;
                let pc = (x_pos + col) as usize % 64;
                proof {
                    lemma_sprite_bit(spr_byte, col);
                    lemma_partly_step(before.display, sprite, x, y, row as int, col as int);
                    assert(pr == wrapped(y, row as int, ROWS as int));
                    assert(pc == wrapped(x, col as int, COLUMNS as int));
                }
                let screen_pixel = self.display[pr][pc];
                if spr_pixel != 0 {
                    if screen_pixel {
                        self.registers[0xF] = 1;
                    }
                    self.display[pr][pc] = !screen_pixel;
                }
                col += 1;
                proof {
                    assert(self@.registers =~= before.registers.update(
                        0xF,
                        flag(
                            partly_collides(before.display, sprite, x, y, row as int, col as int),
                        ),
                    ));
                }
            }
            proof {
                lemma_partly_next_row(before.display, sprite, x, y, row as int);
                let next = row as int + 1;
                assert forall|r: int, c: int| 0 <= r < ROWS && 0 <= c < COLUMNS implies self.display@[r]@[c]
                    == (before.display[r][c] != partly_covers(sprite, x, y, r, c, next, 0)) by {
                    assert(partly_covers(sprite, x, y, r, c, row as int, 8) == partly_covers(
                        sprite,
                        x,
                        y,
                        r,
                        c,
                        next,
                        0,
                    ));
                }
            }
            row += 1;
        }
        proof {
            lemma_partly_end(before.display, sprite, x, y);
            let after = before.draw(reg_x(before.opcode), reg_y(before.opcode), height as int);
            assert(self@.display =~~= after.display);
        }
        Ok(())
    }

    /// Skips the next instruction where the key named by the low four bits of
    /// register X is held down.
    pub fn op_ex9e(&mut self)
        requires
            old(self).wf(),
        ensures
            final(self).wf(),
            final(self)@ == old(self)@.skip_if(old(self)@.key_down(reg_x(old(self)@.opcode))),
    {
        let vx = x_of(self.opcode);
        if self.keypad[key_of(self.registers[vx])] {
            self.pc = self.pc.wrapping_add(2);
        }
    }

    /// Skips the next instruction where the key named by the low four bits of
    /// register X is not held down.
    pub fn op_exa1(&mut self)
        requires
            old(self).wf(),
        ensures
            final(self).wf(),
            final(self)@ == old(self)@.skip_if(!old(self)@.key_down(reg_x(old(self)@.opcode))),
    {
        let vx = x_of(self.opcode);
        if !self.keypad[key_of(self.registers[vx])] {
            self.pc = self.pc.wrapping_add(2);
        }
    }

    /// Reads the delay timer into register X.
    pub fn op_fx07(&mut self)
        requires
            old(self).wf(),
        ensures
            final(self).wf(),
            final(self)@ == old(self)@.read_delay(reg_x(old(self)@.opcode)),
    {
        let vx = x_of(self.opcode);
        self.registers[vx] = self.delay_timer;
    }

    /// Waits for a key: register X takes the lowest key that is held down.
    /// Where none is, the program counter steps back by one instruction, so
    /// that the next step meets this instruction again.
    pub fn op_fx0a(&mut self)
        requires
            old(self).wf(),
        ensures
            final(self).wf(),
            final(self)@ == old(self)@.wait_key(reg_x(old(self)@.opcode)),
    {
        let vx = x_of(self.opcode);
        let mut key: u8 = 0;
        while key < 16 && !self.keypad[key as usize]
            invariant
                key <= 16,
                *self == *old(self),
                first_pressed(self.keypad@) == first_pressed_from(self.keypad@, key as int),
            decreases 16 - key,
        {
            key += 1;
        }
        if key < 16 {
            self.registers[vx] = key;
        } else {
            self.pc = self.pc.wrapping_sub(2);
        }
    }

    /// Sets the delay timer to register X.
    pub fn op_fx15(&mut self)
        requires
            old(self).wf(),
        ensures
            final(self).wf(),
            final(self)@ == old(self)@.set_delay(reg_x(old(self)@.opcode)),
    {
        let vx = x_of(self.opcode);
        self.delay_timer = self.registers[vx];
    }

    /// Sets the sound timer to register X.
    pub fn op_fx18(&mut self)
        requires
            old(self).wf(),
        ensures
            final(self).wf(),
            final(self)@ == old(self)@.set_sound(reg_x(old(self)@.opcode)),
    {
        let vx = x_of(self.opcode);
        self.sound_timer = self.registers[vx];
    }

    /// Adds register X to the index register, which wraps at 16 bits; the
    /// flag register is left alone.
    pub fn op_fx1e(&mut self)
        requires
            old(self).wf(),
        ensures
            final(self).wf(),
            final(self)@ == old(self)@.add_index(reg_x(old(self)@.opcode)),
    {
        let vx = x_of(self.opcode);
        self.index_register = self.index_register.wrapping_add(self.registers[vx] as u16);
    }

    /// Points the index register at the glyph for the digit in the low four
    /// bits of register X.
    pub fn op_fx29(&mut self)
        requires
            old(self).wf(),
        ensures
            final(self).wf(),
            final(self)@ == old(self)@.font_glyph(reg_x(old(self)@.opcode)),
    {
        let vx = x_of(self.opcode);
        let digit = key_of(self.registers[vx]) as u16;
        self.index_register = FONT_START + GLYPH_HEIGHT * digit;
    }

    /// Writes the hundreds, tens and units of register X to the three cells
    /// from the index register on, or refuses where they reach beyond the end of
    /// memory.
    pub fn op_fx33(&mut self) -> (result: Result<(), Chip8Error>)
        requires
            old(self).wf(),
        ensures
            final(self).wf(),
            match result {
                Ok(()) => old(self)@.decimal_in_bounds() && final(self)@ == old(self)@.decimal(
                    reg_x(old(self)@.opcode),
                ),
                Err(e) => e == Chip8Error::MemoryOutOfBounds && !old(self)@.decimal_in_bounds()
                    && final(self)@ == old(self)@,
            },
    {
        let vx = x_of(self.opcode);
        let at = self.index_register as usize;
        if at + 2 >= MEMORY_SIZE {
            return Err(Chip8Error::MemoryOutOfBounds);
        }
        let mut val = self.registers[vx];
        self.memory[at + 2] = val % 10;
        val = val / 10;
        self.memory[at + 1] = val % 10;
        val = val / 10;
        self.memory[at] = val % 10;
        Ok(())
    }

    /// Writes registers 0 to X to memory from the index register on, or
    /// refuses where they reach beyond the end of memory.
    pub fn op_fx55(&mut self) -> (result: Result<(), Chip8Error>)
        requires
            old(self).wf(),
        ensures
            final(self).wf(),
            match result {
                Ok(()) => old(self)@.block_in_bounds(reg_x(old(self)@.opcode)) && final(self)@
                    == old(self)@.dump_registers(reg_x(old(self)@.opcode)),
                Err(e) => e == Chip8Error::MemoryOutOfBounds && !old(self)@.block_in_bounds(
                    reg_x(old(self)@.opcode),
                ) && final(self)@ == old(self)@,
            },
    {
        let vx = x_of(self.opcode);
        let at = self.index_register as usize;
        if at + vx >= MEMORY_SIZE {
            return Err(Chip8Error::MemoryOutOfBounds);
        }
        let ghost before = self@;
        let mut i: usize = 0;
        while i <= vx
            invariant
                i <= vx + 1 <= 16,
                at == before.index,
                at + vx < MEMORY_SIZE,
                before.wf(),
                self@ == (State { memory: self@.memory, ..before }),
                forall|a: int|
                    0 <= a < MEMORY_SIZE ==> self.memory@[a] == if at <= a < at + i {
                        before.registers[a - at]
                    } else {
                        before.memory[a]
                    },
            decreases vx + 1 - i,
        {
            self.memory[at + i] = self.registers[i];
            i += 1;
        }
        proof {
            assert(self@.memory =~= before.dump_registers(vx as int).memory);
        }
        Ok(())
    }

    /// Reads registers 0 to X from memory from the index register on, or
    /// refuses where they reach beyond the end of memory.
    pub fn op_fx65(&mut self) -> (result: Result<(), Chip8Error>)
        requires
            old(self).wf(),
        ensures
            final(self).wf(),
            match result {
                Ok(()) => old(self)@.block_in_bounds(reg_x(old(self)@.opcode)) && final(self)@
                    == old(self)@.load_registers(reg_x(old(self)@.opcode)),
                Err(e) => e == Chip8Error::MemoryOutOfBounds && !old(self)@.block_in_bounds(
                    reg_x(old(self)@.opcode),
                ) && final(self)@ == old(self)@,
            },
    {
        let vx = x_of(self.opcode);
        let at = self.index_register as usize;
        if at + vx >= MEMORY_SIZE {
            return Err(Chip8Error::MemoryOutOfBounds);
        }
        let ghost before = self@;
        let mut i: usize = 0;
        while i <= vx
            invariant
                i <= vx + 1 <= 16,
                at == before.index,
                at + vx < MEMORY_SIZE,
                before.wf(),
                self@ == (State { registers: self@.registers, ..before }),
                forall|r: int|
                    0 <= r < 16 ==> self.registers@[r] == if r < i {
                        before.memory[at + r]
                    } else {
                        before.registers[r]
                    },
            decreases vx + 1 - i,
        {
            self.registers[i] = self.memory[at + i];
            i += 1;
        }
        proof {
            assert(self@.registers =~= before.load_registers(vx as int).registers);
        }
        Ok(())
    }

    /// Replaces the keypad: `keys[k]` says whether key `k` is held down.
    pub fn update_keys(&mut self, keys: [bool; 16])
        requires
            old(self).wf(),
        ensures
            final(self).wf(),
            final(self)@ == old(self)@.with_keys(keys@),
    {
        self.keypad = keys;
    }

    /// Copies a program image into memory from the conventional program
    /// start on, or refuses it where it does not fit.
    pub fn load_rom(&mut self, data: &[u8]) -> (result: Result<(), Chip8Error>)
        requires
            old(self).wf(),
        ensures
            final(self).wf(),
            match result {
                Ok(()) => PROGRAM_START + data@.len() <= MEMORY_SIZE && final(self)@ == old(
                    self,
                )@.with_image(data@, PROGRAM_START as int),
                Err(e) => e == Chip8Error::ImageTooLarge && PROGRAM_START + data@.len()
                    > MEMORY_SIZE && final(self)@ == old(self)@,
            },
    {
        self.load_rom_offset(data, PROGRAM_START)
    }

    /// Copies a program image into memory from `start_addr` on, or refuses it
    /// where it does not fit between there and the end of memory.
    pub fn load_rom_offset(&mut self, data: &[u8], start_addr: u16) -> (result: Result<
        (),
        Chip8Error,
    >)
        requires
            old(self).wf(),
        ensures
            final(self).wf(),
            match result {
                Ok(()) => start_addr + data@.len() <= MEMORY_SIZE && final(self)@ == old(
                    self,
                )@.with_image(data@, start_addr as int),
                Err(e) => e == Chip8Error::ImageTooLarge && start_addr + data@.len() > MEMORY_SIZE
                    && final(self)@ == old(self)@,
            },
    {
        let start = start_addr as usize;
        if data.len() > MEMORY_SIZE || data.len() + start > MEMORY_SIZE {
            return Err(Chip8Error::ImageTooLarge);
        }
        let ghost before = self@;
        let mut i: usize = 0;
        while i < data.len()
            invariant
                i <= data@.len(),
                start == start_addr,
                start + data@.len() <= MEMORY_SIZE,
                before.wf(),
                self@ == (State { memory: self@.memory, ..before }),
                forall|a: int|
                    0 <= a < MEMORY_SIZE ==> self.memory@[a] == if start <= a < start + i {
                        data@[a - start]
                    } else {
                        before.memory[a]
                    },
            decreases data@.len() - i,
        {
            self.memory[start + i] = data[i];
            i += 1;
        }
        proof {
            assert(self@.memory =~= before.with_image(data@, start_addr as int).memory);
        }
        Ok(())
    }

    /// Whether the instruction at the program counter, if there is a whole
    /// one, is the random instruction.
    fn next_draws_random(&self) -> (b: bool)
        requires
            self.wf(),
        ensures
            b == self@.draws_random(),
    {
        let at = self.pc as usize;
        at + 1 < MEMORY_SIZE && matches!(
            decode_word(make_word(self.memory[at], self.memory[at + 1])),
            Operation::Random
        )
    }

    /// One step on a random byte that was drawn already: fetches the
    /// instruction at the program counter, moves the program counter past it,
    /// carries the instruction out and lets both timers count down. Where the
    /// step cannot be taken, the machine stays as it was.
    pub fn step_with(&mut self, random: u8) -> (result: Result<(), Chip8Error>)
        requires
            old(self).wf(),
        ensures
            final(self).wf(),
            match result {
                Ok(()) => old(self)@.step_fault() is None && final(self)@ == old(self)@.step(
                    random,
                ),
                Err(e) => old(self)@.step_fault() == Some(e) && final(self)@ == old(self)@,
            },
    {
        let at = self.pc as usize;
        if at + 1 >= MEMORY_SIZE {
            return Err(Chip8Error::ProgramCounterOutOfBounds);
        }
        let ghost before = self@;
        let saved_opcode = self.opcode;
        let saved_pc = self.pc;
        self.opcode = make_word(self.memory[at], self.memory[at + 1]);
        self.pc = self.pc + 2;
        assert(self@ == before.fetch());
        let outcome = match decode_word(self.opcode) {
            Operation::ClearDisplay => {
                self.op_00e0();
                Ok(())
            },
            Operation::Return => {
                self.op_00ee();
                Ok(())
            },
            Operation::Jump => {
                self.op_1nnn();
                Ok(())
            },
            Operation::Call => {
                self.op_2nnn();
                Ok(())
            },
            Operation::SkipIfEqualImmediate => {
                self.op_3xkk();
                Ok(())
            },
            Operation::SkipIfNotEqualImmediate => {
                self.op_4xkk();
                Ok(())
            },
            Operation::SkipIfEqualRegister => {
                self.op_5xy0();
                Ok(())
            },
            Operation::LoadImmediate => {
                self.op_6xkk();
                Ok(())
            },
            Operation::AddImmediate => {
                self.op_7xkk();
                Ok(())
            },
            Operation::Copy => {
                self.op_8xy0();
                Ok(())
            },
            Operation::Or => {
                self.op_8xy1();
                Ok(())
            },
            Operation::And => {
                self.op_8xy2();
                Ok(())
            },
            Operation::Xor => {
                self.op_8xy3();
                Ok(())
            },
            Operation::Add => {
                self.op_8xy4();
                Ok(())
            },
            Operation::Subtract => {
                self.op_8xy5();
                Ok(())
            },
            Operation::ShiftRight => {
                self.op_8xy6();
                Ok(())
            },
            Operation::SubtractReversed => {
                self.op_8xy7();
                Ok(())
            },
            Operation::ShiftLeft => {
                self.op_8xye();
                Ok(())
            },
            Operation::SkipIfNotEqualRegister => {
                self.op_9xy0();
                Ok(())
            },
            Operation::SetIndex => {
                self.op_annn();
                Ok(())
            },
            Operation::JumpOffset => {
                self.op_bnnn();
                Ok(())
            },
            Operation::Random => {
                self.op_cxkk_with(random);
                Ok(())
            },
            Operation::Draw => self.op_dxyn(),
            Operation::SkipIfKey => {
                self.op_ex9e();
                Ok(())
            },
            Operation::SkipIfNotKey => {
                self.op_exa1();
                Ok(())
            },
            Operation::ReadDelay => {
                self.op_fx07();
                Ok(())
            },
            Operation::WaitKey => {
                self.op_fx0a();
                Ok(())
            },
            Operation::SetDelay => {
                self.op_fx15();
                Ok(())
            },
            Operation::SetSound => {
                self.op_fx18();
                Ok(())
            },
            Operation::AddIndex => {
                self.op_fx1e();
                Ok(())
            },
            Operation::FontGlyph => {
                self.op_fx29();
                Ok(())
            },
            Operation::Decimal => self.op_fx33(),
            Operation::DumpRegisters => self.op_fx55(),
            Operation::LoadRegisters => self.op_fx65(),
            Operation::Unknown => Ok(()),
        };
        match outcome {
            Err(e) => {
                self.opcode = saved_opcode;
                self.pc = saved_pc;
                Err(e)
            },
            Ok(()) => {
                if self.delay_timer > 0 {
                    self.delay_timer -= 1;
                }
                if self.sound_timer > 0 {
                    self.sound_timer -= 1;
                }
                Ok(())
            },
        }
    }

    /// One step. Where the instruction at the program counter is the random
    /// instruction, a byte is drawn from the generator first; the step is then
    /// the one that `step_with` takes on that byte.
    pub fn step(&mut self) -> (result: Result<(), Chip8Error>)
        requires
            old(self).wf(),
        ensures
            final(self).wf(),
            match result {
                Ok(()) => old(self)@.step_fault() is None && (exists|random: u8|
                    final(self)@ == #[trigger] old(self)@.step(random)) && (!old(
                    self,
                )@.draws_random() ==> final(self)@ == old(self)@.step(0)),
                Err(e) => old(self)@.step_fault() == Some(e) && final(self)@ == old(self)@,
            },
    {
        let random = if self.next_draws_random() {
            low_byte_of(next_random_word())
        } else {
            0
        };
        self.step_with(random)
    }

    /// The sixteen general registers.
    pub fn registers(&self) -> (registers: &[u8; 16])
        ensures
            registers@ == self@.registers,
    {
        &self.registers
    }

    /// The whole memory.
    pub fn memory(&self) -> (memory: &[u8; 4096])
        ensures
            memory@ == self@.memory,
    {
        &self.memory
    }

    /// The index register.
    pub fn index_register(&self) -> (index: u16)
        ensures
            index == self@.index,
    {
        self.index_register
    }

    /// The program counter.
    pub fn pc(&self) -> (pc: u16)
        ensures
            pc == self@.pc,
    {
        self.pc
    }

    /// The pixels, row by row: `display()[r][c]` is the pixel in row `r`,
    /// column `c`, and `true` where it is lit.
    pub fn display(&self) -> (display: &[[bool; 64]; 32])
        ensures
            forall|r: int| 0 <= r < ROWS ==> (#[trigger] display@[r])@ == self@.display[r],
    {
        &self.display
    }

    /// The delay timer.
    pub fn delay_timer(&self) -> (timer: u8)
        ensures
            timer == self@.delay_timer,
    {
        self.delay_timer
    }

    /// The sound timer; a tone is due while it is not zero.
    pub fn sound_timer(&self) -> (timer: u8)
        ensures
            timer == self@.sound_timer,
    {
        self.sound_timer
    }
}

/// The key, or the digit, that a register value names: its low four bits.
fn key_of(v: u8) -> (k: usize)
    ensures
        k == v % 16,
{
    proof {
        lemma_low_nibble(v);
    }
    (v & 0x0f) as usize
}

proof fn lemma_low_nibble(v: u8)
    by (bit_vector)
    ensures
        v & 0x0f == v % 16,
{
}

/// The low byte of a word.
fn low_byte_of(w: u32) -> (b: u8)
    ensures
        b == w % 256,
{
    proof {
        lemma_low_byte_of_word(w);
    }
    (w & 0xff) as u8
}

proof fn lemma_low_byte_of_word(w: u32)
    by (bit_vector)
    ensures
        w & 0xff == w % 256,
{
}

/// A byte's bit under a mask of one bit, counted from the left, is that
/// pixel of the sprite row.
proof fn lemma_sprite_bit(b: u8, col: u8)
    by (bit_vector)
    requires
        col < 8,
    ensures
        col == 0 ==> (b & (0x80u8 >> col) != 0) == ((b / 128) % 2 == 1),
        col == 1 ==> (b & (0x80u8 >> col) != 0) == ((b / 64) % 2 == 1),
        col == 2 ==> (b & (0x80u8 >> col) != 0) == ((b / 32) % 2 == 1),
        col == 3 ==> (b & (0x80u8 >> col) != 0) == ((b / 16) % 2 == 1),
        col == 4 ==> (b & (0x80u8 >> col) != 0) == ((b / 8) % 2 == 1),
        col == 5 ==> (b & (0x80u8 >> col) != 0) == ((b / 4) % 2 == 1),
        col == 6 ==> (b & (0x80u8 >> col) != 0) == ((b / 2) % 2 == 1),
        col == 7 ==> (b & (0x80u8 >> col) != 0) == ((b / 1) % 2 == 1),
{
}


/// The low byte of a sum of two bytes is the sum modulo 256.
proof fn lemma_low_byte_of_sum(sum: u16)
    by (bit_vector)
    ensures
        sum & 0xff == sum % 256,
{
}

/// What the shifts of one place and the masks of the end bits compute.
proof fn lemma_shifts(v: u8)
    by (bit_vector)
    ensures
        v & 0x1 == v % 2,
        v >> 1 == v / 2,
        (v & 0x80) >> 7 == v / 128,
{
}

/// A shift to the left by one place doubles a byte and drops what passes 255.
proof fn lemma_shift_left(v: u8)
    by (bit_vector)
    ensures
        v < 128 ==> v << 1 == v * 2,
        v >= 128 ==> v << 1 == v * 2 - 256,
{
}

} // verus!
