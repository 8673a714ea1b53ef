use crate::font::{glyph, glyph_address, FONT_START};
use crate::opcode::{decode, reg_x, Operation};
use crate::sprite::{
    drawn, lemma_draw_twice_collides, lemma_draw_twice_restores, lemma_offset, lemma_wrapped, offset,
    sprite_bit, sprite_covers, touches, wrapped, COLUMNS, ROWS,
};
use crate::state::{first_pressed, first_pressed_from, State};
use vstd::prelude::*;

verus! {

/// A step is a function of the machine's state alone, but for the random
/// instruction: two machines in the same state are refused a step for the same
/// reason or, where an instruction can be fetched, take the same step whatever
/// random bytes they are given, unless the instruction they are about to carry
/// out is the random one; then they take the same step on the same byte.
pub proof fn lemma_step_is_deterministic(a: State, b: State, random_a: u8, random_b: u8)
    requires
        a == b,
        a.draws_random() ==> random_a == random_b,
    ensures
        a.step_fault() == b.step_fault(),
        a.can_fetch() ==> a.step(random_a) == b.step(random_b),
{
}

/// A word that fits no instruction pattern changes nothing but what every
/// step changes: the program counter moves past it and the timers count down.
pub proof fn lemma_unknown_word_does_nothing(s: State, random: u8)
    requires
        s.can_fetch(),
        decode(s.fetch().opcode) == Operation::Unknown,
    ensures
        s.step_fault() is None,
        s.step(random) == s.fetch().tick(),
{
}

/// The glyph instruction leaves in the index register the glyph table's start
/// plus five times the digit in the low four bits of register X.
pub proof fn lemma_glyph_address(s: State, x: int)
    ensures
        s.font_glyph(x).index == FONT_START + 5 * (s.reg(x) as int % 16),
        s.font_glyph(x).index == glyph_address(s.reg(x) as int % 16),
{
}

/// In a fresh machine the five bytes at a digit's glyph address are that
/// digit's glyph.
pub proof fn lemma_glyph_in_fresh_memory(digit: int)
    requires
        0 <= digit < 16,
    ensures
        State::initial().memory.subrange(glyph_address(digit), glyph_address(digit) + 5) == glyph(
            digit,
        ),
{
    let found = State::initial().memory.subrange(glyph_address(digit), glyph_address(digit) + 5);
    assert forall|i: int| 0 <= i < 5 implies found[i] == glyph(digit)[i] by {
        assert((5 * digit + i) / 5 == digit);
        assert((5 * digit + i) % 5 == i);
    }
    assert(found =~= glyph(digit));
}

/// What `first_pressed_from` finds: the lowest key from `from` on that is held
/// down, or 16.
pub proof fn lemma_first_pressed_from(keys: Seq<bool>, from: int)
    requires
        0 <= from <= 16,
    ensures
        from <= first_pressed_from(keys, from) <= 16,
        first_pressed_from(keys, from) < 16 ==> keys[first_pressed_from(keys, from)],
        forall|k: int| from <= k < first_pressed_from(keys, from) ==> !keys[k],
    decreases 16 - from,
{
    if from < 16 && !keys[from] {
        lemma_first_pressed_from(keys, from + 1);
    }
}

/// While no key is held down, a step on the wait-for-key instruction leaves
/// the program counter on that instruction and every register as it is, so
/// the next step meets the same instruction again.
pub proof fn lemma_wait_key_blocks(s: State, random: u8)
    requires
        s.wf(),
        s.can_fetch(),
        decode(s.fetch().opcode) == Operation::WaitKey,
        forall|k: int| 0 <= k < 16 ==> !s.keypad[k],
    ensures
        s.step_fault() is None,
        s.step(random).pc == s.pc,
        s.step(random).registers == s.registers,
        s.step(random).memory == s.memory,
        s.step(random).keypad == s.keypad,
{
    lemma_first_pressed_from(s.keypad, 0);
}

/// Once a key is held down, a step on the wait-for-key instruction stores the
/// lowest such key in register X and moves on to the next instruction.
pub proof fn lemma_wait_key_resumes(s: State, random: u8, key: int)
    requires
        s.wf(),
        s.can_fetch(),
        decode(s.fetch().opcode) == Operation::WaitKey,
        0 <= key < 16,
        s.keypad[key],
        forall|k: int| 0 <= k < key ==> !s.keypad[k],
    ensures
        s.step_fault() is None,
        s.step(random).pc == s.pc + 2,
        s.step(random).registers == s.registers.update(reg_x(s.fetch().opcode), key as u8),
{
    lemma_first_pressed_from(s.keypad, 0);
    let found = first_pressed(s.keypad);
    if found < key {
        assert(!s.keypad[found]);
    }
}

/// Where a sprite's pixels fall: the pixel in sprite row `i`, column `j` lies
/// `i` rows below and `j` columns to the right of the sprite's corner, counted
/// round the edges of the display, and drawing flips the display's pixel there
/// exactly when that sprite pixel is set.
pub proof fn lemma_sprite_pixel_place(
    d: Seq<Seq<bool>>,
    sprite: Seq<u8>,
    x: int,
    y: int,
    i: int,
    j: int,
)
    requires
        0 <= x < COLUMNS,
        0 <= y < ROWS,
        0 <= i < sprite.len() <= ROWS,
        0 <= j < 8,
    ensures
        0 <= wrapped(y, i, ROWS as int) < ROWS,
        0 <= wrapped(x, j, COLUMNS as int) < COLUMNS,
        sprite_covers(sprite, x, y, wrapped(y, i, ROWS as int), wrapped(x, j, COLUMNS as int))
            == sprite_bit(sprite[i], j),
        drawn(d, sprite, x, y)[wrapped(y, i, ROWS as int)][wrapped(x, j, COLUMNS as int)] == (d[wrapped(
            y,
            i,
            ROWS as int,
        )][wrapped(x, j, COLUMNS as int)] != sprite_bit(sprite[i], j)),
{
    let r = wrapped(y, i, ROWS as int);
    let c = wrapped(x, j, COLUMNS as int);
    lemma_wrapped(y, i, ROWS as int);
    lemma_wrapped(x, j, COLUMNS as int);
    lemma_offset(r, y, ROWS as int);
    lemma_offset(c, x, COLUMNS as int);
}

/// A display pixel that lies under no sprite pixel stays as it is: whatever a
/// draw flips lies at most `sprite.len() - 1` rows below and at most 7 columns
/// to the right of the sprite's corner, counted round the edges.
pub proof fn lemma_sprite_reach(sprite: Seq<u8>, x: int, y: int, r: int, c: int)
    requires
        0 <= x < COLUMNS,
        0 <= y < ROWS,
        0 <= r < ROWS,
        0 <= c < COLUMNS,
        sprite_covers(sprite, x, y, r, c),
    ensures
        0 <= offset(r, y, ROWS as int) < sprite.len(),
        0 <= offset(c, x, COLUMNS as int) < 8,
        r == wrapped(y, offset(r, y, ROWS as int), ROWS as int),
        c == wrapped(x, offset(c, x, COLUMNS as int), COLUMNS as int),
{
    lemma_offset(r, y, ROWS as int);
    lemma_offset(c, x, COLUMNS as int);
    lemma_wrapped(y, offset(r, y, ROWS as int), ROWS as int);
    lemma_wrapped(x, offset(c, x, COLUMNS as int), COLUMNS as int);
}

/// Drawing the same sprite twice from the same registers, neither of them the
/// flag register, gives back the display as it was, and the second draw sets
/// the flag exactly when some pixel under the sprite was off before the first.
pub proof fn lemma_draw_twice(s: State, x: int, y: int, n: int)
    requires
        s.wf(),
        0 <= x < 15,
        0 <= y < 15,
        0 <= n < 16,
    ensures
        s.draw(x, y, n).draw(x, y, n).display == s.display,
        s.draw(x, y, n).draw(x, y, n).reg(0xF) == 1 <==> exists|r: int, c: int|
            touches(s.sprite(n), s.reg(x) as int % 64, s.reg(y) as int % 32, r, c)
                && !s.display[r][c],
        s.draw(x, y, n).draw(x, y, n).reg(0xF) == 0 || s.draw(x, y, n).draw(x, y, n).reg(0xF) == 1,
{
    let sprite = s.sprite(n);
    let col = s.reg(x) as int % 64;
    let row = s.reg(y) as int % 32;
    let once = s.draw(x, y, n);
    assert(once.sprite(n) =~= sprite);
    assert(once.reg(x) == s.reg(x));
    assert(once.reg(y) == s.reg(y));
    lemma_draw_twice_restores(s.display, sprite, col, row);
    lemma_draw_twice_collides(s.display, sprite, col, row);
}

/// A sprite row that is not zero has a set pixel.
pub proof fn lemma_row_has_pixel(row: u8)
    requires
        row != 0,
    ensures
        exists|col: int| 0 <= col < 8 && sprite_bit(row, col),
{
    assert((row / 128) % 2 == 1 || (row / 64) % 2 == 1 || (row / 32) % 2 == 1 || (row / 16) % 2 == 1
        || (row / 8) % 2 == 1 || (row / 4) % 2 == 1 || (row / 2) % 2 == 1 || (row / 1) % 2 == 1)
        by (bit_vector)
        requires
            row != 0,
    ;
    if (row / 128) % 2 == 1 {
        assert(sprite_bit(row, 0));
    } else if (row / 64) % 2 == 1 {
        assert(sprite_bit(row, 1));
    } else if (row / 32) % 2 == 1 {
        assert(sprite_bit(row, 2));
    } else if (row / 16) % 2 == 1 {
        assert(sprite_bit(row, 3));
    } else if (row / 8) % 2 == 1 {
        assert(sprite_bit(row, 4));
    } else if (row / 4) % 2 == 1 {
        assert(sprite_bit(row, 5));
    } else if (row / 2) % 2 == 1 {
        assert(sprite_bit(row, 6));
    } else {
        assert(sprite_bit(row, 7));
    }
}

/// On a display that is dark under the sprite, drawing a sprite with at least
/// one set pixel twice from the same registers, neither of them the flag
/// register, leaves every pixel under the sprite dark again and the flag at 1.
pub proof fn lemma_draw_twice_cancels(s: State, x: int, y: int, n: int, nonzero: int)
    requires
        s.wf(),
        0 <= x < 15,
        0 <= y < 15,
        0 <= nonzero < n < 16,
        s.sprite(n)[nonzero] != 0,
        forall|r: int, c: int|
            touches(s.sprite(n), s.reg(x) as int % 64, s.reg(y) as int % 32, r, c)
                ==> !s.display[r][c],
    ensures
        s.draw(x, y, n).draw(x, y, n).reg(0xF) == 1,
        forall|r: int, c: int|
            touches(s.sprite(n), s.reg(x) as int % 64, s.reg(y) as int % 32, r, c) ==> !s.draw(
                x,
                y,
                n,
            ).draw(x, y, n).display[r][c],
{
    let sprite = s.sprite(n);
    let left = s.reg(x) as int % 64;
    let top = s.reg(y) as int % 32;
    lemma_draw_twice(s, x, y, n);
    lemma_row_has_pixel(sprite[nonzero]);
    let col = choose|col: int| 0 <= col < 8 && sprite_bit(sprite[nonzero], col);
    let r = wrapped(top, nonzero, ROWS as int);
    let c = wrapped(left, col, COLUMNS as int);
    lemma_sprite_pixel_place(s.display, sprite, left, top, nonzero, col);
    assert(touches(sprite, left, top, r, c));
    assert(!s.display[r][c]);
    assert(exists|r: int, c: int| touches(sprite, left, top, r, c) && !s.display[r][c]);
}

} // verus!
