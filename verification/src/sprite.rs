use vstd::prelude::*;

verus! {

/// Number of pixel rows of the display.
pub const ROWS: usize = 32;

/// Number of pixel columns of the display.
pub const COLUMNS: usize = 64;

/// A display is a grid of `ROWS` rows of `COLUMNS` pixels each.
pub open spec fn is_display(d: Seq<Seq<bool>>) -> bool {
    &&& d.len() == ROWS
    &&& forall|r: int| 0 <= r < ROWS ==> (#[trigger] d[r]).len() == COLUMNS
}

/// The display with every pixel off.
pub open spec fn blank_display() -> Seq<Seq<bool>> {
    Seq::new(ROWS as nat, |r: int| Seq::new(COLUMNS as nat, |c: int| false))
}

/// The value of the bit that stands `col` places to the right of a byte's
/// leftmost bit.
pub open spec fn bit_weight(col: int) -> int {
    if col == 0 {
        128
    } else if col == 1 {
        64
    } else if col == 2 {
        32
    } else if col == 3 {
        16
    } else if col == 4 {
        8
    } else if col == 5 {
        4
    } else if col == 6 {
        2
    } else {
        1
    }
}

/// Whether a sprite row has its pixel `col` set, the leftmost pixel being the
/// most significant bit.
pub open spec fn sprite_bit(row: u8, col: int) -> bool {
    (row as int / bit_weight(col)) % 2 == 1
}

/// How far `pos` lies past `start` on a line of `size` places whose end joins
/// its beginning.
pub open spec fn offset(pos: int, start: int, size: int) -> int {
    (pos - start) % size
}

/// The place reached from `start` after `steps` steps on such a line.
pub open spec fn wrapped(start: int, steps: int, size: int) -> int {
    (start + steps) % size
}

/// Whether a sprite whose top-left corner is at column `x`, row `y` has a set
/// pixel on the display's pixel at row `r`, column `c`. The sprite is eight
/// pixels wide and as tall as it has rows; what passes an edge of the display
/// comes back in at the opposite edge.
pub open spec fn sprite_covers(sprite: Seq<u8>, x: int, y: int, r: int, c: int) -> bool {
    let dr = offset(r, y, ROWS as int);
    let dc = offset(c, x, COLUMNS as int);
    dr < sprite.len() && dc < 8 && sprite_bit(sprite[dr], dc)
}

/// The display after a sprite is drawn on it: each pixel under a set sprite
/// pixel is flipped, every other pixel stays.
pub open spec fn drawn(d: Seq<Seq<bool>>, sprite: Seq<u8>, x: int, y: int) -> Seq<Seq<bool>> {
    Seq::new(
        ROWS as nat,
        |r: int| Seq::new(COLUMNS as nat, |c: int| d[r][c] != sprite_covers(sprite, x, y, r, c)),
    )
}

/// Whether the pixel at row `r`, column `c` is lit and under a set sprite pixel.
pub open spec fn hits(d: Seq<Seq<bool>>, sprite: Seq<u8>, x: int, y: int, r: int, c: int) -> bool {
    0 <= r < ROWS && 0 <= c < COLUMNS && d[r][c] && sprite_covers(sprite, x, y, r, c)
}

/// Whether drawing the sprite turns off at least one pixel that was lit.
pub open spec fn collides(d: Seq<Seq<bool>>, sprite: Seq<u8>, x: int, y: int) -> bool {
    exists|r: int, c: int| hits(d, sprite, x, y, r, c)
}

/// Whether the pixel at row `r`, column `c` is under a set sprite pixel.
pub open spec fn touches(sprite: Seq<u8>, x: int, y: int, r: int, c: int) -> bool {
    0 <= r < ROWS && 0 <= c < COLUMNS && sprite_covers(sprite, x, y, r, c)
}

/// Drawing the same sprite twice at the same place gives back the display as
/// it was: each pixel under the sprite is flipped twice.
pub proof fn lemma_draw_twice_restores(d: Seq<Seq<bool>>, sprite: Seq<u8>, x: int, y: int)
    requires
        is_display(d),
    ensures
        drawn(drawn(d, sprite, x, y), sprite, x, y) == d,
{
    let once = drawn(d, sprite, x, y);
    let twice = drawn(once, sprite, x, y);
    assert forall|r: int| 0 <= r < ROWS implies #[trigger] twice[r] == d[r] by {
        assert(d[r].len() == COLUMNS);
        assert forall|c: int| 0 <= c < COLUMNS implies #[trigger] twice[r][c] == d[r][c] by {
            assert(once[r][c] == (d[r][c] != sprite_covers(sprite, x, y, r, c)));
        }
        assert(twice[r] =~= d[r]);
    }
    assert(twice =~= d);
}

/// The second of two equal draws reports a collision exactly when the first
/// one lit a pixel, that is when some pixel under the sprite was off before.
pub proof fn lemma_draw_twice_collides(d: Seq<Seq<bool>>, sprite: Seq<u8>, x: int, y: int)
    requires
        is_display(d),
    ensures
        collides(drawn(d, sprite, x, y), sprite, x, y) <==> exists|r: int, c: int|
            touches(sprite, x, y, r, c) && !d[r][c],
{
    let once = drawn(d, sprite, x, y);
    if collides(once, sprite, x, y) {
        let (r, c) = choose|r: int, c: int| hits(once, sprite, x, y, r, c);
        assert(touches(sprite, x, y, r, c) && !d[r][c]);
    }
    if exists|r: int, c: int| touches(sprite, x, y, r, c) && !d[r][c] {
        let (r, c) = choose|r: int, c: int| touches(sprite, x, y, r, c) && !d[r][c];
        assert(hits(once, sprite, x, y, r, c));
    }
}

/// Whether the sprite pixel in sprite row `dr`, sprite column `dc` comes before
/// the one in row `row`, column `col`, when the sprite is walked row by row, each
/// row from the left.
pub(crate) open spec fn before(dr: int, dc: int, row: int, col: int) -> bool {
    dr < row || (dr == row && dc < col)
}

/// As `sprite_covers`, of the part of the sprite that comes before its row
/// `row`, column `col`.
pub(crate) open spec fn partly_covers(
    sprite: Seq<u8>,
    x: int,
    y: int,
    r: int,
    c: int,
    row: int,
    col: int,
) -> bool {
    sprite_covers(sprite, x, y, r, c) && before(
        offset(r, y, ROWS as int),
        offset(c, x, COLUMNS as int),
        row,
        col,
    )
}

/// As `hits`, of the part of the sprite that comes before its row `row`,
/// column `col`.
pub(crate) open spec fn partly_hits(
    d: Seq<Seq<bool>>,
    sprite: Seq<u8>,
    x: int,
    y: int,
    r: int,
    c: int,
    row: int,
    col: int,
) -> bool {
    0 <= r < ROWS && 0 <= c < COLUMNS && d[r][c] && partly_covers(sprite, x, y, r, c, row, col)
}

/// As `collides`, of the part of the sprite that comes before its row `row`,
/// column `col`.
pub(crate) open spec fn partly_collides(
    d: Seq<Seq<bool>>,
    sprite: Seq<u8>,
    x: int,
    y: int,
    row: int,
    col: int,
) -> bool {
    exists|r: int, c: int| partly_hits(d, sprite, x, y, r, c, row, col)
}

/// Nothing of the sprite comes before its first pixel.
pub(crate) proof fn lemma_partly_start(d: Seq<Seq<bool>>, sprite: Seq<u8>, x: int, y: int)
    ensures
        !partly_collides(d, sprite, x, y, 0, 0),
        forall|r: int, c: int| !partly_covers(sprite, x, y, r, c, 0, 0),
{
}

/// The end of one sprite row is the start of the next.
pub(crate) proof fn lemma_partly_next_row(d: Seq<Seq<bool>>, sprite: Seq<u8>, x: int, y: int, row: int)
    ensures
        partly_collides(d, sprite, x, y, row, 8) == partly_collides(d, sprite, x, y, row + 1, 0),
        forall|r: int, c: int|
            partly_covers(sprite, x, y, r, c, row, 8) == partly_covers(
                sprite,
                x,
                y,
                r,
                c,
                row + 1,
                0,
            ),
{
    assert forall|r: int, c: int|
        partly_covers(sprite, x, y, r, c, row, 8) == partly_covers(
            sprite,
            x,
            y,
            r,
            c,
            row + 1,
            0,
        ) by {}
    let next = row + 1;
    if partly_collides(d, sprite, x, y, row, 8) {
        let (r, c) = choose|r: int, c: int| partly_hits(d, sprite, x, y, r, c, row, 8);
        assert(partly_hits(d, sprite, x, y, r, c, next, 0));
    }
    if partly_collides(d, sprite, x, y, next, 0) {
        let (r, c) = choose|r: int, c: int| partly_hits(d, sprite, x, y, r, c, next, 0);
        assert(partly_hits(d, sprite, x, y, r, c, row, 8));
    }
}

/// Past its last row the whole sprite has been walked.
pub(crate) proof fn lemma_partly_end(d: Seq<Seq<bool>>, sprite: Seq<u8>, x: int, y: int)
    ensures
        partly_collides(d, sprite, x, y, sprite.len() as int, 0) == collides(d, sprite, x, y),
        forall|r: int, c: int|
            partly_covers(sprite, x, y, r, c, sprite.len() as int, 0) == sprite_covers(
                sprite,
                x,
                y,
                r,
                c,
            ),
{
    let n = sprite.len() as int;
    if partly_collides(d, sprite, x, y, n, 0) {
        let (r, c) = choose|r: int, c: int| partly_hits(d, sprite, x, y, r, c, n, 0);
        assert(hits(d, sprite, x, y, r, c));
    }
    if collides(d, sprite, x, y) {
        let (r, c) = choose|r: int, c: int| hits(d, sprite, x, y, r, c);
        assert(partly_hits(d, sprite, x, y, r, c, n, 0));
    }
}

/// `offset` without division.
pub(crate) proof fn lemma_offset(pos: int, start: int, size: int)
    requires
        0 <= pos < size,
        0 <= start < size,
    ensures
        offset(pos, start, size) == if pos >= start {
            pos - start
        } else {
            pos - start + size
        },
{
    if pos >= start {
        vstd::arithmetic::div_mod::lemma_small_mod((pos - start) as nat, size as nat);
    } else {
        vstd::arithmetic::div_mod::lemma_small_mod((pos - start + size) as nat, size as nat);
        vstd::arithmetic::div_mod::lemma_mod_add_multiples_vanish(pos - start, size);
    }
}

/// `wrapped` without division.
pub(crate) proof fn lemma_wrapped(start: int, steps: int, size: int)
    requires
        0 <= start < size,
        0 <= steps < size,
    ensures
        wrapped(start, steps, size) == if start + steps < size {
            start + steps
        } else {
            start + steps - size
        },
{
    if start + steps < size {
        vstd::arithmetic::div_mod::lemma_small_mod((start + steps) as nat, size as nat);
    } else {
        vstd::arithmetic::div_mod::lemma_small_mod((start + steps - size) as nat, size as nat);
        vstd::arithmetic::div_mod::lemma_mod_add_multiples_vanish(start + steps - size, size);
    }
}

/// One more sprite pixel: the part walked grows by the display pixel under
/// it, where that sprite pixel is set, and by nothing else.
pub(crate) proof fn lemma_partly_step(
    d: Seq<Seq<bool>>,
    sprite: Seq<u8>,
    x: int,
    y: int,
    row: int,
    col: int,
)
    requires
        0 <= x < COLUMNS,
        0 <= y < ROWS,
        0 <= row < sprite.len() <= ROWS,
        0 <= col < 8,
    ensures
        forall|r: int, c: int|
            0 <= r < ROWS && 0 <= c < COLUMNS ==> #[trigger] partly_covers(
                sprite,
                x,
                y,
                r,
                c,
                row,
                col + 1,
            ) == (partly_covers(sprite, x, y, r, c, row, col) || (r == wrapped(y, row, ROWS as int)
                && c == wrapped(x, col, COLUMNS as int) && sprite_bit(sprite[row], col))),
        !partly_covers(
            sprite,
            x,
            y,
            wrapped(y, row, ROWS as int),
            wrapped(x, col, COLUMNS as int),
            row,
            col,
        ),
        0 <= wrapped(y, row, ROWS as int) < ROWS,
        0 <= wrapped(x, col, COLUMNS as int) < COLUMNS,
        partly_collides(d, sprite, x, y, row, col + 1) == (partly_collides(d, sprite, x, y, row, col)
            || (sprite_bit(sprite[row], col) && d[wrapped(y, row, ROWS as int)][wrapped(
            x,
            col,
            COLUMNS as int,
        )])),
{
    let pr = wrapped(y, row, ROWS as int);
    let pc = wrapped(x, col, COLUMNS as int);
    let next = col + 1;
    lemma_wrapped(y, row, ROWS as int);
    lemma_wrapped(x, col, COLUMNS as int);
    assert forall|r: int, c: int| 0 <= r < ROWS && 0 <= c < COLUMNS implies #[trigger] partly_covers(
        sprite,
        x,
        y,
        r,
        c,
        row,
        next,
    ) == (partly_covers(sprite, x, y, r, c, row, col) || (r == pr && c == pc && sprite_bit(
        sprite[row],
        col,
    ))) by {
        lemma_offset(r, y, ROWS as int);
        lemma_offset(c, x, COLUMNS as int);
    }
    lemma_offset(pr, y, ROWS as int);
    lemma_offset(pc, x, COLUMNS as int);
    if partly_collides(d, sprite, x, y, row, next) {
        let (r, c) = choose|r: int, c: int| partly_hits(d, sprite, x, y, r, c, row, next);
        if !(r == pr && c == pc) {
            assert(partly_hits(d, sprite, x, y, r, c, row, col));
        }
    }
    if partly_collides(d, sprite, x, y, row, col) {
        let (r, c) = choose|r: int, c: int| partly_hits(d, sprite, x, y, r, c, row, col);
        assert(partly_covers(sprite, x, y, r, c, row, next));
        assert(partly_hits(d, sprite, x, y, r, c, row, next));
    }
    if sprite_bit(sprite[row], col) && d[pr][pc] {
        assert(partly_covers(sprite, x, y, pr, pc, row, next));
        assert(partly_hits(d, sprite, x, y, pr, pc, row, next));
    }
}

} // verus!
