//! The display: a 64 by 32 grid of pixels packed eight to a byte into 256
//! bytes of the machine's memory, row after row, the leftmost pixel of each
//! byte in its top bit.
//!
//! A sprite is drawn by flipping, row by row, the pixels under its set bits.
//! The screen is shown in character cells that each hold two pixels, one above
//! the other, so a cell's glyph depends on a pair of display rows.

use crate::bits::{bit_at, bit_of, lemma_set_bit_at, read_bit, set_bit_at, write_bit};
use vstd::prelude::*;

verus! {

/// Pixels per display row.
pub const WIDTH: u8 = 64;

/// Display rows.
pub const HEIGHT: u8 = 32;

/// Address of the first display byte.
pub const FRAME_START: u16 = 0x050;

/// Address just past the last display byte.
pub const FRAME_END: u16 = 0x150;

/// Bytes in the address space.
pub const MEMORY_SIZE: usize = 0x1000;

/// Whether `(col, row)` names a pixel of the display.
pub open spec fn in_grid(col: int, row: int) -> bool {
    0 <= col < WIDTH && 0 <= row < HEIGHT
}

/// The position, as a bit of memory, of the pixel at `(col, row)`.
pub open spec fn pixel_bit(col: int, row: int) -> int {
    8 * FRAME_START + WIDTH * row + col
}

/// Whether the pixel at `(col, row)` is on.
pub open spec fn pixel(memory: Seq<u8>, col: int, row: int) -> bool {
    bit_at(memory, pixel_bit(col, row))
}

/// Whether some pixel that is on in `before` is off in `after`.
pub open spec fn erased(before: Seq<u8>, after: Seq<u8>) -> bool {
    exists|col: int, row: int|
        in_grid(col, row) && #[trigger] pixel(before, col, row) && !pixel(after, col, row)
}

/// Memory after the first `k` pixels of one sprite row were drawn: the pixel
/// at `(x + j, row)` is flipped where bit `j` of `sprite` is set, for `j < k`.
pub open spec fn row_drawn(memory: Seq<u8>, sprite: u8, x: int, row: int, k: int) -> Seq<u8>
    decreases k,
{
    if k <= 0 {
        memory
    } else {
        let m = row_drawn(memory, sprite, x, row, k - 1);
        let p = pixel_bit(x + k - 1, row);
        set_bit_at(m, p, bit_at(m, p) ^ bit_of(sprite, k - 1))
    }
}

/// Memory after the first `rows` rows of a sprite were drawn with its corner
/// at `(x, y)`. Row `j` of the sprite is the byte found at `i + j` when that
/// row's turn comes, and only its first `cols` pixels are drawn.
pub open spec fn sprite_drawn(memory: Seq<u8>, i: int, x: int, y: int, cols: int, rows: int) -> Seq<
    u8,
>
    decreases rows,
{
    if rows <= 0 {
        memory
    } else {
        let m = sprite_drawn(memory, i, x, y, cols, rows - 1);
        row_drawn(m, m[i + rows - 1], x, y + rows - 1, cols)
    }
}

/// The byte that serves as row `j` of the sprite: what lies at `i + j` once
/// the rows before it are drawn.
pub open spec fn sprite_row(memory: Seq<u8>, i: int, x: int, y: int, cols: int, j: int) -> u8 {
    sprite_drawn(memory, i, x, y, cols, j)[i + j]
}

/// Whether a sprite of `rows` rows at `i`, drawn with its corner at `(x, y)`
/// and clipped to `cols` columns, has a set bit over the pixel `(col, row)`.
pub open spec fn sprite_covers(
    memory: Seq<u8>,
    i: int,
    x: int,
    y: int,
    cols: int,
    rows: int,
    col: int,
    row: int,
) -> bool {
    y <= row < y + rows && x <= col < x + cols && bit_of(memory[i + row - y], col - x)
}

/// How many pixel columns of a sprite fit on the display from column `x` on.
pub open spec fn clipped_cols(x: int) -> int {
    if WIDTH - x < 8 {
        WIDTH - x
    } else {
        8
    }
}

/// How many of a sprite's `n` rows fit on the display from row `y` on.
pub open spec fn clipped_rows(y: int, n: int) -> int {
    if HEIGHT - y < n {
        HEIGHT - y
    } else {
        n
    }
}

/// Memory with every display byte zero and every other byte as it was.
pub open spec fn frame_cleared(memory: Seq<u8>) -> Seq<u8> {
    Seq::new(
        MEMORY_SIZE as nat,
        |a: int|
            if FRAME_START <= a < FRAME_END {
                0u8
            } else {
                memory[a]
            },
    )
}

/// One run of glyphs for the screen: it starts at the character cell in
/// column `column` of line `line`, both counted from 1, and `glyphs[k]` says
/// what the cell `k` places to the right shows.
pub struct SpanView {
    pub column: u16,
    pub line: u16,
    pub glyphs: Seq<u8>,
}

/// The glyph of a cell whose upper pixel is `top` and lower pixel `bottom`:
/// 0 blank, 1 lower half, 2 upper half, 3 full.
pub open spec fn glyph_index(top: bool, bottom: bool) -> u8 {
    if top {
        if bottom {
            3
        } else {
            2
        }
    } else {
        if bottom {
            1
        } else {
            0
        }
    }
}

/// The glyph of the cell in pixel column `col` of the text line that shows
/// the display rows `2 * pair` and `2 * pair + 1`.
pub open spec fn cell_glyph(memory: Seq<u8>, col: int, pair: int) -> u8 {
    glyph_index(pixel(memory, col, 2 * pair), pixel(memory, col, 2 * pair + 1))
}

/// The span that shows the cells holding the pixels `(x, row)` to
/// `(x + cols - 1, row)`.
pub open spec fn span_for(memory: Seq<u8>, x: int, row: int, cols: int) -> SpanView {
    SpanView {
        column: (x + 1) as u16,
        line: (row / 2 + 1) as u16,
        glyphs: Seq::new(cols as nat, |k: int| cell_glyph(memory, x + k, row / 2)),
    }
}

/// One span for each of the `rows` display rows from `y` down, each `cols`
/// cells wide from column `x` on.
pub open spec fn spans_for(memory: Seq<u8>, x: int, y: int, cols: int, rows: int) -> Seq<SpanView> {
    Seq::new(rows as nat, |j: int| span_for(memory, x, y + j, cols))
}

/// The views of a run of spans.
pub open spec fn span_views(spans: Seq<Span>) -> Seq<SpanView> {
    spans.map_values(|s: Span| s@)
}

/// One run of glyphs for the screen: see [`SpanView`].
#[derive(Debug, PartialEq, Eq)]
pub struct Span {
    /// Column of the first cell, counted from 1.
    pub column: u16,
    /// Text line of the cells, counted from 1.
    pub line: u16,
    /// The glyph of each cell, left to right: 0 blank, 1 lower half, 2 upper
    /// half, 3 full.
    pub glyphs: Vec<u8>,
}

impl View for Span {
    type V = SpanView;

    open spec fn view(&self) -> SpanView {
        SpanView { column: self.column, line: self.line, glyphs: self.glyphs@ }
    }
}

/// After one bit of memory was forced, the pixel stored in that bit has the
/// forced value and every other pixel is as before.
pub proof fn lemma_pixel_after_set(
    memory: Seq<u8>,
    c0: int,
    r0: int,
    value: bool,
    col: int,
    row: int,
)
    requires
        memory.len() == 4096,
        in_grid(c0, r0),
        in_grid(col, row),
    ensures
        pixel(set_bit_at(memory, pixel_bit(c0, r0), value), col, row) == if col == c0 && row == r0 {
            value
        } else {
            pixel(memory, col, row)
        },
{
    lemma_set_bit_at(memory, pixel_bit(c0, r0), value, pixel_bit(col, row));
}

/// Drawing part of a sprite row flips the pixels under the set bits drawn so
/// far and touches nothing else: no other pixel, and no byte outside the
/// eight that hold the display row.
pub proof fn lemma_row_drawn(memory: Seq<u8>, sprite: u8, x: int, row: int, k: int)
    requires
        memory.len() == 4096,
        0 <= x,
        0 <= k <= 8,
        x + k <= 64,
        0 <= row < 32,
    ensures
        row_drawn(memory, sprite, x, row, k).len() == 4096,
        forall|a: int|
            0 <= a < 4096 && !(0x50 + 8 * row <= a < 0x58 + 8 * row) ==> #[trigger] row_drawn(
                memory,
                sprite,
                x,
                row,
                k,
            )[a] == memory[a],
        forall|c: int, r: int|
            in_grid(c, r) ==> #[trigger] pixel(row_drawn(memory, sprite, x, row, k), c, r) == (if r
                == row && x <= c < x + k {
                pixel(memory, c, r) ^ bit_of(sprite, c - x)
            } else {
                pixel(memory, c, r)
            }),
    decreases k,
{
    if k > 0 {
        lemma_row_drawn(memory, sprite, x, row, k - 1);
        let m = row_drawn(memory, sprite, x, row, k - 1);
        let c0 = x + k - 1;
        let p = pixel_bit(c0, row);
        let value = bit_at(m, p) ^ bit_of(sprite, k - 1);
        let after = row_drawn(memory, sprite, x, row, k);
        assert(after == set_bit_at(m, p, value));
        assert(p / 8 == 0x50 + 8 * row + c0 / 8);
        assert forall|c: int, r: int| in_grid(c, r) implies #[trigger] pixel(after, c, r) == (if r
            == row && x <= c < x + k {
            pixel(memory, c, r) ^ bit_of(sprite, c - x)
        } else {
            pixel(memory, c, r)
        }) by {
            lemma_pixel_after_set(m, c0, row, value, c, r);
            assert(pixel(m, c0, row) == pixel(memory, c0, row));
            assert(pixel(m, c, r) == (if r == row && x <= c < x + k - 1 {
                pixel(memory, c, r) ^ bit_of(sprite, c - x)
            } else {
                pixel(memory, c, r)
            }));
        }
    }
}

/// Drawing the first `rows` rows of a sprite flips the pixels under the set
/// bits of each row's byte and touches nothing else: no other pixel, and no
/// byte outside the display rows drawn on.
pub proof fn lemma_sprite_drawn(memory: Seq<u8>, i: int, x: int, y: int, cols: int, rows: int)
    requires
        memory.len() == 4096,
        0 <= x,
        0 <= cols <= 8,
        x + cols <= 64,
        0 <= y,
        0 <= rows,
        y + rows <= 32,
    ensures
        sprite_drawn(memory, i, x, y, cols, rows).len() == 4096,
        forall|a: int|
            0 <= a < 4096 && !(0x50 + 8 * y <= a < 0x50 + 8 * (y + rows))
                ==> #[trigger] sprite_drawn(memory, i, x, y, cols, rows)[a] == memory[a],
        forall|c: int, r: int|
            in_grid(c, r) ==> #[trigger] pixel(sprite_drawn(memory, i, x, y, cols, rows), c, r)
                == (if y <= r < y + rows && x <= c < x + cols {
                pixel(memory, c, r) ^ bit_of(sprite_row(memory, i, x, y, cols, r - y), c - x)
            } else {
                pixel(memory, c, r)
            }),
    decreases rows,
{
    if rows > 0 {
        lemma_sprite_drawn(memory, i, x, y, cols, rows - 1);
        let m = sprite_drawn(memory, i, x, y, cols, rows - 1);
        let sprite = m[i + rows - 1];
        let row = y + rows - 1;
        lemma_row_drawn(m, sprite, x, row, cols);
        let after = sprite_drawn(memory, i, x, y, cols, rows);
        assert(after == row_drawn(m, sprite, x, row, cols));
        assert forall|a: int|
            0 <= a < 4096 && !(0x50 + 8 * y <= a < 0x50 + 8 * (y + rows)) implies #[trigger] after[a]
            == memory[a] by {
            assert(after[a] == m[a]);
        }
        assert forall|c: int, r: int| in_grid(c, r) implies #[trigger] pixel(after, c, r) == (if y
            <= r < y + rows && x <= c < x + cols {
            pixel(memory, c, r) ^ bit_of(sprite_row(memory, i, x, y, cols, r - y), c - x)
        } else {
            pixel(memory, c, r)
        }) by {
            assert(pixel(after, c, r) == (if r == row && x <= c < x + cols {
                pixel(m, c, r) ^ bit_of(sprite, c - x)
            } else {
                pixel(m, c, r)
            }));
        }
    }
}

/// While a sprite's bytes lie outside the display, drawing does not change
/// them: each row is the byte that was at `i + j` to begin with.
pub proof fn lemma_sprite_row_fixed(
    memory: Seq<u8>,
    i: int,
    x: int,
    y: int,
    cols: int,
    rows: int,
    j: int,
)
    requires
        memory.len() == 4096,
        0 <= x,
        0 <= cols <= 8,
        x + cols <= 64,
        0 <= y,
        0 <= rows,
        y + rows <= 32,
        0 <= i,
        i + rows <= 4096,
        i + rows <= 0x50 || 0x150 <= i,
        0 <= j < rows,
    ensures
        sprite_row(memory, i, x, y, cols, j) == memory[i + j],
{
    lemma_sprite_drawn(memory, i, x, y, cols, j);
}

/// How forcing one pixel changes whether anything was erased: if that pixel
/// still had its first value, something is erased afterwards exactly if
/// something was before, or this pixel was on and is forced off.
pub proof fn lemma_erased_step(first: Seq<u8>, now: Seq<u8>, c0: int, r0: int, value: bool)
    requires
        first.len() == 4096,
        now.len() == 4096,
        in_grid(c0, r0),
        pixel(now, c0, r0) == pixel(first, c0, r0),
    ensures
        erased(first, set_bit_at(now, pixel_bit(c0, r0), value)) == (erased(first, now) || (pixel(
            first,
            c0,
            r0,
        ) && !value)),
{
    let then = set_bit_at(now, pixel_bit(c0, r0), value);
    assert forall|c: int, r: int| in_grid(c, r) implies #[trigger] pixel(then, c, r) == if c == c0
        && r == r0 {
        value
    } else {
        pixel(now, c, r)
    } by {
        lemma_pixel_after_set(now, c0, r0, value, c, r);
    }
    if erased(first, now) {
        let (c, r) = choose|c: int, r: int|
            in_grid(c, r) && #[trigger] pixel(first, c, r) && !pixel(now, c, r);
        assert(in_grid(c, r) && pixel(first, c, r) && !pixel(then, c, r));
    }
    if pixel(first, c0, r0) && !value {
        assert(in_grid(c0, r0) && pixel(first, c0, r0) && !pixel(then, c0, r0));
    }
    if erased(first, then) {
        let (c, r) = choose|c: int, r: int|
            in_grid(c, r) && #[trigger] pixel(first, c, r) && !pixel(then, c, r);
        if !(c == c0 && r == r0) {
            assert(in_grid(c, r) && pixel(first, c, r) && !pixel(now, c, r));
        }
    }
}

/// The position, as a bit of memory, of the pixel at `(col, row)`.
pub fn position(col: u8, row: u8) -> (pos: usize)
    requires
        col < WIDTH,
        row < HEIGHT,
    ensures
        pos == pixel_bit(col as int, row as int),
        pos < 8 * FRAME_END,
{
    let start: usize = 8 * FRAME_START as usize;
    let stride: usize = WIDTH as usize;
    assert(stride * row <= 64 * 31) by (nonlinear_arith)
        requires
            stride == 64,
            row <= 31,
    ;
    start + stride * row as usize + col as usize
}

/// Reads the pixel at `(col, row)`.
pub fn pixel_at(memory: &[u8; MEMORY_SIZE], col: u8, row: u8) -> (on: bool)
    requires
        col < 64,
        row < 32,
    ensures
        on == pixel(memory@, col as int, row as int),
{
    match read_bit(memory, position(col, row)) {
        Some(on) => on,
        None => false,
    }
}

/// Turns the pixel at `(col, row)` on or off, and leaves every other pixel
/// and every byte outside the display as it was.
pub fn set_pixel(memory: &mut [u8; MEMORY_SIZE], col: u8, row: u8, on: bool)
    requires
        col < 64,
        row < 32,
    ensures
        final(memory)@ == set_bit_at(old(memory)@, pixel_bit(col as int, row as int), on),
        forall|c: int, r: int|
            in_grid(c, r) ==> #[trigger] pixel(final(memory)@, c, r) == if c == col && r == row {
                on
            } else {
                pixel(old(memory)@, c, r)
            },
        forall|a: int|
            0 <= a < 4096 && !(0x50 <= a < 0x150) ==> #[trigger] final(memory)@[a] == old(
                memory,
            )@[a],
{
    let pos = position(col, row);
    proof {
        assert forall|c: int, r: int| in_grid(c, r) implies #[trigger] pixel(
            set_bit_at(memory@, pos as int, on),
            c,
            r,
        ) == if c == col && r == row {
            on
        } else {
            pixel(memory@, c, r)
        } by {
            lemma_pixel_after_set(memory@, col as int, row as int, on, c, r);
        }
    }
    write_bit(memory, pos, on);
}

/// The glyph of a cell from its two pixels.
pub fn glyph_of(top: bool, bottom: bool) -> (glyph: u8)
    ensures
        glyph == glyph_index(top, bottom),
{
    if top {
        if bottom {
            3
        } else {
            2
        }
    } else {
        if bottom {
            1
        } else {
            0
        }
    }
}

/// Turns every pixel off.
pub fn clear_frame(memory: &mut [u8; MEMORY_SIZE])
    ensures
        final(memory)@ == frame_cleared(old(memory)@),
{
    let ghost first = memory@;
    let mut a: usize = FRAME_START as usize;
    while a < FRAME_END as usize
        invariant
            0x50 <= a <= 0x150,
            forall|b: int| 0x50 <= b < a ==> memory@[b] == 0,
            forall|b: int| 0 <= b < 4096 && !(0x50 <= b < a) ==> memory@[b] == first[b],
        decreases 0x150 - a,
    {
        memory[a] = 0;
        a += 1;
    }
    assert(memory@ =~= frame_cleared(first));
}

/// Draws the `n`-row sprite at address `i` with its corner at `(x, y)`, cut
/// at the right and bottom edges of the display, and says whether a pixel
/// that was on went off.
pub fn draw_sprite(memory: &mut [u8; MEMORY_SIZE], i: u16, x: u8, y: u8, n: u8) -> (hit: bool)
    requires
        x < 64,
        y < 32,
        i + clipped_rows(y as int, n as int) <= 4096,
    ensures
        final(memory)@ == sprite_drawn(
            old(memory)@,
            i as int,
            x as int,
            y as int,
            clipped_cols(x as int),
            clipped_rows(y as int, n as int),
        ),
        hit == erased(old(memory)@, final(memory)@),
{
    let cols: u8 = if WIDTH - x < 8 {
        WIDTH - x
    } else {
        8
    };
    let rows: u8 = if HEIGHT - y < n {
        HEIGHT - y
    } else {
        n
    };
    let ghost first = memory@;
    let mut hit = false;
    let mut row: u8 = 0;
    assert(!erased(first, first));
    while row < rows
        invariant
            x < 64,
            y < 32,
            cols == clipped_cols(x as int),
            rows == clipped_rows(y as int, n as int),
            i + rows <= 4096,
            row <= rows,
            first.len() == 4096,
            memory@ == sprite_drawn(first, i as int, x as int, y as int, cols as int, row as int),
            hit == erased(first, memory@),
        decreases rows - row,
    {
        let sprite: u8 = memory[(i + row as u16) as usize];
        let ghost start = memory@;
        let mut bit: u8 = 0;
        proof {
            lemma_sprite_drawn(first, i as int, x as int, y as int, cols as int, row as int);
        }
        while bit < cols
            invariant
                x < 64,
                y < 32,
                cols == clipped_cols(x as int),
                row < rows,
                y + rows <= 32,
                bit <= cols,
                first.len() == 4096,
                start.len() == 4096,
                forall|c: int, r: int|
                    in_grid(c, r) && r == y + row ==> #[trigger] pixel(start, c, r) == pixel(
                        first,
                        c,
                        r,
                    ),
                memory@ == row_drawn(start, sprite, x as int, y + row, bit as int),
                hit == erased(first, memory@),
            decreases cols - bit,
        {
            proof {
                lemma_row_drawn(start, sprite, x as int, y + row, bit as int);
                assert(pixel(memory@, x + bit, y + row) == pixel(first, x + bit, y + row));
            }
            let was: bool = pixel_at(memory, x + bit, y + row);
            let lit: bool = sprite & (0x80u8 >> bit) != 0;
            let now: bool = was ^ lit;
            proof {
                lemma_erased_step(first, memory@, x + bit, y + row, now);
            }
            set_pixel(memory, x + bit, y + row, now);
            if was && !now {
                hit = true;
            }
            bit += 1;
        }
        row += 1;
    }
    hit
}

/// The spans that show the display rows `y` to `y + rows - 1` from pixel
/// column `x` on, `cols` cells wide: one span for each row.
pub fn render_spans(memory: &[u8; MEMORY_SIZE], x: u8, y: u8, cols: u8, rows: u8) -> (spans: Vec<Span>)
    requires
        x + cols <= 64,
        y + rows <= 32,
    ensures
        span_views(spans@) == spans_for(
            memory@,
            x as int,
            y as int,
            cols as int,
            rows as int,
        ),
{
    let mut spans: Vec<Span> = Vec::new();
    let mut j: u8 = 0;
    while j < rows
        invariant
            x + cols <= 64,
            y + rows <= 32,
            j <= rows,
            spans@.len() == j,
            forall|k: int|
                0 <= k < j ==> (#[trigger] spans@[k])@ == span_for(
                    memory@,
                    x as int,
                    y + k,
                    cols as int,
                ),
        decreases rows - j,
    {
        let pair: u8 = (y + j) / 2;
        let mut glyphs: Vec<u8> = Vec::new();
        let mut k: u8 = 0;
        while k < cols
            invariant
                x + cols <= 64,
                pair < 16,
                k <= cols,
                glyphs@.len() == k,
                forall|c: int|
                    0 <= c < k ==> #[trigger] glyphs@[c] == cell_glyph(memory@, x + c, pair as int),
            decreases cols - k,
        {
            let top = pixel_at(memory, x + k, 2 * pair);
            let bottom = pixel_at(memory, x + k, 2 * pair + 1);
            glyphs.push(glyph_of(top, bottom));
            k += 1;
        }
        let span = Span { column: x as u16 + 1, line: pair as u16 + 1, glyphs };
        assert(span@.glyphs =~= span_for(memory@, x as int, y + j, cols as int).glyphs);
        spans.push(span);
        j += 1;
    }
    assert(span_views(spans@) =~= spans_for(
        memory@,
        x as int,
        y as int,
        cols as int,
        rows as int,
    ));
    spans
}

} // verus!
