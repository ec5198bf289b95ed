//! What holds of the machine whatever its state: each law is stated over the
//! mathematical state and proved from the definitions of the operations.

use crate::decode::Op;
use crate::display::{
    cell_glyph, erased, frame_cleared, in_grid, lemma_sprite_drawn, lemma_sprite_row_fixed, pixel,
    sprite_covers,
};
use crate::effect::EffectView;
use crate::fault::Fault;
use crate::state::State;
use vstd::prelude::*;

verus! {

/// Whether the machine in state `s` stands at the instruction whose bytes
/// are `hi` and `lo`.
pub open spec fn stands_at(s: State, hi: int, lo: int) -> bool {
    &&& s.wf()
    &&& s.fetchable()
    &&& s.memory[s.pc as int] == hi
    &&& s.memory[s.pc + 1] == lo
}

/// A draw that succeeds leaves a well-formed state.
pub proof fn lemma_draw_keeps_shape(s: State, x: u8, y: u8, n: u8)
    requires
        s.wf(),
        x < 16,
        y < 16,
    ensures
        s.drawn(x, y, n) matches Ok(t) ==> t.wf(),
{
    lemma_sprite_drawn(
        s.memory,
        s.i as int,
        s.draw_x(x),
        s.draw_y(y),
        s.draw_cols(x),
        s.draw_rows(y, n),
    );
}

/// A step that succeeds leaves a well-formed state: sixteen registers, 4096
/// bytes, the index within twelve bits and the stack pointer inside memory.
pub proof fn law_step_keeps_shape(s: State, seconds: u64, input: Option<u8>)
    requires
        s.wf(),
    ensures
        s.stepped(seconds, input) matches Ok(t) ==> t.wf(),
{
    if s.fetchable() {
        let op = s.current();
        crate::decode::lemma_decoded_wf(s.memory[s.pc as int], s.memory[s.pc + 1]);
        match op {
            Op::Draw { x, y, n } => {
                lemma_draw_keeps_shape(s, x, y, n);
            },
            _ => {},
        }
    }
}

/// `6XNN`: after the step, `V[x]` is `nn`.
pub proof fn law_load_immediate(s: State, x: u8, nn: u8, seconds: u64, input: Option<u8>)
    requires
        x < 16,
        stands_at(s, 0x60 + x, nn as int),
    ensures
        s.stepped(seconds, input) matches Ok(t) && t.v[x as int] == nn,
{
    assert(s.current() == Op::LoadImm { x, nn });
}

/// `7XNN`: after the step, `V[x]` is the sum modulo 256, and the flag
/// register, where it is not `V[x]` itself, is as before.
pub proof fn law_add_immediate(s: State, x: u8, nn: u8, seconds: u64, input: Option<u8>)
    requires
        x < 16,
        stands_at(s, 0x70 + x, nn as int),
    ensures
        s.stepped(seconds, input) matches Ok(t) && t.v[x as int] == (s.v[x as int] + nn) % 256 && (x
            != 0xF ==> t.v[0xF] == s.v[0xF]),
{
    assert(s.current() == Op::AddImm { x, nn });
}

/// `8XY4`: after the step, the flag is 1 if the sum is over 255 and 0 if it
/// is not; and `V[x]`, where it is not the flag register itself, is the sum
/// modulo 256.
pub proof fn law_add_registers(s: State, x: u8, y: u8, seconds: u64, input: Option<u8>)
    requires
        x < 16,
        y < 16,
        stands_at(s, 0x80 + x, y * 16 + 4),
    ensures
        s.stepped(seconds, input) matches Ok(t) && ({
            &&& t.v[0xF] == if s.v[x as int] + s.v[y as int] > 255 {
                1u8
            } else {
                0u8
            }
            &&& x != 0xF ==> t.v[x as int] == (s.v[x as int] + s.v[y as int]) % 256
        }),
{
    assert(s.current() == Op::AddReg { x, y });
    assert(s.stepped(seconds, input) == Ok::<State, Fault>(s.added(x, y)));
}

/// `8XY5`: after the step, the flag is 1 if `V[x]` was greater than `V[y]`
/// and 0 if it was not, so 0 where the two were equal; and `V[x]`, where it
/// is not the flag register itself, is the difference modulo 256.
pub proof fn law_subtract_registers(s: State, x: u8, y: u8, seconds: u64, input: Option<u8>)
    requires
        x < 16,
        y < 16,
        stands_at(s, 0x80 + x, y * 16 + 5),
    ensures
        s.stepped(seconds, input) matches Ok(t) && ({
            &&& t.v[0xF] == if s.v[x as int] > s.v[y as int] {
                1u8
            } else {
                0u8
            }
            &&& x != 0xF ==> t.v[x as int] == (s.v[x as int] - s.v[y as int]) % 256
        }),
{
    assert(s.current() == Op::SubReg { x, y });
    assert(s.stepped(seconds, input) == Ok::<State, Fault>(s.subtracted(x, y)));
}

/// The flag that an operation of the `8XY_` family sets, from the values
/// that `V[x]` and `V[y]` have before it: the carry, the two comparisons, and
/// the bit shifted out at either end. `None` for every other operation.
pub open spec fn flag_of(s: State, op: Op) -> Option<bool> {
    match op {
        Op::AddReg { x, y } => Some(s.v[x as int] + s.v[y as int] > 255),
        Op::SubReg { x, y } => Some(s.v[x as int] > s.v[y as int]),
        Op::ShiftRight { x, y } => Some(s.v[x as int] % 2 == 1),
        Op::SubFrom { x, y } => Some(s.v[y as int] > s.v[x as int]),
        Op::ShiftLeft { x, y } => Some(s.v[x as int] >= 128),
        _ => None,
    }
}

/// A flag written by an operation is what the flag register holds after it,
/// whichever register the operation writes its value to: the flag register
/// itself may be that register, and the flag still stands.
pub proof fn law_flag_supersedes(s: State, op: Op, seconds: u64, input: Option<u8>)
    requires
        s.wf(),
        op.wf(),
        flag_of(s, op) is Some,
    ensures
        s.after(op, seconds, input) matches Ok(t) && t.v[0xF] == if flag_of(s, op).unwrap() {
            1u8
        } else {
            0u8
        },
{
}

/// A return undoes the call before it: whatever ran in between, if the
/// stack pointer is where the call left it and the two bytes it pushed are
/// still there, `00EE` leads to the instruction after the call and puts the
/// stack pointer back where it was before the call.
pub proof fn law_return_after_call(s: State, addr: u16, later: State)
    requires
        s.wf(),
        s.fetchable(),
        s.called(addr) is Ok,
        later.wf(),
        later.sp == s.called(addr).unwrap().sp,
        later.memory[later.sp as int] == s.called(addr).unwrap().memory[later.sp as int],
        later.memory[later.sp + 1] == s.called(addr).unwrap().memory[later.sp + 1],
    ensures
        s.called(addr).unwrap().pc == addr,
        later.returned() matches Ok(back) && back.pc == s.pc + 2 && back.sp == s.sp,
{
    let ret = s.pc + 2;
    assert(ret / 256 * 256 + ret % 256 == ret);
}

/// Calls nest: after a call to `first` and, from there, a call to `second`,
/// the first return leads to the instruction after the inner call and the
/// second return to the instruction after the outer one, with the stack
/// pointer back where it began.
pub proof fn law_calls_nest(s: State, first: u16, second: u16)
    requires
        s.wf(),
        s.fetchable(),
        first <= 0xFFE,
        s.sp + 5 < 0x1000,
    ensures
        s.called(first) matches Ok(a) && (a.called(second) matches Ok(b) && (b.returned() matches Ok(
            c,
        ) && (c.pc == first + 2 && c.sp == a.sp && (c.returned() matches Ok(d) && d.pc == s.pc + 2
            && d.sp == s.sp)))),
{
    let a = s.called(first).unwrap();
    let b = a.called(second).unwrap();
    law_return_after_call(a, second, b);
    let c = b.returned().unwrap();
    law_return_after_call(s, first, c);
}

/// `DXYN` sets the flag to 1 if some pixel that was on is off afterwards, and
/// to 0 if none is.
pub proof fn law_draw_flag(s: State, x: u8, y: u8, n: u8)
    requires
        s.wf(),
        x < 16,
        y < 16,
    ensures
        s.drawn(x, y, n) matches Ok(t) ==> t.v[0xF] == if erased(s.memory, t.memory) {
            1u8
        } else {
            0u8
        },
{
}

/// Whether the sprite that `DXYN` draws in state `s` lies outside the
/// display bytes, so that drawing does not change the sprite itself.
pub open spec fn sprite_off_screen(s: State, y: u8, n: u8) -> bool {
    s.i + s.draw_rows(y, n) <= 0x50 || 0x150 <= s.i
}

/// Whether the sprite that `DXYN` draws in state `s` has a set bit over the
/// pixel `(col, row)`.
pub open spec fn covers(s: State, x: u8, y: u8, n: u8, col: int, row: int) -> bool {
    sprite_covers(
        s.memory,
        s.i as int,
        s.draw_x(x),
        s.draw_y(y),
        s.draw_cols(x),
        s.draw_rows(y, n),
        col,
        row,
    )
}

/// `DXYN`, with the sprite outside the display, flips exactly the pixels
/// under the sprite's set bits and changes no byte outside the display; the
/// flag is 1 exactly if the sprite has a set bit over a pixel that was on.
pub proof fn law_draw_flips(s: State, x: u8, y: u8, n: u8)
    requires
        s.wf(),
        x < 16,
        y < 16,
        s.i + s.draw_rows(y, n) <= 0x1000,
        sprite_off_screen(s, y, n),
    ensures
        s.drawn(x, y, n) matches Ok(t) && ({
            &&& forall|c: int, r: int|
                in_grid(c, r) ==> #[trigger] pixel(t.memory, c, r) == (pixel(s.memory, c, r)
                    ^ covers(s, x, y, n, c, r))
            &&& forall|a: int|
                0 <= a < 0x1000 && !(0x50 <= a < 0x150) ==> #[trigger] t.memory[a] == s.memory[a]
            &&& t.v[0xF] == 1 <==> exists|c: int, r: int|
                in_grid(c, r) && #[trigger] pixel(s.memory, c, r) && covers(s, x, y, n, c, r)
        }),
{
    let px = s.draw_x(x);
    let py = s.draw_y(y);
    let cols = s.draw_cols(x);
    let rows = s.draw_rows(y, n);
    let i = s.i as int;
    let t = s.drawn(x, y, n).unwrap();
    lemma_sprite_drawn(s.memory, i, px, py, cols, rows);
    assert forall|c: int, r: int| in_grid(c, r) implies #[trigger] pixel(t.memory, c, r) == (pixel(
        s.memory,
        c,
        r,
    ) ^ covers(s, x, y, n, c, r)) by {
        if py <= r < py + rows && px <= c < px + cols {
            lemma_sprite_row_fixed(s.memory, i, px, py, cols, rows, r - py);
        }
    }
    if erased(s.memory, t.memory) {
        let (c, r) = choose|c: int, r: int|
            in_grid(c, r) && #[trigger] pixel(s.memory, c, r) && !pixel(t.memory, c, r);
        assert(in_grid(c, r) && pixel(s.memory, c, r) && covers(s, x, y, n, c, r));
    }
    if exists|c: int, r: int|
        in_grid(c, r) && #[trigger] pixel(s.memory, c, r) && covers(s, x, y, n, c, r) {
        let (c, r) = choose|c: int, r: int|
            in_grid(c, r) && #[trigger] pixel(s.memory, c, r) && covers(s, x, y, n, c, r);
        assert(in_grid(c, r) && pixel(s.memory, c, r) && !pixel(t.memory, c, r));
    }
}

/// Drawing the same sprite twice at the same place, with the sprite outside
/// the display and neither coordinate held in the flag register, leaves
/// every pixel as it was before the first draw; and the second draw sets the
/// flag to 1 exactly if the sprite has a set bit over a pixel that was off
/// before the first draw, which is to say over a pixel that was on before the
/// second: one that the first draw turned on.
pub proof fn law_draw_twice(s: State, x: u8, y: u8, n: u8)
    requires
        s.wf(),
        x < 15,
        y < 15,
        s.i + s.draw_rows(y, n) <= 0x1000,
        sprite_off_screen(s, y, n),
    ensures
        s.drawn(x, y, n) matches Ok(t) && (t.drawn(x, y, n) matches Ok(u) && ({
            &&& forall|c: int, r: int|
                in_grid(c, r) ==> #[trigger] pixel(u.memory, c, r) == pixel(s.memory, c, r)
            &&& u.v[0xF] == 1 <==> exists|c: int, r: int|
                in_grid(c, r) && !#[trigger] pixel(s.memory, c, r) && covers(s, x, y, n, c, r)
            &&& u.v[0xF] == 1 <==> exists|c: int, r: int|
                in_grid(c, r) && #[trigger] pixel(t.memory, c, r) && covers(s, x, y, n, c, r)
        })),
{
    law_draw_flips(s, x, y, n);
    let t = s.drawn(x, y, n).unwrap();
    lemma_draw_keeps_shape(s, x, y, n);
    assert(t.draw_x(x) == s.draw_x(x));
    assert(t.draw_y(y) == s.draw_y(y));
    law_draw_flips(t, x, y, n);
    let u = t.drawn(x, y, n).unwrap();
    assert forall|c: int, r: int| in_grid(c, r) implies covers(t, x, y, n, c, r) == covers(
        s,
        x,
        y,
        n,
        c,
        r,
    ) by {
        if covers(t, x, y, n, c, r) || covers(s, x, y, n, c, r) {
            assert(t.memory[s.i + r - s.draw_y(y)] == s.memory[s.i + r - s.draw_y(y)]);
        }
    }
    assert forall|c: int, r: int| in_grid(c, r) implies #[trigger] pixel(u.memory, c, r) == pixel(
        s.memory,
        c,
        r,
    ) by {
        assert(pixel(t.memory, c, r) == (pixel(s.memory, c, r) ^ covers(s, x, y, n, c, r)));
    }
    if u.v[0xF] == 1 {
        let (c, r) = choose|c: int, r: int|
            in_grid(c, r) && #[trigger] pixel(t.memory, c, r) && covers(t, x, y, n, c, r);
        assert(in_grid(c, r) && !pixel(s.memory, c, r) && covers(s, x, y, n, c, r));
    }
    if exists|c: int, r: int|
        in_grid(c, r) && !#[trigger] pixel(s.memory, c, r) && covers(s, x, y, n, c, r) {
        let (c, r) = choose|c: int, r: int|
            in_grid(c, r) && !#[trigger] pixel(s.memory, c, r) && covers(s, x, y, n, c, r);
        assert(in_grid(c, r) && pixel(t.memory, c, r) && covers(t, x, y, n, c, r));
    }
    if exists|c: int, r: int|
        in_grid(c, r) && #[trigger] pixel(t.memory, c, r) && covers(s, x, y, n, c, r) {
        let (c, r) = choose|c: int, r: int|
            in_grid(c, r) && #[trigger] pixel(t.memory, c, r) && covers(s, x, y, n, c, r);
        assert(in_grid(c, r) && pixel(t.memory, c, r) && covers(t, x, y, n, c, r));
    }
}

/// Every pixel that `DXYN` changes is shown: it lies in a cell of one of the
/// spans that the draw hands back, and that span gives the cell the glyph of
/// the two pixels it holds after the draw.
pub proof fn law_draw_shows_every_change(s: State, x: u8, y: u8, n: u8, col: int, row: int)
    requires
        s.wf(),
        x < 16,
        y < 16,
        s.drawn(x, y, n) is Ok,
        in_grid(col, row),
        pixel(s.drawn(x, y, n).unwrap().memory, col, row) != pixel(s.memory, col, row),
    ensures
        s.effect(Op::Draw { x, y, n }, None) matches EffectView::Drawn(spans) && ({
            let j = row - s.draw_y(y);
            let k = col - s.draw_x(x);
            &&& 0 <= j < spans.len()
            &&& spans[j].line == row / 2 + 1
            &&& 0 <= k < spans[j].glyphs.len()
            &&& spans[j].column + k == col + 1
            &&& spans[j].glyphs[k] == cell_glyph(s.drawn(x, y, n).unwrap().memory, col, row / 2)
        }),
{
    lemma_sprite_drawn(
        s.memory,
        s.i as int,
        s.draw_x(x),
        s.draw_y(y),
        s.draw_cols(x),
        s.draw_rows(y, n),
    );
}

/// The hundreds, tens and units of a byte are decimal digits that spell it.
pub proof fn lemma_decimal_digits(v: u8)
    ensures
        v / 100 < 10,
        (v / 10) % 10 < 10,
        v % 10 < 10,
        100 * (v / 100) + 10 * ((v / 10) % 10) + v % 10 == v,
{
}

/// `FX33`: after the step, the bytes at `I`, `I + 1` and `I + 2` are the
/// hundreds, tens and units of `V[x]`: three decimal digits that spell it.
pub proof fn law_decimal_digits(s: State, x: u8, seconds: u64, input: Option<u8>)
    requires
        x < 16,
        stands_at(s, 0xF0 + x, 0x33),
        s.i + 2 < 0x1000,
    ensures
        s.stepped(seconds, input) matches Ok(t) && ({
            let v = s.v[x as int];
            let a = t.memory[s.i as int];
            let b = t.memory[s.i + 1];
            let c = t.memory[s.i + 2];
            &&& a == v / 100
            &&& b == (v / 10) % 10
            &&& c == v % 10
            &&& a < 10 && b < 10 && c < 10
            &&& 100 * a + 10 * b + c == v
        }),
{
    assert(s.current() == Op::Decimal { x });
    assert(s.stepped(seconds, input) == s.decimal_stored(x));
    lemma_decimal_digits(s.v[x as int]);
}

/// `00E0`: after the step every pixel is off, and the registers, the index,
/// the stack pointer, the timers, the key and every byte outside the display
/// are as before.
pub proof fn law_clear_screen(s: State, seconds: u64, input: Option<u8>)
    requires
        stands_at(s, 0x00, 0xE0),
    ensures
        s.stepped(seconds, input) matches Ok(t) && ({
            &&& forall|c: int, r: int| in_grid(c, r) ==> !#[trigger] pixel(t.memory, c, r)
            &&& forall|a: int|
                0 <= a < 0x1000 && !(0x50 <= a < 0x150) ==> #[trigger] t.memory[a] == s.memory[a]
            &&& t.v == s.v
            &&& t.i == s.i
            &&& t.sp == s.sp
            &&& t.d_timer == s.d_timer
            &&& t.s_timer == s.s_timer
            &&& t.key == s.key
            &&& t.pc == s.pc + 2
        }),
{
    assert(s.current() == Op::ClearScreen);
    let t = s.stepped(seconds, input).unwrap();
    assert(t.memory == frame_cleared(s.memory));
    assert forall|c: int, r: int| in_grid(c, r) implies !#[trigger] pixel(t.memory, c, r) by {
        let k = (c % 8) as u8;
        assert(0u8 & (0x80u8 >> k) == 0) by (bit_vector);
    }
}

} // verus!
