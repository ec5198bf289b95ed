//! The machine itself: registers and memory, and the step that fetches,
//! decodes and executes one instruction.

use crate::clock::epoch_seconds;
use crate::decode::{decode, Op};
use crate::display::{
    clear_frame, draw_sprite, pixel, pixel_at, render_spans, span_views, spans_for, Span, HEIGHT,
    MEMORY_SIZE, WIDTH,
};
use crate::effect::Effect;
use crate::fault::{Fault, RomTooLarge, LOAD_BASE};
use crate::font::{FONT_DATA, GLYPH_BYTES};
use crate::keys::{key_from, key_of_input, key_register_for};
use crate::state::State;
use vstd::prelude::*;

verus! {

/// The stack pointer of a fresh machine: the first address after the
/// display. A push moves it up by two before it writes.
pub const STACK_BASE: u16 = 0x150;

/// The longest program that fits between the load base and the end of
/// memory.
pub const MAX_ROM: usize = 0xE00;

/// The machine.
///
/// The fields are open to the caller, as is the view: code that writes one
/// of them can say what the machine then is. The library's own functions
/// keep `wf()`; whoever writes `i` or `sp` directly has to keep it too.
pub struct C8R {
    /// The sixteen general registers `V0..VF`; `VF` doubles as the flag.
    pub v_reg: [u8; 16],
    /// The 4096 bytes of memory.
    pub memory: [u8; MEMORY_SIZE],
    /// The program counter.
    pub pc: u16,
    /// The index register, within twelve bits.
    pub i: u16,
    /// The stack pointer: the address of the return address pushed last.
    pub sp: u16,
    /// The sound timer.
    pub s_timer: u8,
    /// The delay timer.
    pub d_timer: u8,
    /// The key register: the index of the key that is down, 0 if none is.
    pub key: u8,
}

/// The state of a machine that was just made: all registers zero, the font
/// in the first 80 bytes of memory and zeros in the rest, the stack pointer
/// right after the display, the program counter at the load base.
pub open spec fn fresh() -> State {
    State {
        v: Seq::new(16, |k: int| 0u8),
        memory: Seq::new(
            4096,
            |a: int|
                if a < 80 {
                    FONT_DATA@[a]
                } else {
                    0u8
                },
        ),
        pc: 0x200,
        i: 0,
        sp: 0x150,
        s_timer: 0,
        d_timer: 0,
        key: 0,
    }
}

/// Memory with `rom` copied in from the load base on.
pub open spec fn rom_loaded(memory: Seq<u8>, rom: Seq<u8>) -> Seq<u8> {
    Seq::new(
        4096,
        |a: int|
            if 0x200 <= a < 0x200 + rom.len() {
                rom[a - 0x200]
            } else {
                memory[a]
            },
    )
}

/// Whether a machine that was in state `before` and is now in state `after`,
/// with `result` in hand, has taken exactly one step on the clock reading
/// `seconds` and the input `input`: on success it is in the state that the
/// step leads to and holds the step's effect; on a fault it holds the fault
/// and has not moved.
pub open spec fn step_taken(
    before: State,
    seconds: u64,
    input: Option<u8>,
    after: State,
    result: Result<Effect, Fault>,
) -> bool {
    match before.stepped(seconds, input) {
        Ok(next) => after == next && (result matches Ok(effect) && effect@ == before.step_effect(
            input,
        )),
        Err(fault) => after == before && result == Err::<Effect, Fault>(fault),
    }
}

impl View for C8R {
    type V = State;

    open spec fn view(&self) -> State {
        State {
            v: self.v_reg@,
            memory: self.memory@,
            pc: self.pc,
            i: self.i,
            sp: self.sp,
            s_timer: self.s_timer,
            d_timer: self.d_timer,
            key: self.key,
        }
    }
}

impl C8R {
    /// A machine in its first state.
    pub fn new() -> (machine: Self)
        ensures
            machine@ == fresh(),
            machine@.wf(),
    {
        let mut c8r = C8R {
            v_reg: [0; 16],
            memory: [0; MEMORY_SIZE],
            pc: LOAD_BASE,
            i: 0,
            sp: STACK_BASE,
            s_timer: 0,
            d_timer: 0,
            key: 0,
        };
        let mut a: usize = 0;
        while a < 80
            invariant
                a <= 80,
                forall|b: int| 0 <= b < a ==> c8r.memory@[b] == FONT_DATA@[b],
                forall|b: int| a <= b < 4096 ==> c8r.memory@[b] == 0,
                c8r.v_reg@ == Seq::new(16, |k: int| 0u8),
                c8r.pc == 0x200,
                c8r.i == 0,
                c8r.sp == 0x150,
                c8r.s_timer == 0,
                c8r.d_timer == 0,
                c8r.key == 0,
            decreases 80 - a,
        {
            c8r.memory[a] = FONT_DATA[a];
            a += 1;
        }
        assert(c8r@.memory =~= fresh().memory);
        c8r
    }

    /// Copies a program into memory from the load base on. A program that
    /// does not fit is refused and nothing is copied.
    pub fn load_rom(&mut self, rom: &[u8]) -> (result: Result<(), RomTooLarge>)
        ensures
            old(self)@.wf() ==> final(self)@.wf(),
            rom@.len() <= MAX_ROM ==> result is Ok && final(self)@ == (State {
                memory: rom_loaded(old(self)@.memory, rom@),
                ..old(self)@
            }),
            rom@.len() > MAX_ROM ==> result == Err::<(), RomTooLarge>(
                RomTooLarge { len: rom@.len() as usize },
            ) && final(self)@ == old(self)@,
    {
        if rom.len() > MAX_ROM {
            return Err(RomTooLarge { len: rom.len() });
        }
        let ghost first = self.memory@;
        let mut pos: usize = 0;
        while pos < rom.len()
            invariant
                pos <= rom@.len() <= MAX_ROM,
                self.v_reg == old(self).v_reg,
                self.pc == old(self).pc,
                self.i == old(self).i,
                self.sp == old(self).sp,
                self.s_timer == old(self).s_timer,
                self.d_timer == old(self).d_timer,
                self.key == old(self).key,
                forall|a: int| 0x200 <= a < 0x200 + pos ==> self.memory@[a] == rom@[a - 0x200],
                forall|a: int|
                    0 <= a < 4096 && !(0x200 <= a < 0x200 + pos) ==> self.memory@[a] == first[a],
            decreases rom@.len() - pos,
        {
            self.memory[LOAD_BASE as usize + pos] = rom[pos];
            pos += 1;
        }
        assert(self.memory@ =~= rom_loaded(first, rom@));
        Ok(())
    }

    /// Whether the machine has the shape that every step needs and keeps:
    /// the index within twelve bits and the stack pointer inside memory.
    pub fn well_formed(&self) -> (ok: bool)
        ensures
            ok == self@.wf(),
    {
        self.i < 0x1000 && self.sp <= 0xFFE
    }

    /// The value of register `V[x]`.
    pub fn v(&self, x: u8) -> (value: u8)
        requires
            x < 16,
        ensures
            value == self@.v[x as int],
    {
        self.v_reg[x as usize]
    }

    /// The program counter.
    pub fn pc(&self) -> (pc: u16)
        ensures
            pc == self@.pc,
    {
        self.pc
    }

    /// The index register.
    pub fn i(&self) -> (i: u16)
        ensures
            i == self@.i,
    {
        self.i
    }

    /// The stack pointer.
    pub fn sp(&self) -> (sp: u16)
        ensures
            sp == self@.sp,
    {
        self.sp
    }

    /// The byte of memory at `address`.
    pub fn peek(&self, address: u16) -> (byte: u8)
        requires
            address < 0x1000,
        ensures
            byte == self@.memory[address as int],
    {
        self.memory[address as usize]
    }

    /// Whether the pixel at `(col, row)` is on.
    pub fn pixel(&self, col: u8, row: u8) -> (on: bool)
        requires
            col < 64,
            row < 32,
        ensures
            on == pixel(self@.memory, col as int, row as int),
    {
        pixel_at(&self.memory, col, row)
    }

    /// Takes one cycle's input into the key register: the key that the byte
    /// reaches, and 0 where no byte came or the byte reaches no key.
    pub fn press(&mut self, input: Option<u8>)
        ensures
            final(self)@ == (State { key: key_register_for(input), ..old(self)@ }),
    {
        self.key = match key_of_input(input) {
            Some(k) => k,
            None => 0,
        };
    }

    /// Counts both timers down by one, stopping at zero.
    pub fn tick_timers(&mut self)
        ensures
            final(self)@ == old(self)@.ticked(),
    {
        if self.d_timer > 0 {
            self.d_timer -= 1;
        }
        if self.s_timer > 0 {
            self.s_timer -= 1;
        }
    }

    /// The two bytes of the instruction at the program counter. It fails
    /// where they do not both lie in memory.
    pub fn fetch(&self) -> (result: Result<(u8, u8), Fault>)
        ensures
            self@.fetchable() ==> result == Ok::<(u8, u8), Fault>(
                (self@.memory[self@.pc as int], self@.memory[self@.pc + 1]),
            ),
            !self@.fetchable() ==> result == Err::<(u8, u8), Fault>(self@.out_of_range()),
    {
        if self.pc > 0xFFE {
            return Err(Fault::OutOfRange { at: self.pc });
        }
        Ok((self.memory[self.pc as usize], self.memory[self.pc as usize + 1]))
    }

    /// Moves to the next instruction, or to the one after it where `skip`
    /// holds.
    fn advance(&mut self, skip: bool)
        requires
            old(self)@.fetchable(),
        ensures
            final(self)@ == old(self)@.next_or_skip(skip),
    {
        if skip {
            self.pc += 4;
        } else {
            self.pc += 2;
        }
    }

    /// Sets `V[x]` and moves to the next instruction.
    fn put(&mut self, x: u8, value: u8)
        requires
            old(self)@.fetchable(),
            x < 16,
        ensures
            final(self)@ == old(self)@.with_v(x, value).next(),
    {
        self.v_reg[x as usize] = value;
        self.pc += 2;
    }

    /// Sets `V[x]`, then the flag, and moves to the next instruction. Where
    /// `x` names the flag register, the flag is what it holds afterwards.
    fn put_then_flag(&mut self, x: u8, value: u8, flag: bool)
        requires
            old(self)@.fetchable(),
            x < 16,
        ensures
            final(self)@ == old(self)@.with_v_then_flag(x, value, flag).next(),
    {
        self.v_reg[x as usize] = value;
        self.v_reg[0xF] = if flag {
            1
        } else {
            0
        };
        self.pc += 2;
    }

    /// `00E0`: clears the display.
    fn op_00e0(&mut self)
        requires
            old(self)@.fetchable(),
        ensures
            final(self)@ == old(self)@.cleared(),
    {
        clear_frame(&mut self.memory);
        self.pc += 2;
    }

    /// `00EE`: returns from a subroutine.
    fn op_00ee(&mut self) -> (result: Result<(), Fault>)
        requires
            old(self)@.wf(),
        ensures
            match old(self)@.returned() {
                Ok(next) => result is Ok && final(self)@ == next,
                Err(fault) => result == Err::<(), Fault>(fault) && final(self)@ == old(self)@,
            },
    {
        if self.sp < 2 {
            return Err(Fault::OutOfRange { at: self.pc });
        }
        let high: u16 = self.memory[self.sp as usize] as u16;
        let lower: u16 = self.memory[(self.sp + 1) as usize] as u16;
        let upper: u16 = high << 8;
        assert(upper | lower == high * 256 + lower) by (bit_vector)
            requires
                upper == high << 8,
                high < 256,
                lower < 256,
        ;
        self.sp -= 2;
        self.pc = upper | lower;
        Ok(())
    }

    /// `1NNN`: jumps.
    fn op_1nnn(&mut self, addr: u16)
        ensures
            final(self)@ == (State { pc: addr, ..old(self)@ }),
    {
        self.pc = addr;
    }

    /// `2NNN`: calls a subroutine.
    fn op_2nnn(&mut self, addr: u16) -> (result: Result<(), Fault>)
        requires
            old(self)@.wf(),
            old(self)@.fetchable(),
        ensures
            match old(self)@.called(addr) {
                Ok(next) => result is Ok && final(self)@ == next,
                Err(fault) => result == Err::<(), Fault>(fault) && final(self)@ == old(self)@,
            },
    {
        if self.sp > 0xFFC {
            return Err(Fault::OutOfRange { at: self.pc });
        }
        let ret: u16 = self.pc + 2;
        assert(ret >> 8 == ret / 256 && ret & 0xFF == ret % 256) by (bit_vector);
        self.sp += 2;
        self.memory[self.sp as usize] = (ret >> 8) as u8;
        self.memory[(self.sp + 1) as usize] = (ret & 0xFF) as u8;
        self.pc = addr;
        Ok(())
    }

    /// `3XNN`: skips if `V[x] == nn`.
    fn op_3xnn(&mut self, x: u8, nn: u8)
        requires
            old(self)@.fetchable(),
            x < 16,
        ensures
            final(self)@ == old(self)@.next_or_skip(old(self)@.v[x as int] == nn),
    {
        let skip = self.v_reg[x as usize] == nn;
        self.advance(skip);
    }

    /// `4XNN`: skips if `V[x] != nn`.
    fn op_4xnn(&mut self, x: u8, nn: u8)
        requires
            old(self)@.fetchable(),
            x < 16,
        ensures
            final(self)@ == old(self)@.next_or_skip(old(self)@.v[x as int] != nn),
    {
        let skip = self.v_reg[x as usize] != nn;
        self.advance(skip);
    }

    /// `5XY0`: skips if `V[x] == V[y]`.
    fn op_5xy0(&mut self, x: u8, y: u8)
        requires
            old(self)@.fetchable(),
            x < 16,
            y < 16,
        ensures
            final(self)@ == old(self)@.next_or_skip(old(self)@.v[x as int] == old(self)@.v[y as int]),
    {
        let skip = self.v_reg[x as usize] == self.v_reg[y as usize];
        self.advance(skip);
    }

    /// `6XNN`: `V[x] := nn`.
    fn op_6xnn(&mut self, x: u8, nn: u8)
        requires
            old(self)@.fetchable(),
            x < 16,
        ensures
            final(self)@ == old(self)@.with_v(x, nn).next(),
    {
        self.put(x, nn);
    }

    /// `7XNN`: `V[x] := V[x] + nn`, wrapping; the flag is left alone.
    fn op_7xnn(&mut self, x: u8, nn: u8)
        requires
            old(self)@.fetchable(),
            x < 16,
        ensures
            final(self)@ == old(self)@.with_v(x, ((old(self)@.v[x as int] + nn) % 256) as u8).next(),
    {
        let sum = self.v_reg[x as usize].wrapping_add(nn);
        self.put(x, sum);
    }

    /// `8XY0`: `V[x] := V[y]`.
    fn op_8xy0(&mut self, x: u8, y: u8)
        requires
            old(self)@.fetchable(),
            x < 16,
            y < 16,
        ensures
            final(self)@ == old(self)@.with_v(x, old(self)@.v[y as int]).next(),
    {
        let value = self.v_reg[y as usize];
        self.put(x, value);
    }

    /// `8XY1`: `V[x] := V[x] | V[y]`.
    fn op_8xy1(&mut self, x: u8, y: u8)
        requires
            old(self)@.fetchable(),
            x < 16,
            y < 16,
        ensures
            final(self)@ == old(self)@.with_v(
                x,
                old(self)@.v[x as int] | old(self)@.v[y as int],
            ).next(),
    {
        let value = self.v_reg[x as usize] | self.v_reg[y as usize];
        self.put(x, value);
    }

    /// `8XY2`: `V[x] := V[x] & V[y]`.
    fn op_8xy2(&mut self, x: u8, y: u8)
        requires
            old(self)@.fetchable(),
            x < 16,
            y < 16,
        ensures
            final(self)@ == old(self)@.with_v(
                x,
                old(self)@.v[x as int] & old(self)@.v[y as int],
            ).next(),
    {
        let value = self.v_reg[x as usize] & self.v_reg[y as usize];
        self.put(x, value);
    }

    /// `8XY3`: `V[x] := V[x] ^ V[y]`.
    fn op_8xy3(&mut self, x: u8, y: u8)
        requires
            old(self)@.fetchable(),
            x < 16,
            y < 16,
        ensures
            final(self)@ == old(self)@.with_v(
                x,
                old(self)@.v[x as int] ^ old(self)@.v[y as int],
            ).next(),
    {
        let value = self.v_reg[x as usize] ^ self.v_reg[y as usize];
        self.put(x, value);
    }

    /// `8XY4`: adds with carry.
    fn op_8xy4(&mut self, x: u8, y: u8)
        requires
            old(self)@.fetchable(),
            x < 16,
            y < 16,
        ensures
            final(self)@ == old(self)@.added(x, y),
    {
        let a = self.v_reg[x as usize];
        let b = self.v_reg[y as usize];
        self.put_then_flag(x, a.wrapping_add(b), 0xFF - a < b);
    }

    /// `8XY5`: subtracts `V[y]` from `V[x]`.
    fn op_8xy5(&mut self, x: u8, y: u8)
        requires
            old(self)@.fetchable(),
            x < 16,
            y < 16,
        ensures
            final(self)@ == old(self)@.subtracted(x, y),
    {
        let a = self.v_reg[x as usize];
        let b = self.v_reg[y as usize];
        self.put_then_flag(x, a.wrapping_sub(b), a > b);
    }

    /// `8XY6`: shifts right by one.
    fn op_8xy6(&mut self, x: u8)
        requires
            old(self)@.fetchable(),
            x < 16,
        ensures
            final(self)@ == old(self)@.shifted_right(x),
    {
        let a = self.v_reg[x as usize];
        assert(a & 1 == a % 2 && a >> 1 == a / 2) by (bit_vector);
        self.put_then_flag(x, a >> 1, a & 1 == 1);
    }

    /// `8XY7`: subtracts `V[x]` from `V[y]`.
    fn op_8xy7(&mut self, x: u8, y: u8)
        requires
            old(self)@.fetchable(),
            x < 16,
            y < 16,
        ensures
            final(self)@ == old(self)@.subtracted_from(x, y),
    {
        let a = self.v_reg[x as usize];
        let b = self.v_reg[y as usize];
        self.put_then_flag(x, b.wrapping_sub(a), b > a);
    }

    /// `8XYE`: shifts left by one.
    fn op_8xye(&mut self, x: u8)
        requires
            old(self)@.fetchable(),
            x < 16,
        ensures
            final(self)@ == old(self)@.shifted_left(x),
    {
        let a = self.v_reg[x as usize];
        assert((a >> 7 == 1) == (a >= 128) && a << 1 == if a >= 128 {
            (a - 128) * 2
        } else {
            a * 2
        }) by (bit_vector);
        self.put_then_flag(x, a << 1, a >> 7 == 1);
    }

    /// `9XY0`: skips if `V[x] != V[y]`.
    fn op_9xy0(&mut self, x: u8, y: u8)
        requires
            old(self)@.fetchable(),
            x < 16,
            y < 16,
        ensures
            final(self)@ == old(self)@.next_or_skip(old(self)@.v[x as int] != old(self)@.v[y as int]),
    {
        let skip = self.v_reg[x as usize] != self.v_reg[y as usize];
        self.advance(skip);
    }

    /// `ANNN`: `I := addr`, kept to twelve bits.
    fn op_annn(&mut self, addr: u16)
        requires
            old(self)@.fetchable(),
        ensures
            final(self)@ == (State { i: addr % 0x1000, ..old(self)@ }).next(),
    {
        assert(addr & 0xFFF == addr % 0x1000) by (bit_vector);
        self.i = addr & 0xFFF;
        self.pc += 2;
    }

    /// `BNNN`: jumps to `V[0] + addr`.
    fn op_bnnn(&mut self, addr: u16)
        requires
            addr < 0x1000,
        ensures
            final(self)@ == (State { pc: (old(self)@.v[0] + addr) as u16, ..old(self)@ }),
    {
        self.pc = self.v_reg[0] as u16 + addr;
    }

    /// `CXNN`: `V[x] :=` the low byte of the clock reading, masked by `nn`.
    fn op_cxnn(&mut self, x: u8, nn: u8, seconds: u64)
        requires
            old(self)@.fetchable(),
            x < 16,
        ensures
            final(self)@ == old(self)@.with_v(x, ((seconds % 256) as u8) & nn).next(),
    {
        let rand: u8 = (seconds % 256) as u8 & nn;
        self.put(x, rand);
    }

    /// `DXYN`: draws a sprite and hands back the spans that show the cells
    /// it touched.
    fn op_dxyn(&mut self, x: u8, y: u8, n: u8) -> (result: Result<Vec<Span>, Fault>)
        requires
            old(self)@.wf(),
            old(self)@.fetchable(),
            x < 16,
            y < 16,
        ensures
            match old(self)@.drawn(x, y, n) {
                Ok(next) => final(self)@ == next && (result matches Ok(spans) && span_views(spans@)
                    == spans_for(
                    next.memory,
                    old(self)@.draw_x(x),
                    old(self)@.draw_y(y),
                    old(self)@.draw_cols(x),
                    old(self)@.draw_rows(y, n),
                )),
                Err(fault) => result == Err::<Vec<Span>, Fault>(fault) && final(self)@ == old(
                    self,
                )@,
            },
    {
        let px: u8 = self.v_reg[x as usize] % WIDTH;
        let py: u8 = self.v_reg[y as usize] % HEIGHT;
        let cols: u8 = if WIDTH - px < 8 {
            WIDTH - px
        } else {
            8
        };
        let rows: u8 = if HEIGHT - py < n {
            HEIGHT - py
        } else {
            n
        };
        if self.i as usize + rows as usize > MEMORY_SIZE {
            return Err(Fault::OutOfRange { at: self.pc });
        }
        let hit = draw_sprite(&mut self.memory, self.i, px, py, n);
        self.v_reg[0xF] = if hit {
            1
        } else {
            0
        };
        let spans = render_spans(&self.memory, px, py, cols, rows);
        self.pc += 2;
        Ok(spans)
    }

    /// `EX9E`: skips if `V[x]` is the current key.
    fn op_ex9e(&mut self, x: u8)
        requires
            old(self)@.fetchable(),
            x < 16,
        ensures
            final(self)@ == old(self)@.next_or_skip(old(self)@.v[x as int] == old(self)@.key),
    {
        let skip = self.v_reg[x as usize] == self.key;
        self.advance(skip);
    }

    /// `EXA1`: skips if `V[x]` is not the current key.
    fn op_exa1(&mut self, x: u8)
        requires
            old(self)@.fetchable(),
            x < 16,
        ensures
            final(self)@ == old(self)@.next_or_skip(old(self)@.v[x as int] != old(self)@.key),
    {
        let skip = self.v_reg[x as usize] != self.key;
        self.advance(skip);
    }

    /// `FX07`: `V[x] := delay timer`.
    fn op_fx07(&mut self, x: u8)
        requires
            old(self)@.fetchable(),
            x < 16,
        ensures
            final(self)@ == old(self)@.with_v(x, old(self)@.d_timer).next(),
    {
        let value = self.d_timer;
        self.put(x, value);
    }

    /// `FX0A`: one turn of the wait for a key. With a byte that reaches a
    /// key the wait is over; with anything else the machine stays put. The
    /// result says whether the wait goes on.
    fn op_fx0a(&mut self, x: u8, input: Option<u8>) -> (waiting: bool)
        requires
            old(self)@.fetchable(),
            x < 16,
        ensures
            final(self)@ == old(self)@.key_awaited(x, input),
            waiting == (key_from(input) is None),
    {
        match key_of_input(input) {
            Some(k) => {
                self.put(x, k);
                false
            },
            None => true,
        }
    }

    /// `FX15`: `delay timer := V[x]`.
    fn op_fx15(&mut self, x: u8)
        requires
            old(self)@.fetchable(),
            x < 16,
        ensures
            final(self)@ == (State { d_timer: old(self)@.v[x as int], ..old(self)@ }).next(),
    {
        self.d_timer = self.v_reg[x as usize];
        self.pc += 2;
    }

    /// `FX18`: `sound timer := V[x]`.
    fn op_fx18(&mut self, x: u8)
        requires
            old(self)@.fetchable(),
            x < 16,
        ensures
            final(self)@ == (State { s_timer: old(self)@.v[x as int], ..old(self)@ }).next(),
    {
        self.s_timer = self.v_reg[x as usize];
        self.pc += 2;
    }

    /// `FX1E`: `I := (I + V[x]) mod 4096`.
    fn op_fx1e(&mut self, x: u8)
        requires
            old(self)@.wf(),
            old(self)@.fetchable(),
            x < 16,
        ensures
            final(self)@ == (State {
                i: ((old(self)@.i + old(self)@.v[x as int]) % 0x1000) as u16,
                ..old(self)@
            }).next(),
    {
        let sum: u16 = self.i + self.v_reg[x as usize] as u16;
        assert(sum & 0xFFF == sum % 0x1000) by (bit_vector);
        self.i = sum & 0xFFF;
        self.pc += 2;
    }

    /// `FX29`: `I :=` five times `V[x]`, where the glyph for `V[x]` starts.
    fn op_fx29(&mut self, x: u8)
        requires
            old(self)@.fetchable(),
            x < 16,
        ensures
            final(self)@ == (State {
                i: (old(self)@.v[x as int] * GLYPH_BYTES) as u16,
                ..old(self)@
            }).next(),
    {
        self.i = self.v_reg[x as usize] as u16 * GLYPH_BYTES;
        self.pc += 2;
    }

    /// `FX33`: stores the decimal digits of `V[x]`.
    fn op_fx33(&mut self, x: u8) -> (result: Result<(), Fault>)
        requires
            old(self)@.wf(),
            old(self)@.fetchable(),
            x < 16,
        ensures
            match old(self)@.decimal_stored(x) {
                Ok(next) => result is Ok && final(self)@ == next,
                Err(fault) => result == Err::<(), Fault>(fault) && final(self)@ == old(self)@,
            },
    {
        if self.i > 0xFFD {
            return Err(Fault::OutOfRange { at: self.pc });
        }
        let val = self.v_reg[x as usize];
        self.memory[self.i as usize] = val / 100;
        self.memory[(self.i + 1) as usize] = (val / 10) % 10;
        self.memory[(self.i + 2) as usize] = val % 10;
        self.pc += 2;
        Ok(())
    }

    /// `FX55`: copies `V[0]..=V[x]` to memory at `I`.
    fn op_fx55(&mut self, x: u8) -> (result: Result<(), Fault>)
        requires
            old(self)@.wf(),
            old(self)@.fetchable(),
            x < 16,
        ensures
            match old(self)@.stored(x) {
                Ok(next) => result is Ok && final(self)@ == next,
                Err(fault) => result == Err::<(), Fault>(fault) && final(self)@ == old(self)@,
            },
    {
        if self.i as usize + x as usize > 0xFFF {
            return Err(Fault::OutOfRange { at: self.pc });
        }
        let ghost first = self.memory@;
        let mut k: u8 = 0;
        while k <= x
            invariant
                x < 16,
                k <= x + 1,
                self.i + x < 0x1000,
                self.v_reg == old(self).v_reg,
                self.pc == old(self).pc,
                self.i == old(self).i,
                self.sp == old(self).sp,
                self.s_timer == old(self).s_timer,
                self.d_timer == old(self).d_timer,
                self.key == old(self).key,
                forall|a: int| self.i <= a < self.i + k ==> self.memory@[a] == self.v_reg@[a - self.i],
                forall|a: int|
                    0 <= a < 4096 && !(self.i <= a < self.i + k) ==> self.memory@[a] == first[a],
            decreases x + 1 - k,
        {
            self.memory[self.i as usize + k as usize] = self.v_reg[k as usize];
            k += 1;
        }
        self.pc += 2;
        assert(self@.memory =~= old(self)@.stored(x).unwrap().memory);
        Ok(())
    }

    /// `FX65`: copies memory at `I` to `V[0]..=V[x]`.
    fn op_fx65(&mut self, x: u8) -> (result: Result<(), Fault>)
        requires
            old(self)@.wf(),
            old(self)@.fetchable(),
            x < 16,
        ensures
            match old(self)@.loaded(x) {
                Ok(next) => result is Ok && final(self)@ == next,
                Err(fault) => result == Err::<(), Fault>(fault) && final(self)@ == old(self)@,
            },
    {
        if self.i as usize + x as usize > 0xFFF {
            return Err(Fault::OutOfRange { at: self.pc });
        }
        let ghost first = self.v_reg@;
        let mut k: u8 = 0;
        while k <= x
            invariant
                x < 16,
                k <= x + 1,
                self.i + x < 0x1000,
                self.memory == old(self).memory,
                self.pc == old(self).pc,
                self.i == old(self).i,
                self.sp == old(self).sp,
                self.s_timer == old(self).s_timer,
                self.d_timer == old(self).d_timer,
                self.key == old(self).key,
                forall|j: int| 0 <= j < k ==> self.v_reg@[j] == self.memory@[self.i + j],
                forall|j: int| k <= j < 16 ==> self.v_reg@[j] == first[j],
            decreases x + 1 - k,
        {
            self.v_reg[k as usize] = self.memory[self.i as usize + k as usize];
            k += 1;
        }
        self.pc += 2;
        assert(self@.v =~= old(self)@.loaded(x).unwrap().v);
        Ok(())
    }

    /// Executes one operation.
    fn execute(&mut self, op: Op, seconds: u64, input: Option<u8>) -> (result: Result<
        Effect,
        Fault,
    >)
        requires
            old(self)@.wf(),
            old(self)@.fetchable(),
            op.wf(),
        ensures
            final(self)@.wf(),
            match old(self)@.after(op, seconds, input) {
                Ok(next) => final(self)@ == next && (result matches Ok(effect) && effect@ == old(
                    self,
                )@.effect(op, input)),
                Err(fault) => final(self)@ == old(self)@ && result == Err::<Effect, Fault>(fault),
            },
    {
        match op {
            Op::ClearScreen => {
                self.op_00e0();
                Ok(Effect::Cleared)
            },
            Op::Return => match self.op_00ee() {
                Ok(()) => Ok(Effect::Quiet),
                Err(fault) => Err(fault),
            },
            Op::Jump { addr } => {
                self.op_1nnn(addr);
                Ok(Effect::Quiet)
            },
            Op::Call { addr } => match self.op_2nnn(addr) {
                Ok(()) => Ok(Effect::Quiet),
                Err(fault) => Err(fault),
            },
            Op::SkipEqImm { x, nn } => {
                self.op_3xnn(x, nn);
                Ok(Effect::Quiet)
            },
            Op::SkipNeImm { x, nn } => {
                self.op_4xnn(x, nn);
                Ok(Effect::Quiet)
            },
            Op::SkipEqReg { x, y } => {
                self.op_5xy0(x, y);
                Ok(Effect::Quiet)
            },
            Op::LoadImm { x, nn } => {
                self.op_6xnn(x, nn);
                Ok(Effect::Quiet)
            },
            Op::AddImm { x, nn } => {
                self.op_7xnn(x, nn);
                Ok(Effect::Quiet)
            },
            Op::Move { x, y } => {
                self.op_8xy0(x, y);
                Ok(Effect::Quiet)
            },
            Op::Or { x, y } => {
                self.op_8xy1(x, y);
                Ok(Effect::Quiet)
            },
            Op::And { x, y } => {
                self.op_8xy2(x, y);
                Ok(Effect::Quiet)
            },
            Op::Xor { x, y } => {
                self.op_8xy3(x, y);
                Ok(Effect::Quiet)
            },
            Op::AddReg { x, y } => {
                self.op_8xy4(x, y);
                Ok(Effect::Quiet)
            },
            Op::SubReg { x, y } => {
                self.op_8xy5(x, y);
                Ok(Effect::Quiet)
            },
            Op::ShiftRight { x, y } => {
                self.op_8xy6(x);
                Ok(Effect::Quiet)
            },
            Op::SubFrom { x, y } => {
                self.op_8xy7(x, y);
                Ok(Effect::Quiet)
            },
            Op::ShiftLeft { x, y } => {
                self.op_8xye(x);
                Ok(Effect::Quiet)
            },
            Op::SkipNeReg { x, y } => {
                self.op_9xy0(x, y);
                Ok(Effect::Quiet)
            },
            Op::LoadIndex { addr } => {
                self.op_annn(addr);
                Ok(Effect::Quiet)
            },
            Op::JumpOffset { addr } => {
                self.op_bnnn(addr);
                Ok(Effect::Quiet)
            },
            Op::Random { x, nn } => {
                self.op_cxnn(x, nn, seconds);
                Ok(Effect::Quiet)
            },
            Op::Draw { x, y, n } => match self.op_dxyn(x, y, n) {
                Ok(spans) => Ok(Effect::Drawn(spans)),
                Err(fault) => Err(fault),
            },
            Op::SkipKey { x } => {
                self.op_ex9e(x);
                Ok(Effect::Quiet)
            },
            Op::SkipNoKey { x } => {
                self.op_exa1(x);
                Ok(Effect::Quiet)
            },
            Op::ReadDelay { x } => {
                self.op_fx07(x);
                Ok(Effect::Quiet)
            },
            Op::WaitKey { x } => {
                if self.op_fx0a(x, input) {
                    Ok(Effect::AwaitKey)
                } else {
                    Ok(Effect::Quiet)
                }
            },
            Op::SetDelay { x } => {
                self.op_fx15(x);
                Ok(Effect::Quiet)
            },
            Op::SetSound { x } => {
                self.op_fx18(x);
                Ok(Effect::Quiet)
            },
            Op::AddIndex { x } => {
                self.op_fx1e(x);
                Ok(Effect::Quiet)
            },
            Op::Glyph { x } => {
                self.op_fx29(x);
                Ok(Effect::Quiet)
            },
            Op::Decimal { x } => match self.op_fx33(x) {
                Ok(()) => Ok(Effect::Quiet),
                Err(fault) => Err(fault),
            },
            Op::Store { x } => match self.op_fx55(x) {
                Ok(()) => Ok(Effect::Quiet),
                Err(fault) => Err(fault),
            },
            Op::Load { x } => match self.op_fx65(x) {
                Ok(()) => Ok(Effect::Quiet),
                Err(fault) => Err(fault),
            },
            Op::Unsupported => Err(Fault::Unsupported { at: self.pc }),
        }
    }

    /// Takes one step on a given clock reading and a given input: fetches
    /// the instruction at the program counter, decodes it and executes it.
    ///
    /// Only `CXNN` looks at `seconds`, and only `FX0A` at `input`. While the
    /// machine stands at an `FX0A` and `input` reaches no key, the step
    /// changes nothing and answers `Effect::AwaitKey`: step again once the
    /// next input byte is there. A step that faults changes nothing.
    pub fn step(&mut self, seconds: u64, input: Option<u8>) -> (result: Result<Effect, Fault>)
        requires
            old(self)@.wf(),
        ensures
            final(self)@.wf(),
            step_taken(old(self)@, seconds, input, final(self)@, result),
    {
        match self.fetch() {
            Ok((hi, lo)) => {
                let op = decode(hi, lo);
                self.execute(op, seconds, input)
            },
            Err(fault) => Err(fault),
        }
    }

    /// Takes one step with no input at hand, reading the clock where the
    /// instruction is `CXNN`.
    ///
    /// What the clock says is not known beforehand, so the step is the one
    /// that [`C8R::step`] takes on some clock reading; for every instruction
    /// but `CXNN` that is the step on any reading.
    pub fn cpu_step(&mut self) -> (result: Result<Effect, Fault>)
        requires
            old(self)@.wf(),
        ensures
            final(self)@.wf(),
            exists|seconds: u64| step_taken(old(self)@, seconds, None, final(self)@, result),
            !(old(self)@.fetchable() && old(self)@.current() is Random) ==> forall|seconds: u64|
                step_taken(old(self)@, seconds, None, final(self)@, result),
    {
        match self.fetch() {
            Ok((hi, lo)) => {
                let op = decode(hi, lo);
                let seconds: u64 = match op {
                    Op::Random { x, nn } => epoch_seconds(),
                    _ => 0,
                };
                let result = self.execute(op, seconds, None);
                assert(step_taken(old(self)@, seconds, None, self@, result));
                result
            },
            Err(fault) => {
                assert(step_taken(old(self)@, 0, None, self@, Err(fault)));
                Err(fault)
            },
        }
    }
}

} // verus!
