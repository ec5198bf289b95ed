//! The machine as a mathematical value, and what each operation makes of it.
//!
//! Everything here is specification: the executable machine is proved to move
//! exactly as these functions say.

use crate::decode::{decoded, Op};
use crate::display::{clipped_cols, clipped_rows, erased, frame_cleared, spans_for, sprite_drawn};
use crate::effect::EffectView;
use crate::fault::Fault;
use crate::font::GLYPH_BYTES;
use crate::keys::key_from;
use vstd::prelude::*;

verus! {

/// The whole state of the machine.
pub struct State {
    /// The sixteen general registers `V0..VF`; `VF` doubles as the flag.
    pub v: Seq<u8>,
    /// The 4096 bytes of memory.
    pub memory: Seq<u8>,
    /// The program counter.
    pub pc: u16,
    /// The index register.
    pub i: u16,
    /// The stack pointer: the address of the return address pushed last.
    pub sp: u16,
    /// The sound timer.
    pub s_timer: u8,
    /// The delay timer.
    pub d_timer: u8,
    /// The key register.
    pub key: u8,
}

impl State {
    /// The shape that every reachable state has: sixteen registers, 4096
    /// bytes, a 12-bit index, and a stack pointer whose two bytes lie in
    /// memory.
    pub open spec fn wf(self) -> bool {
        &&& self.v.len() == 16
        &&& self.memory.len() == 4096
        &&& self.i < 0x1000
        &&& self.sp <= 0xFFE
    }

    /// Whether both bytes of the instruction at the program counter lie in
    /// memory.
    pub open spec fn fetchable(self) -> bool {
        self.pc <= 0xFFE
    }

    /// The operation at the program counter.
    pub open spec fn current(self) -> Op {
        decoded(self.memory[self.pc as int], self.memory[self.pc + 1])
    }

    /// The fault that stops the step at this state's instruction for reaching
    /// out of the address space.
    pub open spec fn out_of_range(self) -> Fault {
        Fault::OutOfRange { at: self.pc }
    }

    /// The same state at the next instruction.
    pub open spec fn next(self) -> State {
        State { pc: (self.pc + 2) as u16, ..self }
    }

    /// The same state at the next instruction, or at the one after it where
    /// `skip` holds.
    pub open spec fn next_or_skip(self, skip: bool) -> State {
        State {
            pc: (if skip {
                self.pc + 4
            } else {
                self.pc + 2
            }) as u16,
            ..self
        }
    }

    /// The same state with `V[x]` set to `value`.
    pub open spec fn with_v(self, x: u8, value: u8) -> State {
        State { v: self.v.update(x as int, value), ..self }
    }

    /// The same state with `V[x]` set to `value` and then the flag to `flag`.
    /// The flag is written last: where `x` names the flag register itself,
    /// the flag is what the register holds afterwards.
    pub open spec fn with_v_then_flag(self, x: u8, value: u8, flag: bool) -> State {
        State {
            v: self.v.update(x as int, value).update(
                0xF,
                if flag {
                    1u8
                } else {
                    0u8
                },
            ),
            ..self
        }
    }

    /// `00E0`: every display byte is zero.
    pub open spec fn cleared(self) -> State {
        State { memory: frame_cleared(self.memory), ..self }.next()
    }

    /// The address that the two bytes on top of the stack spell.
    pub open spec fn return_address(self) -> u16 {
        (self.memory[self.sp as int] * 256 + self.memory[self.sp + 1]) as u16
    }

    /// `00EE`: the program counter is the address on top of the stack, and
    /// the stack is two bytes shorter. It fails where the stack pointer would
    /// leave the address space.
    pub open spec fn returned(self) -> Result<State, Fault> {
        if self.sp < 2 {
            Err(self.out_of_range())
        } else {
            Ok(State { pc: self.return_address(), sp: (self.sp - 2) as u16, ..self })
        }
    }

    /// `2NNN`: the address of the next instruction is pushed, high byte
    /// first, and the program counter is `addr`. It fails where the pushed
    /// bytes would not lie in memory.
    pub open spec fn called(self, addr: u16) -> Result<State, Fault> {
        if self.sp + 3 >= 0x1000 {
            Err(self.out_of_range())
        } else {
            Ok(
                State {
                    memory: self.memory.update(self.sp + 2, ((self.pc + 2) / 256) as u8).update(
                        self.sp + 3,
                        ((self.pc + 2) % 256) as u8,
                    ),
                    sp: (self.sp + 2) as u16,
                    pc: addr,
                    ..self
                },
            )
        }
    }

    /// `8XY4`: the sum, with the carry as flag.
    pub open spec fn added(self, x: u8, y: u8) -> State {
        let sum = self.v[x as int] + self.v[y as int];
        self.with_v_then_flag(x, (sum % 256) as u8, sum > 255).next()
    }

    /// `8XY5`: the difference `V[x] - V[y]`, with `V[x] > V[y]` as flag.
    pub open spec fn subtracted(self, x: u8, y: u8) -> State {
        let a = self.v[x as int];
        let b = self.v[y as int];
        self.with_v_then_flag(x, ((a - b) % 256) as u8, a > b).next()
    }

    /// `8XY7`: the difference `V[y] - V[x]`, with `V[y] > V[x]` as flag.
    pub open spec fn subtracted_from(self, x: u8, y: u8) -> State {
        let a = self.v[x as int];
        let b = self.v[y as int];
        self.with_v_then_flag(x, ((b - a) % 256) as u8, b > a).next()
    }

    /// `8XY6`: half of `V[x]`, with the bit shifted out as flag.
    pub open spec fn shifted_right(self, x: u8) -> State {
        let a = self.v[x as int];
        self.with_v_then_flag(x, a / 2, a % 2 == 1).next()
    }

    /// `8XYE`: twice `V[x]`, wrapping, with the bit shifted out as flag.
    pub open spec fn shifted_left(self, x: u8) -> State {
        let a = self.v[x as int];
        self.with_v_then_flag(x, ((a * 2) % 256) as u8, a >= 128).next()
    }

    /// The display column at which `DXYN` starts.
    pub open spec fn draw_x(self, x: u8) -> int {
        (self.v[x as int] % 64) as int
    }

    /// The display row at which `DXYN` starts.
    pub open spec fn draw_y(self, y: u8) -> int {
        (self.v[y as int] % 32) as int
    }

    /// How many sprite columns `DXYN` draws before the right edge cuts it.
    pub open spec fn draw_cols(self, x: u8) -> int {
        clipped_cols(self.draw_x(x))
    }

    /// How many sprite rows `DXYN` draws before the bottom edge cuts it.
    pub open spec fn draw_rows(self, y: u8, n: u8) -> int {
        clipped_rows(self.draw_y(y), n as int)
    }

    /// `DXYN`: the sprite at `I` is drawn with its corner at
    /// `(V[x] mod 64, V[y] mod 32)`, cut at the right and bottom edges, and
    /// the flag says whether a pixel that was on went off. It fails where a
    /// row of the sprite would be fetched from outside memory, and then
    /// before anything is drawn.
    pub open spec fn drawn(self, x: u8, y: u8, n: u8) -> Result<State, Fault> {
        if self.i + self.draw_rows(y, n) > 0x1000 {
            Err(self.out_of_range())
        } else {
            let memory = sprite_drawn(
                self.memory,
                self.i as int,
                self.draw_x(x),
                self.draw_y(y),
                self.draw_cols(x),
                self.draw_rows(y, n),
            );
            Ok(
                State {
                    memory,
                    v: self.v.update(
                        0xF,
                        if erased(self.memory, memory) {
                            1u8
                        } else {
                            0u8
                        },
                    ),
                    ..self
                }.next(),
            )
        }
    }

    /// `FX0A`: with an input byte that reaches a key, `V[x]` is that key and
    /// the machine moves on; with any other input it stays where it is.
    pub open spec fn key_awaited(self, x: u8, input: Option<u8>) -> State {
        match key_from(input) {
            Some(k) => self.with_v(x, k).next(),
            None => self,
        }
    }

    /// `FX33`: the hundreds, tens and units of `V[x]` stand at `I`, `I + 1`
    /// and `I + 2`. It fails where these do not lie in memory.
    pub open spec fn decimal_stored(self, x: u8) -> Result<State, Fault> {
        let value = self.v[x as int];
        if self.i + 2 >= 0x1000 {
            Err(self.out_of_range())
        } else {
            Ok(
                State {
                    memory: self.memory.update(self.i as int, value / 100).update(
                        self.i + 1,
                        (value / 10) % 10,
                    ).update(self.i + 2, value % 10),
                    ..self
                }.next(),
            )
        }
    }

    /// `FX55`: `V[0]..=V[x]` stand at `I..=I + x`. It fails, before anything
    /// is written, where these do not all lie in memory.
    pub open spec fn stored(self, x: u8) -> Result<State, Fault> {
        if self.i + x >= 0x1000 {
            Err(self.out_of_range())
        } else {
            Ok(
                State {
                    memory: Seq::new(
                        4096,
                        |a: int|
                            if self.i <= a <= self.i + x {
                                self.v[a - self.i]
                            } else {
                                self.memory[a]
                            },
                    ),
                    ..self
                }.next(),
            )
        }
    }

    /// `FX65`: `V[0]..=V[x]` hold what stands at `I..=I + x`. It fails,
    /// before any register changes, where these do not all lie in memory.
    pub open spec fn loaded(self, x: u8) -> Result<State, Fault> {
        if self.i + x >= 0x1000 {
            Err(self.out_of_range())
        } else {
            Ok(
                State {
                    v: Seq::new(
                        16,
                        |k: int|
                            if k <= x {
                                self.memory[self.i + k]
                            } else {
                                self.v[k]
                            },
                    ),
                    ..self
                }.next(),
            )
        }
    }

    /// The state that `op` leaves, or the fault that it ends in. `seconds`
    /// is the clock reading that `CXNN` draws on, and `input` the byte, if
    /// any, that `FX0A` is handed; no other operation looks at them.
    pub open spec fn after(self, op: Op, seconds: u64, input: Option<u8>) -> Result<State, Fault> {
        match op {
            Op::ClearScreen => Ok(self.cleared()),
            Op::Return => self.returned(),
            Op::Jump { addr } => Ok(State { pc: addr, ..self }),
            Op::Call { addr } => self.called(addr),
            Op::SkipEqImm { x, nn } => Ok(self.next_or_skip(self.v[x as int] == nn)),
            Op::SkipNeImm { x, nn } => Ok(self.next_or_skip(self.v[x as int] != nn)),
            Op::SkipEqReg { x, y } => Ok(self.next_or_skip(self.v[x as int] == self.v[y as int])),
            Op::LoadImm { x, nn } => Ok(self.with_v(x, nn).next()),
            Op::AddImm { x, nn } => Ok(
                self.with_v(x, ((self.v[x as int] + nn) % 256) as u8).next(),
            ),
            Op::Move { x, y } => Ok(self.with_v(x, self.v[y as int]).next()),
            Op::Or { x, y } => Ok(self.with_v(x, self.v[x as int] | self.v[y as int]).next()),
            Op::And { x, y } => Ok(self.with_v(x, self.v[x as int] & self.v[y as int]).next()),
            Op::Xor { x, y } => Ok(self.with_v(x, self.v[x as int] ^ self.v[y as int]).next()),
            Op::AddReg { x, y } => Ok(self.added(x, y)),
            Op::SubReg { x, y } => Ok(self.subtracted(x, y)),
            Op::ShiftRight { x, y } => Ok(self.shifted_right(x)),
            Op::SubFrom { x, y } => Ok(self.subtracted_from(x, y)),
            Op::ShiftLeft { x, y } => Ok(self.shifted_left(x)),
            Op::SkipNeReg { x, y } => Ok(self.next_or_skip(self.v[x as int] != self.v[y as int])),
            Op::LoadIndex { addr } => Ok(State { i: addr % 0x1000, ..self }.next()),
            Op::JumpOffset { addr } => Ok(State { pc: (self.v[0] + addr) as u16, ..self }),
            Op::Random { x, nn } => Ok(self.with_v(x, ((seconds % 256) as u8) & nn).next()),
            Op::Draw { x, y, n } => self.drawn(x, y, n),
            Op::SkipKey { x } => Ok(self.next_or_skip(self.v[x as int] == self.key)),
            Op::SkipNoKey { x } => Ok(self.next_or_skip(self.v[x as int] != self.key)),
            Op::ReadDelay { x } => Ok(self.with_v(x, self.d_timer).next()),
            Op::WaitKey { x } => Ok(self.key_awaited(x, input)),
            Op::SetDelay { x } => Ok(State { d_timer: self.v[x as int], ..self }.next()),
            Op::SetSound { x } => Ok(State { s_timer: self.v[x as int], ..self }.next()),
            Op::AddIndex { x } => Ok(
                State { i: ((self.i + self.v[x as int]) % 0x1000) as u16, ..self }.next(),
            ),
            Op::Glyph { x } => Ok(
                State { i: (self.v[x as int] * GLYPH_BYTES) as u16, ..self }.next(),
            ),
            Op::Decimal { x } => self.decimal_stored(x),
            Op::Store { x } => self.stored(x),
            Op::Load { x } => self.loaded(x),
            Op::Unsupported => Err(Fault::Unsupported { at: self.pc }),
        }
    }

    /// What `op`, when it does not fail, asks of the one who runs the
    /// machine.
    pub open spec fn effect(self, op: Op, input: Option<u8>) -> EffectView {
        match op {
            Op::ClearScreen => EffectView::Cleared,
            Op::Draw { x, y, n } => EffectView::Drawn(
                spans_for(
                    sprite_drawn(
                        self.memory,
                        self.i as int,
                        self.draw_x(x),
                        self.draw_y(y),
                        self.draw_cols(x),
                        self.draw_rows(y, n),
                    ),
                    self.draw_x(x),
                    self.draw_y(y),
                    self.draw_cols(x),
                    self.draw_rows(y, n),
                ),
            ),
            Op::WaitKey { x } => if key_from(input) is Some {
                EffectView::Quiet
            } else {
                EffectView::AwaitKey
            },
            _ => EffectView::Quiet,
        }
    }

    /// One whole step: fetch, decode, execute. It fails where the
    /// instruction does not lie in memory, and where its operation fails.
    pub open spec fn stepped(self, seconds: u64, input: Option<u8>) -> Result<State, Fault> {
        if !self.fetchable() {
            Err(self.out_of_range())
        } else {
            self.after(self.current(), seconds, input)
        }
    }

    /// What one whole step, when it does not fail, asks of the one who runs
    /// the machine.
    pub open spec fn step_effect(self, input: Option<u8>) -> EffectView {
        self.effect(self.current(), input)
    }

    /// The timers after one tick: each one less, but never below zero.
    pub open spec fn ticked(self) -> State {
        State {
            d_timer: if self.d_timer > 0 {
                (self.d_timer - 1) as u8
            } else {
                0
            },
            s_timer: if self.s_timer > 0 {
                (self.s_timer - 1) as u8
            } else {
                0
            },
            ..self
        }
    }
}

} // verus!
