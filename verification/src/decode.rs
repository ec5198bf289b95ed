//! The instruction decoder: from the two bytes of an instruction to the
//! operation they stand for, with its operands already extracted.

use vstd::prelude::*;
use vstd::slice::slice_subrange;

verus! {

/// One operation of the machine. `x` and `y` are register indices, `nn` an
/// 8-bit immediate, `addr` a 12-bit address and `n` a 4-bit immediate.
#[derive(Clone, Copy, Debug, PartialEq, Eq, Structural)]
pub enum Op {
    /// `00E0`: turn every pixel off.
    ClearScreen,
    /// `00EE`: return from a subroutine.
    Return,
    /// `1NNN`: jump to `addr`.
    Jump { addr: u16 },
    /// `2NNN`: call the subroutine at `addr`.
    Call { addr: u16 },
    /// `3XNN`: skip the next instruction if `V[x] == nn`.
    SkipEqImm { x: u8, nn: u8 },
    /// `4XNN`: skip the next instruction if `V[x] != nn`.
    SkipNeImm { x: u8, nn: u8 },
    /// `5XY0`: skip the next instruction if `V[x] == V[y]`.
    SkipEqReg { x: u8, y: u8 },
    /// `6XNN`: `V[x] := nn`.
    LoadImm { x: u8, nn: u8 },
    /// `7XNN`: `V[x] := V[x] + nn`, wrapping, flag untouched.
    AddImm { x: u8, nn: u8 },
    /// `8XY0`: `V[x] := V[y]`.
    Move { x: u8, y: u8 },
    /// `8XY1`: `V[x] := V[x] | V[y]`.
    Or { x: u8, y: u8 },
    /// `8XY2`: `V[x] := V[x] & V[y]`.
    And { x: u8, y: u8 },
    /// `8XY3`: `V[x] := V[x] ^ V[y]`.
    Xor { x: u8, y: u8 },
    /// `8XY4`: `V[x] := V[x] + V[y]`, wrapping, with carry flag.
    AddReg { x: u8, y: u8 },
    /// `8XY5`: `V[x] := V[x] - V[y]`, wrapping, with flag `V[x] > V[y]`.
    SubReg { x: u8, y: u8 },
    /// `8XY6`: `V[x] := V[x] >> 1`, flag is the bit shifted out.
    ShiftRight { x: u8, y: u8 },
    /// `8XY7`: `V[x] := V[y] - V[x]`, wrapping, with flag `V[y] > V[x]`.
    SubFrom { x: u8, y: u8 },
    /// `8XYE`: `V[x] := V[x] << 1`, flag is the bit shifted out.
    ShiftLeft { x: u8, y: u8 },
    /// `9XY0`: skip the next instruction if `V[x] != V[y]`.
    SkipNeReg { x: u8, y: u8 },
    /// `ANNN`: `I := addr`.
    LoadIndex { addr: u16 },
    /// `BNNN`: jump to `V[0] + addr`.
    JumpOffset { addr: u16 },
    /// `CXNN`: `V[x] := random & nn`.
    Random { x: u8, nn: u8 },
    /// `DXYN`: draw an `n`-row sprite at `(V[x], V[y])`.
    Draw { x: u8, y: u8, n: u8 },
    /// `EX9E`: skip the next instruction if `V[x]` is the current key.
    SkipKey { x: u8 },
    /// `EXA1`: skip the next instruction if `V[x]` is not the current key.
    SkipNoKey { x: u8 },
    /// `FX07`: `V[x] := delay timer`.
    ReadDelay { x: u8 },
    /// `FX0A`: wait for a key and store its index in `V[x]`.
    WaitKey { x: u8 },
    /// `FX15`: `delay timer := V[x]`.
    SetDelay { x: u8 },
    /// `FX18`: `sound timer := V[x]`.
    SetSound { x: u8 },
    /// `FX1E`: `I := (I + V[x]) mod 4096`.
    AddIndex { x: u8 },
    /// `FX29`: `I :=` address of the glyph for `V[x]`.
    Glyph { x: u8 },
    /// `FX33`: store the three decimal digits of `V[x]` at `I`, `I+1`, `I+2`.
    Decimal { x: u8 },
    /// `FX55`: copy `V[0]..=V[x]` to memory at `I`.
    Store { x: u8 },
    /// `FX65`: copy memory at `I` to `V[0]..=V[x]`.
    Load { x: u8 },
    /// A machine-subroutine call, or a pattern that names no operation.
    Unsupported,
}

impl Op {
    /// Every operand fits its field: register indices and `n` in four bits,
    /// addresses in twelve.
    pub open spec fn wf(self) -> bool {
        match self {
            Op::ClearScreen | Op::Return | Op::Unsupported => true,
            Op::Jump { addr } | Op::Call { addr } | Op::LoadIndex { addr } | Op::JumpOffset {
                addr,
            } => addr < 0x1000,
            Op::SkipEqImm { x, nn } | Op::SkipNeImm { x, nn } | Op::LoadImm { x, nn } | Op::AddImm {
                x,
                nn,
            } | Op::Random { x, nn } => x < 16,
            Op::SkipEqReg { x, y } | Op::Move { x, y } | Op::Or { x, y } | Op::And { x, y } | Op::Xor {
                x,
                y,
            } | Op::AddReg { x, y } | Op::SubReg { x, y } | Op::ShiftRight { x, y } | Op::SubFrom {
                x,
                y,
            } | Op::ShiftLeft { x, y } | Op::SkipNeReg { x, y } => x < 16 && y < 16,
            Op::Draw { x, y, n } => x < 16 && y < 16 && n < 16,
            Op::SkipKey { x } | Op::SkipNoKey { x } | Op::ReadDelay { x } | Op::WaitKey { x }
            | Op::SetDelay { x } | Op::SetSound { x } | Op::AddIndex { x } | Op::Glyph { x }
            | Op::Decimal { x } | Op::Store { x } | Op::Load { x } => x < 16,
        }
    }
}

/// The number that a run of nibbles spells, most significant nibble first.
pub open spec fn packed(nibbles: Seq<u8>) -> int
    decreases nibbles.len(),
{
    if nibbles.len() == 0 {
        0
    } else {
        packed(nibbles.drop_last()) * 16 + nibbles.last()
    }
}

/// A run of `len` nibbles spells a number below `16^len`; this states it for
/// the lengths that fit sixteen bits.
pub proof fn lemma_packed_bound(nibbles: Seq<u8>)
    requires
        forall|k: int| 0 <= k < nibbles.len() ==> nibbles[k] < 16,
    ensures
        0 <= packed(nibbles),
        nibbles.len() == 0 ==> packed(nibbles) == 0,
        nibbles.len() == 1 ==> packed(nibbles) < 0x10,
        nibbles.len() == 2 ==> packed(nibbles) < 0x100,
        nibbles.len() == 3 ==> packed(nibbles) < 0x1000,
        nibbles.len() == 4 ==> packed(nibbles) < 0x10000,
    decreases nibbles.len(),
{
    if nibbles.len() > 0 {
        lemma_packed_bound(nibbles.drop_last());
    }
}

/// Packs up to four nibbles into one number, most significant first.
pub fn n_args(args: &[u8]) -> (res: u16)
    requires
        args@.len() <= 4,
        forall|k: int| 0 <= k < args@.len() ==> args@[k] < 16,
    ensures
        res == packed(args@),
{
    let mut res: u16 = 0;
    let mut pos: usize = 0;
    while pos < args.len()
        invariant
            pos <= args@.len() <= 4,
            forall|k: int| 0 <= k < args@.len() ==> args@[k] < 16,
            res == packed(args@.take(pos as int)),
        decreases args@.len() - pos,
    {
        let arg: u16 = args[pos] as u16;
        proof {
            let before = args@.take(pos as int);
            let after = args@.take(pos + 1);
            assert(after.drop_last() =~= before);
            lemma_packed_bound(before);
            assert((res << 4) | arg == res * 16 + arg) by (bit_vector)
                requires
                    res < 0x1000,
                    arg < 16,
            ;
        }
        res = (res << 4) | arg;
        pos += 1;
    }
    assert(args@.take(pos as int) =~= args@);
    res
}

/// The operation that the instruction bytes `hi`, `lo` stand for.
///
/// With the four nibbles written `a x y n`, `nn` the low byte and `addr` the
/// low twelve bits, the pattern alone selects the operation; no pattern but
/// the ones listed names one.
pub open spec fn decoded(hi: u8, lo: u8) -> Op {
    let a = hi / 16;
    let x = hi % 16;
    let y = lo / 16;
    let n = lo % 16;
    let nn = lo;
    let addr = (x * 256 + lo) as u16;
    if a == 0 {
        if x == 0 && lo == 0xE0 {
            Op::ClearScreen
        } else if x == 0 && lo == 0xEE {
            Op::Return
        } else {
            Op::Unsupported
        }
    } else if a == 1 {
        Op::Jump { addr }
    } else if a == 2 {
        Op::Call { addr }
    } else if a == 3 {
        Op::SkipEqImm { x, nn }
    } else if a == 4 {
        Op::SkipNeImm { x, nn }
    } else if a == 5 {
        if n == 0 {
            Op::SkipEqReg { x, y }
        } else {
            Op::Unsupported
        }
    } else if a == 6 {
        Op::LoadImm { x, nn }
    } else if a == 7 {
        Op::AddImm { x, nn }
    } else if a == 8 {
        if n == 0 {
            Op::Move { x, y }
        } else if n == 1 {
            Op::Or { x, y }
        } else if n == 2 {
            Op::And { x, y }
        } else if n == 3 {
            Op::Xor { x, y }
        } else if n == 4 {
            Op::AddReg { x, y }
        } else if n == 5 {
            Op::SubReg { x, y }
        } else if n == 6 {
            Op::ShiftRight { x, y }
        } else if n == 7 {
            Op::SubFrom { x, y }
        } else if n == 0xE {
            Op::ShiftLeft { x, y }
        } else {
            Op::Unsupported
        }
    } else if a == 9 {
        if n == 0 {
            Op::SkipNeReg { x, y }
        } else {
            Op::Unsupported
        }
    } else if a == 0xA {
        Op::LoadIndex { addr }
    } else if a == 0xB {
        Op::JumpOffset { addr }
    } else if a == 0xC {
        Op::Random { x, nn }
    } else if a == 0xD {
        Op::Draw { x, y, n }
    } else if a == 0xE {
        if lo == 0x9E {
            Op::SkipKey { x }
        } else if lo == 0xA1 {
            Op::SkipNoKey { x }
        } else {
            Op::Unsupported
        }
    } else {
        if lo == 0x07 {
            Op::ReadDelay { x }
        } else if lo == 0x0A {
            Op::WaitKey { x }
        } else if lo == 0x15 {
            Op::SetDelay { x }
        } else if lo == 0x18 {
            Op::SetSound { x }
        } else if lo == 0x1E {
            Op::AddIndex { x }
        } else if lo == 0x29 {
            Op::Glyph { x }
        } else if lo == 0x33 {
            Op::Decimal { x }
        } else if lo == 0x55 {
            Op::Store { x }
        } else if lo == 0x65 {
            Op::Load { x }
        } else {
            Op::Unsupported
        }
    }
}

/// Every decoded operation has operands that fit their fields.
pub proof fn lemma_decoded_wf(hi: u8, lo: u8)
    ensures
        decoded(hi, lo).wf(),
{
}

/// Decodes the instruction whose bytes are `hi` and `lo`.
pub fn decode(hi: u8, lo: u8) -> (op: Op)
    ensures
        op == decoded(hi, lo),
        op.wf(),
{
    let a: u8 = hi >> 4;
    let x: u8 = hi & 0xF;
    let y: u8 = lo >> 4;
    let n: u8 = lo & 0xF;
    assert(hi >> 4 == hi / 16 && hi & 0xF == hi % 16) by (bit_vector);
    assert(lo >> 4 == lo / 16 && lo & 0xF == lo % 16) by (bit_vector);
    let nibbles: [u8; 4] = [a, x, y, n];
    let tail3 = slice_subrange(nibbles.as_slice(), 1, 4);
    let tail2 = slice_subrange(nibbles.as_slice(), 2, 4);
    let tail1 = slice_subrange(nibbles.as_slice(), 3, 4);
    let addr: u16 = n_args(tail3);
    let nn16: u16 = n_args(tail2);
    let n16: u16 = n_args(tail1);
    proof {
        lemma_packed_three(x, y, n);
        assert(tail3@ =~= seq![x, y, n]);
        assert(tail2@ =~= seq![y, n]);
        assert(tail1@ =~= seq![n]);
        lemma_decoded_wf(hi, lo);
    }
    let nn: u8 = nn16 as u8;
    let n: u8 = n16 as u8;
    match a {
        0 => {
            if x == 0 && y == 0xE && n == 0 {
                Op::ClearScreen
            } else if x == 0 && y == 0xE && n == 0xE {
                Op::Return
            } else {
                Op::Unsupported
            }
        },
        1 => Op::Jump { addr },
        2 => Op::Call { addr },
        3 => Op::SkipEqImm { x, nn },
        4 => Op::SkipNeImm { x, nn },
        5 => if n == 0 {
            Op::SkipEqReg { x, y }
        } else {
            Op::Unsupported
        },
        6 => Op::LoadImm { x, nn },
        7 => Op::AddImm { x, nn },
        8 => match n {
            0 => Op::Move { x, y },
            1 => Op::Or { x, y },
            2 => Op::And { x, y },
            3 => Op::Xor { x, y },
            4 => Op::AddReg { x, y },
            5 => Op::SubReg { x, y },
            6 => Op::ShiftRight { x, y },
            7 => Op::SubFrom { x, y },
            0xE => Op::ShiftLeft { x, y },
            _ => Op::Unsupported,
        },
        9 => if n == 0 {
            Op::SkipNeReg { x, y }
        } else {
            Op::Unsupported
        },
        0xA => Op::LoadIndex { addr },
        0xB => Op::JumpOffset { addr },
        0xC => Op::Random { x, nn },
        0xD => Op::Draw { x, y, n },
        0xE => match nn {
            0x9E => Op::SkipKey { x },
            0xA1 => Op::SkipNoKey { x },
            _ => Op::Unsupported,
        },
        _ => match nn {
            0x07 => Op::ReadDelay { x },
            0x0A => Op::WaitKey { x },
            0x15 => Op::SetDelay { x },
            0x18 => Op::SetSound { x },
            0x1E => Op::AddIndex { x },
            0x29 => Op::Glyph { x },
            0x33 => Op::Decimal { x },
            0x55 => Op::Store { x },
            0x65 => Op::Load { x },
            _ => Op::Unsupported,
        },
    }
}

/// What one, two and three nibbles spell, written out.
pub proof fn lemma_packed_three(x: u8, y: u8, n: u8)
    ensures
        packed(seq![n]) == n,
        packed(seq![y, n]) == y * 16 + n,
        packed(seq![x, y, n]) == x * 256 + y * 16 + n,
{
    reveal_with_fuel(packed, 4);
    assert(seq![n].drop_last() =~= Seq::<u8>::empty());
    assert(seq![y, n].drop_last() =~= seq![y]);
    assert(seq![y].drop_last() =~= Seq::<u8>::empty());
    assert(seq![x, y, n].drop_last() =~= seq![x, y]);
    assert(seq![x, y].drop_last() =~= seq![x]);
    assert(seq![x].drop_last() =~= Seq::<u8>::empty());
}

} // verus!
