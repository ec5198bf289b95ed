use chip8::{decode, key_index, n_args, Fault, Op, KEYS};

#[test]
fn packs_nibbles_most_significant_first() {
    assert_eq!(n_args(&[]), 0);
    assert_eq!(n_args(&[0xA]), 0xA);
    assert_eq!(n_args(&[0x1, 0x2]), 0x12);
    assert_eq!(n_args(&[0x1, 0x2, 0x3]), 0x123);
    assert_eq!(n_args(&[0xF, 0xF, 0xF]), 0xFFF);
    assert_eq!(n_args(&[0xF, 0xE, 0xD, 0xC]), 0xFEDC);
}

#[test]
fn decodes_the_operations_without_operands() {
    assert_eq!(decode(0x00, 0xE0), Op::ClearScreen);
    assert_eq!(decode(0x00, 0xEE), Op::Return);
}

#[test]
fn decodes_the_operations_with_an_address() {
    assert_eq!(decode(0x12, 0x34), Op::Jump { addr: 0x234 });
    assert_eq!(decode(0x2F, 0xFF), Op::Call { addr: 0xFFF });
    assert_eq!(decode(0xA0, 0x00), Op::LoadIndex { addr: 0x000 });
    assert_eq!(decode(0xBA, 0xBC), Op::JumpOffset { addr: 0xABC });
}

#[test]
fn decodes_the_operations_with_a_register_and_a_byte() {
    assert_eq!(decode(0x3A, 0x7F), Op::SkipEqImm { x: 0xA, nn: 0x7F });
    assert_eq!(decode(0x4B, 0x00), Op::SkipNeImm { x: 0xB, nn: 0x00 });
    assert_eq!(decode(0x60, 0x05), Op::LoadImm { x: 0, nn: 5 });
    assert_eq!(decode(0x7F, 0xFF), Op::AddImm { x: 0xF, nn: 0xFF });
    assert_eq!(decode(0xC3, 0x0F), Op::Random { x: 3, nn: 0x0F });
}

#[test]
fn decodes_the_operations_with_two_registers() {
    assert_eq!(decode(0x51, 0x20), Op::SkipEqReg { x: 1, y: 2 });
    assert_eq!(decode(0x81, 0x20), Op::Move { x: 1, y: 2 });
    assert_eq!(decode(0x81, 0x21), Op::Or { x: 1, y: 2 });
    assert_eq!(decode(0x81, 0x22), Op::And { x: 1, y: 2 });
    assert_eq!(decode(0x81, 0x23), Op::Xor { x: 1, y: 2 });
    assert_eq!(decode(0x80, 0x14), Op::AddReg { x: 0, y: 1 });
    assert_eq!(decode(0x81, 0x25), Op::SubReg { x: 1, y: 2 });
    assert_eq!(decode(0x81, 0x26), Op::ShiftRight { x: 1, y: 2 });
    assert_eq!(decode(0x81, 0x27), Op::SubFrom { x: 1, y: 2 });
    assert_eq!(decode(0x81, 0x2E), Op::ShiftLeft { x: 1, y: 2 });
    assert_eq!(decode(0x9E, 0xF0), Op::SkipNeReg { x: 0xE, y: 0xF });
    assert_eq!(decode(0xD1, 0x25), Op::Draw { x: 1, y: 2, n: 5 });
}

#[test]
fn decodes_the_operations_with_one_register() {
    assert_eq!(decode(0xE4, 0x9E), Op::SkipKey { x: 4 });
    assert_eq!(decode(0xE4, 0xA1), Op::SkipNoKey { x: 4 });
    assert_eq!(decode(0xF4, 0x07), Op::ReadDelay { x: 4 });
    assert_eq!(decode(0xF4, 0x0A), Op::WaitKey { x: 4 });
    assert_eq!(decode(0xF4, 0x15), Op::SetDelay { x: 4 });
    assert_eq!(decode(0xF4, 0x18), Op::SetSound { x: 4 });
    assert_eq!(decode(0xF4, 0x1E), Op::AddIndex { x: 4 });
    assert_eq!(decode(0xF4, 0x29), Op::Glyph { x: 4 });
    assert_eq!(decode(0xF4, 0x33), Op::Decimal { x: 4 });
    assert_eq!(decode(0xF4, 0x55), Op::Store { x: 4 });
    assert_eq!(decode(0xF4, 0x65), Op::Load { x: 4 });
}

#[test]
fn machine_subroutine_calls_are_unsupported() {
    assert_eq!(decode(0x00, 0x00), Op::Unsupported);
    assert_eq!(decode(0x01, 0x23), Op::Unsupported);
    assert_eq!(decode(0x0F, 0xFF), Op::Unsupported);
    assert_eq!(decode(0x00, 0xE1), Op::Unsupported);
    assert_eq!(decode(0x01, 0xE0), Op::Unsupported);
    assert_eq!(decode(0x01, 0xEE), Op::Unsupported);
}

#[test]
fn unknown_patterns_are_unsupported() {
    assert_eq!(decode(0x51, 0x21), Op::Unsupported);
    assert_eq!(decode(0x81, 0x28), Op::Unsupported);
    assert_eq!(decode(0x81, 0x2F), Op::Unsupported);
    assert_eq!(decode(0x91, 0x2F), Op::Unsupported);
    assert_eq!(decode(0xE1, 0x00), Op::Unsupported);
    assert_eq!(decode(0xE1, 0x9F), Op::Unsupported);
    assert_eq!(decode(0xF1, 0x00), Op::Unsupported);
    assert_eq!(decode(0xF1, 0xFF), Op::Unsupported);
}

#[test]
fn every_pattern_decodes_to_fitting_operands() {
    let mut word: u32 = 0;
    while word <= 0xFFFF {
        let hi: u8 = (word >> 8) as u8;
        let lo: u8 = (word & 0xFF) as u8;
        match decode(hi, lo) {
            Op::Jump { addr } | Op::Call { addr } | Op::LoadIndex { addr } | Op::JumpOffset { addr } => {
                assert_eq!(u32::from(addr), word & 0xFFF)
            }
            Op::Draw { x, y, n } => {
                assert_eq!(x, hi & 0xF);
                assert_eq!(y, lo >> 4);
                assert_eq!(n, lo & 0xF);
            }
            Op::LoadImm { x, nn } | Op::AddImm { x, nn } | Op::Random { x, nn } => {
                assert_eq!(x, hi & 0xF);
                assert_eq!(nn, lo);
            }
            _ => {}
        }
        word += 1;
    }
}

#[test]
fn the_key_layout_is_the_hexadecimal_pad() {
    assert_eq!(KEYS, *b"x123qweasdzc4rfv");
    assert_eq!(key_index(b'x'), Some(0));
    assert_eq!(key_index(b'1'), Some(1));
    assert_eq!(key_index(b'q'), Some(4));
    assert_eq!(key_index(b'4'), Some(12));
    assert_eq!(key_index(b'v'), Some(15));
}

#[test]
fn every_key_byte_reaches_its_own_key() {
    let mut k: u8 = 0;
    while k < 16 {
        assert_eq!(key_index(KEYS[usize::from(k)]), Some(k));
        k += 1;
    }
}

#[test]
fn other_bytes_reach_no_key() {
    assert_eq!(key_index(b'p'), None);
    assert_eq!(key_index(b'X'), None);
    assert_eq!(key_index(0x1B), None);
    assert_eq!(key_index(0), None);
    assert_eq!(key_index(b'5'), None);
}

#[test]
fn a_fault_reports_its_distance_from_the_load_base() {
    assert_eq!(Fault::Unsupported { at: 0x206 }.offset(), 6);
    assert_eq!(Fault::OutOfRange { at: 0xFFF }.offset(), 0xDFF);
    assert_eq!(Fault::Unsupported { at: 0x200 }.offset(), 0);
    assert_eq!(Fault::Unsupported { at: 0 }.offset(), -0x200);
    assert_eq!(Fault::OutOfRange { at: 0xFFFF }.offset(), 0xFDFF);
}
