//! The key pad: sixteen keys, each reached by one byte of raw input.

use vstd::prelude::*;

verus! {

/// The input byte of each key, by key index: `x 1 2 3 q w e a s d z c 4 r f v`.
pub const KEYS: [u8; 16] = [
    0x78, 0x31, 0x32, 0x33, 0x71, 0x77, 0x65, 0x61, 0x73, 0x64, 0x7A, 0x63, 0x34, 0x72, 0x66, 0x76,
];

/// The key that an input byte reaches, if it reaches one.
pub open spec fn key_for(byte: u8) -> Option<u8> {
    if exists|k: int| 0 <= k < 16 && KEYS@[k] == byte {
        Some((choose|k: int| 0 <= k < 16 && KEYS@[k] == byte) as u8)
    } else {
        None
    }
}

/// The key that one cycle's input reaches: none where no byte came, and
/// none where the byte reaches no key.
pub open spec fn key_from(input: Option<u8>) -> Option<u8> {
    match input {
        Some(byte) => key_for(byte),
        None => None,
    }
}

/// The value that the key register takes from one cycle's input: the index of
/// the key it reaches, and 0 where it reaches none.
pub open spec fn key_register_for(input: Option<u8>) -> u8 {
    match key_from(input) {
        Some(k) => k,
        None => 0,
    }
}

/// No two keys share a byte, so a byte that reaches key `k` reaches only it.
pub proof fn lemma_key_for(k: int)
    requires
        0 <= k < 16,
    ensures
        key_for(KEYS@[k]) == Some(k as u8),
{
    let byte = KEYS@[k];
    let found = choose|j: int| 0 <= j < 16 && KEYS@[j] == byte;
    assert(0 <= found < 16 && KEYS@[found] == byte);
    assert(forall|a: int, b: int| 0 <= a < b < 16 ==> KEYS@[a] != KEYS@[b]);
}

/// Looks an input byte up in the key layout.
pub fn key_index(byte: u8) -> (key: Option<u8>)
    ensures
        key == key_for(byte),
        key matches Some(k) ==> k < 16 && KEYS@[k as int] == byte,
        key is None ==> forall|j: int| 0 <= j < 16 ==> KEYS@[j] != byte,
{
    let mut pos: u8 = 0;
    while pos < 16
        invariant
            pos <= 16,
            forall|j: int| 0 <= j < pos ==> KEYS@[j] != byte,
        decreases 16 - pos,
    {
        if KEYS[pos as usize] == byte {
            proof {
                lemma_key_for(pos as int);
            }
            return Some(pos);
        }
        pos += 1;
    }
    None
}

/// Looks one cycle's input up in the key layout.
pub fn key_of_input(input: Option<u8>) -> (key: Option<u8>)
    ensures
        key == key_from(input),
        key matches Some(k) ==> k < 16,
{
    match input {
        Some(byte) => key_index(byte),
        None => None,
    }
}

} // verus!
