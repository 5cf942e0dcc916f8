//! The four-letter nucleotide alphabet and its two-bit codes:
//! `A = 0b00`, `G = 0b01`, `C = 0b10`, `T = 0b11`.
use vstd::prelude::*;

use crate::error::CodecError;

verus! {

/// Whether an ASCII byte is one of the four nucleotide letters.
pub open spec fn is_nucleotide(b: u8) -> bool {
    b == 65u8 || b == 71u8 || b == 67u8 || b == 84u8
}

/// The two-bit code of a nucleotide letter given as an ASCII byte.
pub open spec fn code_of_byte(b: u8) -> u8 {
    if b == 65u8 {
        0u8
    } else if b == 71u8 {
        1u8
    } else if b == 67u8 {
        2u8
    } else {
        3u8
    }
}

/// The letter that a two-bit code stands for.
pub open spec fn char_of_code(c: u8) -> char {
    if c == 0u8 {
        'A'
    } else if c == 1u8 {
        'G'
    } else if c == 2u8 {
        'C'
    } else {
        'T'
    }
}

/// Whether a character is one of the four nucleotide letters.
pub open spec fn is_nucleotide_char(c: char) -> bool {
    c == 'A' || c == 'G' || c == 'C' || c == 'T'
}

/// The two-bit code of a nucleotide letter.
pub open spec fn code_of_char(c: char) -> u8 {
    if c == 'A' {
        0u8
    } else if c == 'G' {
        1u8
    } else if c == 'C' {
        2u8
    } else {
        3u8
    }
}

/// The Watson-Crick partner of a code: A and T, G and C.
pub open spec fn complement_code(c: u8) -> u8 {
    (3 - c) as u8
}

/// The Watson-Crick partner of a letter.
pub open spec fn complement_char(c: char) -> char {
    if c == 'A' {
        'T'
    } else if c == 'T' {
        'A'
    } else if c == 'G' {
        'C'
    } else {
        'G'
    }
}

/// The letter of a two-bit code.
pub fn byte_to_nuc(byte: u8) -> (r: char)
    requires
        byte < 4,
    ensures
        r == char_of_code(byte),
        is_nucleotide_char(r),
        code_of_char(r) == byte,
{
    match byte {
        0 => 'A',
        1 => 'G',
        2 => 'C',
        _ => 'T',
    }
}

/// The two-bit code of a letter; any other character is refused.
pub fn nuc_to_byte(nuc: char) -> (r: Result<u8, CodecError>)
    ensures
        is_nucleotide_char(nuc) <==> r is Ok,
        !is_nucleotide_char(nuc) ==> r == Err::<u8, CodecError>(CodecError::InvalidSymbol),
        r is Ok ==> r->Ok_0 == code_of_char(nuc) && r->Ok_0 < 4 && char_of_code(r->Ok_0) == nuc,
{
    match nuc {
        'A' => Ok(0),
        'G' => Ok(1),
        'C' => Ok(2),
        'T' => Ok(3),
        _ => Err(CodecError::InvalidSymbol),
    }
}

/// The two-bit code of an ASCII nucleotide byte; any other byte is refused.
pub fn code_from_ascii(b: u8) -> (r: Result<u8, CodecError>)
    ensures
        is_nucleotide(b) <==> r is Ok,
        !is_nucleotide(b) ==> r == Err::<u8, CodecError>(CodecError::InvalidSymbol),
        r is Ok ==> r->Ok_0 == code_of_byte(b) && r->Ok_0 < 4,
{
    match b {
        65 => Ok(0),
        71 => Ok(1),
        67 => Ok(2),
        84 => Ok(3),
        _ => Err(CodecError::InvalidSymbol),
    }
}

} // verus!
