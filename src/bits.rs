//! Facts about two-bit fields inside a byte.
use vstd::prelude::*;

verus! {

/// The two-bit field of `cell` that starts at bit `shift`.
pub open spec fn field(cell: u8, shift: u8) -> u8 {
    (cell >> shift) & 3u8
}

/// A field holds one of four values.
pub proof fn lemma_field_bound(cell: u8, shift: u8)
    ensures
        (cell >> shift) & 3u8 < 4,
{
    assert((cell >> shift) & 3u8 < 4) by (bit_vector);
}

/// Writing `code` into an empty field sets that field and keeps the lower ones.
pub proof fn lemma_write_field(cell: u8, code: u8, shift: u8, lower: u8)
    requires
        code < 4,
        shift < 8,
        shift % 2 == 0,
        lower < shift,
        lower % 2 == 0,
        cell >> shift == 0,
    ensures
        ((cell | (code << shift)) >> lower) & 3u8 == (cell >> lower) & 3u8,
{
    assert(((cell | (code << shift)) >> lower) & 3u8 == (cell >> lower) & 3u8) by (bit_vector)
        requires
            code < 4,
            shift < 8,
            shift % 2 == 0,
            lower < shift,
            lower % 2 == 0,
            cell >> shift == 0,
    ;
}

/// Writing `code` into an empty field makes the field read back as `code`,
/// and leaves the fields above it empty.
pub proof fn lemma_write_field_self(cell: u8, code: u8, shift: u8)
    requires
        code < 4,
        shift <= 6,
        cell >> shift == 0,
    ensures
        ((cell | (code << shift)) >> shift) & 3u8 == code,
        shift + 2 < 8 ==> (cell | (code << shift)) >> ((shift + 2) as u8) == 0,
{
    assert(((cell | (code << shift)) >> shift) & 3u8 == code) by (bit_vector)
        requires
            code < 4,
            shift <= 6,
            cell >> shift == 0,
    ;
    assert(shift + 2 < 8 ==> (cell | (code << shift)) >> ((shift + 2) as u8) == 0) by (bit_vector)
        requires
            code < 4,
            shift <= 6,
            cell >> shift == 0,
    ;
}

/// Negating a byte complements each of its fields.
pub proof fn lemma_not_field(cell: u8, shift: u8)
    requires
        shift <= 6,
    ensures
        ((!cell) >> shift) & 3u8 == 3 - ((cell >> shift) & 3u8),
{
    assert(((!cell) >> shift) & 3u8 == 3 - ((cell >> shift) & 3u8)) by (bit_vector)
        requires
            shift <= 6,
    ;
}

/// The fields of an exclusive-or are the exclusive-ors of the fields.
pub proof fn lemma_xor_field(a: u8, b: u8, shift: u8)
    requires
        shift < 8,
    ensures
        ((a ^ b) >> shift) & 3u8 == ((a >> shift) & 3u8) ^ ((b >> shift) & 3u8),
{
    assert(((a ^ b) >> shift) & 3u8 == ((a >> shift) & 3u8) ^ ((b >> shift) & 3u8))
        by (bit_vector)
        requires
            shift < 8,
    ;
}

/// A byte's negation, negated again, is the byte.
pub proof fn lemma_not_not(cell: u8)
    ensures
        !(!cell) == cell,
{
    assert(!(!cell) == cell) by (bit_vector);
}

/// A byte exclusive-ored with itself is zero.
pub proof fn lemma_xor_self(cell: u8)
    ensures
        cell ^ cell == 0,
{
    assert(cell ^ cell == 0) by (bit_vector);
}

} // verus!
