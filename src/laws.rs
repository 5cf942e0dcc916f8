//! Laws that relate the operations of the codec to one another.
use vstd::prelude::*;

use crate::alphabet::{char_of_code, code_of_char, is_nucleotide};
use crate::bits::{lemma_not_not, lemma_xor_self};
use crate::kmer::{
    all_nucleotide_chars, all_nucleotides, cells_for, codes_of_bytes, complement_codes, not_cells,
    reverse_codes, reverse_complement_codes, xor_cells, xor_codes, Kmer,
};

verus! {

/// Decoding the packing of a string of nucleotide letters gives the string back.
pub proof fn lemma_round_trip(s: Seq<char>, m: Kmer)
    requires
        all_nucleotide_chars(s),
        m.wf(),
        m@ == s.map_values(|c: char| code_of_char(c)),
    ensures
        m.letters() == s,
{
    assert forall|i: int| 0 <= i < s.len() implies #[trigger] m.letters()[i] == s[i] by {
        assert(m@[i] == code_of_char(s[i]));
    }
    assert(m.letters() =~= s);
}

/// Decoding the packing of ASCII nucleotide letters gives the same letters back.
pub proof fn lemma_round_trip_bytes(s: Seq<u8>, m: Kmer)
    requires
        all_nucleotides(s),
        m.wf(),
        m@ == codes_of_bytes(s),
    ensures
        m.letters() == s.map_values(|b: u8| b as char),
{
    assert forall|i: int| 0 <= i < s.len() implies #[trigger] m.letters()[i] == s[i] as char by {
        assert(is_nucleotide(s[i]));
    }
    assert(m.letters() =~= s.map_values(|b: u8| b as char));
}

/// Complementing twice gives back the codes, and negating twice the bytes.
pub proof fn lemma_complement_involution(m: Kmer)
    requires
        m.wf(),
    ensures
        complement_codes(complement_codes(m@)) == m@,
        not_cells(not_cells(m.sequence@)) == m.sequence@,
{
    crate::kmer::lemma_codes_bounded(m.sequence@, m.k as nat);
    assert(complement_codes(complement_codes(m@)) =~= m@);
    assert forall|i: int| 0 <= i < m.sequence@.len() implies #[trigger] not_cells(
        not_cells(m.sequence@),
    )[i] == m.sequence@[i] by {
        lemma_not_not(m.sequence@[i]);
    }
    assert(not_cells(not_cells(m.sequence@)) =~= m.sequence@);
}

/// Taking the reverse complement twice gives back the codes.
pub proof fn lemma_reverse_complement_involution(m: Kmer)
    requires
        m.wf(),
    ensures
        reverse_complement_codes(reverse_complement_codes(m@)) == m@,
{
    crate::kmer::lemma_codes_bounded(m.sequence@, m.k as nat);
    assert(reverse_complement_codes(reverse_complement_codes(m@)) =~= m@);
}

/// Reversing and complementing commute: either order gives the reverse complement.
pub proof fn lemma_reverse_complement_either_order(m: Kmer)
    requires
        m.wf(),
    ensures
        reverse_codes(complement_codes(m@)) == reverse_complement_codes(m@),
{
    assert(reverse_codes(complement_codes(m@)) =~= reverse_complement_codes(m@));
}

/// The letter at a position is the letter of the code that `index` gives there.
pub proof fn lemma_index_agreement(m: Kmer, position: int)
    requires
        m.wf(),
        0 <= position < m.k,
    ensures
        m.letters()[position] == char_of_code(m@[position]),
{
}

/// A sequence exclusive-ored with itself is all zero, in every byte and every code.
pub proof fn lemma_xor_self_is_zero(m: Kmer)
    requires
        m.wf(),
    ensures
        xor_cells(m.sequence@, m.sequence@) == Seq::new(m.sequence@.len(), |i: int| 0u8),
        xor_codes(m@, m@) == Seq::new(m.k as nat, |i: int| 0u8),
{
    assert forall|i: int| 0 <= i < m.sequence@.len() implies #[trigger] xor_cells(
        m.sequence@,
        m.sequence@,
    )[i] == 0u8 by {
        lemma_xor_self(m.sequence@[i]);
    }
    assert forall|i: int| 0 <= i < m.k implies #[trigger] xor_codes(m@, m@)[i] == 0u8 by {
        lemma_xor_self(m@[i]);
    }
    assert(xor_cells(m.sequence@, m.sequence@) =~= Seq::new(m.sequence@.len(), |i: int| 0u8));
    assert(xor_codes(m@, m@) =~= Seq::new(m.k as nat, |i: int| 0u8));
}

/// `k` symbols take `ceil(k / 4)` bytes: enough for `k`, and fewer than four spare slots.
pub proof fn lemma_packing_density(k: nat)
    ensures
        4 * cells_for(k) >= k,
        4 * cells_for(k) < k + 4,
        k == 0 ==> cells_for(k) == 0,
{
}

} // verus!
