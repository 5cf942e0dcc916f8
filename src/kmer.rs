//! The packed sequence: four symbols to a byte, two bits each, the first
//! symbol of a byte in its lowest two bits.
use vstd::prelude::*;

use crate::alphabet::{
    char_of_code, code_from_ascii, code_of_byte, code_of_char, complement_code, is_nucleotide,
    is_nucleotide_char,
};
use crate::bits::{
    lemma_field_bound, lemma_not_field, lemma_write_field, lemma_write_field_self, lemma_xor_field,
};
use crate::error::CodecError;
use vstd::string::StringExecFns;

verus! {

/// The number of bytes that hold `k` symbols: `ceil(k / 4)`.
pub open spec fn cells_for(k: nat) -> nat {
    (k + 3) / 4
}

/// The bit offset of symbol `i` inside its byte.
pub open spec fn shift_of(i: int) -> u8 {
    (2 * (i % 4)) as u8
}

/// The two-bit code of symbol `i` of a packed buffer.
pub open spec fn code_at(cells: Seq<u8>, i: int) -> u8 {
    (cells[i / 4] >> shift_of(i)) & 3u8
}

/// The codes of the first `k` symbols of a packed buffer.
pub open spec fn codes_of(cells: Seq<u8>, k: nat) -> Seq<u8> {
    Seq::new(k, |i: int| code_at(cells, i))
}

/// Whether every element of a sequence is a two-bit code.
pub open spec fn all_codes(codes: Seq<u8>) -> bool {
    forall|i: int| 0 <= i < codes.len() ==> #[trigger] codes[i] < 4
}

/// Whether every byte of a sequence is a nucleotide letter.
pub open spec fn all_nucleotides(symbols: Seq<u8>) -> bool {
    forall|i: int| 0 <= i < symbols.len() ==> is_nucleotide(#[trigger] symbols[i])
}

/// Whether every character of a sequence is a nucleotide letter.
pub open spec fn all_nucleotide_chars(symbols: Seq<char>) -> bool {
    forall|i: int| 0 <= i < symbols.len() ==> is_nucleotide_char(#[trigger] symbols[i])
}

/// The codes of a sequence of nucleotide letters.
pub open spec fn codes_of_bytes(symbols: Seq<u8>) -> Seq<u8> {
    symbols.map_values(|b: u8| code_of_byte(b))
}

/// The letters that a sequence of codes stands for.
pub open spec fn letters_of(codes: Seq<u8>) -> Seq<char> {
    codes.map_values(|c: u8| char_of_code(c))
}

/// The symbol-wise Watson-Crick complement of a sequence of codes.
pub open spec fn complement_codes(codes: Seq<u8>) -> Seq<u8> {
    codes.map_values(|c: u8| complement_code(c))
}

/// The codes in reverse order.
pub open spec fn reverse_codes(codes: Seq<u8>) -> Seq<u8> {
    Seq::new(codes.len(), |i: int| codes[codes.len() - 1 - i])
}

/// The complement of the codes read backwards.
pub open spec fn reverse_complement_codes(codes: Seq<u8>) -> Seq<u8> {
    complement_codes(reverse_codes(codes))
}

/// The code-wise exclusive-or of two sequences of one length.
pub open spec fn xor_codes(a: Seq<u8>, b: Seq<u8>) -> Seq<u8> {
    Seq::new(a.len(), |i: int| a[i] ^ b[i])
}

/// The byte-wise negation of a buffer.
pub open spec fn not_cells(cells: Seq<u8>) -> Seq<u8> {
    cells.map_values(|c: u8| !c)
}

/// The byte-wise exclusive-or of two buffers of one length.
pub open spec fn xor_cells(a: Seq<u8>, b: Seq<u8>) -> Seq<u8> {
    Seq::new(a.len(), |i: int| a[i] ^ b[i])
}

/// A sequence of `k` nucleotides packed two bits to a symbol.
///
/// Bits of the last byte past symbol `k` carry no meaning and are never read.
#[derive(Clone, Debug, PartialEq, Eq, PartialOrd, Ord, Hash)]
pub struct Kmer {
    pub k: usize,
    pub sequence: Vec<u8>,
}

/// The same packed sequence under the name of its variable-length use.
pub type Vmer = Kmer;

/// A window of `k` symbols moving over a sequence of ASCII letters, with
/// the packed sequence at its current position.
pub struct Kmerizer<'a> {
    pub k: usize,
    pub position: usize,
    pub sequence: &'a [u8],
    pub current_kmer: Kmer,
}

impl View for Kmer {
    type V = Seq<u8>;

    /// The codes of the `k` symbols, in order.
    open spec fn view(&self) -> Seq<u8> {
        codes_of(self.sequence@, self.k as nat)
    }
}

/// Facts that tie a position to its byte and field.
proof fn lemma_position(i: int, cells: nat)
    requires
        0 <= i,
        i < 4 * cells,
    ensures
        i / 4 < cells,
        i % 4 < 4,
        shift_of(i) <= 6,
        shift_of(i) % 2 == 0,
{
}

/// Every code read from a buffer is below four.
pub proof fn lemma_codes_bounded(cells: Seq<u8>, k: nat)
    requires
        k <= 4 * cells.len(),
    ensures
        all_codes(codes_of(cells, k)),
{
    assert forall|i: int| 0 <= i < k implies #[trigger] codes_of(cells, k)[i] < 4 by {
        lemma_field_bound(cells[i / 4], shift_of(i));
    }
}

/// Packs two-bit codes four to a byte, the first in the lowest bits.
fn pack_codes(codes: &Vec<u8>) -> (r: Vec<u8>)
    requires
        all_codes(codes@),
    ensures
        r@.len() == cells_for(codes@.len() as nat),
        codes_of(r@, codes@.len() as nat) == codes@,
{
    let n = codes.len();
    let cells: usize = n / 4 + if n % 4 == 0 {
        0
    } else {
        1
    };
    let mut out: Vec<u8> = Vec::new();
    let mut c: usize = 0;
    while c < cells
        invariant
            cells == cells_for(n as nat),
            n == codes@.len(),
            all_codes(codes@),
            c <= cells,
            out@.len() == c,
            forall|i: int| 0 <= i < 4 * c && i < n ==> #[trigger] code_at(out@, i) == codes@[i],
        decreases cells - c,
    {
        let base: usize = 4 * c;
        let mut cell: u8 = 0;
        let mut j: usize = 0;
        assert(0u8 >> 0u8 == 0u8) by (bit_vector);
        while j < 4 && base + j < n
            invariant
                base == 4 * c,
                c < cells,
                cells == cells_for(n as nat),
                n == codes@.len(),
                all_codes(codes@),
                j <= 4,
                base + j <= n,
                j < 4 ==> cell >> ((2 * j) as u8) == 0,
                forall|jj: int|
                    0 <= jj < j ==> #[trigger] ((cell >> ((2 * jj) as u8)) & 3u8) == codes@[base
                        + jj],
            decreases 4 - j,
        {
            let code = codes[base + j];
            let shift: u8 = (2 * j) as u8;
            let next = cell | (code << shift);
            proof {
                assert forall|jj: int| 0 <= jj < j implies #[trigger] ((next >> ((2 * jj) as u8))
                    & 3u8) == codes@[base + jj] by {
                    lemma_write_field(cell, code, shift, (2 * jj) as u8);
                }
                lemma_write_field_self(cell, code, shift);
            }
            cell = next;
            j = j + 1;
        }
        proof {
            assert forall|i: int| 0 <= i < 4 * (c + 1) && i < n implies #[trigger] code_at(
                out@.push(cell),
                i,
            ) == codes@[i] by {
                if i >= 4 * c {
                    assert(i / 4 == c);
                    assert(i % 4 == i - base);
                    assert(out@.push(cell)[i / 4] == cell);
                    assert(shift_of(i) == (2 * (i - base)) as u8);
                    assert(((cell >> ((2 * (i - base)) as u8)) & 3u8) == codes@[base + (i - base)]);
                } else {
                    assert(i / 4 < c);
                    assert(out@.push(cell)[i / 4] == out@[i / 4]);
                    assert(code_at(out@, i) == codes@[i]);
                }
            }
        }
        out.push(cell);
        c = c + 1;
    }
    assert(codes_of(out@, n as nat) =~= codes@);
    out
}

/// Reads a sequence of ASCII nucleotide letters as two-bit codes.
fn codes_from_symbols(symbols: &[u8]) -> (r: Result<Vec<u8>, CodecError>)
    ensures
        all_nucleotides(symbols@) <==> r is Ok,
        r is Err ==> r == Err::<Vec<u8>, CodecError>(CodecError::InvalidSymbol),
        r is Ok ==> r->Ok_0@ == codes_of_bytes(symbols@) && all_codes(r->Ok_0@),
{
    let mut codes: Vec<u8> = Vec::new();
    let mut i: usize = 0;
    while i < symbols.len()
        invariant
            i <= symbols@.len(),
            codes@ == codes_of_bytes(symbols@.subrange(0, i as int)),
            all_codes(codes@),
            forall|j: int| 0 <= j < i ==> is_nucleotide(#[trigger] symbols@[j]),
        decreases symbols@.len() - i,
    {
        match code_from_ascii(symbols[i]) {
            Ok(code) => {
                codes.push(code);
                assert(symbols@.subrange(0, i + 1) == symbols@.subrange(0, i as int).push(
                    symbols@[i as int],
                ));
                assert(codes@ =~= codes_of_bytes(symbols@.subrange(0, i + 1)));
            },
            Err(e) => {
                return Err(e);
            },
        }
        i = i + 1;
    }
    assert(symbols@.subrange(0, i as int) =~= symbols@);
    Ok(codes)
}

/// Appends the letter of a two-bit code.
fn push_letter(out: &mut String, code: u8)
    requires
        code < 4,
    ensures
        final(out)@ == old(out)@.push(char_of_code(code)),
{
    match code {
        0 => {
            proof {
                reveal_strlit("A");
            }
            out.append("A");
        },
        1 => {
            proof {
                reveal_strlit("G");
            }
            out.append("G");
        },
        2 => {
            proof {
                reveal_strlit("C");
            }
            out.append("C");
        },
        _ => {
            proof {
                reveal_strlit("T");
            }
            out.append("T");
        },
    }
}

impl Kmer {
    /// The buffer holds exactly `ceil(k / 4)` bytes.
    pub open spec fn wf(&self) -> bool {
        self.sequence@.len() == cells_for(self.k as nat)
    }

    /// The letters of the `k` symbols, in order.
    pub open spec fn letters(&self) -> Seq<char> {
        letters_of(self@)
    }

    /// Packs `len` ASCII nucleotide letters.
    ///
    /// Fails with `LengthMismatch` when `byte_seq` does not hold `len` bytes,
    /// and otherwise with `InvalidSymbol` when a byte is not one of `A`, `G`, `C`, `T`.
    pub fn new(len: usize, byte_seq: &[u8]) -> (r: Result<Kmer, CodecError>)
        ensures
            r is Ok <==> (len == byte_seq@.len() && all_nucleotides(byte_seq@)),
            len != byte_seq@.len() ==> r == Err::<Kmer, CodecError>(CodecError::LengthMismatch),
            len == byte_seq@.len() && !all_nucleotides(byte_seq@) ==> r == Err::<Kmer, CodecError>(
                CodecError::InvalidSymbol,
            ),
            r is Ok ==> ({
                let m = r->Ok_0;
                &&& m.wf()
                &&& m.k == len
                &&& m@ == codes_of_bytes(byte_seq@)
            }),
    {
        if len != byte_seq.len() {
            return Err(CodecError::LengthMismatch);
        }
        let mut kmer = Kmer { k: 0, sequence: Vec::new() };
        match kmer.encode(byte_seq) {
            Ok(()) => Ok(kmer),
            Err(e) => Err(e),
        }
    }

    /// Packs the letters of a string; any other character is refused.
    pub fn from_literal(str_literal: &str) -> (r: Result<Kmer, CodecError>)
        ensures
            r is Ok <==> all_nucleotide_chars(str_literal@),
            r is Err ==> r == Err::<Kmer, CodecError>(CodecError::InvalidSymbol),
            r is Ok ==> ({
                let m = r->Ok_0;
                &&& m.wf()
                &&& m.k == str_literal@.len()
                &&& m@ == str_literal@.map_values(|c: char| code_of_char(c))
                &&& m.letters() == str_literal@
            }),
    {
        broadcast use vstd::string::is_ascii_spec_bytes;

        if !str_literal.is_ascii() {
            proof {
                if all_nucleotide_chars(str_literal@) {
                    assert(vstd::string::is_ascii(str_literal));
                }
            }
            return Err(CodecError::InvalidSymbol);
        }
        let bytes = str_literal.as_bytes();
        let ghost chars = str_literal@;
        assert(bytes@ =~= Seq::new(chars.len(), |i: int| chars[i] as u8));
        assert(all_nucleotides(bytes@) <==> all_nucleotide_chars(chars)) by {
            if all_nucleotide_chars(chars) {
                assert forall|i: int| 0 <= i < bytes@.len() implies is_nucleotide(
                    #[trigger] bytes@[i],
                ) by {
                    assert(is_nucleotide_char(chars[i]));
                }
            }
            if all_nucleotides(bytes@) {
                assert forall|i: int| 0 <= i < chars.len() implies is_nucleotide_char(
                    #[trigger] chars[i],
                ) by {
                    assert(is_nucleotide(bytes@[i]));
                    assert('\0' <= chars[i] <= '\u{7f}');
                }
            }
        }
        let r = Kmer::new(bytes.len(), bytes);
        proof {
            if r is Ok {
                let m = r->Ok_0;
                assert(m@ =~= chars.map_values(|c: char| code_of_char(c))) by {
                    assert forall|i: int| 0 <= i < chars.len() implies #[trigger] m@[i]
                        == code_of_char(chars[i]) by {
                        assert(is_nucleotide(bytes@[i]));
                    }
                }
                assert(m.letters() =~= chars) by {
                    assert forall|i: int| 0 <= i < chars.len() implies #[trigger] m.letters()[i]
                        == chars[i] by {
                        assert(is_nucleotide(bytes@[i]));
                    }
                }
            }
        }
        r
    }

    /// Replaces the contents with the packing of `byte_seq`, whose length
    /// becomes `k`. On an invalid letter nothing changes.
    pub fn encode(&mut self, byte_seq: &[u8]) -> (r: Result<(), CodecError>)
        ensures
            r is Ok <==> all_nucleotides(byte_seq@),
            r is Err ==> r == Err::<(), CodecError>(CodecError::InvalidSymbol) && *final(self)
                == *old(self),
            r is Ok ==> final(self).wf() && final(self).k == byte_seq@.len() && final(self)@
                == codes_of_bytes(byte_seq@),
    {
        match codes_from_symbols(byte_seq) {
            Ok(codes) => {
                self.sequence = pack_codes(&codes);
                self.k = byte_seq.len();
                Ok(())
            },
            Err(e) => Err(e),
        }
    }

    /// The code of symbol `position`, which is below `k`.
    fn code(&self, position: usize) -> (r: u8)
        requires
            self.wf(),
            position < self.k,
        ensures
            r == self@[position as int],
            r < 4,
    {
        proof {
            lemma_position(position as int, self.sequence@.len());
            lemma_field_bound(self.sequence@[position as int / 4], shift_of(position as int));
        }
        let shift: u8 = (2 * (position % 4)) as u8;
        (self.sequence[position / 4] >> shift) & 0b11
    }

    /// The two-bit code of symbol `position`; fails with `IndexOutOfRange`
    /// unless `position < k`.
    pub fn index(&self, position: usize) -> (r: Result<u8, CodecError>)
        requires
            self.wf(),
        ensures
            position < self.k ==> r == Ok::<u8, CodecError>(self@[position as int]),
            position >= self.k ==> r == Err::<u8, CodecError>(CodecError::IndexOutOfRange),
            r is Ok ==> r->Ok_0 < 4,
    {
        if position >= self.k {
            return Err(CodecError::IndexOutOfRange);
        }
        Ok(self.code(position))
    }

    /// The letters of the `k` symbols; padding bits past `k` are never read.
    pub fn decode(&self) -> (r: String)
        requires
            self.wf(),
        ensures
            r@ == self.letters(),
    {
        let mut out = String::new();
        let mut i: usize = 0;
        while i < self.k
            invariant
                self.wf(),
                i <= self.k,
                out@ == self.letters().subrange(0, i as int),
            decreases self.k - i,
        {
            let c = self.code(i);
            push_letter(&mut out, c);
            assert(out@ =~= self.letters().subrange(0, i + 1));
            i = i + 1;
        }
        assert(out@ =~= self.letters());
        out
    }

    /// Negates every byte. Each two-bit code becomes its complement.
    pub fn bit_not(&self) -> (r: Kmer)
        requires
            self.wf(),
        ensures
            r.wf(),
            r.k == self.k,
            r.sequence@ == not_cells(self.sequence@),
            r@ == complement_codes(self@),
    {
        let mut cells: Vec<u8> = Vec::new();
        let mut i: usize = 0;
        while i < self.sequence.len()
            invariant
                i <= self.sequence@.len(),
                cells@ == not_cells(self.sequence@.subrange(0, i as int)),
            decreases self.sequence@.len() - i,
        {
            cells.push(!self.sequence[i]);
            assert(cells@ =~= not_cells(self.sequence@.subrange(0, i + 1)));
            i = i + 1;
        }
        assert(cells@ =~= not_cells(self.sequence@));
        let r = Kmer { k: self.k, sequence: cells };
        proof {
            assert forall|p: int| 0 <= p < self.k implies #[trigger] r@[p] == complement_code(
                self@[p],
            ) by {
                lemma_position(p, self.sequence@.len());
                lemma_not_field(self.sequence@[p / 4], shift_of(p));
            }
            assert(r@ =~= complement_codes(self@));
        }
        r
    }

    /// The complement, as a new sequence of the same length.
    pub fn make_complement(&self) -> (r: Kmer)
        requires
            self.wf(),
        ensures
            r.wf(),
            r.k == self.k,
            r@ == complement_codes(self@),
            r.sequence@ == not_cells(self.sequence@),
    {
        self.bit_not()
    }

    /// Replaces the sequence by its complement; `k` is unchanged.
    pub fn complement(&mut self)
        requires
            old(self).wf(),
        ensures
            final(self).wf(),
            final(self).k == old(self).k,
            final(self)@ == complement_codes(old(self)@),
            final(self).sequence@ == not_cells(old(self).sequence@),
    {
        let c = self.bit_not();
        self.sequence = c.sequence;
    }

    /// The code-wise exclusive-or of two sequences of one length; fails with
    /// `LengthMismatch` when the lengths differ.
    pub fn xor(&self, rhs: &Kmer) -> (r: Result<Kmer, CodecError>)
        requires
            self.wf(),
            rhs.wf(),
        ensures
            r is Ok <==> self.k == rhs.k,
            self.k != rhs.k ==> r == Err::<Kmer, CodecError>(CodecError::LengthMismatch),
            r is Ok ==> ({
                let m = r->Ok_0;
                &&& m.wf()
                &&& m.k == self.k
                &&& m.sequence@ == xor_cells(self.sequence@, rhs.sequence@)
                &&& m@ == xor_codes(self@, rhs@)
            }),
    {
        if self.k != rhs.k {
            return Err(CodecError::LengthMismatch);
        }
        let mut cells: Vec<u8> = Vec::new();
        let mut i: usize = 0;
        while i < self.sequence.len()
            invariant
                self.sequence@.len() == rhs.sequence@.len(),
                i <= self.sequence@.len(),
                cells@.len() == i,
                forall|j: int|
                    0 <= j < i ==> #[trigger] cells@[j] == self.sequence@[j] ^ rhs.sequence@[j],
            decreases self.sequence@.len() - i,
        {
            cells.push(self.sequence[i] ^ rhs.sequence[i]);
            i = i + 1;
        }
        assert(cells@ =~= xor_cells(self.sequence@, rhs.sequence@));
        let m = Kmer { k: self.k, sequence: cells };
        proof {
            assert forall|p: int| 0 <= p < self.k implies #[trigger] m@[p] == self@[p] ^ rhs@[p] by {
                lemma_position(p, self.sequence@.len());
                lemma_xor_field(self.sequence@[p / 4], rhs.sequence@[p / 4], shift_of(p));
            }
            assert(m@ =~= xor_codes(self@, rhs@));
        }
        Ok(m)
    }

    /// The symbols in reverse order, packed afresh.
    fn reversed(&self) -> (r: Kmer)
        requires
            self.wf(),
        ensures
            r.wf(),
            r.k == self.k,
            r@ == reverse_codes(self@),
    {
        let mut codes: Vec<u8> = Vec::new();
        let mut i: usize = 0;
        while i < self.k
            invariant
                self.wf(),
                i <= self.k,
                codes@.len() == i,
                forall|j: int| 0 <= j < i ==> #[trigger] codes@[j] == self@[self.k - 1 - j],
                all_codes(codes@),
            decreases self.k - i,
        {
            let c = self.code(self.k - 1 - i);
            codes.push(c);
            i = i + 1;
        }
        assert(codes@ =~= reverse_codes(self@));
        Kmer { k: self.k, sequence: pack_codes(&codes) }
    }

    /// The reverse complement, as a new sequence of the same length: the
    /// symbols read backwards, each replaced by its complement.
    pub fn make_reverse_complement(&self) -> (r: Kmer)
        requires
            self.wf(),
        ensures
            r.wf(),
            r.k == self.k,
            r@ == reverse_complement_codes(self@),
    {
        self.reversed().bit_not()
    }

    /// Replaces the sequence by its reverse complement; `k` is unchanged.
    pub fn reverse_complement(&mut self)
        requires
            old(self).wf(),
        ensures
            final(self).wf(),
            final(self).k == old(self).k,
            final(self)@ == reverse_complement_codes(old(self)@),
    {
        let rc = self.make_reverse_complement();
        self.sequence = rc.sequence;
    }
}

} // verus!
