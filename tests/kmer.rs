use kmer_codec::alphabet::{byte_to_nuc, nuc_to_byte};
use kmer_codec::error::CodecError;
use kmer_codec::kmer::{Kmer, Vmer};

fn lit(s: &str) -> Kmer {
    Kmer::from_literal(s).unwrap()
}

#[test]
fn test_vmer_instantiations() {
    let _kmer_literal = Kmer::from_literal("ATGCATGCATGCATGCATGCATGC").unwrap();
    let sequence = String::from("AAAAATTTTTGGGGGCCCCC");
    let k = 5;
    for kmer in sequence.as_bytes().windows(k) {
        let mut kmer1 = Kmer::new(k, kmer).unwrap();
        println!("Kmer:    {}", kmer1.to_string());
        kmer1.reverse_complement();
        println!("RevComp: {}", kmer1.to_string());
    }
}

#[test]
fn test_nucleotide_iterator() {
    let kmer_literal = Kmer::from_literal("ATGCATGCATGCATGCATGCATGC").unwrap();
    println!("{}", kmer_literal.to_string());
    let mut it = kmer_literal.into_iter();
    while let Some(i) = it.next() {
        println!("{}", byte_to_nuc(i));
    }
}

#[test]
fn round_trip_all_short_lengths() {
    let letters = ["A", "G", "C", "T"];
    let mut s = String::new();
    for n in 0..13usize {
        let m = lit(&s);
        assert_eq!(m.k, n);
        assert_eq!(m.decode(), s);
        s.push_str(letters[n % 4]);
    }
    let long = "ATGCATGCATGCATGCATGCATGC";
    assert_eq!(lit(long).decode(), long);
}

#[test]
fn round_trip_through_new() {
    let m = Kmer::new(6, b"GATTAC").unwrap();
    assert_eq!(m.decode(), "GATTAC");
    assert_eq!(m.sequence, vec![0b1111_0001, 0b0000_1000]);
}

#[test]
fn complement_is_an_involution() {
    for s in ["", "A", "ACG", "AGCT", "GATTACA", "TTTTTGGGGG"] {
        let m = lit(s);
        let twice = m.make_complement().make_complement();
        assert_eq!(twice, m);
        assert_eq!(twice.decode(), s);
    }
}

#[test]
fn reverse_complement_is_an_involution() {
    for s in ["", "A", "ACG", "AGCT", "GATTACA", "AAAAATTTTTGGGGGCCCCC"] {
        let m = lit(s);
        let twice = m.make_reverse_complement().make_reverse_complement();
        assert_eq!(twice.decode(), s);
    }
}

#[test]
fn complement_is_base_wise() {
    assert_eq!(lit("AGCT").make_complement().decode(), "TCGA");
    assert_eq!(lit("AGCTA").make_complement().decode(), "TCGAT");
}

#[test]
fn complement_in_place_matches_pure_form() {
    let mut m = lit("GATTACA");
    let pure = m.make_complement();
    m.complement();
    assert_eq!(m, pure);
    assert_eq!(m.k, 7);
    assert_eq!(m.decode(), "CTAATGT");
}

#[test]
fn reverse_complement_example() {
    assert_eq!(lit("AAGGTTCC").make_reverse_complement().decode(), "GGAACCTT");
    let mut m = lit("AAGGTTCC");
    m.reverse_complement();
    assert_eq!(m.decode(), "GGAACCTT");
    assert_eq!(m.k, 8);
}

#[test]
fn reverse_complement_of_partial_cell() {
    let mut m = lit("AAAAC");
    m.reverse_complement();
    assert_eq!(m.decode(), "GTTTT");
    assert_eq!(m.sequence.len(), 2);
}

#[test]
fn reverse_complement_either_order_agrees() {
    for s in ["ACGTT", "GATTACA", "AAAAATTTTTGGGGGCCCCC"] {
        let reversed: String = s.chars().rev().collect();
        let other = lit(&reversed).make_complement();
        assert_eq!(lit(s).make_reverse_complement().decode(), other.decode());
    }
}

#[test]
fn index_agrees_with_decode() {
    let s = "GATTACAGC";
    let m = lit(s);
    for (p, c) in s.chars().enumerate() {
        assert_eq!(byte_to_nuc(m.index(p).unwrap()), c);
    }
    assert_eq!(m.index(0), Ok(1));
    assert_eq!(m.index(1), Ok(0));
    assert_eq!(m.index(2), Ok(3));
    assert_eq!(m.index(7), Ok(1));
    assert_eq!(m.index(8), Ok(2));
}

#[test]
fn xor_with_itself_is_zero() {
    let m = lit("GATTACAGC");
    let z = m.xor(&m).unwrap();
    assert_eq!(z.k, 9);
    assert_eq!(z.sequence, vec![0, 0, 0]);
    for p in 0..9 {
        assert_eq!(z.index(p), Ok(0));
    }
}

#[test]
fn xor_combines_codes() {
    let a = lit("AGCT");
    let b = lit("TTTT");
    let x = a.xor(&b).unwrap();
    assert_eq!(x.sequence, vec![0b0001_1011]);
    assert_eq!(x.decode(), "TCGA");
}

#[test]
fn encode_rejects_invalid_symbol() {
    assert_eq!(Kmer::from_literal("AXGT"), Err(CodecError::InvalidSymbol));
    assert_eq!(Kmer::new(4, b"AXGT"), Err(CodecError::InvalidSymbol));
    assert_eq!(Kmer::from_literal("acgt"), Err(CodecError::InvalidSymbol));
    assert_eq!(Kmer::from_literal("AGÄT"), Err(CodecError::InvalidSymbol));
}

#[test]
fn new_rejects_wrong_length() {
    assert_eq!(Kmer::new(3, b"AGCT"), Err(CodecError::LengthMismatch));
}

#[test]
fn index_at_length_is_out_of_range() {
    let m = lit("AGCT");
    assert_eq!(m.index(4), Err(CodecError::IndexOutOfRange));
    assert_eq!(m.index(100), Err(CodecError::IndexOutOfRange));
    assert_eq!(lit("").index(0), Err(CodecError::IndexOutOfRange));
}

#[test]
fn xor_rejects_length_mismatch() {
    assert_eq!(lit("AGC").xor(&lit("AGCT")), Err(CodecError::LengthMismatch));
}

#[test]
fn packing_density() {
    let mut s = String::new();
    for k in 0..17usize {
        let m = lit(&s);
        assert_eq!(m.sequence.len(), (k + 3) / 4);
        s.push('C');
    }
    assert_eq!(lit("").sequence.len(), 0);
}

#[test]
fn encode_replaces_contents() {
    let mut m = lit("AAAAAAAA");
    assert_eq!(m.encode(b"TG"), Ok(()));
    assert_eq!(m.k, 2);
    assert_eq!(m.sequence, vec![0b0111]);
    assert_eq!(m.encode(b"TN"), Err(CodecError::InvalidSymbol));
    assert_eq!(m.decode(), "TG");
}

#[test]
fn iterator_yields_codes_in_order() {
    let mut it = lit("TGCA").into_iter();
    assert_eq!(it.next(), Some(3));
    assert_eq!(it.next(), Some(1));
    assert_eq!(it.nucleotide, 1);
    assert_eq!(it.next(), Some(2));
    assert_eq!(it.next(), Some(0));
    assert_eq!(it.next(), None);
    assert_eq!(it.next(), None);
    assert_eq!(it.position, 4);
}

#[test]
fn rendering_shows_only_declared_symbols() {
    assert_eq!(lit("AAGGT").to_string(), "5-mer: AAGGT");
    assert_eq!(lit("").to_string(), "0-mer: ");
    let mut m = lit("AGCTAG");
    m.complement();
    assert_eq!(m.to_string(), "6-mer: TCGATC");
    let long = "ACGT".repeat(3);
    assert_eq!(lit(&long).to_string(), format!("12-mer: {}", long));
}

#[test]
fn letter_code_conversions() {
    assert_eq!(byte_to_nuc(0), 'A');
    assert_eq!(byte_to_nuc(1), 'G');
    assert_eq!(byte_to_nuc(2), 'C');
    assert_eq!(byte_to_nuc(3), 'T');
    assert_eq!(nuc_to_byte('A'), Ok(0));
    assert_eq!(nuc_to_byte('G'), Ok(1));
    assert_eq!(nuc_to_byte('C'), Ok(2));
    assert_eq!(nuc_to_byte('T'), Ok(3));
    assert_eq!(nuc_to_byte('N'), Err(CodecError::InvalidSymbol));
}

#[test]
fn vmer_is_the_same_codec() {
    let v = Vmer::from_literal("GGCAT").unwrap();
    assert_eq!(v.decode(), "GGCAT");
    assert_eq!(v.sequence.len(), 2);
}
