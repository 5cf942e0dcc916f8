//! Packed two-bit nucleotide sequences: encoding, decoding, complement,
//! reverse complement, indexing and bitwise combination.
pub mod alphabet;
pub mod bits;
pub mod error;
pub mod iter;
pub mod kmer;
pub mod laws;
pub mod text;
