//! Built-in primitive types of the source language, defined by the number of
//! bits they occupy in packed binary output: `bool` = 1, `nybl` = 4,
//! `byte` = 8, `word` = 16 and `long` = 32.
//!
//! These widths describe the target system, not this crate's own arithmetic:
//! expressions may work with wider numbers so long as the final result fits
//! at output time.

use vstd::prelude::*;

verus! {

/// A native, target-system primitive type, described by its width in bits.
#[derive(Clone, Copy, Debug, PartialEq, Eq, Structural)]
pub enum PType {
    /// A single bit. Not named `bit` to avoid a clash with the `bit`
    /// instruction of some target processors.
    BOOL,
    /// A nybble: 4 bits.
    NYBL,
    /// A byte: 8 bits.
    BYTE,
    /// A word: 16 bits on the retro systems targeted here.
    WORD,
    /// A "long": 32 bits on the retro systems targeted here.
    LONG,
}

impl PType {
    /// Width of the primitive in bits.
    pub open spec fn spec_bits(self) -> nat {
        match self {
            PType::BOOL => 1,
            PType::NYBL => 4,
            PType::BYTE => 8,
            PType::WORD => 16,
            PType::LONG => 32,
        }
    }

    /// Width of the primitive in bits.
    pub fn bits(self) -> (b: usize)
        ensures
            b == self.spec_bits(),
    {
        match self {
            PType::BOOL => 1,
            PType::NYBL => 4,
            PType::BYTE => 8,
            PType::WORD => 16,
            PType::LONG => 32,
        }
    }

    /// The normalised source-code name of the primitive.
    pub open spec fn spec_name(self) -> Seq<char> {
        match self {
            PType::BOOL => "bool"@,
            PType::NYBL => "nybl"@,
            PType::BYTE => "byte"@,
            PType::WORD => "word"@,
            PType::LONG => "long"@,
        }
    }

    /// The normalised source-code name of the primitive.
    pub fn name(self) -> (s: &'static str)
        ensures
            s@ == self.spec_name(),
            s@.len() == 4,
    {
        let s = match self {
            PType::BOOL => "bool",
            PType::NYBL => "nybl",
            PType::BYTE => "byte",
            PType::WORD => "word",
            PType::LONG => "long",
        };
        proof {
            reveal_strlit("bool");
            reveal_strlit("nybl");
            reveal_strlit("byte");
            reveal_strlit("word");
            reveal_strlit("long");
        }
        s
    }
}

} // verus!
