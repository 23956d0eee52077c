//! The error taxonomy of the assembler core.
//!
//! Every fallible operation in this crate reports one of the kinds below;
//! no operation silently discards a failure.

use vstd::prelude::*;

verus! {

/// The specific kind of a [`ParseError`].
#[derive(Clone, Copy, Debug, PartialEq, Eq, Structural)]
pub enum ParseErrorKind {
    /// The token stream ended in the middle of a construct. It is up to the
    /// caller to decide whether this is unexpected in context.
    EndOfFile,
    /// A required token was missing or of the wrong class.
    Unexpected,
    /// Redefinition of an existing Atom name.
    Duplicate,
    /// Data was offered for packing before any record type was declared.
    NoRecord,
    /// Data was offered to a row that already holds a value for every column.
    RowSatisfied,
    /// A table was finalized while its current row was only partially filled.
    Unsatisfied,
    /// A recognized but not yet supported construct: nested record types,
    /// macro expansion, or folding that needs external resolution.
    Unimplemented,
    /// A failure while reading source text.
    Io,
    /// A numeric literal whose text does not denote a value of its type.
    ParseInt,
}

/// An error produced while parsing, laying out, or packing a source unit.
#[derive(Clone, Copy, Debug)]
pub struct ParseError(pub ParseErrorKind);

/// Build a [`ParseError`] of the given kind.
pub fn new_parse_error(kind: ParseErrorKind) -> (e: ParseError)
    ensures
        e.0 == kind,
{
    ParseError(kind)
}

/// When an operation only needs to report a potential error.
pub type MaybeError = Option<ParseError>;

/// The `Result` type carrying a [`ParseError`] on failure.
pub type ParseResult<T> = Result<T, ParseError>;

impl ParseError {
    /// Create an `EndOfFile` error.
    pub fn end_of_file() -> (e: Self)
        ensures
            e.0 is EndOfFile,
    {
        ParseError(ParseErrorKind::EndOfFile)
    }

    /// Create an `Unexpected` error.
    pub fn unexpected() -> (e: Self)
        ensures
            e.0 is Unexpected,
    {
        ParseError(ParseErrorKind::Unexpected)
    }

    /// Create a `Duplicate` error.
    pub fn duplicate() -> (e: Self)
        ensures
            e.0 is Duplicate,
    {
        ParseError(ParseErrorKind::Duplicate)
    }

    /// Create a `NoRecord` error.
    pub fn no_record() -> (e: Self)
        ensures
            e.0 is NoRecord,
    {
        ParseError(ParseErrorKind::NoRecord)
    }

    /// Return the specific kind of this error.
    pub fn kind(&self) -> (k: &ParseErrorKind)
        ensures
            *k == self.0,
    {
        &self.0
    }

    /// Unwrap this error into its underlying kind.
    pub fn into_kind(self) -> (k: ParseErrorKind)
        ensures
            k == self.0,
    {
        self.0
    }

    /// Does this error report the end of the token stream?
    pub fn is_endoffile(&self) -> (b: bool)
        ensures
            b == (self.0 is EndOfFile),
    {
        match self.0 {
            ParseErrorKind::EndOfFile => true,
            _ => false,
        }
    }

    /// Does this error wrap a failure of reading source text?
    pub fn is_io_error(&self) -> (b: bool)
        ensures
            b == (self.0 is Io),
    {
        match self.0 {
            ParseErrorKind::Io => true,
            _ => false,
        }
    }

    /// The short description each kind of error prints as.
    pub open spec fn spec_description(&self) -> Seq<char> {
        match self.0 {
            ParseErrorKind::EndOfFile => "End Of File"@,
            ParseErrorKind::Unexpected => "Unexpected"@,
            ParseErrorKind::Duplicate => "Duplicate"@,
            ParseErrorKind::NoRecord => "No Record"@,
            ParseErrorKind::RowSatisfied => "Table row is full"@,
            ParseErrorKind::Unsatisfied => "Record Unsatisfied"@,
            ParseErrorKind::Unimplemented => "Unimplemented"@,
            ParseErrorKind::Io => "I/O"@,
            ParseErrorKind::ParseInt => "Bad numeric literal"@,
        }
    }

    /// A short description of the error, for diagnostics.
    pub fn description(&self) -> (s: &'static str)
        ensures
            s@ == self.spec_description(),
            s@.len() > 0,
    {
        let s = match self.0 {
            ParseErrorKind::EndOfFile => "End Of File",
            ParseErrorKind::Unexpected => "Unexpected",
            ParseErrorKind::Duplicate => "Duplicate",
            ParseErrorKind::NoRecord => "No Record",
            ParseErrorKind::RowSatisfied => "Table row is full",
            ParseErrorKind::Unsatisfied => "Record Unsatisfied",
            ParseErrorKind::Unimplemented => "Unimplemented",
            ParseErrorKind::Io => "I/O",
            ParseErrorKind::ParseInt => "Bad numeric literal",
        };
        proof {
            reveal_strlit("End Of File");
            reveal_strlit("Unexpected");
            reveal_strlit("Duplicate");
            reveal_strlit("No Record");
            reveal_strlit("Table row is full");
            reveal_strlit("Record Unsatisfied");
            reveal_strlit("Unimplemented");
            reveal_strlit("I/O");
            reveal_strlit("Bad numeric literal");
        }
        s
    }
}

} // verus!
