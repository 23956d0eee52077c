//! The token contract of the lexical classifier.
//!
//! A [`Token`] is one word ("lexeme") of the source code: a classification
//! tag, the literal source substring it was matched from, and the line and
//! column where it starts. Tokens are immutable once made; syntax-tree nodes
//! keep one for diagnostics.

use vstd::prelude::*;

use crate::error::{ParseError, ParseErrorKind, ParseResult};
use crate::ops::Operator;
use crate::ptype::PType;

verus! {

/// The classification tag of a token: which production of the surface
/// grammar the token was matched by.
#[derive(Clone, Copy, Debug, PartialEq, Eq, Structural)]
pub enum TokenRule {
    /// The keyword `atom`.
    KeywordAtom,
    /// The keyword `macro`.
    KeywordMacro,
    /// The primitive type name `bool`.
    TypeBool,
    /// The primitive type name `nybl`.
    TypeNybl,
    /// The primitive type name `byte`.
    TypeByte,
    /// The primitive type name `word`.
    TypeWord,
    /// The primitive type name `long`.
    TypeLong,
    /// A user-defined record-type name, e.g. `%point`.
    TypeStruct,
    /// A decimal integer literal.
    IntNumber,
    /// A hexadecimal literal with the `$` sigil.
    HexNumber,
    /// A binary literal with the `%` sigil.
    BinNumber,
    /// A string literal.
    Str,
    /// An atom name: an upper-case identifier.
    AtomName,
    /// A macro name: a lower-case identifier.
    MacroName,
    /// The operator `+`.
    OpAdd,
    /// The operator `-`.
    OpSub,
    /// The operator `*`.
    OpMul,
    /// The operator `/`.
    OpDiv,
    /// The operator `\`.
    OpMod,
    /// The operator `**`.
    OpPow,
    /// The operator `^`.
    OpXor,
    /// The operator `&`.
    OpAnd,
    /// The operator `|`.
    OpOr,
    /// The operator `<<`.
    OpShl,
    /// The operator `>>`.
    OpShr,
    /// The end of the token stream.
    EndOfStream,
}

/// One word of source code: a classification tag, the literal source
/// substring, and the line/column pair where it starts (both 1-based).
#[derive(Debug)]
pub struct Token {
    /// Which production of the grammar this token was matched by.
    pub rule: TokenRule,
    /// The literal source substring, not normalised.
    pub text: String,
    /// Source line of the first character, 1-based.
    pub line: usize,
    /// Source column of the first character, 1-based.
    pub col: usize,
}

impl Clone for Token {
    /// Cloning a token preserves it exactly.
    fn clone(&self) -> (t: Self)
        ensures
            t == *self,
    {
        Token { rule: self.rule, text: self.text.clone(), line: self.line, col: self.col }
    }
}

/// The type and decoded value of a token, independent of the grammar tags.
#[derive(Debug, PartialEq)]
pub enum TokenKind {
    /// The `atom` keyword.
    KeywordAtom,
    /// The `macro` keyword.
    KeywordMacro,
    /// A primitive type.
    Primitive(PType),
    /// The name of a user-defined record type.
    /// Not to be confused with a record-type declaration.
    Struct(String),
    /// A decoded decimal integer literal.
    Int(i32),
    /// A decoded hexadecimal literal: an unsigned value of up to 32 bits.
    Hex(u32),
    /// A decoded binary literal: an unsigned value of up to 32 bits.
    Bin(u32),
    /// An atom name.
    Atom(String),
    /// A macro name.
    Macro(String),
    /// A string literal.
    Str(String),
    /// An operator symbol.
    Operator(Operator),
}

// ---------------------------------------------------------------------------
// Numeric literal decoding.
// ---------------------------------------------------------------------------

/// Is `c` a digit of the given radix? Hexadecimal accepts both letter cases.
pub open spec fn is_radix_digit(c: char, radix: int) -> bool {
    ||| ('0' <= c && c <= '9' && (c as int) - ('0' as int) < radix)
    ||| (radix == 16 && 'a' <= c && c <= 'f')
    ||| (radix == 16 && 'A' <= c && c <= 'F')
}

/// The numeric value of one digit character; 0 for a non-digit.
pub open spec fn digit_value(c: char) -> nat {
    if '0' <= c && c <= '9' {
        ((c as int) - ('0' as int)) as nat
    } else if 'a' <= c && c <= 'f' {
        ((c as int) - ('a' as int) + 10) as nat
    } else if 'A' <= c && c <= 'F' {
        ((c as int) - ('A' as int) + 10) as nat
    } else {
        0
    }
}

/// The value of a digit string read in the given radix, most significant
/// digit first.
pub open spec fn radix_value(s: Seq<char>, radix: nat) -> nat
    decreases s.len(),
{
    if s.len() == 0 {
        0
    } else {
        radix_value(s.drop_last(), radix) * radix + digit_value(s.last())
    }
}

/// Are all characters of `s` digits of the given radix?
pub open spec fn all_radix_digits(s: Seq<char>, radix: int) -> bool {
    forall|i: int| 0 <= i < s.len() ==> is_radix_digit(#[trigger] s[i], radix)
}

/// A digit string denotes a value no smaller than any of its prefixes:
/// appending digits can only grow the value.
proof fn lemma_radix_value_prefix(s: Seq<char>, radix: nat, i: int)
    requires
        1 <= radix,
        0 <= i <= s.len(),
    ensures
        radix_value(s.subrange(0, i), radix) <= radix_value(s, radix),
    decreases s.len() - i,
{
    if i == s.len() {
        assert(s.subrange(0, i) =~= s);
    } else {
        let shorter = s.drop_last();
        assert(shorter.subrange(0, i) =~= s.subrange(0, i));
        lemma_radix_value_prefix(shorter, radix, i);
        assert(radix_value(shorter, radix) * radix >= radix_value(shorter, radix)) by (nonlinear_arith)
            requires radix >= 1;
    }
}

/// Decode the digit character `c`. Callers must pass a digit of the radix.
fn digit_of(c: char, radix: u32) -> (d: u32)
    requires
        is_radix_digit(c, radix as int),
    ensures
        d == digit_value(c),
        d < radix || d < 16,
{
    let u = c as u32;
    if u >= 'a' as u32 {
        u - 'a' as u32 + 10
    } else if u >= 'A' as u32 {
        u - 'A' as u32 + 10
    } else {
        u - '0' as u32
    }
}

/// Read the characters of `s` from position `from` to the end as an unsigned
/// number in the given radix. Fails with `ParseInt` when no digits follow
/// `from`, when a non-digit occurs, or when the value exceeds 32 bits.
pub fn parse_radix(s: &str, from: usize, radix: u32) -> (r: ParseResult<u32>)
    requires
        from <= s@.len(),
        radix == 2 || radix == 10 || radix == 16,
    ensures
        ({
            let digits = s@.subrange(from as int, s@.len() as int);
            &&& (r is Ok <==> digits.len() > 0 && all_radix_digits(digits, radix as int)
                && radix_value(digits, radix as nat) <= u32::MAX)
            &&& (r is Ok ==> r->Ok_0 == radix_value(digits, radix as nat))
            &&& (r is Err ==> r->Err_0.0 is ParseInt)
        }),
{
    let ghost digits = s@.subrange(from as int, s@.len() as int);
    let len = s.unicode_len();
    if from >= len {
        return Err(ParseError(ParseErrorKind::ParseInt));
    }
    let mut acc: u32 = 0;
    let mut i: usize = from;
    while i < len
        invariant
            from <= i <= len,
            len == s@.len(),
            digits == s@.subrange(from as int, s@.len() as int),
            radix == 2 || radix == 10 || radix == 16,
            all_radix_digits(s@.subrange(from as int, i as int), radix as int),
            acc == radix_value(s@.subrange(from as int, i as int), radix as nat),
        decreases len - i,
    {
        let c = s.get_char(i);
        let ghost prefix = s@.subrange(from as int, i as int);
        let ghost extended = s@.subrange(from as int, i + 1 as int);
        proof {
            assert(extended.drop_last() =~= prefix);
            assert(extended.last() == s@[i as int]);
        }
        let u = c as u32;
        let is_dec = u >= '0' as u32 && u <= '9' as u32 && (u - '0' as u32) < radix;
        let is_lower = radix == 16 && u >= 'a' as u32 && u <= 'f' as u32;
        let is_upper = radix == 16 && u >= 'A' as u32 && u <= 'F' as u32;
        if !(is_dec || is_lower || is_upper) {
            assert(!is_radix_digit(s@[i as int], radix as int));
            return Err(ParseError(ParseErrorKind::ParseInt));
        }
        let d = digit_of(c, radix);
        if acc > (u32::MAX - d) / radix {
            // The value no longer fits in 32 bits; nor can any extension.
            proof {
                assert(acc * radix + d > u32::MAX) by (nonlinear_arith)
                    requires
                        radix >= 2,
                        acc as int > ((u32::MAX - d) as int) / (radix as int),
                        d <= u32::MAX;
                if all_radix_digits(digits, radix as int) {
                    lemma_radix_value_prefix(digits, radix as nat, i + 1 - from);
                    assert(digits.subrange(0, i + 1 - from) =~= extended);
                }
            }
            return Err(ParseError(ParseErrorKind::ParseInt));
        }
        proof {
            assert(acc * radix + d <= u32::MAX) by (nonlinear_arith)
                requires
                    radix >= 2,
                    acc as int <= ((u32::MAX - d) as int) / (radix as int),
                    d <= u32::MAX;
        }
        acc = acc * radix + d;
        i = i + 1;
    }
    proof {
        assert(s@.subrange(from as int, i as int) =~= digits);
    }
    Ok(acc)
}

// ---------------------------------------------------------------------------
// Token classification.
// ---------------------------------------------------------------------------

impl Token {
    /// Build a token from its parts.
    pub fn new(rule: TokenRule, text: String, line: usize, col: usize) -> (t: Token)
        ensures
            t.rule == rule,
            t.text == text,
            t.line == line,
            t.col == col,
    {
        Token { rule, text, line, col }
    }

    /// The literal source substring the token was matched from,
    /// not normalised.
    pub fn as_str(&self) -> (s: &str)
        ensures
            s@ == self.text@,
    {
        self.text.as_str()
    }

    /// Is this token a keyword (`atom` or `macro`)? Type names are
    /// recognised separately and are not keywords.
    pub open spec fn spec_is_keyword(&self) -> bool {
        self.rule is KeywordAtom || self.rule is KeywordMacro
    }

    /// Is this token a keyword (`atom` or `macro`)?
    #[verifier::when_used_as_spec(spec_is_keyword)]
    pub fn is_keyword(&self) -> (b: bool)
        ensures
            b == self.spec_is_keyword(),
    {
        match self.rule {
            TokenRule::KeywordAtom | TokenRule::KeywordMacro => true,
            _ => false,
        }
    }

    /// Is this token the `atom` keyword?
    pub open spec fn spec_is_keyword_atom(&self) -> bool {
        self.rule is KeywordAtom
    }

    /// Is this token the `atom` keyword?
    #[verifier::when_used_as_spec(spec_is_keyword_atom)]
    pub fn is_keyword_atom(&self) -> (b: bool)
        ensures
            b == self.spec_is_keyword_atom(),
    {
        match self.rule {
            TokenRule::KeywordAtom => true,
            _ => false,
        }
    }

    /// Is this token the `macro` keyword?
    pub open spec fn spec_is_keyword_macro(&self) -> bool {
        self.rule is KeywordMacro
    }

    /// Is this token the `macro` keyword?
    #[verifier::when_used_as_spec(spec_is_keyword_macro)]
    pub fn is_keyword_macro(&self) -> (b: bool)
        ensures
            b == self.spec_is_keyword_macro(),
    {
        match self.rule {
            TokenRule::KeywordMacro => true,
            _ => false,
        }
    }

    /// Is this a built-in primitive type name, e.g. `byte`, `word`, `long`?
    pub open spec fn spec_is_type_primitive(&self) -> bool {
        match self.rule {
            TokenRule::TypeBool
            | TokenRule::TypeNybl
            | TokenRule::TypeByte
            | TokenRule::TypeWord
            | TokenRule::TypeLong => true,
            _ => false,
        }
    }

    /// Is this a built-in primitive type name, e.g. `byte`, `word`, `long`?
    #[verifier::when_used_as_spec(spec_is_type_primitive)]
    pub fn is_type_primitive(&self) -> (b: bool)
        ensures
            b == self.spec_is_type_primitive(),
    {
        match self.rule {
            TokenRule::TypeBool
            | TokenRule::TypeNybl
            | TokenRule::TypeByte
            | TokenRule::TypeWord
            | TokenRule::TypeLong => true,
            _ => false,
        }
    }

    /// Is this the name of a user-defined record type?
    pub open spec fn spec_is_type_struct(&self) -> bool {
        self.rule is TypeStruct
    }

    /// Is this the name of a user-defined record type?
    #[verifier::when_used_as_spec(spec_is_type_struct)]
    pub fn is_type_struct(&self) -> (b: bool)
        ensures
            b == self.spec_is_type_struct(),
    {
        match self.rule {
            TokenRule::TypeStruct => true,
            _ => false,
        }
    }

    /// Is this a built-in (primitive) or user-defined (struct) type name?
    /// Both kinds may appear in a mixed record type.
    pub open spec fn spec_is_type(&self) -> bool {
        self.spec_is_type_primitive() || self.spec_is_type_struct()
    }

    /// Is this a built-in (primitive) or user-defined (struct) type name?
    #[verifier::when_used_as_spec(spec_is_type)]
    pub fn is_type(&self) -> (b: bool)
        ensures
            b == self.spec_is_type(),
    {
        self.is_type_primitive() || self.is_type_struct()
    }

    /// Is this an atom name?
    pub open spec fn spec_is_atom(&self) -> bool {
        self.rule is AtomName
    }

    /// Is this an atom name?
    #[verifier::when_used_as_spec(spec_is_atom)]
    pub fn is_atom(&self) -> (b: bool)
        ensures
            b == self.spec_is_atom(),
    {
        match self.rule {
            TokenRule::AtomName => true,
            _ => false,
        }
    }

    /// Is this a macro name?
    pub open spec fn spec_is_macro(&self) -> bool {
        self.rule is MacroName
    }

    /// Is this a macro name?
    #[verifier::when_used_as_spec(spec_is_macro)]
    pub fn is_macro(&self) -> (b: bool)
        ensures
            b == self.spec_is_macro(),
    {
        match self.rule {
            TokenRule::MacroName => true,
            _ => false,
        }
    }

    /// Is this a number literal?
    pub open spec fn spec_is_number(&self) -> bool {
        match self.rule {
            TokenRule::IntNumber | TokenRule::HexNumber | TokenRule::BinNumber => true,
            _ => false,
        }
    }

    /// Is this a number literal?
    #[verifier::when_used_as_spec(spec_is_number)]
    pub fn is_number(&self) -> (b: bool)
        ensures
            b == self.spec_is_number(),
    {
        match self.rule {
            TokenRule::IntNumber | TokenRule::HexNumber | TokenRule::BinNumber => true,
            _ => false,
        }
    }

    /// Is this a string literal?
    pub open spec fn spec_is_string(&self) -> bool {
        self.rule is Str
    }

    /// Is this a string literal?
    #[verifier::when_used_as_spec(spec_is_string)]
    pub fn is_string(&self) -> (b: bool)
        ensures
            b == self.spec_is_string(),
    {
        match self.rule {
            TokenRule::Str => true,
            _ => false,
        }
    }

    /// Is this a valid opening token for an expression? An expression cannot
    /// begin with an operator, and strings are self-contained lists rather
    /// than expression values.
    pub open spec fn spec_is_expr(&self) -> bool {
        self.rule is AtomName || self.spec_is_number()
    }

    /// Is this a valid opening token for an expression?
    #[verifier::when_used_as_spec(spec_is_expr)]
    pub fn is_expr(&self) -> (b: bool)
        ensures
            b == self.spec_is_expr(),
    {
        match self.rule {
            TokenRule::AtomName
            | TokenRule::IntNumber
            | TokenRule::HexNumber
            | TokenRule::BinNumber => true,
            _ => false,
        }
    }

    /// Is this a token that yields a value by itself? Macros are statements,
    /// not values, and strings are self-contained lists.
    pub open spec fn spec_is_value(&self) -> bool {
        self.spec_is_number()
    }

    /// Is this a token that yields a value by itself?
    #[verifier::when_used_as_spec(spec_is_value)]
    pub fn is_value(&self) -> (b: bool)
        ensures
            b == self.spec_is_value(),
    {
        self.is_number()
    }

    /// Is this a literal: a number or a string?
    pub open spec fn spec_is_literal(&self) -> bool {
        self.spec_is_number() || self.rule is Str
    }

    /// Is this a literal: a number or a string?
    #[verifier::when_used_as_spec(spec_is_literal)]
    pub fn is_literal(&self) -> (b: bool)
        ensures
            b == self.spec_is_literal(),
    {
        match self.rule {
            TokenRule::IntNumber
            | TokenRule::HexNumber
            | TokenRule::BinNumber
            | TokenRule::Str => true,
            _ => false,
        }
    }

    /// Is this an operator symbol?
    pub open spec fn spec_is_oper(&self) -> bool {
        match self.rule {
            TokenRule::OpAdd
            | TokenRule::OpSub
            | TokenRule::OpMul
            | TokenRule::OpDiv
            | TokenRule::OpMod
            | TokenRule::OpPow
            | TokenRule::OpXor
            | TokenRule::OpAnd
            | TokenRule::OpOr
            | TokenRule::OpShl
            | TokenRule::OpShr => true,
            _ => false,
        }
    }

    /// Is this an operator symbol?
    #[verifier::when_used_as_spec(spec_is_oper)]
    pub fn is_oper(&self) -> (b: bool)
        ensures
            b == self.spec_is_oper(),
    {
        match self.rule {
            TokenRule::OpAdd
            | TokenRule::OpSub
            | TokenRule::OpMul
            | TokenRule::OpDiv
            | TokenRule::OpMod
            | TokenRule::OpPow
            | TokenRule::OpXor
            | TokenRule::OpAnd
            | TokenRule::OpOr
            | TokenRule::OpShl
            | TokenRule::OpShr => true,
            _ => false,
        }
    }

    /// A token is static when it needs no external information to resolve:
    /// number and string literals, and the built-in primitive type names.
    /// Operators are not static as they need other tokens to form a value.
    pub open spec fn spec_is_static(&self) -> bool {
        self.spec_is_number() || self.rule is Str || self.spec_is_type_primitive()
    }

    /// A token is static when it needs no external information to resolve.
    #[verifier::when_used_as_spec(spec_is_static)]
    pub fn is_static(&self) -> (b: bool)
        ensures
            b == self.spec_is_static(),
    {
        match self.rule {
            TokenRule::IntNumber
            | TokenRule::HexNumber
            | TokenRule::BinNumber
            | TokenRule::Str
            | TokenRule::TypeBool
            | TokenRule::TypeNybl
            | TokenRule::TypeByte
            | TokenRule::TypeWord
            | TokenRule::TypeLong => true,
            _ => false,
        }
    }

    /// The primitive type a primitive type-name token stands for.
    pub open spec fn spec_ptype(&self) -> PType {
        match self.rule {
            TokenRule::TypeBool => PType::BOOL,
            TokenRule::TypeNybl => PType::NYBL,
            TokenRule::TypeByte => PType::BYTE,
            TokenRule::TypeWord => PType::WORD,
            _ => PType::LONG,
        }
    }

    /// The operator an operator token stands for.
    pub open spec fn spec_operator(&self) -> Operator {
        match self.rule {
            TokenRule::OpAdd => Operator::Add,
            TokenRule::OpSub => Operator::Sub,
            TokenRule::OpMul => Operator::Mul,
            TokenRule::OpDiv => Operator::Div,
            TokenRule::OpMod => Operator::Mod,
            TokenRule::OpPow => Operator::Pow,
            TokenRule::OpXor => Operator::Xor,
            TokenRule::OpAnd => Operator::And,
            TokenRule::OpOr => Operator::Or,
            TokenRule::OpShl => Operator::Shl,
            _ => Operator::Shr,
        }
    }

    /// Does the token's text decode to a [`TokenKind`]? Number literals must
    /// hold valid digits of their base and fit the decoded type; every other
    /// translatable rule decodes unconditionally. An end-of-stream marker has
    /// no kind.
    pub open spec fn spec_kind_ok(&self) -> bool {
        match self.rule {
            TokenRule::IntNumber => {
                &&& self.text@.len() > 0
                &&& all_radix_digits(self.text@, 10)
                &&& radix_value(self.text@, 10) <= i32::MAX
            },
            TokenRule::HexNumber => {
                &&& self.text@.len() > 1
                &&& all_radix_digits(self.text@.skip(1), 16)
                &&& radix_value(self.text@.skip(1), 16) <= u32::MAX
            },
            TokenRule::BinNumber => {
                &&& self.text@.len() > 1
                &&& all_radix_digits(self.text@.skip(1), 2)
                &&& radix_value(self.text@.skip(1), 2) <= u32::MAX
            },
            TokenRule::EndOfStream => false,
            _ => true,
        }
    }

    /// The decoded kind of the token; meaningful when `spec_kind_ok` holds.
    pub open spec fn spec_kind(&self) -> TokenKind {
        match self.rule {
            TokenRule::KeywordAtom => TokenKind::KeywordAtom,
            TokenRule::KeywordMacro => TokenKind::KeywordMacro,
            TokenRule::TypeBool
            | TokenRule::TypeNybl
            | TokenRule::TypeByte
            | TokenRule::TypeWord
            | TokenRule::TypeLong => TokenKind::Primitive(self.spec_ptype()),
            TokenRule::TypeStruct => TokenKind::Struct(self.text),
            TokenRule::IntNumber => TokenKind::Int(radix_value(self.text@, 10) as i32),
            TokenRule::HexNumber => TokenKind::Hex(radix_value(self.text@.skip(1), 16) as u32),
            TokenRule::BinNumber => TokenKind::Bin(radix_value(self.text@.skip(1), 2) as u32),
            TokenRule::Str => TokenKind::Str(self.text),
            TokenRule::AtomName => TokenKind::Atom(self.text),
            TokenRule::MacroName => TokenKind::Macro(self.text),
            _ => TokenKind::Operator(self.spec_operator()),
        }
    }

    /// The type of the token with its decoded value: number literals are
    /// read in their base (the `$` and `%` sigils are dropped first), names
    /// carry their text. Fails with `ParseInt` when a number's text does not
    /// denote a value of the decoded type, and with `Unexpected` for a rule
    /// that does not translate to a kind (the end-of-stream marker).
    pub fn kind(&self) -> (r: ParseResult<TokenKind>)
        ensures
            r is Ok <==> self.spec_kind_ok(),
            r is Ok ==> r->Ok_0 == self.spec_kind(),
            r is Err ==> (r->Err_0.0 is ParseInt <==> self.spec_is_number()),
            r is Err ==> (r->Err_0.0 is Unexpected <==> !self.spec_is_number()),
    {
        match self.rule {
            TokenRule::KeywordAtom => Ok(TokenKind::KeywordAtom),
            TokenRule::KeywordMacro => Ok(TokenKind::KeywordMacro),
            TokenRule::TypeBool => Ok(TokenKind::Primitive(PType::BOOL)),
            TokenRule::TypeNybl => Ok(TokenKind::Primitive(PType::NYBL)),
            TokenRule::TypeByte => Ok(TokenKind::Primitive(PType::BYTE)),
            TokenRule::TypeWord => Ok(TokenKind::Primitive(PType::WORD)),
            TokenRule::TypeLong => Ok(TokenKind::Primitive(PType::LONG)),
            TokenRule::TypeStruct => Ok(TokenKind::Struct(self.text.clone())),
            TokenRule::IntNumber => {
                proof {
                    assert(self.text@.subrange(0, self.text@.len() as int) =~= self.text@);
                }
                match parse_radix(self.text.as_str(), 0, 10) {
                    Ok(v) => {
                        if v <= i32::MAX as u32 {
                            Ok(TokenKind::Int(v as i32))
                        } else {
                            Err(ParseError(ParseErrorKind::ParseInt))
                        }
                    },
                    Err(e) => Err(e),
                }
            },
            TokenRule::HexNumber => self.sigil_number(16),
            TokenRule::BinNumber => self.sigil_number(2),
            TokenRule::Str => Ok(TokenKind::Str(self.text.clone())),
            TokenRule::AtomName => Ok(TokenKind::Atom(self.text.clone())),
            TokenRule::MacroName => Ok(TokenKind::Macro(self.text.clone())),
            TokenRule::OpAdd => Ok(TokenKind::Operator(Operator::Add)),
            TokenRule::OpSub => Ok(TokenKind::Operator(Operator::Sub)),
            TokenRule::OpMul => Ok(TokenKind::Operator(Operator::Mul)),
            TokenRule::OpDiv => Ok(TokenKind::Operator(Operator::Div)),
            TokenRule::OpMod => Ok(TokenKind::Operator(Operator::Mod)),
            TokenRule::OpPow => Ok(TokenKind::Operator(Operator::Pow)),
            TokenRule::OpXor => Ok(TokenKind::Operator(Operator::Xor)),
            TokenRule::OpAnd => Ok(TokenKind::Operator(Operator::And)),
            TokenRule::OpOr => Ok(TokenKind::Operator(Operator::Or)),
            TokenRule::OpShl => Ok(TokenKind::Operator(Operator::Shl)),
            TokenRule::OpShr => Ok(TokenKind::Operator(Operator::Shr)),
            TokenRule::EndOfStream => Err(ParseError(ParseErrorKind::Unexpected)),
        }
    }

    /// Decode a sigil-prefixed number literal (`$` or `%`): the sigil
    /// character is dropped and the rest is read in the given radix.
    fn sigil_number(&self, radix: u32) -> (r: ParseResult<TokenKind>)
        requires
            radix == 2 || radix == 16,
            self.rule is HexNumber || self.rule is BinNumber,
            self.rule is HexNumber <==> radix == 16,
        ensures
            r is Ok <==> self.spec_kind_ok(),
            r is Ok ==> r->Ok_0 == self.spec_kind(),
            r is Err ==> r->Err_0.0 is ParseInt,
    {
        let len = self.text.as_str().unicode_len();
        if len < 2 {
            return Err(ParseError(ParseErrorKind::ParseInt));
        }
        proof {
            assert(self.text@.subrange(1, self.text@.len() as int) =~= self.text@.skip(1));
        }
        match parse_radix(self.text.as_str(), 1, radix) {
            Ok(v) => {
                if radix == 16 {
                    Ok(TokenKind::Hex(v))
                } else {
                    Ok(TokenKind::Bin(v))
                }
            },
            Err(e) => Err(e),
        }
    }
}

} // verus!
