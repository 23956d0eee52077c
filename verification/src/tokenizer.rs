//! The lexical classifier: turns source text into a stream of typed tokens.
//!
//! The surface syntax recognised here: the keywords `atom` and `macro`;
//! the primitive type names `bool`, `nybl`, `byte`, `word` and `long`;
//! user-defined record-type names with the `%` sigil; upper-case
//! identifiers as atom names and lower-case identifiers as macro names;
//! decimal numbers, `$`-prefixed hexadecimal and `%`-prefixed binary
//! literals; double-quoted strings; and the eleven operator symbols.
//! Whitespace and commas separate tokens and are not tokens themselves.
//!
//! What the classifier emits is pinned down by the reference scanner
//! [`spec_lex`]: the executable tokenizer is proved to produce exactly
//! that sequence of lexemes — each token's classification, text, line and
//! column — or exactly the error the reference scanner gives.

use vstd::prelude::*;

use crate::error::{ParseError, ParseErrorKind, ParseResult};
use crate::parser::Parser;
use crate::token::{all_radix_digits, Token, TokenRule};

verus! {

/// Is `c` an ASCII decimal digit?
pub open spec fn spec_is_digit(c: char) -> bool {
    '0' <= c && c <= '9'
}

/// Is `c` an ASCII hexadecimal digit, of either letter case?
pub open spec fn spec_is_hex_digit(c: char) -> bool {
    spec_is_digit(c) || ('a' <= c && c <= 'f') || ('A' <= c && c <= 'F')
}

/// Is `c` an ASCII letter?
pub open spec fn spec_is_alpha(c: char) -> bool {
    ('A' <= c && c <= 'Z') || ('a' <= c && c <= 'z')
}

/// Is `c` an ASCII upper-case letter?
pub open spec fn spec_is_upper(c: char) -> bool {
    'A' <= c && c <= 'Z'
}

/// May `c` continue an identifier: a letter, a digit or an underscore?
pub open spec fn spec_is_ident(c: char) -> bool {
    spec_is_alpha(c) || spec_is_digit(c) || c == '_'
}

/// Is `c` a binary digit?
pub open spec fn spec_is_bit(c: char) -> bool {
    c == '0' || c == '1'
}

/// Does `c` continue a string literal: anything but the closing quote or
/// the end of the line?
pub open spec fn spec_is_string_char(c: char) -> bool {
    c != '"' && c != '\n'
}

// ---------------------------------------------------------------------------
// The reference scanner.
// ---------------------------------------------------------------------------

/// One abstract token: what the classifier emits, at the specification
/// level — the classification, the text as a character sequence, and the
/// line/column of the first character.
pub ghost struct Lexeme {
    /// Which production of the grammar the lexeme was matched by.
    pub rule: TokenRule,
    /// The characters of the lexeme.
    pub text: Seq<char>,
    /// Source line of the first character, 1-based.
    pub line: int,
    /// Source column of the first character, 1-based.
    pub col: int,
}

/// Does an emitted token carry exactly this lexeme?
pub open spec fn lexeme_matches(t: Token, x: Lexeme) -> bool {
    t.rule == x.rule && t.text@ == x.text && t.line == x.line && t.col == x.col
}

/// Does an emitted token list carry exactly these lexemes, in order?
pub open spec fn tokens_match(ts: Seq<Token>, xs: Seq<Lexeme>) -> bool {
    ts.len() == xs.len() && forall|i: int| 0 <= i < ts.len()
        ==> lexeme_matches(#[trigger] ts[i], xs[i])
}

/// Addition saturating at the machine limit, for the line and column
/// diagnostics.
pub open spec fn spec_sat(a: int, b: int) -> int {
    if a + b <= usize::MAX {
        a + b
    } else {
        usize::MAX as int
    }
}

/// End of the run of decimal digits starting at `j`.
pub open spec fn digits_end(src: Seq<char>, j: int) -> int
    decreases src.len() - j,
{
    if j < src.len() && spec_is_digit(src[j]) {
        digits_end(src, j + 1)
    } else {
        j
    }
}

/// End of the run of hexadecimal digits starting at `j`.
pub open spec fn hex_end(src: Seq<char>, j: int) -> int
    decreases src.len() - j,
{
    if j < src.len() && spec_is_hex_digit(src[j]) {
        hex_end(src, j + 1)
    } else {
        j
    }
}

/// End of the run of binary digits starting at `j`.
pub open spec fn bin_end(src: Seq<char>, j: int) -> int
    decreases src.len() - j,
{
    if j < src.len() && spec_is_bit(src[j]) {
        bin_end(src, j + 1)
    } else {
        j
    }
}

/// End of the run of identifier characters starting at `j`.
pub open spec fn ident_end(src: Seq<char>, j: int) -> int
    decreases src.len() - j,
{
    if j < src.len() && spec_is_ident(src[j]) {
        ident_end(src, j + 1)
    } else {
        j
    }
}

/// End of the run of string-literal characters starting at `j`: the
/// position of the closing quote, the line break, or the end of the text.
pub open spec fn string_end(src: Seq<char>, j: int) -> int
    decreases src.len() - j,
{
    if j < src.len() && spec_is_string_char(src[j]) {
        string_end(src, j + 1)
    } else {
        j
    }
}

/// Every scanner run ends between its start and the end of the text.
pub proof fn lemma_run_bounds(src: Seq<char>, j: int)
    requires
        0 <= j <= src.len(),
    ensures
        j <= digits_end(src, j) <= src.len(),
        j <= hex_end(src, j) <= src.len(),
        j <= bin_end(src, j) <= src.len(),
        j <= ident_end(src, j) <= src.len(),
        j <= string_end(src, j) <= src.len(),
    decreases src.len() - j,
{
    if j < src.len() {
        lemma_run_bounds(src, j + 1);
    }
}

/// The operator symbol beginning at position `i`, with its length in
/// characters, if one begins there.
pub open spec fn op_lookup(src: Seq<char>, i: int) -> Option<(TokenRule, int)> {
    let c = src[i];
    let two = i + 1 < src.len();
    if c == '+' {
        Some((TokenRule::OpAdd, 1int))
    } else if c == '-' {
        Some((TokenRule::OpSub, 1int))
    } else if c == '*' {
        if two && src[i + 1] == '*' {
            Some((TokenRule::OpPow, 2int))
        } else {
            Some((TokenRule::OpMul, 1int))
        }
    } else if c == '/' {
        Some((TokenRule::OpDiv, 1int))
    } else if c == '\\' {
        Some((TokenRule::OpMod, 1int))
    } else if c == '^' {
        Some((TokenRule::OpXor, 1int))
    } else if c == '&' {
        Some((TokenRule::OpAnd, 1int))
    } else if c == '|' {
        Some((TokenRule::OpOr, 1int))
    } else if c == '<' && two && src[i + 1] == '<' {
        Some((TokenRule::OpShl, 2int))
    } else if c == '>' && two && src[i + 1] == '>' {
        Some((TokenRule::OpShr, 2int))
    } else {
        None
    }
}

/// An operator symbol is one or two characters long and lies within the
/// text.
pub proof fn lemma_op_len(src: Seq<char>, i: int)
    requires
        0 <= i < src.len(),
    ensures
        op_lookup(src, i) matches Some((rule, len)) ==> 1 <= len && i + len <= src.len(),
{
}

/// Prepend one lexeme to the rest of the scan, passing an error through.
pub open spec fn spec_lex_cons(
    x: Lexeme,
    rest: Result<Seq<Lexeme>, ParseErrorKind>,
) -> Result<Seq<Lexeme>, ParseErrorKind> {
    match rest {
        Ok(xs) => Ok(seq![x] + xs),
        Err(k) => Err(k),
    }
}

/// What scanning the source from position `i` yields, with the given
/// current line and column: the lexemes of the rest of the text in source
/// order, or the error the scanner stops with — `Unexpected` on a
/// character no token may hold, `EndOfFile` on a string literal not
/// closed on its own line.
pub open spec fn spec_lex_from(src: Seq<char>, i: int, line: int, col: int) -> Result<
    Seq<Lexeme>,
    ParseErrorKind,
>
    decreases src.len() - i,
{
    if !(0 <= i < src.len()) {
        Ok(Seq::empty())
    } else {
        let c = src[i];
        if c == ' ' || c == '\t' || c == '\r' || c == ',' {
            spec_lex_from(src, i + 1, line, spec_sat(col, 1))
        } else if c == '\n' {
            spec_lex_from(src, i + 1, spec_sat(line, 1), 1)
        } else if spec_is_digit(c) {
            let j = digits_end(src, i + 1);
            proof {
                lemma_run_bounds(src, i + 1);
            }
            spec_lex_cons(
                Lexeme { rule: TokenRule::IntNumber, text: src.subrange(i, j), line, col },
                spec_lex_from(src, j, line, spec_sat(col, j - i)),
            )
        } else if c == '$' {
            let j = hex_end(src, i + 1);
            if j == i + 1 {
                Err(ParseErrorKind::Unexpected)
            } else {
                proof {
                    lemma_run_bounds(src, i + 1);
                }
                spec_lex_cons(
                    Lexeme { rule: TokenRule::HexNumber, text: src.subrange(i, j), line, col },
                    spec_lex_from(src, j, line, spec_sat(col, j - i)),
                )
            }
        } else if c == '%' {
            if i + 1 < src.len() && spec_is_bit(src[i + 1]) {
                let j = bin_end(src, i + 1);
                proof {
                    lemma_run_bounds(src, i + 1);
                }
                spec_lex_cons(
                    Lexeme { rule: TokenRule::BinNumber, text: src.subrange(i, j), line, col },
                    spec_lex_from(src, j, line, spec_sat(col, j - i)),
                )
            } else if i + 1 < src.len() && spec_is_alpha(src[i + 1]) {
                let j = ident_end(src, i + 1);
                proof {
                    lemma_run_bounds(src, i + 1);
                }
                spec_lex_cons(
                    Lexeme { rule: TokenRule::TypeStruct, text: src.subrange(i, j), line, col },
                    spec_lex_from(src, j, line, spec_sat(col, j - i)),
                )
            } else {
                Err(ParseErrorKind::Unexpected)
            }
        } else if spec_is_alpha(c) {
            let j = ident_end(src, i + 1);
            let text = src.subrange(i, j);
            let rule = if text == "atom"@ {
                TokenRule::KeywordAtom
            } else if text == "macro"@ {
                TokenRule::KeywordMacro
            } else if text == "bool"@ {
                TokenRule::TypeBool
            } else if text == "nybl"@ {
                TokenRule::TypeNybl
            } else if text == "byte"@ {
                TokenRule::TypeByte
            } else if text == "word"@ {
                TokenRule::TypeWord
            } else if text == "long"@ {
                TokenRule::TypeLong
            } else if spec_is_upper(c) {
                TokenRule::AtomName
            } else {
                TokenRule::MacroName
            };
            proof {
                lemma_run_bounds(src, i + 1);
            }
            spec_lex_cons(
                Lexeme { rule, text, line, col },
                spec_lex_from(src, j, line, spec_sat(col, j - i)),
            )
        } else if c == '"' {
            let j = string_end(src, i + 1);
            if j >= src.len() || src[j] == '\n' {
                Err(ParseErrorKind::EndOfFile)
            } else {
                proof {
                    lemma_run_bounds(src, i + 1);
                }
                spec_lex_cons(
                    Lexeme { rule: TokenRule::Str, text: src.subrange(i + 1, j), line, col },
                    spec_lex_from(src, j + 1, line, spec_sat(col, j + 1 - i)),
                )
            }
        } else {
            match op_lookup(src, i) {
                None => Err(ParseErrorKind::Unexpected),
                Some((rule, len)) => {
                    proof {
                        lemma_op_len(src, i);
                    }
                    spec_lex_cons(
                        Lexeme { rule, text: src.subrange(i, i + len), line, col },
                        spec_lex_from(src, i + len, line, spec_sat(col, len)),
                    )
                },
            }
        }
    }
}

/// The lexemes of a whole source text, in source order, or the error the
/// scanner stops with.
pub open spec fn spec_lex(src: Seq<char>) -> Result<Seq<Lexeme>, ParseErrorKind> {
    spec_lex_from(src, 0, 1, 1)
}

/// The lexical shape each classification promises of its text: numbers
/// hold digits of their base (with their sigil), keywords, type names and
/// operators hold their exact spelling, names start with a letter of their
/// case. The shape says nothing about whether a number fits its decoded
/// type; that is the decoding stage's check.
pub open spec fn token_shape_ok(t: Token) -> bool {
    match t.rule {
        TokenRule::KeywordAtom => t.text@ == "atom"@,
        TokenRule::KeywordMacro => t.text@ == "macro"@,
        TokenRule::TypeBool => t.text@ == "bool"@,
        TokenRule::TypeNybl => t.text@ == "nybl"@,
        TokenRule::TypeByte => t.text@ == "byte"@,
        TokenRule::TypeWord => t.text@ == "word"@,
        TokenRule::TypeLong => t.text@ == "long"@,
        TokenRule::TypeStruct => t.text@.len() > 1 && t.text@[0] == '%',
        TokenRule::IntNumber => t.text@.len() > 0 && all_radix_digits(t.text@, 10),
        TokenRule::HexNumber => t.text@.len() > 1 && t.text@[0] == '$' && all_radix_digits(
            t.text@.skip(1),
            16,
        ),
        TokenRule::BinNumber => t.text@.len() > 1 && t.text@[0] == '%' && all_radix_digits(
            t.text@.skip(1),
            2,
        ),
        TokenRule::Str => true,
        TokenRule::AtomName => t.text@.len() > 0 && spec_is_upper(t.text@[0]),
        TokenRule::MacroName => t.text@.len() > 0 && spec_is_alpha(t.text@[0])
            && !spec_is_upper(t.text@[0]),
        TokenRule::OpAdd => t.text@ == "+"@,
        TokenRule::OpSub => t.text@ == "-"@,
        TokenRule::OpMul => t.text@ == "*"@,
        TokenRule::OpDiv => t.text@ == "/"@,
        TokenRule::OpMod => t.text@ == "\\"@,
        TokenRule::OpPow => t.text@ == "**"@,
        TokenRule::OpXor => t.text@ == "^"@,
        TokenRule::OpAnd => t.text@ == "&"@,
        TokenRule::OpOr => t.text@ == "|"@,
        TokenRule::OpShl => t.text@ == "<<"@,
        TokenRule::OpShr => t.text@ == ">>"@,
        TokenRule::EndOfStream => false,
    }
}

/// Consuming one lexeme carries the scan relation one step forward: if
/// the whole scan was the lexemes done so far plus the scan from the old
/// position, and the old position scans to this lexeme followed by the
/// scan from the new position, then the whole scan is the done lexemes
/// plus this one, followed by the scan from the new position.
proof fn lemma_lex_extend(
    src: Seq<char>,
    i0: int,
    l0: int,
    c0: int,
    x: Lexeme,
    i1: int,
    l1: int,
    c1: int,
    done: Seq<Lexeme>,
)
    requires
        spec_lex_from(src, i0, l0, c0) == spec_lex_cons(x, spec_lex_from(src, i1, l1, c1)),
        spec_lex(src) is Ok <==> spec_lex_from(src, i0, l0, c0) is Ok,
        spec_lex(src) is Ok ==> spec_lex(src)->Ok_0 == done + spec_lex_from(src, i0, l0, c0)->Ok_0,
        spec_lex(src) is Err ==> spec_lex(src)->Err_0 == spec_lex_from(src, i0, l0, c0)->Err_0,
    ensures
        spec_lex(src) is Ok <==> spec_lex_from(src, i1, l1, c1) is Ok,
        spec_lex(src) is Ok ==> spec_lex(src)->Ok_0 == done.push(x) + spec_lex_from(
            src,
            i1,
            l1,
            c1,
        )->Ok_0,
        spec_lex(src) is Err ==> spec_lex(src)->Err_0 == spec_lex_from(src, i1, l1, c1)->Err_0,
{
    if spec_lex(src) is Ok {
        assert(done + (seq![x] + spec_lex_from(src, i1, l1, c1)->Ok_0) =~= done.push(x)
            + spec_lex_from(src, i1, l1, c1)->Ok_0);
    }
}

/// Pushing a token that matches the next lexeme, with the right shape,
/// keeps both pointwise relations.
proof fn lemma_lex_push(
    before: Seq<Token>,
    after: Seq<Token>,
    done0: Seq<Lexeme>,
    done1: Seq<Lexeme>,
    t: Token,
    x: Lexeme,
)
    requires
        after == before.push(t),
        done1 == done0.push(x),
        tokens_match(before, done0),
        forall|k: int| 0 <= k < before.len() ==> token_shape_ok(#[trigger] before[k]),
        lexeme_matches(t, x),
        token_shape_ok(t),
    ensures
        tokens_match(after, done1),
        forall|k: int| 0 <= k < after.len() ==> token_shape_ok(#[trigger] after[k]),
{
    assert forall|k: int| 0 <= k < after.len() implies lexeme_matches(#[trigger] after[k], done1[k])
        && token_shape_ok(after[k]) by {
        if k < before.len() {
            assert(after[k] == before[k]);
            assert(done1[k] == done0[k]);
        } else {
            assert(after[k] == t);
            assert(done1[k] == x);
        }
    }
}

// ---------------------------------------------------------------------------
// The executable classifier.
// ---------------------------------------------------------------------------

/// Is `c` an ASCII decimal digit?
fn is_digit(c: char) -> (b: bool)
    ensures
        b == spec_is_digit(c),
{
    let u = c as u32;
    u >= '0' as u32 && u <= '9' as u32
}

/// Is `c` an ASCII hexadecimal digit, of either letter case?
fn is_hex_digit(c: char) -> (b: bool)
    ensures
        b == spec_is_hex_digit(c),
{
    let u = c as u32;
    (u >= '0' as u32 && u <= '9' as u32) || (u >= 'a' as u32 && u <= 'f' as u32) || (u >= 'A'
        as u32 && u <= 'F' as u32)
}

/// Is `c` an ASCII letter?
fn is_alpha(c: char) -> (b: bool)
    ensures
        b == spec_is_alpha(c),
{
    let u = c as u32;
    (u >= 'A' as u32 && u <= 'Z' as u32) || (u >= 'a' as u32 && u <= 'z' as u32)
}

/// Is `c` an ASCII upper-case letter?
fn is_upper(c: char) -> (b: bool)
    ensures
        b == spec_is_upper(c),
{
    let u = c as u32;
    u >= 'A' as u32 && u <= 'Z' as u32
}

/// May `c` continue an identifier?
fn is_ident(c: char) -> (b: bool)
    ensures
        b == spec_is_ident(c),
{
    is_alpha(c) || is_digit(c) || c == '_'
}

/// Do two string slices hold the same characters?
fn str_eq(a: &str, b: &str) -> (r: bool)
    ensures
        r == (a@ == b@),
{
    let n = a.unicode_len();
    let m = b.unicode_len();
    if n != m {
        return false;
    }
    let mut i: usize = 0;
    while i < n
        invariant
            n == a@.len(),
            n == b@.len(),
            0 <= i <= n,
            forall|j: int| 0 <= j < i ==> a@[j] == b@[j],
        decreases n - i,
    {
        if a.get_char(i) != b.get_char(i) {
            return false;
        }
        i = i + 1;
    }
    proof {
        assert(a@ =~= b@);
    }
    true
}

/// Add, saturating at the machine limit; used only for the line and
/// column diagnostics.
fn sat_add(a: usize, b: usize) -> (r: usize)
    ensures
        r == spec_sat(a as int, b as int),
{
    match a.checked_add(b) {
        Some(v) => v,
        None => usize::MAX,
    }
}

/// The lexical classifier, bound to the source text it was run on.
#[derive(Debug)]
pub struct Tokenizer {
    /// The in-memory copy of the source code the tokens came from.
    pub source: String,
    /// The tokens of the source, in order.
    pub tokens: Vec<Token>,
}

impl Tokenizer {
    /// Every token of the stream has the lexical shape its classification
    /// promises.
    pub open spec fn wf(&self) -> bool {
        forall|i: int| 0 <= i < self.tokens@.len() ==> token_shape_ok(#[trigger] self.tokens@[i])
    }

    /// Split source text into classified tokens: exactly the lexemes that
    /// the reference scanner [`spec_lex`] gives for the input, in source
    /// order, or exactly its error — `Unexpected` on a character no token
    /// may hold (a `$` with no digits after it, a bare `<`, an unknown
    /// symbol), `EndOfFile` on a string literal not closed on its own
    /// line.
    #[verifier::loop_isolation(false)]
    #[verifier::rlimit(100)]
    pub fn tokenize_str(input: &str) -> (r: ParseResult<Tokenizer>)
        ensures
            r is Ok <==> spec_lex(input@) is Ok,
            r matches Ok(t) ==> ({
                &&& t.source@ == input@
                &&& tokens_match(t.tokens@, spec_lex(input@)->Ok_0)
                &&& t.wf()
            }),
            r matches Err(e) ==> e.0 == spec_lex(input@)->Err_0,
    {
        let ghost src = input@;
        let n = input.unicode_len();
        let mut tokens: Vec<Token> = Vec::new();
        let mut i: usize = 0;
        let mut line: usize = 1;
        let mut col: usize = 1;
        let ghost mut done: Seq<Lexeme> = Seq::empty();
        proof {
            if spec_lex(src) is Ok {
                assert(done + spec_lex(src)->Ok_0 =~= spec_lex(src)->Ok_0);
            }
        }
        while i < n
            invariant
                n == src.len(),
                0 <= i <= n,
                tokens_match(tokens@, done),
                forall|k: int| 0 <= k < tokens@.len() ==> token_shape_ok(#[trigger] tokens@[k]),
                spec_lex(src) is Ok <==> spec_lex_from(src, i as int, line as int, col as int)
                    is Ok,
                spec_lex(src) is Ok ==> spec_lex(src)->Ok_0 == done + spec_lex_from(
                    src,
                    i as int,
                    line as int,
                    col as int,
                )->Ok_0,
                spec_lex(src) is Err ==> spec_lex(src)->Err_0 == spec_lex_from(
                    src,
                    i as int,
                    line as int,
                    col as int,
                )->Err_0,
            decreases n - i,
        {
            let ghost tokens0 = tokens@;
            let ghost done0 = done;
            let ghost i0 = i as int;
            let ghost line0 = line as int;
            let ghost col0 = col as int;
            let c = input.get_char(i);
            if c == ' ' || c == '\t' || c == '\r' || c == ',' {
                i = i + 1;
                col = sat_add(col, 1);
                continue;
            }
            if c == '\n' {
                i = i + 1;
                line = sat_add(line, 1);
                col = 1;
                continue;
            }
            if is_digit(c) {
                // a decimal integer literal
                let mut j: usize = i + 1;
                while j < n && is_digit(input.get_char(j))
                    invariant
                        i < j <= n,
                        forall|k: int| i < k < j ==> spec_is_digit(#[trigger] src[k]),
                        digits_end(src, i + 1) == digits_end(src, j as int),
                    decreases n - j,
                {
                    j = j + 1;
                }
                proof {
                    assert(digits_end(src, j as int) == j);
                }
                let text = input.substring_char(i, j).to_owned();
                let t = Token::new(TokenRule::IntNumber, text, line, col);
                let ghost x = Lexeme {
                    rule: TokenRule::IntNumber,
                    text: src.subrange(i0, j as int),
                    line: line0,
                    col: col0,
                };
                proof {
                    assert(t.text@ =~= src.subrange(i0, j as int));
                    assert(token_shape_ok(t));
                }
                tokens.push(t);
                col = sat_add(col, j - i);
                i = j;
                proof {
                    assert(spec_lex_from(src, i0, line0, col0) == spec_lex_cons(
                        x,
                        spec_lex_from(src, i as int, line as int, col as int),
                    ));
                    lemma_lex_extend(src, i0, line0, col0, x, i as int, line as int, col as int,
                        done0);
                    done = done0.push(x);
                    lemma_lex_push(tokens0, tokens@, done0, done, t, x);
                }
                continue;
            }
            if c == '$' {
                // a hexadecimal literal; the sigil must be followed by at
                // least one hex digit
                let mut j: usize = i + 1;
                while j < n && is_hex_digit(input.get_char(j))
                    invariant
                        i < j <= n,
                        forall|k: int| i < k < j ==> spec_is_hex_digit(#[trigger] src[k]),
                        hex_end(src, i + 1) == hex_end(src, j as int),
                    decreases n - j,
                {
                    j = j + 1;
                }
                proof {
                    assert(hex_end(src, j as int) == j);
                }
                if j == i + 1 {
                    return Err(ParseError(ParseErrorKind::Unexpected));
                }
                let text = input.substring_char(i, j).to_owned();
                let t = Token::new(TokenRule::HexNumber, text, line, col);
                let ghost x = Lexeme {
                    rule: TokenRule::HexNumber,
                    text: src.subrange(i0, j as int),
                    line: line0,
                    col: col0,
                };
                proof {
                    assert(t.text@ =~= src.subrange(i0, j as int));
                    assert(t.text@.skip(1) =~= src.subrange(i0 + 1, j as int));
                    assert(token_shape_ok(t));
                }
                tokens.push(t);
                col = sat_add(col, j - i);
                i = j;
                proof {
                    assert(spec_lex_from(src, i0, line0, col0) == spec_lex_cons(
                        x,
                        spec_lex_from(src, i as int, line as int, col as int),
                    ));
                    lemma_lex_extend(src, i0, line0, col0, x, i as int, line as int, col as int,
                        done0);
                    done = done0.push(x);
                    lemma_lex_push(tokens0, tokens@, done0, done, t, x);
                }
                continue;
            }
            if c == '%' {
                // either a binary literal or a record-type name
                if i + 1 < n && (input.get_char(i + 1) == '0' || input.get_char(i + 1) == '1') {
                    let mut j: usize = i + 1;
                    while j < n && (input.get_char(j) == '0' || input.get_char(j) == '1')
                        invariant
                            i < j <= n,
                            forall|k: int| i < k < j ==> spec_is_bit(#[trigger] src[k]),
                            bin_end(src, i + 1) == bin_end(src, j as int),
                        decreases n - j,
                    {
                        j = j + 1;
                    }
                    proof {
                        assert(bin_end(src, j as int) == j);
                    }
                    let text = input.substring_char(i, j).to_owned();
                    let t = Token::new(TokenRule::BinNumber, text, line, col);
                    let ghost x = Lexeme {
                        rule: TokenRule::BinNumber,
                        text: src.subrange(i0, j as int),
                        line: line0,
                        col: col0,
                    };
                    proof {
                        assert(t.text@ =~= src.subrange(i0, j as int));
                        assert(t.text@.skip(1) =~= src.subrange(i0 + 1, j as int));
                        assert(token_shape_ok(t));
                    }
                    tokens.push(t);
                    col = sat_add(col, j - i);
                    i = j;
                    proof {
                        assert(spec_lex_from(src, i0, line0, col0) == spec_lex_cons(
                            x,
                            spec_lex_from(src, i as int, line as int, col as int),
                        ));
                        lemma_lex_extend(src, i0, line0, col0, x, i as int, line as int,
                            col as int, done0);
                        done = done0.push(x);
                        lemma_lex_push(tokens0, tokens@, done0, done, t, x);
                    }
                    continue;
                }
                if i + 1 < n && is_alpha(input.get_char(i + 1)) {
                    let mut j: usize = i + 1;
                    while j < n && is_ident(input.get_char(j))
                        invariant
                            i < j <= n,
                            ident_end(src, i + 1) == ident_end(src, j as int),
                        decreases n - j,
                    {
                        j = j + 1;
                    }
                    proof {
                        assert(ident_end(src, j as int) == j);
                    }
                    let text = input.substring_char(i, j).to_owned();
                    let t = Token::new(TokenRule::TypeStruct, text, line, col);
                    let ghost x = Lexeme {
                        rule: TokenRule::TypeStruct,
                        text: src.subrange(i0, j as int),
                        line: line0,
                        col: col0,
                    };
                    proof {
                        assert(t.text@ =~= src.subrange(i0, j as int));
                        assert(token_shape_ok(t));
                    }
                    tokens.push(t);
                    col = sat_add(col, j - i);
                    i = j;
                    proof {
                        assert(spec_lex_from(src, i0, line0, col0) == spec_lex_cons(
                            x,
                            spec_lex_from(src, i as int, line as int, col as int),
                        ));
                        lemma_lex_extend(src, i0, line0, col0, x, i as int, line as int,
                            col as int, done0);
                        done = done0.push(x);
                        lemma_lex_push(tokens0, tokens@, done0, done, t, x);
                    }
                    continue;
                }
                return Err(ParseError(ParseErrorKind::Unexpected));
            }
            if is_alpha(c) {
                // a keyword, a type name, or an atom or macro name
                let mut j: usize = i + 1;
                while j < n && is_ident(input.get_char(j))
                    invariant
                        i < j <= n,
                        ident_end(src, i + 1) == ident_end(src, j as int),
                    decreases n - j,
                {
                    j = j + 1;
                }
                proof {
                    assert(ident_end(src, j as int) == j);
                }
                let text = input.substring_char(i, j).to_owned();
                let rule = if str_eq(text.as_str(), "atom") {
                    TokenRule::KeywordAtom
                } else if str_eq(text.as_str(), "macro") {
                    TokenRule::KeywordMacro
                } else if str_eq(text.as_str(), "bool") {
                    TokenRule::TypeBool
                } else if str_eq(text.as_str(), "nybl") {
                    TokenRule::TypeNybl
                } else if str_eq(text.as_str(), "byte") {
                    TokenRule::TypeByte
                } else if str_eq(text.as_str(), "word") {
                    TokenRule::TypeWord
                } else if str_eq(text.as_str(), "long") {
                    TokenRule::TypeLong
                } else if is_upper(c) {
                    TokenRule::AtomName
                } else {
                    TokenRule::MacroName
                };
                let t = Token::new(rule, text, line, col);
                let ghost x = Lexeme {
                    rule,
                    text: src.subrange(i0, j as int),
                    line: line0,
                    col: col0,
                };
                proof {
                    assert(t.text@ =~= src.subrange(i0, j as int));
                    assert(t.text@[0] == src[i0]);
                    assert(token_shape_ok(t));
                }
                tokens.push(t);
                col = sat_add(col, j - i);
                i = j;
                proof {
                    assert(spec_lex_from(src, i0, line0, col0) == spec_lex_cons(
                        x,
                        spec_lex_from(src, i as int, line as int, col as int),
                    ));
                    lemma_lex_extend(src, i0, line0, col0, x, i as int, line as int, col as int,
                        done0);
                    done = done0.push(x);
                    lemma_lex_push(tokens0, tokens@, done0, done, t, x);
                }
                continue;
            }
            if c == '"' {
                // a string literal: the token text is the content between
                // the quotes; it must close before the end of its line
                let mut j: usize = i + 1;
                while j < n && input.get_char(j) != '"' && input.get_char(j) != '\n'
                    invariant
                        i < j <= n,
                        string_end(src, i + 1) == string_end(src, j as int),
                    decreases n - j,
                {
                    j = j + 1;
                }
                proof {
                    assert(string_end(src, j as int) == j);
                }
                if j >= n || input.get_char(j) == '\n' {
                    return Err(ParseError(ParseErrorKind::EndOfFile));
                }
                let text = input.substring_char(i + 1, j).to_owned();
                let t = Token::new(TokenRule::Str, text, line, col);
                let ghost x = Lexeme {
                    rule: TokenRule::Str,
                    text: src.subrange(i0 + 1, j as int),
                    line: line0,
                    col: col0,
                };
                proof {
                    assert(t.text@ =~= src.subrange(i0 + 1, j as int));
                }
                tokens.push(t);
                col = sat_add(col, j + 1 - i);
                i = j + 1;
                proof {
                    assert(spec_lex_from(src, i0, line0, col0) == spec_lex_cons(
                        x,
                        spec_lex_from(src, i as int, line as int, col as int),
                    ));
                    lemma_lex_extend(src, i0, line0, col0, x, i as int, line as int, col as int,
                        done0);
                    done = done0.push(x);
                    lemma_lex_push(tokens0, tokens@, done0, done, t, x);
                }
                continue;
            }
            // operator symbols
            let (rule, len): (TokenRule, usize) = if c == '+' {
                (TokenRule::OpAdd, 1)
            } else if c == '-' {
                (TokenRule::OpSub, 1)
            } else if c == '*' {
                if i + 1 < n && input.get_char(i + 1) == '*' {
                    (TokenRule::OpPow, 2)
                } else {
                    (TokenRule::OpMul, 1)
                }
            } else if c == '/' {
                (TokenRule::OpDiv, 1)
            } else if c == '\\' {
                (TokenRule::OpMod, 1)
            } else if c == '^' {
                (TokenRule::OpXor, 1)
            } else if c == '&' {
                (TokenRule::OpAnd, 1)
            } else if c == '|' {
                (TokenRule::OpOr, 1)
            } else if c == '<' && i + 1 < n && input.get_char(i + 1) == '<' {
                (TokenRule::OpShl, 2)
            } else if c == '>' && i + 1 < n && input.get_char(i + 1) == '>' {
                (TokenRule::OpShr, 2)
            } else {
                proof {
                    assert(op_lookup(src, i0) is None);
                }
                return Err(ParseError(ParseErrorKind::Unexpected));
            };
            proof {
                assert(op_lookup(src, i0) == Some((rule, len as int)));
            }
            let text = input.substring_char(i, i + len).to_owned();
            let t = Token::new(rule, text, line, col);
            let ghost x = Lexeme {
                rule,
                text: src.subrange(i0, i0 + len as int),
                line: line0,
                col: col0,
            };
            proof {
                assert(t.text@ =~= src.subrange(i0, i0 + len as int));
                reveal_strlit("+");
                reveal_strlit("-");
                reveal_strlit("*");
                reveal_strlit("**");
                reveal_strlit("/");
                reveal_strlit("\\");
                reveal_strlit("^");
                reveal_strlit("&");
                reveal_strlit("|");
                reveal_strlit("<<");
                reveal_strlit(">>");
                match rule {
                    TokenRule::OpAdd => assert(t.text@ =~= "+"@),
                    TokenRule::OpSub => assert(t.text@ =~= "-"@),
                    TokenRule::OpMul => assert(t.text@ =~= "*"@),
                    TokenRule::OpPow => assert(t.text@ =~= "**"@),
                    TokenRule::OpDiv => assert(t.text@ =~= "/"@),
                    TokenRule::OpMod => assert(t.text@ =~= "\\"@),
                    TokenRule::OpXor => assert(t.text@ =~= "^"@),
                    TokenRule::OpAnd => assert(t.text@ =~= "&"@),
                    TokenRule::OpOr => assert(t.text@ =~= "|"@),
                    TokenRule::OpShl => assert(t.text@ =~= "<<"@),
                    TokenRule::OpShr => assert(t.text@ =~= ">>"@),
                    _ => assert(false),
                }
                assert(token_shape_ok(t));
            }
            tokens.push(t);
            col = sat_add(col, len);
            i = i + len;
            proof {
                assert(spec_lex_from(src, i0, line0, col0) == spec_lex_cons(
                    x,
                    spec_lex_from(src, i as int, line as int, col as int),
                ));
                lemma_lex_extend(src, i0, line0, col0, x, i as int, line as int, col as int,
                    done0);
                done = done0.push(x);
                lemma_lex_push(tokens0, tokens@, done0, done, t, x);
            }
        }
        proof {
            assert(spec_lex_from(src, i as int, line as int, col as int)
                == Ok::<Seq<Lexeme>, ParseErrorKind>(Seq::empty()));
            if spec_lex(src) is Ok {
                assert(done + Seq::<Lexeme>::empty() =~= done);
            }
        }
        Ok(Tokenizer { source: input.to_owned(), tokens })
    }

    /// Hand the token stream over for parsing.
    pub fn into_tokens(self) -> (tokens: Vec<Token>)
        ensures
            tokens@ == self.tokens@,
    {
        self.tokens
    }
}

/// A sequential source of tokens, read once from source text.
#[derive(Debug)]
pub struct TokenIter {
    /// The tokens of the source, in order.
    pub tokens: Vec<Token>,
    /// Position of the next token to hand out.
    pub index: usize,
}

impl TokenIter {
    /// Tokenize source text and position an iterator at its first token:
    /// the tokens are exactly the source's lexemes per [`spec_lex`].
    pub fn from_str(s: &str) -> (r: ParseResult<TokenIter>)
        ensures
            r is Ok <==> spec_lex(s@) is Ok,
            r matches Ok(it) ==> it.index == 0 && tokens_match(it.tokens@, spec_lex(s@)->Ok_0)
                && forall|i: int| 0 <= i < it.tokens@.len()
                    ==> token_shape_ok(#[trigger] it.tokens@[i]),
            r matches Err(e) ==> e.0 == spec_lex(s@)->Err_0,
    {
        let tokenizer = match Tokenizer::tokenize_str(s) {
            Ok(t) => t,
            Err(e) => {
                return Err(e);
            },
        };
        Ok(TokenIter { tokens: tokenizer.into_tokens(), index: 0 })
    }

    /// The next token, or `None` at the end of the stream.
    pub fn next_token(&mut self) -> (t: Option<Token>)
        requires
            old(self).index <= old(self).tokens@.len(),
        ensures
            final(self).tokens@ == old(self).tokens@,
            t is Some <==> old(self).index < old(self).tokens@.len(),
            t matches Some(tok) ==> tok == old(self).tokens@[old(self).index as int]
                && final(self).index == old(self).index + 1,
            t is None ==> final(self).index == old(self).index,
    {
        if self.index < self.tokens.len() {
            let t = self.tokens[self.index].clone();
            self.index = self.index + 1;
            Some(t)
        } else {
            None
        }
    }
}

impl Parser {
    /// A parser over the token stream of the given source text: its
    /// tokens are exactly the source's lexemes per [`spec_lex`], so two
    /// parsers built from texts with equal characters hold tokens with
    /// equal classifications, texts and positions. The source must
    /// tokenize; the lexical error comes back otherwise.
    pub fn from_str(source: &str) -> (r: ParseResult<Parser>)
        ensures
            r is Ok <==> spec_lex(source@) is Ok,
            r matches Ok(p) ==> p.wf() && p.index == 0 && tokens_match(
                p.tokens@,
                spec_lex(source@)->Ok_0,
            ),
            r matches Err(e) ==> e.0 == spec_lex(source@)->Err_0,
    {
        let tokenizer = match Tokenizer::tokenize_str(source) {
            Ok(t) => t,
            Err(e) => {
                return Err(e);
            },
        };
        Ok(Parser::from_tokens(tokenizer.into_tokens()))
    }
}

} // verus!
