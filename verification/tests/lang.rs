//! The token contract, the parser and constant folding.

use retronym::error::ParseErrorKind;
use retronym::eval::Evaluation;
use retronym::node::{Node, NodeKind, Value};
use retronym::ops::Operator;
use retronym::parser::Parser;
use retronym::token::{Token, TokenKind, TokenRule};
use retronym::tokenizer::{TokenIter, Tokenizer};

fn parse_one(source: &str) -> Node {
    let mut parser = Parser::from_str(source).expect("source must tokenize");
    assert!(!parser.is_eof());
    parser
        .parse_statement()
        .expect("statement must parse")
        .expect("statement must produce a node")
}

fn eval_of(source: &str) -> Evaluation {
    parse_one(source).eval().expect("expression must fold")
}

#[test]
fn hex_literal_decodes_dropping_the_sigil() {
    let t = Token::new(TokenRule::HexNumber, "$1F".to_string(), 1, 1);
    assert_eq!(t.kind().unwrap(), TokenKind::Hex(31));
}

#[test]
fn bin_literal_decodes_dropping_the_sigil() {
    let t = Token::new(TokenRule::BinNumber, "%101".to_string(), 1, 1);
    assert_eq!(t.kind().unwrap(), TokenKind::Bin(5));
}

#[test]
fn int_literal_decodes_as_decimal() {
    let t = Token::new(TokenRule::IntNumber, "42".to_string(), 1, 1);
    assert_eq!(t.kind().unwrap(), TokenKind::Int(42));
}

#[test]
fn widest_hex_literal_fits() {
    let t = Token::new(TokenRule::HexNumber, "$FFFFFFFF".to_string(), 1, 1);
    assert_eq!(t.kind().unwrap(), TokenKind::Hex(u32::MAX));
}

#[test]
fn hex_literal_over_32_bits_is_refused() {
    let t = Token::new(TokenRule::HexNumber, "$100000000".to_string(), 1, 1);
    assert!(matches!(t.kind().unwrap_err().0, ParseErrorKind::ParseInt));
}

#[test]
fn int_literal_over_i32_is_refused() {
    let ok = Token::new(TokenRule::IntNumber, "2147483647".to_string(), 1, 1);
    assert_eq!(ok.kind().unwrap(), TokenKind::Int(i32::MAX));
    let over = Token::new(TokenRule::IntNumber, "2147483648".to_string(), 1, 1);
    assert!(matches!(over.kind().unwrap_err().0, ParseErrorKind::ParseInt));
}

#[test]
fn number_with_bad_digits_is_refused() {
    let t = Token::new(TokenRule::BinNumber, "%102".to_string(), 1, 1);
    assert!(matches!(t.kind().unwrap_err().0, ParseErrorKind::ParseInt));
}

#[test]
fn tokenizer_classifies_the_vocabulary() {
    let tokenizer = Tokenizer::tokenize_str("atom macro byte %point A lda 5 $1F %101 + **").unwrap();
    let rules: Vec<TokenRule> = tokenizer.tokens.iter().map(|t| t.rule).collect();
    assert_eq!(
        rules,
        vec![
            TokenRule::KeywordAtom,
            TokenRule::KeywordMacro,
            TokenRule::TypeByte,
            TokenRule::TypeStruct,
            TokenRule::AtomName,
            TokenRule::MacroName,
            TokenRule::IntNumber,
            TokenRule::HexNumber,
            TokenRule::BinNumber,
            TokenRule::OpAdd,
            TokenRule::OpPow,
        ]
    );
}

#[test]
fn tokenizer_tracks_lines_and_columns() {
    let tokenizer = Tokenizer::tokenize_str("byte\n 10").unwrap();
    assert_eq!(tokenizer.tokens.len(), 2);
    assert_eq!((tokenizer.tokens[0].line, tokenizer.tokens[0].col), (1, 1));
    assert_eq!((tokenizer.tokens[1].line, tokenizer.tokens[1].col), (2, 2));
}

#[test]
fn tokenizer_reads_string_literals() {
    let tokenizer = Tokenizer::tokenize_str("\"hello world\"").unwrap();
    assert_eq!(tokenizer.tokens.len(), 1);
    assert_eq!(tokenizer.tokens[0].rule, TokenRule::Str);
    assert_eq!(tokenizer.tokens[0].text, "hello world");
}

#[test]
fn unterminated_string_is_end_of_file() {
    let err = Tokenizer::tokenize_str("\"dangling").unwrap_err();
    assert!(matches!(err.0, ParseErrorKind::EndOfFile));
}

#[test]
fn stray_symbol_is_unexpected() {
    let err = Tokenizer::tokenize_str("10 ; 20").unwrap_err();
    assert!(matches!(err.0, ParseErrorKind::Unexpected));
}

#[test]
fn token_iter_hands_tokens_out_in_order() {
    let mut it = TokenIter::from_str("1 2").unwrap();
    assert_eq!(it.next_token().unwrap().text, "1");
    assert_eq!(it.next_token().unwrap().text, "2");
    assert!(it.next_token().is_none());
}

#[test]
fn atom_definition_parses_to_def_node() {
    let node = parse_one("atom A");
    assert!(matches!(&node.kind, NodeKind::DefAtom(name) if name == "A"));
    assert!(node.is_static);
    // the node's source reference is the name token, not the keyword
    assert_eq!(node.token.as_ref().unwrap().text, "A");
}

#[test]
fn atom_keyword_needs_a_name() {
    let mut parser = Parser::from_str("atom 5").unwrap();
    let err = parser.parse_statement().unwrap_err();
    assert!(matches!(err.0, ParseErrorKind::Unexpected));
}

#[test]
fn atom_keyword_at_end_of_stream() {
    let mut parser = Parser::from_str("atom").unwrap();
    let err = parser.parse_statement().unwrap_err();
    assert!(matches!(err.0, ParseErrorKind::EndOfFile));
}

#[test]
fn macro_keyword_is_unimplemented() {
    let mut parser = Parser::from_str("macro lda").unwrap();
    let err = parser.parse_statement().unwrap_err();
    assert!(matches!(err.0, ParseErrorKind::Unimplemented));
}

#[test]
fn record_type_consumes_the_contiguous_type_run() {
    let node = parse_one("byte, byte 10");
    match &node.kind {
        NodeKind::Record(list) => {
            assert_eq!(list.nodes.len(), 2);
            assert!(matches!(list.nodes[0].kind, NodeKind::Primitive(_)));
        },
        other => panic!("expected a record declaration, got {:?}", other),
    }
    assert!(!node.is_static);
}

#[test]
fn bare_value_parses_without_an_expression_wrapper() {
    let node = parse_one("5");
    assert!(matches!(node.kind, NodeKind::Value(Value::Int(5))));
}

#[test]
fn operator_without_operand_is_unexpected() {
    let mut parser = Parser::from_str("1 + +").unwrap();
    let err = parser.parse_statement().unwrap_err();
    assert!(matches!(err.0, ParseErrorKind::Unexpected));
}

#[test]
fn operator_at_end_of_stream_is_end_of_file() {
    let mut parser = Parser::from_str("1 +").unwrap();
    let err = parser.parse_statement().unwrap_err();
    assert!(matches!(err.0, ParseErrorKind::EndOfFile));
}

#[test]
fn expression_node_records_the_operator() {
    let node = parse_one("1 + 2");
    match &node.kind {
        NodeKind::Expr(x) => {
            assert_eq!(x.oper, Operator::Add);
            assert!(matches!(x.left.kind, NodeKind::Value(Value::Int(1))));
            assert!(matches!(x.right.kind, NodeKind::Value(Value::Int(2))));
        },
        other => panic!("expected an expression, got {:?}", other),
    }
}

#[test]
fn literal_expression_is_static() {
    assert!(parse_one("1 + 2").is_static);
    assert!(parse_one("5").is_static);
}

#[test]
fn reference_operand_makes_an_expression_dynamic() {
    // an atom reference needs external resolution, so the expression
    // cannot be static
    assert!(!parse_one("A").is_static);
    assert!(!parse_one("1 + A").is_static);
}

#[test]
fn folding_five_plus_five_yields_int_ten() {
    assert_eq!(eval_of("5 + 5"), Evaluation::Int(10));
}

#[test]
fn folding_division_always_yields_a_fraction() {
    match eval_of("5 / 2") {
        Evaluation::Float(q) => {
            assert_eq!((q.num, q.den), (5, 2));
            assert_eq!(q.num as f64 / q.den as f64, 2.5);
        },
        other => panic!("division must fold to a fraction, got {:?}", other),
    }
}

#[test]
fn folding_integral_division_stays_fractional() {
    match eval_of("4 / 2") {
        Evaluation::Float(q) => assert_eq!(q.num as f64 / q.den as f64, 2.0),
        other => panic!("division must fold to a fraction, got {:?}", other),
    }
}

#[test]
fn folding_mixes_fractions_and_integers() {
    match eval_of("1 / 2 + 1") {
        Evaluation::Float(q) => assert_eq!(q.num as f64 / q.den as f64, 1.5),
        other => panic!("expected a fraction, got {:?}", other),
    }
}

#[test]
fn folding_subtraction_and_multiplication() {
    assert_eq!(eval_of("7 - 9"), Evaluation::Int(-2));
    assert_eq!(eval_of("6 * 7"), Evaluation::Int(42));
}

#[test]
fn chained_expressions_fold_left_to_right() {
    // chaining is left-associative: the built expression becomes the left
    // operand of the next operator
    assert_eq!(eval_of("1 + 2 * 3"), Evaluation::Int(9));
    assert_eq!(eval_of("2 * 3 + 4"), Evaluation::Int(10));
}

#[test]
fn folding_a_reference_needs_resolution() {
    let err = parse_one("1 + A").eval().unwrap_err();
    assert!(matches!(err.0, ParseErrorKind::Unimplemented));
}

#[test]
fn folding_division_by_zero_is_not_supported() {
    let err = parse_one("1 / 0").eval().unwrap_err();
    assert!(matches!(err.0, ParseErrorKind::Unimplemented));
}

#[test]
fn folding_an_extension_operator_is_not_supported() {
    let err = parse_one("5 \\ 2").eval().unwrap_err();
    assert!(matches!(err.0, ParseErrorKind::Unimplemented));
}

#[test]
fn hex_and_bin_literals_fold_to_their_values() {
    assert_eq!(eval_of("$1F + %101"), Evaluation::Int(36));
}

#[test]
fn operator_symbols_round_trip() {
    assert_eq!(Operator::Add.symbol(), "+");
    assert_eq!(Operator::Pow.symbol(), "**");
    assert_eq!(Operator::Shr.symbol(), ">>");
}

#[test]
fn default_node_is_an_empty_static_node() {
    let n = Node::default();
    assert!(matches!(n.kind, NodeKind::Void));
    assert!(n.is_static);
    assert!(n.token.is_none());
}

#[test]
fn equal_sources_tokenize_identically() {
    // the token stream is a function of the source text alone
    let a = Tokenizer::tokenize_str("atom A byte 1 + 2").unwrap();
    let b = Tokenizer::tokenize_str("atom A byte 1 + 2").unwrap();
    assert_eq!(a.tokens.len(), b.tokens.len());
    for (ta, tb) in a.tokens.iter().zip(b.tokens.iter()) {
        assert_eq!(ta.rule, tb.rule);
        assert_eq!(ta.text, tb.text);
        assert_eq!((ta.line, ta.col), (tb.line, tb.col));
    }
}
