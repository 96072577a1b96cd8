use axisc::error::{CompileError, Diagnostic, ErrorHint};
use axisc::lexer::{Array, Keyword, Literal, SimpleToken, Token, TokenKind, TokenPosition};
use axisc::reader::TokenScanner;
use axisc::tokenizer::{step, tokenize, tokenize_source, Step};

fn kinds(source: &str) -> Vec<TokenKind> {
    let mut scanner = TokenScanner::from_file_string(source, "main.ax");
    match tokenize(&mut scanner) {
        Ok(tokens) => tokens.into_iter().map(|token| token.token).collect(),
        Err(diagnostic) => panic!("unexpected fault: {:?}", diagnostic),
    }
}

fn positions(source: &str) -> Vec<(usize, usize)> {
    let mut scanner = TokenScanner::from_file_string(source, "main.ax");
    match tokenize(&mut scanner) {
        Ok(tokens) => tokens.iter().map(|token| (token.position.line, token.position.column)).collect(),
        Err(diagnostic) => panic!("unexpected fault: {:?}", diagnostic),
    }
}

fn simple(token: SimpleToken) -> TokenKind {
    TokenKind::Simple(token)
}

fn identifier(name: &str) -> TokenKind {
    TokenKind::Identifier(name.to_string())
}

fn number(text: &str) -> TokenKind {
    TokenKind::Literal(Literal::Number(text.to_string()))
}

fn string(text: &str) -> TokenKind {
    TokenKind::Literal(Literal::String(text.to_string()))
}

#[test]
fn token_new_takes_line_and_column() {
    let token = Token::new((3, 7), simple(SimpleToken::Add));
    assert_eq!(token.position, TokenPosition { line: 3, column: 7 });
    assert_eq!(token.token, simple(SimpleToken::Add));
}

#[test]
fn empty_text_has_no_tokens() {
    assert_eq!(kinds(""), vec![]);
    assert_eq!(kinds("   "), vec![]);
}

#[test]
fn let_statement_end_to_end() {
    let mut scanner = TokenScanner::from_file_string("Let x Into 5\n", "main.ax");
    let tokens = tokenize(&mut scanner).unwrap();
    assert_eq!(
        tokens,
        vec![
            Token::new((1, 1), TokenKind::Keyword(Keyword::Let)),
            Token::new((1, 5), identifier("x")),
            Token::new((1, 7), TokenKind::Keyword(Keyword::Into)),
            Token::new((1, 12), number("5")),
            Token::new((1, 13), simple(SimpleToken::LineFeed)),
        ]
    );
    match &tokens[3].token {
        TokenKind::Literal(Literal::Number(text)) => assert_eq!(text.parse::<f64>(), Ok(5.0)),
        other => panic!("not a number: {:?}", other),
    }
    assert_eq!((scanner.line, scanner.column, scanner.index), (2, 1, 13));
}

#[test]
fn each_punctuation_character_is_one_token() {
    assert_eq!(
        kinds("#*+<>;/%^:$\n"),
        vec![
            simple(SimpleToken::Pound),
            simple(SimpleToken::Multiply),
            simple(SimpleToken::Add),
            simple(SimpleToken::LessThan),
            simple(SimpleToken::GreaterThan),
            simple(SimpleToken::Semicolon),
            simple(SimpleToken::Divide),
            simple(SimpleToken::Percent),
            simple(SimpleToken::Caret),
            simple(SimpleToken::Colon),
            simple(SimpleToken::Dollar),
            simple(SimpleToken::LineFeed),
        ]
    );
    assert_eq!(
        positions("#*+<>;/%^:$\n"),
        vec![(1, 1), (1, 2), (1, 3), (1, 4), (1, 5), (1, 6), (1, 7), (1, 8), (1, 9), (1, 10), (1, 11), (1, 12)]
    );
}

#[test]
fn arrow_is_one_token() {
    assert_eq!(kinds("->"), vec![simple(SimpleToken::Arrow)]);
    assert_eq!(kinds("->>"), vec![simple(SimpleToken::Arrow), simple(SimpleToken::GreaterThan)]);
    assert_eq!(positions("->>"), vec![(1, 1), (1, 3)]);
}

#[test]
fn minus_alone_is_subtract() {
    assert_eq!(kinds("-"), vec![simple(SimpleToken::Subtract)]);
    assert_eq!(kinds("- >"), vec![simple(SimpleToken::Subtract), simple(SimpleToken::GreaterThan)]);
    assert_eq!(kinds("-5"), vec![simple(SimpleToken::Subtract), number("5")]);
    assert_eq!(positions("-5"), vec![(1, 1), (1, 2)]);
}

#[test]
fn double_minus_is_a_comment_to_the_end_of_the_line() {
    assert_eq!(
        kinds("-- Let x Into 5 \"open\nx"),
        vec![simple(SimpleToken::Comment), simple(SimpleToken::LineFeed), identifier("x")]
    );
    assert_eq!(kinds("--"), vec![simple(SimpleToken::Comment)]);
    assert_eq!(kinds("---->"), vec![simple(SimpleToken::Comment)]);
}

#[test]
fn comment_leaves_the_column_behind_its_first_character() {
    assert_eq!(positions("a -- note\nb"), vec![(1, 1), (1, 3), (1, 4), (2, 1)]);
}

#[test]
fn double_equals_is_one_token() {
    assert_eq!(kinds("=="), vec![simple(SimpleToken::DoubleEquals)]);
    assert_eq!(kinds("="), vec![simple(SimpleToken::Equals)]);
    assert_eq!(kinds("==="), vec![simple(SimpleToken::DoubleEquals), simple(SimpleToken::Equals)]);
    assert_eq!(kinds("= ="), vec![simple(SimpleToken::Equals), simple(SimpleToken::Equals)]);
    assert_eq!(
        kinds("a==b"),
        vec![identifier("a"), simple(SimpleToken::DoubleEquals), identifier("b")]
    );
    assert_eq!(positions("a==b"), vec![(1, 1), (1, 2), (1, 4)]);
}

#[test]
fn words_end_at_delimiters_only() {
    assert_eq!(kinds("a+b"), vec![identifier("a+b")]);
    assert_eq!(kinds("a;b"), vec![identifier("a"), simple(SimpleToken::Semicolon), identifier("b")]);
    assert_eq!(kinds("1e-5"), vec![number("1e-5")]);
    assert_eq!(kinds("x\"y\""), vec![identifier("x\"y\"")]);
}

#[test]
fn numbers_booleans_and_keywords_in_a_line() {
    assert_eq!(
        kinds("Let flag As Boolean = True;"),
        vec![
            TokenKind::Keyword(Keyword::Let),
            identifier("flag"),
            TokenKind::Keyword(Keyword::As),
            TokenKind::Keyword(Keyword::Boolean),
            simple(SimpleToken::Equals),
            TokenKind::Literal(Literal::Boolean(true)),
            simple(SimpleToken::Semicolon),
        ]
    );
    assert_eq!(kinds("3.14 abc123abc let"), vec![number("3.14"), identifier("abc123abc"), identifier("let")]);
}

#[test]
fn string_literal_holds_what_is_between_the_quotes() {
    assert_eq!(kinds("\"hello world\""), vec![string("hello world")]);
    assert_eq!(kinds("\"\""), vec![string("")]);
    assert_eq!(kinds("\"a=b;-- #\" x"), vec![string("a=b;-- #"), identifier("x")]);
    assert_eq!(positions("\"ab\" x"), vec![(1, 1), (1, 6)]);
}

#[test]
fn string_literal_from_scanner_consumes_both_quotes() {
    let mut scanner = TokenScanner::from_file_string("\"ab\"c", "main.ax");
    assert_eq!(
        Literal::string_literal_from_scanner(&mut scanner),
        Ok(Literal::String("ab".to_string()))
    );
    assert_eq!((scanner.line, scanner.column, scanner.index), (1, 5, 4));
    assert_eq!(scanner.peek(), Some('c'));
}

fn unterminated(error: CompileError, at: (usize, usize), start: (usize, usize)) -> Diagnostic<'static> {
    Diagnostic {
        error,
        position: TokenPosition { line: at.0, column: at.1 },
        base_hint: Some(match error {
            CompileError::UnexpectedStringEOF => "file ends here",
            CompileError::UnexpectedStringLineBreak => "line break occurs here",
        }),
        hints: vec![ErrorHint::new(TokenPosition { line: start.0, column: start.1 }, "string starts here")],
        note: Some("strings are wrapped in \"double quotes\""),
    }
}

#[test]
fn string_open_at_the_end_of_the_text_is_a_fault() {
    let mut scanner = TokenScanner::from_file_string("Let s Into \"abc", "main.ax");
    assert_eq!(
        tokenize(&mut scanner),
        Err(unterminated(CompileError::UnexpectedStringEOF, (1, 16), (1, 13)))
    );
    assert_eq!((scanner.line, scanner.column, scanner.index), (1, 16, 15));
    assert_eq!(scanner.peek(), None);
}

#[test]
fn string_with_a_line_feed_is_a_fault() {
    let mut scanner = TokenScanner::from_file_string("x \"ab\ncd\"\n", "main.ax");
    assert_eq!(
        tokenize(&mut scanner),
        Err(unterminated(CompileError::UnexpectedStringLineBreak, (1, 6), (1, 4)))
    );
    assert_eq!((scanner.line, scanner.column, scanner.index), (1, 6, 5));
    assert_eq!(scanner.peek(), Some('\n'));
}

#[test]
fn lone_quote_is_a_fault() {
    let mut scanner = TokenScanner::from_file_string("\"", "main.ax");
    assert_eq!(
        Literal::string_literal_from_scanner(&mut scanner),
        Err(unterminated(CompileError::UnexpectedStringEOF, (1, 2), (1, 2)))
    );
    assert_eq!((scanner.line, scanner.column, scanner.index), (1, 2, 1));
}

#[test]
fn line_feed_fault_stands_at_the_line_feed() {
    for (text, quote, body) in [("\"\n", 1, 0), ("\"abc\nrest", 1, 3), ("ab \"cdefg\n\"", 4, 5)] {
        let mut scanner = TokenScanner::from_file_string(text, "main.ax");
        let fault = tokenize(&mut scanner).unwrap_err();
        assert_eq!(fault.error, CompileError::UnexpectedStringLineBreak);
        assert_eq!(fault.position, TokenPosition { line: 1, column: quote + 1 + body });
        assert_eq!(fault.hints[0].position, TokenPosition { line: 1, column: quote + 1 });
    }
    let mut scanner = TokenScanner::from_file_string("a\nb \"cd\ne", "main.ax");
    let fault = tokenize(&mut scanner).unwrap_err();
    assert_eq!(fault.position, TokenPosition { line: 2, column: 6 });
    assert_eq!(fault.hints[0].position, TokenPosition { line: 2, column: 4 });
}

#[test]
fn end_of_text_fault_stands_at_the_end_of_the_text() {
    let mut scanner = TokenScanner::from_file_string("\"abc", "main.ax");
    let fault = tokenize(&mut scanner).unwrap_err();
    assert_eq!(fault.error, CompileError::UnexpectedStringEOF);
    assert_eq!(fault.position, TokenPosition { line: 1, column: 5 });
    let mut scanner = TokenScanner::from_file_string("x\ny \"abc", "main.ax");
    let fault = tokenize(&mut scanner).unwrap_err();
    assert_eq!(fault.position, TokenPosition { line: 2, column: 7 });
}

#[test]
fn string_literal_from_scanner_consumes_whatever_stands_first() {
    let mut scanner = TokenScanner::from_file_string("\nab\"", "main.ax");
    assert_eq!(
        Literal::string_literal_from_scanner(&mut scanner),
        Ok(Literal::String("ab".to_string()))
    );
    assert_eq!((scanner.line, scanner.column, scanner.index), (2, 4, 4));
    let mut empty = TokenScanner::from_file_string("", "main.ax");
    assert_eq!(
        Literal::string_literal_from_scanner(&mut empty),
        Err(unterminated(CompileError::UnexpectedStringEOF, (1, 2), (1, 2)))
    );
}

#[test]
fn step_says_what_was_consumed() {
    let mut scanner = TokenScanner::from_file_string("a -> \"x", "main.ax");
    assert_eq!(step(&mut scanner), Step::Emit(identifier("a")));
    assert_eq!(scanner.index, 1);
    assert_eq!(step(&mut scanner), Step::Skip);
    assert_eq!(scanner.index, 2);
    assert_eq!(step(&mut scanner), Step::Emit(simple(SimpleToken::Arrow)));
    assert_eq!(scanner.index, 4);
    assert_eq!(step(&mut scanner), Step::Skip);
    assert_eq!(
        step(&mut scanner),
        Step::Fail(unterminated(CompileError::UnexpectedStringEOF, (1, 8), (1, 7)))
    );
    assert_eq!(step(&mut scanner), Step::End);
    assert_eq!(step(&mut scanner), Step::End);
    assert_eq!((scanner.line, scanner.column, scanner.index), (1, 8, 7));
}

#[test]
fn tokenizing_twice_gives_the_same_tokens() {
    let source = "Let x Into 5\n-- note\nx -> y == \"text\" 3.14\n";
    let mut first = TokenScanner::from_file_string(source, "one.ax");
    let mut second = TokenScanner::from_file_string(source, "two.ax");
    assert_eq!(tokenize(&mut first), tokenize(&mut second));
    assert_eq!(tokenize_source(source, "one.ax"), tokenize_source(source, "one.ax"));
}

#[test]
fn positions_never_decrease() {
    let source = "Let x Into 5\n-- note\n\nx -> y == \"text\" 3.14;;\n   z\n";
    let found = positions(source);
    assert_eq!(found.len(), 19);
    for pair in found.windows(2) {
        assert!(pair[0] < pair[1], "{:?}", pair);
    }
    for (line, column) in found {
        assert!(line >= 1 && column >= 1);
    }
}

#[test]
fn tokenize_starts_where_the_scanner_stands() {
    let mut scanner = TokenScanner::from_file_string("ab\ncd ef", "main.ax");
    scanner.advance(3);
    assert_eq!(
        tokenize(&mut scanner),
        Ok(vec![Token::new((2, 1), identifier("cd")), Token::new((2, 4), identifier("ef"))])
    );
}

#[test]
fn tokenize_source_gives_the_tokens() {
    assert_eq!(
        tokenize_source("x = 1", "main.ax"),
        Ok(vec![
            Token::new((1, 1), identifier("x")),
            Token::new((1, 3), simple(SimpleToken::Equals)),
            Token::new((1, 5), number("1")),
        ])
    );
}

#[test]
fn labels_of_punctuation() {
    let table = [
        (SimpleToken::Multiply, "multiply"),
        (SimpleToken::Divide, "divide"),
        (SimpleToken::Pound, "pound"),
        (SimpleToken::Colon, "colon"),
        (SimpleToken::Percent, "percent"),
        (SimpleToken::Caret, "caret"),
        (SimpleToken::Dollar, "dollar"),
        (SimpleToken::Equals, "equals"),
        (SimpleToken::DoubleEquals, "double equals"),
        (SimpleToken::Semicolon, "semicolon"),
        (SimpleToken::GreaterThan, "greater than"),
        (SimpleToken::LessThan, "less than"),
        (SimpleToken::Add, "plus"),
        (SimpleToken::Subtract, "minus "),
        (SimpleToken::LineFeed, "line break"),
        (SimpleToken::Comment, "comment"),
        (SimpleToken::Arrow, "arrow"),
    ];
    for (token, label) in table {
        assert_eq!(token.to_string(), label);
        assert_eq!(TokenKind::Simple(token).to_string(), label);
    }
}

#[test]
fn labels_of_literals_and_arrays() {
    assert_eq!(Literal::String("x".to_string()).to_string(), "string");
    assert_eq!(Literal::Number("1".to_string()).to_string(), "number");
    assert_eq!(Literal::Boolean(true).to_string(), "boolean");
    assert_eq!(Array::String(vec!["x".to_string()]).to_string(), "string array");
    assert_eq!(Array::Number(vec!["1".to_string()]).to_string(), "number array");
    assert_eq!(Array::Boolean(vec![true]).to_string(), "boolean array");
    let nested = Array::MultiDimensional(vec![Array::Boolean(vec![]), Array::MultiDimensional(vec![])]);
    assert_eq!(nested.to_string(), "multi-dimensional array");
    assert_eq!(Literal::Array(nested).to_string(), "multi-dimensional array");
    assert_eq!(TokenKind::Literal(Literal::Array(Array::Number(vec![]))).to_string(), "number array");
}

#[test]
fn labels_of_identifiers_and_keywords() {
    assert_eq!(identifier("count").to_string(), "`count`");
    assert_eq!(identifier("").to_string(), "``");
    assert_eq!(TokenKind::Keyword(Keyword::Into).to_string(), "Into");
    assert_eq!(TokenKind::Keyword(Keyword::Boolean).to_string(), "Boolean");
    assert_eq!(number("2").to_string(), "number");
}
