use axisc::error::CompileError;
use axisc::lexer::{Keyword, Literal, SimpleToken, TokenKind};
use axisc::reader::TokenScanner;
use axisc::tokenizer::tokenize;
use std::iter::Peekable;
use std::str::Chars;

/// A tokenizer over an iterator of characters, written as plainly as can be,
/// to hold the library against.
struct Model<'a> {
    chars: Peekable<Chars<'a>>,
    line: usize,
    column: usize,
}

#[derive(Debug, PartialEq)]
enum Seen {
    Identifier(String),
    Keyword(Keyword),
    Text(String),
    Number(u64),
    Boolean(bool),
    Simple(SimpleToken),
}

#[derive(Debug, PartialEq)]
struct Fault {
    error: CompileError,
    at: (usize, usize),
    start: (usize, usize),
}

impl<'a> Model<'a> {
    fn new(text: &'a str) -> Self {
        Model { chars: text.chars().peekable(), line: 1, column: 1 }
    }

    fn take(&mut self) -> Option<char> {
        let c = self.chars.next();
        if c == Some('\n') {
            self.line += 1;
            self.column = 1;
        } else {
            self.column += 1;
        }
        c
    }

    fn next_is(&mut self, c: char) -> bool {
        self.chars.peek() == Some(&c)
    }

    fn word(&mut self) -> String {
        let mut word = String::new();
        while let Some(&c) = self.chars.peek() {
            if c == ' ' || c == ';' || c == '\n' || c == '=' {
                break;
            }
            word.push(c);
            self.column += 1;
            self.chars.next();
        }
        word
    }

    fn text(&mut self) -> Result<String, Fault> {
        self.take();
        let start = (self.line, self.column);
        let mut text = String::new();
        loop {
            let error = match self.chars.peek() {
                Some('"') => {
                    self.take();
                    return Ok(text);
                }
                Some('\n') => CompileError::UnexpectedStringLineBreak,
                Some(&c) => {
                    self.take();
                    text.push(c);
                    continue;
                }
                None => CompileError::UnexpectedStringEOF,
            };
            return Err(Fault { error, at: (self.line, self.column), start });
        }
    }

    fn run(mut self) -> Result<Vec<((usize, usize), Seen)>, Fault> {
        let mut seen = Vec::new();
        let mut at = (1, 1);
        while let Some(&c) = self.chars.peek() {
            let simple = |token| Some(Seen::Simple(token));
            let found = match c {
                '#' | '*' | '+' | '<' | '>' | ';' | '/' | '%' | '^' | ':' | '$' | '\n' => {
                    self.take();
                    simple(match c {
                        '#' => SimpleToken::Pound,
                        '*' => SimpleToken::Multiply,
                        '+' => SimpleToken::Add,
                        '<' => SimpleToken::LessThan,
                        '>' => SimpleToken::GreaterThan,
                        ';' => SimpleToken::Semicolon,
                        '/' => SimpleToken::Divide,
                        '%' => SimpleToken::Percent,
                        '^' => SimpleToken::Caret,
                        ':' => SimpleToken::Colon,
                        '$' => SimpleToken::Dollar,
                        _ => SimpleToken::LineFeed,
                    })
                }
                '-' => {
                    self.take();
                    if self.next_is('-') {
                        while self.chars.peek().map_or(false, |&c| c != '\n') {
                            self.chars.next();
                        }
                        simple(SimpleToken::Comment)
                    } else if self.next_is('>') {
                        self.take();
                        simple(SimpleToken::Arrow)
                    } else {
                        simple(SimpleToken::Subtract)
                    }
                }
                '=' => {
                    self.take();
                    if self.next_is('=') {
                        self.take();
                        simple(SimpleToken::DoubleEquals)
                    } else {
                        simple(SimpleToken::Equals)
                    }
                }
                '"' => Some(Seen::Text(self.text()?)),
                ' ' => {
                    self.take();
                    None
                }
                _ => {
                    let word = self.word();
                    match word.parse::<f64>() {
                        Ok(n) => Some(Seen::Number(n.to_bits())),
                        Err(_) => match word.as_str() {
                            "" => None,
                            "True" => Some(Seen::Boolean(true)),
                            "False" => Some(Seen::Boolean(false)),
                            "Into" => Some(Seen::Keyword(Keyword::Into)),
                            "Let" => Some(Seen::Keyword(Keyword::Let)),
                            "As" => Some(Seen::Keyword(Keyword::As)),
                            "String" => Some(Seen::Keyword(Keyword::String)),
                            "Number" => Some(Seen::Keyword(Keyword::Number)),
                            "Array" => Some(Seen::Keyword(Keyword::Array)),
                            "Boolean" => Some(Seen::Keyword(Keyword::Boolean)),
                            _ => Some(Seen::Identifier(word)),
                        },
                    }
                }
            };
            if let Some(found) = found {
                seen.push((at, found));
            }
            at = (self.line, self.column);
        }
        Ok(seen)
    }
}

fn library(text: &str) -> Result<Vec<((usize, usize), Seen)>, Fault> {
    let mut scanner = TokenScanner::from_file_string(text, "main.ax");
    match tokenize(&mut scanner) {
        Ok(tokens) => Ok(tokens
            .into_iter()
            .map(|token| {
                let seen = match token.token {
                    TokenKind::Identifier(name) => Seen::Identifier(name),
                    TokenKind::Keyword(keyword) => Seen::Keyword(keyword),
                    TokenKind::Literal(Literal::String(text)) => Seen::Text(text),
                    TokenKind::Literal(Literal::Number(text)) => {
                        Seen::Number(text.parse::<f64>().unwrap().to_bits())
                    }
                    TokenKind::Literal(Literal::Boolean(b)) => Seen::Boolean(b),
                    TokenKind::Literal(Literal::Array(_)) => unreachable!(),
                    TokenKind::Simple(simple) => Seen::Simple(simple),
                };
                ((token.position.line, token.position.column), seen)
            })
            .collect()),
        Err(diagnostic) => {
            assert_eq!((scanner.line, scanner.column), (diagnostic.position.line, diagnostic.position.column));
            assert_eq!(diagnostic.hints.len(), 1);
            Err(Fault {
                error: diagnostic.error,
                at: (diagnostic.position.line, diagnostic.position.column),
                start: (diagnostic.hints[0].position.line, diagnostic.hints[0].position.column),
            })
        }
    }
}

fn every_text(alphabet: &[char], length: usize, each: &mut dyn FnMut(&str)) {
    let mut text = String::new();
    let mut digits = vec![0usize; length];
    loop {
        text.clear();
        for &d in &digits {
            text.push(alphabet[d]);
        }
        each(&text);
        let mut i = 0;
        loop {
            if i == length {
                return;
            }
            digits[i] += 1;
            if digits[i] < alphabet.len() {
                break;
            }
            digits[i] = 0;
            i += 1;
        }
    }
}

#[test]
fn library_agrees_with_the_model_on_short_texts() {
    let alphabet = ['a', '1', ' ', '\n', '-', '>', '=', '"', ';', '.', 'e', '+'];
    let mut count = 0usize;
    for length in 0..=5 {
        every_text(&alphabet, length, &mut |text| {
            assert_eq!(library(text), Model::new(text).run(), "{:?}", text);
            count += 1;
        });
    }
    assert_eq!(count, 1 + 12 + 144 + 1728 + 20736 + 248832);
}

#[test]
fn library_agrees_with_the_model_on_programs() {
    let texts = [
        "Let x Into 5\n",
        "Let name As String = \"Ada\";\nLet n As Number = 3.14\n-- done\n",
        "x -> y -- z\n--\n- > = == ===\n",
        "Let a As Array\n#*+<>;/%^:$\n",
        "True False true inf NaN infinity 1e5 1e 5. .5 +5 -5 let Let\n",
        "\"open\nnext",
        "a \"b c\" \"d",
        "é ü \"ß\" -- ø\n",
        "\t tab\there\n",
    ];
    for text in texts {
        assert_eq!(library(text), Model::new(text).run(), "{:?}", text);
    }
}
