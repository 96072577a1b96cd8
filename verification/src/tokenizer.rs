//! The tokenizer: it looks at the character under the scanner, decides what
//! begins there, consumes it, and goes on until the text ends or a string is
//! left open.

use crate::error::{rendered, Diagnostic, DiagnosticView};
use crate::lexer::{
    ends_string, string_literal, token_views, Delimiter, Keyword, Literal, LiteralView,
    SimpleToken, Token, TokenKind, TokenKindView, TokenView,
};
use crate::number::{is_number, is_number_word};
use crate::reader::{Cursor, TokenScanner};
use crate::text::lemma_first_index;
use vstd::prelude::*;
use vstd::string::*;

verus! {

/// What a word is. A number (see `crate::number`) is a number literal that
/// keeps the word as its text; an empty word is nothing; `True` and `False`
/// are the boolean literals; a keyword is itself; any other word is an
/// identifier. Letters count case for case.
pub open spec fn classify(word: Seq<char>) -> Option<TokenKindView> {
    if is_number_word(word) {
        Some(TokenKindView::Literal(LiteralView::Number(word)))
    } else if word.len() == 0 {
        None
    } else if word == "True"@ {
        Some(TokenKindView::Literal(LiteralView::Boolean(true)))
    } else if word == "False"@ {
        Some(TokenKindView::Literal(LiteralView::Boolean(false)))
    } else {
        match Keyword::of_word(word) {
            Some(keyword) => Some(TokenKindView::Keyword(keyword)),
            None => Some(TokenKindView::Identifier(word)),
        }
    }
}

/// The view of an optional token kind.
pub open spec fn kind_view(kind: Option<TokenKind>) -> Option<TokenKindView> {
    match kind {
        Some(k) => Some(k@),
        None => None,
    }
}

fn spells(word: &String, lexeme: &str) -> (r: bool)
    ensures
        r == (word@ == lexeme@),
{
    *word == lexeme.to_owned()
}

/// Decides what the word `word` is; `None` for the empty word.
pub fn classify_word(word: String) -> (kind: Option<TokenKind>)
    ensures
        kind_view(kind) == classify(word@),
{
    if is_number(word.as_str()) {
        Some(TokenKind::Literal(Literal::Number(word)))
    } else if word.as_str().is_empty() {
        None
    } else if spells(&word, "True") {
        Some(TokenKind::Literal(Literal::Boolean(true)))
    } else if spells(&word, "False") {
        Some(TokenKind::Literal(Literal::Boolean(false)))
    } else if spells(&word, "Into") {
        Some(TokenKind::Keyword(Keyword::Into))
    } else if spells(&word, "Let") {
        Some(TokenKind::Keyword(Keyword::Let))
    } else if spells(&word, "As") {
        Some(TokenKind::Keyword(Keyword::As))
    } else if spells(&word, "String") {
        Some(TokenKind::Keyword(Keyword::String))
    } else if spells(&word, "Number") {
        Some(TokenKind::Keyword(Keyword::Number))
    } else if spells(&word, "Array") {
        Some(TokenKind::Keyword(Keyword::Array))
    } else if spells(&word, "Boolean") {
        Some(TokenKind::Keyword(Keyword::Boolean))
    } else {
        Some(TokenKind::Identifier(word))
    }
}

/// What one step of the tokenizer comes to, as a mathematical value: the
/// text has ended; or something was consumed, up to the cursor given, and it
/// made no token, made a token of the kind given, or was a fault.
pub enum Scan {
    End,
    Skip(Cursor),
    Emit(Cursor, TokenKindView),
    Fail(Cursor, DiagnosticView),
}

/// One step of the tokenizer from `cursor`, decided by the character under
/// it.
///
/// - Nothing left: the end.
/// - Punctuation of `SimpleToken::of_char`: that token, one character
///   consumed.
/// - `-`: a comment if another `-` follows, and then the rest of the line
///   is consumed with it; an arrow if `>` follows, which is consumed; else a
///   minus sign.
/// - `=`: a double equals sign if another `=` follows, which is consumed;
///   else an equals sign.
/// - `"`: a string literal, or the fault of leaving it open.
/// - A space: consumed, no token.
/// - Anything else begins a word, which is consumed whole and is what
///   `classify` says.
pub open spec fn scan(cursor: Cursor) -> Scan {
    match cursor.peek() {
        None => Scan::End,
        Some(c) => {
            let next = cursor.advance(1);
            if let Some(simple) = SimpleToken::of_char(c) {
                Scan::Emit(next, TokenKindView::Simple(simple))
            } else if c == '-' {
                if next.peek() == Some('-') {
                    Scan::Emit(next.advance_line(), TokenKindView::Simple(SimpleToken::Comment))
                } else if next.peek() == Some('>') {
                    Scan::Emit(next.advance(1), TokenKindView::Simple(SimpleToken::Arrow))
                } else {
                    Scan::Emit(next, TokenKindView::Simple(SimpleToken::Subtract))
                }
            } else if c == '=' {
                if next.peek() == Some('=') {
                    Scan::Emit(
                        next.advance(1),
                        TokenKindView::Simple(SimpleToken::DoubleEquals),
                    )
                } else {
                    Scan::Emit(next, TokenKindView::Simple(SimpleToken::Equals))
                }
            } else if c == '"' {
                let read = string_literal(cursor);
                match read.result {
                    Ok(literal) => Scan::Emit(read.end, TokenKindView::Literal(literal)),
                    Err(diagnostic) => Scan::Fail(read.end, diagnostic),
                }
            } else if c == ' ' {
                Scan::Skip(next)
            } else {
                match classify(cursor.word()) {
                    Some(kind) => Scan::Emit(cursor.advance_word(), kind),
                    None => Scan::Skip(cursor.advance_word()),
                }
            }
        },
    }
}

/// What one step of the tokenizer comes to.
#[derive(Debug, PartialEq, Eq)]
pub enum Step<'a> {
    /// The text has ended.
    End,
    /// Something was consumed that makes no token.
    Skip,
    /// A token of this kind was consumed.
    Emit(TokenKind),
    /// A fault was found.
    Fail(Diagnostic<'a>),
}

/// The view of a step that left the scanner at `end`.
pub open spec fn step_view(step: Step, end: Cursor) -> Scan {
    match step {
        Step::End => Scan::End,
        Step::Skip => Scan::Skip(end),
        Step::Emit(kind) => Scan::Emit(end, kind@),
        Step::Fail(diagnostic) => Scan::Fail(end, diagnostic@),
    }
}

/// Takes one step of the tokenizer: consumes what begins under the scanner
/// and says what it was.
pub fn step(scanner: &mut TokenScanner) -> (s: Step<'static>)
    requires
        old(scanner).wf(),
        old(scanner)@.has_room(),
    ensures
        step_view(s, final(scanner)@) == scan(old(scanner)@),
        s is End ==> *final(scanner) == *old(scanner),
        final(scanner).file_name == old(scanner).file_name,
        final(scanner).wf(),
{
    let c = match scanner.peek() {
        None => {
            return Step::End;
        },
        Some(c) => c,
    };
    if let Some(simple) = SimpleToken::from_char(c) {
        scanner.advance(1);
        Step::Emit(TokenKind::Simple(simple))
    } else if c == '-' {
        scanner.advance(1);
        match scanner.peek() {
            Some('-') => {
                scanner.advance_line();
                Step::Emit(TokenKind::Simple(SimpleToken::Comment))
            },
            Some('>') => {
                scanner.advance(1);
                Step::Emit(TokenKind::Simple(SimpleToken::Arrow))
            },
            _ => Step::Emit(TokenKind::Simple(SimpleToken::Subtract)),
        }
    } else if c == '=' {
        scanner.advance(1);
        match scanner.peek() {
            Some('=') => {
                scanner.advance(1);
                Step::Emit(TokenKind::Simple(SimpleToken::DoubleEquals))
            },
            _ => Step::Emit(TokenKind::Simple(SimpleToken::Equals)),
        }
    } else if c == '"' {
        match Literal::string_literal_from_scanner(scanner) {
            Ok(literal) => Step::Emit(TokenKind::Literal(literal)),
            Err(diagnostic) => Step::Fail(diagnostic),
        }
    } else if c == ' ' {
        scanner.advance(1);
        Step::Skip
    } else {
        let word = scanner.advance_word();
        match classify_word(word) {
            Some(kind) => Step::Emit(kind),
            None => Step::Skip,
        }
    }
}

/// How a whole pass of the tokenizer ends: where the cursor is left, and
/// the tokens in the order in which they were found, or the fault that
/// stopped the pass.
pub struct Lexed {
    pub end: Cursor,
    pub result: Result<Seq<TokenView>, DiagnosticView>,
}

impl Lexed {
    /// This outcome with the tokens `earlier` in front of its own. A fault
    /// stays the fault.
    pub open spec fn after(self, earlier: Seq<TokenView>) -> Lexed {
        match self.result {
            Ok(tokens) => Lexed { end: self.end, result: Ok(earlier + tokens) },
            Err(_) => self,
        }
    }
}

/// A whole pass of the tokenizer from `cursor`: steps are taken until the
/// text ends or a fault is found. Each token stands at the place where the
/// cursor stood before the step that made it.
pub open spec fn lex(cursor: Cursor) -> Lexed
    decreases cursor.remaining(),
    via lex_decreases
{
    match scan(cursor) {
        Scan::End => Lexed { end: cursor, result: Ok(Seq::empty()) },
        Scan::Skip(next) => lex(next),
        Scan::Emit(next, token) => lex(next).after(
            seq![TokenView { position: cursor.position(), token }],
        ),
        Scan::Fail(end, diagnostic) => Lexed { end, result: Err(diagnostic) },
    }
}

#[via_fn]
proof fn lex_decreases(cursor: Cursor) {
    lemma_scan_consumes(cursor);
}

/// A step that does not end the pass consumes at least one character, and
/// leaves the source text as it is.
pub proof fn lemma_scan_consumes(cursor: Cursor)
    ensures
        match scan(cursor) {
            Scan::End => cursor.index >= cursor.source.len(),
            Scan::Skip(next) | Scan::Emit(next, _) | Scan::Fail(next, _) => {
                &&& cursor.index < next.index <= cursor.source.len()
                &&& next.source == cursor.source
            },
        },
{
    if cursor.index < cursor.source.len() {
        let source = cursor.source;
        let next = cursor.advance(1);
        lemma_first_index(source, next.index as int, |c: char| c == '\n');
        lemma_first_index(source, next.index as int, |c: char| ends_string(c));
        lemma_first_index(
            source,
            cursor.index as int + 1,
            |c: char| Delimiter::ends_word(c),
        );
    }
}

/// A step that does not end the pass keeps the cursor well formed, moves it
/// to a later place in the text unless it found a fault, and uses up no more
/// room for line and column than the characters it consumed.
pub proof fn lemma_scan_advances(cursor: Cursor)
    requires
        cursor.wf(),
    ensures
        match scan(cursor) {
            Scan::End => true,
            Scan::Skip(next) | Scan::Emit(next, _) => {
                &&& next.wf()
                &&& cursor.position().lt(next.position())
                &&& next.line + next.column + next.remaining() <= cursor.line + cursor.column
                    + cursor.remaining()
            },
            Scan::Fail(next, _) => next.wf(),
        },
{
    lemma_scan_consumes(cursor);
    if cursor.index < cursor.source.len() {
        let source = cursor.source;
        let next = cursor.advance(1);
        lemma_first_index(source, next.index as int, |c: char| c == '\n');
        lemma_first_index(source, next.index as int, |c: char| ends_string(c));
        lemma_first_index(
            source,
            cursor.index as int + 1,
            |c: char| Delimiter::ends_word(c),
        );
    }
}

/// The view of the tokens of a pass, or of the fault that stopped it.
pub open spec fn tokens_result_view(r: Result<Vec<Token>, Diagnostic>) -> Result<
    Seq<TokenView>,
    DiagnosticView,
> {
    match r {
        Ok(tokens) => Ok(token_views(tokens@)),
        Err(diagnostic) => Err(diagnostic@),
    }
}

/// Tokenizes the text from where the scanner stands to its end. Returns the
/// tokens in the order in which they stand in the text, or the first fault,
/// with the scanner left where the fault was found.
pub fn tokenize(scanner: &mut TokenScanner) -> (r: Result<Vec<Token>, Diagnostic<'static>>)
    requires
        old(scanner).wf(),
        old(scanner)@.has_room(),
    ensures
        tokens_result_view(r) == lex(old(scanner)@).result,
        final(scanner)@ == lex(old(scanner)@).end,
        final(scanner).file_name == old(scanner).file_name,
        final(scanner).wf(),
        r matches Ok(tokens) ==> forall|i: int, j: int|
            0 <= i <= j < tokens.len() ==> (#[trigger] tokens[i]).position@.le(
                (#[trigger] tokens[j]).position@,
            ),
{
    let mut tokens: Vec<Token> = Vec::new();
    let mut pos: (usize, usize) = (scanner.line, scanner.column);
    loop
        invariant
            old(scanner).wf(),
            scanner.wf(),
            scanner@.has_room(),
            scanner.file_name == old(scanner).file_name,
            pos.0 == scanner.line,
            pos.1 == scanner.column,
            lex(old(scanner)@) == lex(scanner@).after(token_views(tokens@)),
        decreases scanner@.remaining(),
    {
        let ghost cursor = scanner@;
        let ghost earlier = token_views(tokens@);
        proof {
            lemma_scan_consumes(cursor);
            lemma_scan_advances(cursor);
        }
        match step(scanner) {
            Step::End => {
                assert(earlier + Seq::<TokenView>::empty() =~= earlier);
                assert forall|i: int, j: int| 0 <= i <= j < tokens.len() implies (
                #[trigger] tokens[i]).position@.le((#[trigger] tokens[j]).position@) by {
                    lemma_positions_ascend(old(scanner)@);
                    assert(earlier[i] == tokens[i]@ && earlier[j] == tokens[j]@);
                }
                return Ok(tokens);
            },
            Step::Skip => {},
            Step::Emit(kind) => {
                let token = Token::new(pos, kind);
                let ghost found = seq![token@];
                tokens.push(token);
                proof {
                    assert(token_views(tokens@) =~= earlier + found);
                    let rest = lex(scanner@);
                    if let Ok(later) = rest.result {
                        assert(earlier + (found + later) =~= (earlier + found) + later);
                    }
                }
            },
            Step::Fail(diagnostic) => {
                return Err(diagnostic);
            },
        }
        pos = (scanner.line, scanner.column);
    }
}

/// Tokenizing is a function of the text and of the place where the pass
/// starts: two scanners that stand at the same place of the same text find
/// the same tokens or the same fault, and are left at the same place,
/// whatever file each was given to name.
pub proof fn lemma_tokenize_deterministic(first: TokenScanner, second: TokenScanner)
    requires
        first@ == second@,
    ensures
        lex(first@) == lex(second@),
{
}

/// The tokens of one pass stand in ascending order of position: none stands
/// before the place where the pass started, and each stands strictly before
/// the next, so positions never decrease along the sequence.
pub proof fn lemma_positions_ascend(cursor: Cursor)
    requires
        cursor.wf(),
    ensures
        lex(cursor).result matches Ok(tokens) ==> {
            &&& forall|i: int|
                0 <= i < tokens.len() ==> cursor.position().le((#[trigger] tokens[i]).position)
            &&& forall|i: int, j: int|
                0 <= i < j < tokens.len() ==> (#[trigger] tokens[i]).position.lt(
                    (#[trigger] tokens[j]).position,
                )
            &&& forall|i: int, j: int|
                0 <= i <= j < tokens.len() ==> (#[trigger] tokens[i]).position.le(
                    (#[trigger] tokens[j]).position,
                )
        },
    decreases cursor.remaining(),
{
    lemma_scan_consumes(cursor);
    lemma_scan_advances(cursor);
    match scan(cursor) {
        Scan::End => {},
        Scan::Skip(next) => {
            lemma_positions_ascend(next);
        },
        Scan::Emit(next, token) => {
            lemma_positions_ascend(next);
        },
        Scan::Fail(_, _) => {},
    }
}

/// What holds of every token of a pass: its line and column are at least
/// one, a number literal holds a number word, and a string literal holds
/// neither a double quote nor a line feed.
pub open spec fn token_sound(token: TokenView) -> bool {
    &&& token.position.wf()
    &&& match token.token {
        TokenKindView::Literal(LiteralView::String(text)) => forall|k: int|
            0 <= k < text.len() ==> !ends_string(#[trigger] text[k]),
        TokenKindView::Literal(LiteralView::Number(text)) => is_number_word(text),
        _ => true,
    }
}

/// Every token of a pass is sound, the pass leaves the cursor well formed,
/// and a pass without a fault ends at the end of the text.
pub proof fn lemma_tokens_sound(cursor: Cursor)
    requires
        cursor.wf(),
    ensures
        lex(cursor).end.wf(),
        lex(cursor).end.source == cursor.source,
        lex(cursor).result matches Ok(tokens) ==> {
            &&& lex(cursor).end.index == cursor.source.len()
            &&& forall|i: int| 0 <= i < tokens.len() ==> token_sound(#[trigger] tokens[i])
        },
    decreases cursor.remaining(),
{
    lemma_scan_consumes(cursor);
    lemma_scan_advances(cursor);
    match scan(cursor) {
        Scan::End => {},
        Scan::Skip(next) => {
            lemma_tokens_sound(next);
        },
        Scan::Emit(next, token) => {
            lemma_tokens_sound(next);
            let inside = cursor.advance(1);
            lemma_first_index(
                cursor.source,
                inside.index as int,
                |c: char| ends_string(c),
            );
        },
        Scan::Fail(_, _) => {},
    }
}

/// A fault that stops a pass names places that exist: line and column are
/// at least one, where it was found and in its remark.
pub proof fn lemma_fault_well_formed(cursor: Cursor)
    requires
        cursor.wf(),
    ensures
        lex(cursor).result matches Err(diagnostic) ==> {
            &&& diagnostic.position.wf()
            &&& diagnostic.position == lex(cursor).end.position()
            &&& forall|i: int|
                0 <= i < diagnostic.hints.len() ==> (#[trigger] diagnostic.hints[i]).position.wf()
        },
    decreases cursor.remaining(),
{
    lemma_scan_consumes(cursor);
    lemma_scan_advances(cursor);
    match scan(cursor) {
        Scan::End => {},
        Scan::Skip(next) => {
            lemma_fault_well_formed(next);
        },
        Scan::Emit(next, token) => {
            lemma_fault_well_formed(next);
        },
        Scan::Fail(_, _) => {},
    }
}

/// The view of the outcome of `tokenize_source`: the tokens, or the text of
/// the diagnostic.
pub open spec fn source_result_view(r: Result<Vec<Token>, String>) -> Result<
    Seq<TokenView>,
    Seq<char>,
> {
    match r {
        Ok(tokens) => Ok(token_views(tokens@)),
        Err(text) => Err(text@),
    }
}

/// What tokenizing the whole of `source` comes to: its tokens, or the first
/// fault as text, framed by the lines of `source`.
pub open spec fn lex_source(source: Seq<char>, file_name: Seq<char>) -> Result<
    Seq<TokenView>,
    Seq<char>,
> {
    match lex(Cursor::start(source)).result {
        Ok(tokens) => Ok(tokens),
        Err(diagnostic) => Err(rendered(source, file_name, diagnostic)),
    }
}

/// Tokenizes the whole text `string`, which was read from the file named
/// `file_name`. Returns the tokens, or the first fault as the text to show.
pub fn tokenize_source(string: &str, file_name: &str) -> (r: Result<Vec<Token>, String>)
    requires
        string@.len() + 3 <= usize::MAX,
    ensures
        source_result_view(r) == lex_source(string@, file_name@),
{
    let mut scanner = TokenScanner::from_file_string(string, file_name);
    proof {
        lemma_fault_well_formed(scanner@);
    }
    match tokenize(&mut scanner) {
        Ok(tokens) => Ok(tokens),
        Err(diagnostic) => {
            proof {
                lemma_tokens_sound(Cursor::start(string@));
                assert forall|i: int| 0 <= i < diagnostic.hints.len() implies (
                #[trigger] diagnostic.hints[i]).position@.wf() by {
                    assert(diagnostic@.hints[i] == diagnostic.hints[i]@);
                }
            }
            Err(diagnostic.render(&scanner))
        },
    }
}

} // verus!
