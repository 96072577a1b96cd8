//! The vocabulary of the lexer: positions, tokens and the kinds of token.

use crate::error::{CompileError, Diagnostic, DiagnosticView, ErrorHint, ErrorHints, HintView};
use crate::reader::{Cursor, TokenScanner};
use crate::text::{first_index, lemma_first_index, lemma_first_index_unique};
use vstd::prelude::*;
use vstd::string::*;

verus! {

/// A place in the source text as a mathematical value: both coordinates
/// count from one.
pub struct Position {
    pub line: nat,
    pub column: nat,
}

impl Position {
    /// Both coordinates are at least one.
    pub open spec fn wf(self) -> bool {
        self.line >= 1 && self.column >= 1
    }

    /// `self` comes no later than `other`: an earlier line, or the same line
    /// and no later column.
    pub open spec fn le(self, other: Position) -> bool {
        self.line < other.line || (self.line == other.line && self.column <= other.column)
    }

    /// `self` comes strictly before `other`.
    pub open spec fn lt(self, other: Position) -> bool {
        self.line < other.line || (self.line == other.line && self.column < other.column)
    }
}

/// A place in the source text: a line and a column, both counted from one.
#[derive(Debug, Clone, Copy, PartialEq, Eq, Structural)]
pub struct TokenPosition {
    pub line: usize,
    pub column: usize,
}

impl View for TokenPosition {
    type V = Position;

    open spec fn view(&self) -> Position {
        Position { line: self.line as nat, column: self.column as nat }
    }
}

impl TokenPosition {
    /// The place at which `token_scanner` stands.
    pub fn from_scanner(token_scanner: &TokenScanner) -> (position: Self)
        ensures
            position.line == token_scanner.line,
            position.column == token_scanner.column,
            position@ == token_scanner@.position(),
    {
        Self { line: token_scanner.line, column: token_scanner.column }
    }
}

/// What ends a word.
#[derive(Debug, Clone, Copy, PartialEq, Eq, Structural)]
pub enum Delimiter {
    WhiteSpace,
    Semicolon,
    LineFeed,
    Equals,
    Invalid,
}

impl Delimiter {
    /// The delimiter that a character stands for; `Invalid` for a character
    /// that ends no word.
    pub open spec fn of(c: char) -> Delimiter {
        if c == ' ' {
            Delimiter::WhiteSpace
        } else if c == ';' {
            Delimiter::Semicolon
        } else if c == '\n' {
            Delimiter::LineFeed
        } else if c == '=' {
            Delimiter::Equals
        } else {
            Delimiter::Invalid
        }
    }

    /// Whether a character ends a word: a space, a semicolon, a line feed or
    /// an equals sign.
    pub open spec fn ends_word(c: char) -> bool {
        c == ' ' || c == ';' || c == '\n' || c == '='
    }

    /// Whether `c` ends a word.
    pub fn is_delimiter(c: &char) -> (r: bool)
        ensures
            r == Self::ends_word(*c),
    {
        *c == ' ' || *c == ';' || *c == '\n' || *c == '='
    }

    /// Classifies `c` as a delimiter.
    pub fn from(c: char) -> (d: Self)
        ensures
            d == Self::of(c),
            (d != Delimiter::Invalid) == Self::ends_word(c),
    {
        if c == ' ' {
            Delimiter::WhiteSpace
        } else if c == ';' {
            Delimiter::Semicolon
        } else if c == '\n' {
            Delimiter::LineFeed
        } else if c == '=' {
            Delimiter::Equals
        } else {
            Delimiter::Invalid
        }
    }
}

/// Operators and punctuation of one or two characters.
#[derive(Debug, Clone, Copy, PartialEq, Eq, Structural)]
pub enum SimpleToken {
    Multiply,
    Divide,
    Pound,
    Colon,
    Percent,
    Caret,
    Dollar,
    Equals,
    DoubleEquals,
    Semicolon,
    GreaterThan,
    LessThan,
    Add,
    Subtract,
    LineFeed,
    Comment,
    Arrow,
}

impl SimpleToken {
    /// The name of the token in messages.
    pub open spec fn label(self) -> Seq<char> {
        match self {
            SimpleToken::Multiply => "multiply"@,
            SimpleToken::Divide => "divide"@,
            SimpleToken::Pound => "pound"@,
            SimpleToken::Colon => "colon"@,
            SimpleToken::Percent => "percent"@,
            SimpleToken::Caret => "caret"@,
            SimpleToken::Dollar => "dollar"@,
            SimpleToken::Equals => "equals"@,
            SimpleToken::DoubleEquals => "double equals"@,
            SimpleToken::Semicolon => "semicolon"@,
            SimpleToken::GreaterThan => "greater than"@,
            SimpleToken::LessThan => "less than"@,
            SimpleToken::Add => "plus"@,
            SimpleToken::Subtract => "minus "@,
            SimpleToken::LineFeed => "line break"@,
            SimpleToken::Comment => "comment"@,
            SimpleToken::Arrow => "arrow"@,
        }
    }

    /// The token that a single character of punctuation makes on its own,
    /// if it makes one. `-` and `=` are not in this table: what they make
    /// depends on the character after them.
    pub open spec fn of_char(c: char) -> Option<SimpleToken> {
        if c == '#' {
            Some(SimpleToken::Pound)
        } else if c == '*' {
            Some(SimpleToken::Multiply)
        } else if c == '+' {
            Some(SimpleToken::Add)
        } else if c == '<' {
            Some(SimpleToken::LessThan)
        } else if c == '>' {
            Some(SimpleToken::GreaterThan)
        } else if c == ';' {
            Some(SimpleToken::Semicolon)
        } else if c == '/' {
            Some(SimpleToken::Divide)
        } else if c == '%' {
            Some(SimpleToken::Percent)
        } else if c == '^' {
            Some(SimpleToken::Caret)
        } else if c == ':' {
            Some(SimpleToken::Colon)
        } else if c == '$' {
            Some(SimpleToken::Dollar)
        } else if c == '\n' {
            Some(SimpleToken::LineFeed)
        } else {
            None
        }
    }

    /// Looks `c` up in the table of single-character punctuation.
    pub fn from_char(c: char) -> (t: Option<SimpleToken>)
        ensures
            t == Self::of_char(c),
    {
        if c == '#' {
            Some(SimpleToken::Pound)
        } else if c == '*' {
            Some(SimpleToken::Multiply)
        } else if c == '+' {
            Some(SimpleToken::Add)
        } else if c == '<' {
            Some(SimpleToken::LessThan)
        } else if c == '>' {
            Some(SimpleToken::GreaterThan)
        } else if c == ';' {
            Some(SimpleToken::Semicolon)
        } else if c == '/' {
            Some(SimpleToken::Divide)
        } else if c == '%' {
            Some(SimpleToken::Percent)
        } else if c == '^' {
            Some(SimpleToken::Caret)
        } else if c == ':' {
            Some(SimpleToken::Colon)
        } else if c == '$' {
            Some(SimpleToken::Dollar)
        } else if c == '\n' {
            Some(SimpleToken::LineFeed)
        } else {
            None
        }
    }

    /// The name of the token in messages.
    pub fn to_string(&self) -> (s: String)
        ensures
            s@ == self.label(),
    {
        match self {
            SimpleToken::Multiply => "multiply".to_owned(),
            SimpleToken::Divide => "divide".to_owned(),
            SimpleToken::Pound => "pound".to_owned(),
            SimpleToken::Colon => "colon".to_owned(),
            SimpleToken::Percent => "percent".to_owned(),
            SimpleToken::Caret => "caret".to_owned(),
            SimpleToken::Dollar => "dollar".to_owned(),
            SimpleToken::Equals => "equals".to_owned(),
            SimpleToken::DoubleEquals => "double equals".to_owned(),
            SimpleToken::Semicolon => "semicolon".to_owned(),
            SimpleToken::GreaterThan => "greater than".to_owned(),
            SimpleToken::LessThan => "less than".to_owned(),
            SimpleToken::Add => "plus".to_owned(),
            SimpleToken::Subtract => "minus ".to_owned(),
            SimpleToken::LineFeed => "line break".to_owned(),
            SimpleToken::Comment => "comment".to_owned(),
            SimpleToken::Arrow => "arrow".to_owned(),
        }
    }
}

/// The reserved words of the language.
#[derive(Debug, Clone, Copy, PartialEq, Eq, Structural)]
pub enum Keyword {
    Into,
    Let,
    As,
    String,
    Number,
    Array,
    Boolean,
}

impl Keyword {
    /// The word that spells the keyword, which is also its name.
    pub open spec fn lexeme(self) -> Seq<char> {
        match self {
            Keyword::Into => "Into"@,
            Keyword::Let => "Let"@,
            Keyword::As => "As"@,
            Keyword::String => "String"@,
            Keyword::Number => "Number"@,
            Keyword::Array => "Array"@,
            Keyword::Boolean => "Boolean"@,
        }
    }

    /// The keyword that `word` spells, letter for letter and case for case.
    pub open spec fn of_word(word: Seq<char>) -> Option<Keyword> {
        if word == "Into"@ {
            Some(Keyword::Into)
        } else if word == "Let"@ {
            Some(Keyword::Let)
        } else if word == "As"@ {
            Some(Keyword::As)
        } else if word == "String"@ {
            Some(Keyword::String)
        } else if word == "Number"@ {
            Some(Keyword::Number)
        } else if word == "Array"@ {
            Some(Keyword::Array)
        } else if word == "Boolean"@ {
            Some(Keyword::Boolean)
        } else {
            None
        }
    }

    /// The name of the keyword.
    pub fn name(&self) -> (s: String)
        ensures
            s@ == self.lexeme(),
    {
        match self {
            Keyword::Into => "Into".to_owned(),
            Keyword::Let => "Let".to_owned(),
            Keyword::As => "As".to_owned(),
            Keyword::String => "String".to_owned(),
            Keyword::Number => "Number".to_owned(),
            Keyword::Array => "Array".to_owned(),
            Keyword::Boolean => "Boolean".to_owned(),
        }
    }
}

/// An array value: flat arrays of one element type, or arrays of arrays.
/// A number is held by its source text.
#[derive(Debug, PartialEq, Eq)]
pub enum Array {
    String(Vec<String>),
    Number(Vec<String>),
    Boolean(Vec<bool>),
    MultiDimensional(Vec<Array>),
}

/// An array as a mathematical value.
pub enum ArrayView {
    String(Seq<Seq<char>>),
    Number(Seq<Seq<char>>),
    Boolean(Seq<bool>),
    MultiDimensional(Seq<ArrayView>),
}

/// The view of an array: the views of its elements, in the same order and
/// to any depth.
pub open spec fn array_view(array: Array) -> ArrayView
    decreases array,
{
    match array {
        Array::String(items) => ArrayView::String(Seq::new(items@.len(), |i: int| items@[i]@)),
        Array::Number(items) => ArrayView::Number(Seq::new(items@.len(), |i: int| items@[i]@)),
        Array::Boolean(items) => ArrayView::Boolean(items@),
        Array::MultiDimensional(items) => ArrayView::MultiDimensional(
            Seq::new(
                items@.len(),
                |i: int|
                    if 0 <= i < items@.len() {
                        array_view(items@[i])
                    } else {
                        ArrayView::MultiDimensional(Seq::empty())
                    },
            ),
        ),
    }
}

impl View for Array {
    type V = ArrayView;

    open spec fn view(&self) -> ArrayView {
        array_view(*self)
    }
}

impl Array {
    /// The name of the array's shape in messages.
    pub open spec fn label(&self) -> Seq<char> {
        match self {
            Array::String(_) => "string array"@,
            Array::Number(_) => "number array"@,
            Array::Boolean(_) => "boolean array"@,
            Array::MultiDimensional(_) => "multi-dimensional array"@,
        }
    }

    /// The name of the array's shape in messages.
    pub fn to_string(&self) -> (s: String)
        ensures
            s@ == self.label(),
    {
        match self {
            Array::String(_) => "string array".to_owned(),
            Array::Number(_) => "number array".to_owned(),
            Array::Boolean(_) => "boolean array".to_owned(),
            Array::MultiDimensional(_) => "multi-dimensional array".to_owned(),
        }
    }
}

/// A literal value. A number is held by its source text, which is a word
/// that `crate::number::is_number` accepts.
#[derive(Debug, PartialEq, Eq)]
pub enum Literal {
    String(String),
    Number(String),
    Boolean(bool),
    Array(Array),
}

/// A literal as a mathematical value.
pub enum LiteralView {
    String(Seq<char>),
    Number(Seq<char>),
    Boolean(bool),
    Array(ArrayView),
}

impl View for Literal {
    type V = LiteralView;

    open spec fn view(&self) -> LiteralView {
        match self {
            Literal::String(s) => LiteralView::String(s@),
            Literal::Number(s) => LiteralView::Number(s@),
            Literal::Boolean(b) => LiteralView::Boolean(*b),
            Literal::Array(a) => LiteralView::Array(a@),
        }
    }
}

/// What is said of a string that was not closed: the fault `error` found at
/// `at`, in a string whose first character stands at `start`.
pub open spec fn unterminated(error: CompileError, at: Position, start: Position)
    -> DiagnosticView {
    DiagnosticView {
        error,
        position: at,
        base_hint: Some(
            match error {
                CompileError::UnexpectedStringEOF => "file ends here"@,
                CompileError::UnexpectedStringLineBreak => "line break occurs here"@,
            },
        ),
        hints: seq![HintView { position: start, message: "string starts here"@ }],
        note: Some("strings are wrapped in \"double quotes\""@),
    }
}

/// What ends the inside of a string: the closing quote, or a line feed.
pub open spec fn ends_string(c: char) -> bool {
    c == '"' || c == '\n'
}

/// How reading a string literal ends: where the cursor is left, and the
/// literal or the fault.
pub struct StringScan {
    pub end: Cursor,
    pub result: Result<LiteralView, DiagnosticView>,
}

/// Reading the inside of a string literal, from a cursor `inside` that
/// stands just behind the opening quote.
///
/// Up to the first quote or line feed every character belongs to the string
/// and adds one to the column. A quote closes the string and is consumed. A
/// line feed is a fault found at the line feed itself, and so is the end of
/// the text: neither is consumed, so the cursor is left at the fault, on the
/// line on which the string began.
pub open spec fn string_inside(inside: Cursor) -> StringScan {
    let source = inside.source;
    let close = first_index(source, inside.index as int, |c: char| ends_string(c));
    let span = (close - inside.index) as nat;
    let fault = Cursor { index: close as nat, column: inside.column + span, ..inside };
    if close >= source.len() {
        StringScan {
            end: fault,
            result: Err(
                unterminated(
                    CompileError::UnexpectedStringEOF,
                    fault.position(),
                    inside.position(),
                ),
            ),
        }
    } else if source[close] == '\n' {
        StringScan {
            end: fault,
            result: Err(
                unterminated(
                    CompileError::UnexpectedStringLineBreak,
                    fault.position(),
                    inside.position(),
                ),
            ),
        }
    } else {
        let end = Cursor {
            index: (close + 1) as nat,
            column: inside.column + span + 1,
            ..inside
        };
        StringScan {
            end,
            result: Ok(LiteralView::String(source.subrange(inside.index as int, close))),
        }
    }
}

/// Reading a string literal from a cursor that stands at its opening quote:
/// the quote is consumed, then the inside is read.
pub open spec fn string_literal(cursor: Cursor) -> StringScan {
    string_inside(cursor.advance(1))
}

/// The text under `cursor` is an opening quote, then `body`, which holds
/// neither a quote nor a line feed, and `body` is followed by the character
/// at index `close` or by the end of the text.
pub open spec fn string_begins(cursor: Cursor, body: Seq<char>, close: int) -> bool {
    &&& cursor.wf()
    &&& cursor.index < cursor.source.len()
    &&& cursor.source[cursor.index as int] == '"'
    &&& close == cursor.index + 1 + body.len()
    &&& close <= cursor.source.len()
    &&& cursor.source.subrange(cursor.index as int + 1, close) == body
    &&& forall|i: int| 0 <= i < body.len() ==> !ends_string(#[trigger] body[i])
}

/// A string that is closed. For an opening quote at line L, column C, a
/// body of n characters and a closing quote, the literal holds the body, and
/// the cursor is left behind the closing quote, at line L, column C + n + 2.
pub proof fn lemma_string_closed(cursor: Cursor, body: Seq<char>, close: int)
    requires
        string_begins(cursor, body, close),
        close < cursor.source.len(),
        cursor.source[close] == '"',
    ensures
        string_literal(cursor).result == Ok::<LiteralView, DiagnosticView>(
            LiteralView::String(body),
        ),
        string_literal(cursor).end == (Cursor {
            index: (close + 1) as nat,
            column: cursor.column + body.len() + 2,
            ..cursor
        }),
{
    let inside = cursor.advance(1);
    assert forall|k: int| inside.index <= k < close implies !ends_string(
        #[trigger] cursor.source[k],
    ) by {
        assert(cursor.source[k] == body[k - inside.index]);
    }
    lemma_first_index_unique(cursor.source, inside.index as int, |c: char| ends_string(c), close);
}

/// A string that a line feed cuts short. For an opening quote at line L,
/// column C and a body of n characters in front of the line feed, the fault
/// is `UnexpectedStringLineBreak`, found at the line feed itself: line L,
/// column C + 1 + n. The remark on where the string starts stands at line L,
/// column C + 1, and the cursor is left in front of the line feed.
pub proof fn lemma_string_cut_by_line_feed(cursor: Cursor, body: Seq<char>, close: int)
    requires
        string_begins(cursor, body, close),
        close < cursor.source.len(),
        cursor.source[close] == '\n',
    ensures
        string_literal(cursor).result == Err::<LiteralView, DiagnosticView>(
            unterminated(
                CompileError::UnexpectedStringLineBreak,
                Position { line: cursor.line, column: cursor.column + 1 + body.len() },
                Position { line: cursor.line, column: cursor.column + 1 },
            ),
        ),
        string_literal(cursor).end == (Cursor {
            index: close as nat,
            column: cursor.column + 1 + body.len(),
            ..cursor
        }),
{
    let inside = cursor.advance(1);
    assert forall|k: int| inside.index <= k < close implies !ends_string(
        #[trigger] cursor.source[k],
    ) by {
        assert(cursor.source[k] == body[k - inside.index]);
    }
    lemma_first_index_unique(cursor.source, inside.index as int, |c: char| ends_string(c), close);
}

/// A string that the end of the text cuts short. For an opening quote at
/// line L, column C and a body of n characters up to the end of the text,
/// the fault is `UnexpectedStringEOF`, found at the end of the text: line L,
/// column C + 1 + n, where the cursor is left.
pub proof fn lemma_string_cut_by_end(cursor: Cursor, body: Seq<char>, close: int)
    requires
        string_begins(cursor, body, close),
        close == cursor.source.len(),
    ensures
        string_literal(cursor).result == Err::<LiteralView, DiagnosticView>(
            unterminated(
                CompileError::UnexpectedStringEOF,
                Position { line: cursor.line, column: cursor.column + 1 + body.len() },
                Position { line: cursor.line, column: cursor.column + 1 },
            ),
        ),
        string_literal(cursor).end == (Cursor {
            index: close as nat,
            column: cursor.column + 1 + body.len(),
            ..cursor
        }),
{
    let inside = cursor.advance(1);
    assert forall|k: int| inside.index <= k < close implies !ends_string(
        #[trigger] cursor.source[k],
    ) by {
        assert(cursor.source[k] == body[k - inside.index]);
    }
    lemma_first_index_unique(cursor.source, inside.index as int, |c: char| ends_string(c), close);
}

/// The view of a literal, or of the fault that came in its place.
pub open spec fn literal_result_view(r: Result<Literal, Diagnostic>) -> Result<
    LiteralView,
    DiagnosticView,
> {
    match r {
        Ok(literal) => Ok(literal@),
        Err(diagnostic) => Err(diagnostic@),
    }
}

/// The diagnostic for a string that was not closed. `token_scanner` stands
/// where the fault was found, and the string's first character at `start`.
fn unterminated_string(
    token_scanner: &TokenScanner,
    error: CompileError,
    start: TokenPosition,
) -> (diagnostic: Diagnostic<'static>)
    ensures
        diagnostic@ == unterminated(error, token_scanner@.position(), start@),
{
    let mut hints: ErrorHints<'static> = Vec::new();
    hints.push(ErrorHint::new(start, "string starts here"));
    let base_hint = match error {
        CompileError::UnexpectedStringEOF => "file ends here",
        CompileError::UnexpectedStringLineBreak => "line break occurs here",
    };
    let diagnostic = Diagnostic {
        error,
        position: TokenPosition::from_scanner(token_scanner),
        base_hint: Some(base_hint),
        hints,
        note: Some("strings are wrapped in \"double quotes\""),
    };
    assert(diagnostic@.hints =~= seq![HintView { position: start@, message: "string starts here"@ }]);
    diagnostic
}

impl Literal {
    /// Reads a string literal. The scanner stands at the opening quote,
    /// which is consumed unseen; the characters up to the closing quote are
    /// the value of the literal, and the closing quote is consumed. A line
    /// feed or the end of the text before the closing quote is a fault,
    /// returned as a diagnostic: the scanner is left in front of the line
    /// feed or at the end of the text, and that is the place of the fault.
    pub fn string_literal_from_scanner(token_scanner: &mut TokenScanner) -> (r: Result<
        Literal,
        Diagnostic<'static>,
    >)
        requires
            old(token_scanner).wf(),
            old(token_scanner)@.has_room(),
        ensures
            literal_result_view(r) == string_literal(old(token_scanner)@).result,
            final(token_scanner)@ == string_literal(old(token_scanner)@).end,
            final(token_scanner).file_name == old(token_scanner).file_name,
            final(token_scanner).wf(),
            r matches Ok(Literal::String(text)) ==> forall|i: int|
                0 <= i < text@.len() ==> !ends_string(#[trigger] text@[i]),
            r matches Ok(literal) ==> literal is String,
    {
        token_scanner.advance(1);
        let start_position = TokenPosition::from_scanner(token_scanner);
        let ghost inside = token_scanner@;
        let ghost stop = |c: char| ends_string(c);
        proof {
            lemma_first_index(inside.source, inside.index as int, stop);
        }
        let mut string = String::new();
        loop
            invariant
                token_scanner.wf(),
                inside.wf(),
                inside == old(token_scanner)@.advance(1),
                start_position@ == inside.position(),
                stop == |c: char| ends_string(c),
                token_scanner.chars@ == inside.source,
                token_scanner.file_name == old(token_scanner).file_name,
                inside.index <= token_scanner.index,
                token_scanner.line == inside.line,
                token_scanner.column == inside.column + (token_scanner.index - inside.index),
                inside.line + inside.column + inside.remaining() <= usize::MAX,
                string@ == inside.source.subrange(inside.index as int, token_scanner.index as int),
                forall|i: int| 0 <= i < string@.len() ==> !ends_string(#[trigger] string@[i]),
                first_index(inside.source, token_scanner.index as int, stop) == first_index(
                    inside.source,
                    inside.index as int,
                    stop,
                ),
            decreases token_scanner@.remaining(),
        {
            match token_scanner.peek() {
                Some('"') => {
                    token_scanner.advance(1);
                    return Ok(Literal::String(string));
                },
                Some('\n') => {
                    return Err(
                        unterminated_string(
                            token_scanner,
                            CompileError::UnexpectedStringLineBreak,
                            start_position,
                        ),
                    );
                },
                Some(c) => {
                    token_scanner.advance(1);
                    string.push(c);
                    assert(string@ =~= inside.source.subrange(
                        inside.index as int,
                        token_scanner.index as int,
                    ));
                },
                None => {
                    return Err(
                        unterminated_string(
                            token_scanner,
                            CompileError::UnexpectedStringEOF,
                            start_position,
                        ),
                    );
                },
            }
        }
    }

    /// The name of the literal's type in messages.
    pub open spec fn label(&self) -> Seq<char> {
        match self {
            Literal::String(_) => "string"@,
            Literal::Number(_) => "number"@,
            Literal::Boolean(_) => "boolean"@,
            Literal::Array(a) => a.label(),
        }
    }

    /// The name of the literal's type in messages.
    pub fn to_string(&self) -> (s: String)
        ensures
            s@ == self.label(),
    {
        match self {
            Literal::String(_) => "string".to_owned(),
            Literal::Number(_) => "number".to_owned(),
            Literal::Boolean(_) => "boolean".to_owned(),
            Literal::Array(a) => a.to_string(),
        }
    }
}

/// What a token is.
#[derive(Debug, PartialEq, Eq)]
pub enum TokenKind {
    Identifier(String),
    Keyword(Keyword),
    Literal(Literal),
    Simple(SimpleToken),
}

/// The kind of a token as a mathematical value.
pub enum TokenKindView {
    Identifier(Seq<char>),
    Keyword(Keyword),
    Literal(LiteralView),
    Simple(SimpleToken),
}

impl View for TokenKind {
    type V = TokenKindView;

    open spec fn view(&self) -> TokenKindView {
        match self {
            TokenKind::Identifier(s) => TokenKindView::Identifier(s@),
            TokenKind::Keyword(k) => TokenKindView::Keyword(*k),
            TokenKind::Literal(l) => TokenKindView::Literal(l@),
            TokenKind::Simple(t) => TokenKindView::Simple(*t),
        }
    }
}

impl TokenKind {
    /// How the token is named in messages: an identifier between backticks,
    /// a keyword by its name, a literal by its type, punctuation by its label.
    pub open spec fn label(&self) -> Seq<char> {
        match self {
            TokenKind::Identifier(s) => "`"@ + s@ + "`"@,
            TokenKind::Keyword(k) => k.lexeme(),
            TokenKind::Literal(l) => l.label(),
            TokenKind::Simple(t) => t.label(),
        }
    }

    /// How the token is named in messages.
    pub fn to_string(&self) -> (s: String)
        ensures
            s@ == self.label(),
    {
        match self {
            TokenKind::Identifier(name) => {
                let mut s = "`".to_owned();
                s.append(name.as_str());
                s.append("`");
                s
            },
            TokenKind::Keyword(k) => k.name(),
            TokenKind::Literal(l) => l.to_string(),
            TokenKind::Simple(t) => t.to_string(),
        }
    }
}

/// A token: what it is, and where its first character stands.
#[derive(Debug, PartialEq, Eq)]
pub struct Token {
    pub position: TokenPosition,
    pub token: TokenKind,
}

/// A token as a mathematical value.
pub struct TokenView {
    pub position: Position,
    pub token: TokenKindView,
}

impl View for Token {
    type V = TokenView;

    open spec fn view(&self) -> TokenView {
        TokenView { position: self.position@, token: self.token@ }
    }
}

impl Token {
    /// A token of kind `token` at line `position.0`, column `position.1`.
    pub fn new(position: (usize, usize), token: TokenKind) -> (t: Self)
        ensures
            t.position.line == position.0,
            t.position.column == position.1,
            t.token == token,
    {
        Self { position: TokenPosition { line: position.0, column: position.1 }, token }
    }
}

/// The views of a sequence of tokens, in the same order.
pub open spec fn token_views(tokens: Seq<Token>) -> Seq<TokenView> {
    Seq::new(tokens.len(), |i: int| tokens[i]@)
}

} // verus!
