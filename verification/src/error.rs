//! Lexical faults, and how they are shown.

use crate::colors::{COLOR_FG_BLUE_BRIGHT, COLOR_FG_RED, FORMAT_BOLD, FORMAT_RESET};
use crate::lexer::{Position, TokenPosition};
use crate::reader::{line_text, TokenScanner};
use crate::text::{decimal_spec, decimal_width, push_decimal, spaces, spaces_spec};
use vstd::prelude::*;
use vstd::string::*;

verus! {

/// The kinds of lexical fault.
#[derive(Debug, Clone, Copy, PartialEq, Eq, Structural)]
pub enum CompileError {
    UnexpectedStringEOF,
    UnexpectedStringLineBreak,
}

impl CompileError {
    /// The tag of the kind, as a message shows it between brackets.
    pub open spec fn tag(self) -> Seq<char> {
        match self {
            CompileError::UnexpectedStringEOF => "UnexpectedStringEOF"@,
            CompileError::UnexpectedStringLineBreak => "UnexpectedStringLineBreak"@,
        }
    }

    /// What the kind means, in words.
    pub open spec fn message(self) -> Seq<char> {
        match self {
            CompileError::UnexpectedStringEOF => "unexpected end of file while reading string"@,
            CompileError::UnexpectedStringLineBreak => "unexpected line break while reading string"@,
        }
    }

    /// The tag of the kind.
    pub fn name(&self) -> (s: String)
        ensures
            s@ == self.tag(),
    {
        match self {
            CompileError::UnexpectedStringEOF => "UnexpectedStringEOF".to_owned(),
            CompileError::UnexpectedStringLineBreak => "UnexpectedStringLineBreak".to_owned(),
        }
    }

    /// What the kind means, in words.
    pub fn to_string(&self) -> (s: String)
        ensures
            s@ == self.message(),
    {
        match self {
            CompileError::UnexpectedStringEOF => {
                "unexpected end of file while reading string".to_owned()
            },
            CompileError::UnexpectedStringLineBreak => {
                "unexpected line break while reading string".to_owned()
            },
        }
    }
}

/// A remark tied to a place in the source text.
#[derive(Debug, Clone, Copy, PartialEq, Eq)]
pub struct ErrorHint<'a> {
    pub position: TokenPosition,
    pub message: &'a str,
}

/// A remark as a mathematical value.
pub struct HintView {
    pub position: Position,
    pub message: Seq<char>,
}

impl<'a> View for ErrorHint<'a> {
    type V = HintView;

    open spec fn view(&self) -> HintView {
        HintView { position: self.position@, message: self.message@ }
    }
}

impl<'a> ErrorHint<'a> {
    /// A remark `message` at `position`.
    pub fn new(position: TokenPosition, message: &'a str) -> (hint: Self)
        ensures
            hint.position == position,
            hint.message@ == message@,
    {
        Self { position, message }
    }
}

/// The remarks of one diagnostic, in the order in which they are shown.
pub type ErrorHints<'a> = Vec<ErrorHint<'a>>;

/// The views of a sequence of remarks, in the same order.
pub open spec fn hint_views(hints: Seq<ErrorHint>) -> Seq<HintView> {
    Seq::new(hints.len(), |i: int| hints[i]@)
}

/// The view of an optional piece of text.
pub open spec fn text_view(text: Option<&str>) -> Option<Seq<char>> {
    match text {
        Some(t) => Some(t@),
        None => None,
    }
}

/// A lexical fault as a value: its kind, where the scanner stood when it was
/// found, what to say under the caret there, remarks on other places, and a
/// closing note.
#[derive(Debug, PartialEq, Eq)]
pub struct Diagnostic<'a> {
    pub error: CompileError,
    pub position: TokenPosition,
    pub base_hint: Option<&'a str>,
    pub hints: ErrorHints<'a>,
    pub note: Option<&'a str>,
}

/// A diagnostic as a mathematical value.
pub struct DiagnosticView {
    pub error: CompileError,
    pub position: Position,
    pub base_hint: Option<Seq<char>>,
    pub hints: Seq<HintView>,
    pub note: Option<Seq<char>>,
}

impl<'a> View for Diagnostic<'a> {
    type V = DiagnosticView;

    open spec fn view(&self) -> DiagnosticView {
        DiagnosticView {
            error: self.error,
            position: self.position@,
            base_hint: text_view(self.base_hint),
            hints: hint_views(self.hints@),
            note: text_view(self.note),
        }
    }
}

/// The width of the column of line numbers: the most digits that the line
/// number `line` or the line number of any of `hints` has.
pub open spec fn gutter_width(line: nat, hints: Seq<HintView>) -> nat
    decreases hints.len(),
{
    if hints.len() == 0 {
        decimal_spec(line).len()
    } else {
        let before = gutter_width(line, hints.drop_last());
        let last = decimal_spec(hints.last().position.line).len();
        if last > before {
            last
        } else {
            before
        }
    }
}

/// What every line under the header starts with: the gutter left blank, in
/// bold bright blue.
pub open spec fn margin(width: nat) -> Seq<char> {
    spaces_spec(width) + FORMAT_BOLD@ + COLOR_FG_BLUE_BRIGHT@
}

/// The header: the word `error` in bold red, then in bold the tag of the
/// kind between brackets and what the kind means.
pub open spec fn header_line(error: CompileError) -> Seq<char> {
    FORMAT_BOLD@ + COLOR_FG_RED@ + "error"@ + FORMAT_RESET@ + FORMAT_BOLD@ + ": ["@ + error.tag()
        + "] "@ + error.message() + "\n"@
}

/// The location: an arrow, then file, line and column with colons between.
pub open spec fn location_line(width: nat, file_name: Seq<char>, at: Position) -> Seq<char> {
    margin(width) + "--> "@ + file_name + ":"@ + decimal_spec(at.line) + ":"@ + decimal_spec(
        at.column,
    ) + "\n"@
}

/// A line that holds the gutter's bar and nothing else.
pub open spec fn gutter_line(width: nat) -> Seq<char> {
    margin(width) + " |"@ + "\n"@
}

/// A line of source text: its number flush right in the gutter, the bar,
/// and the text in the plain style.
pub open spec fn source_line(width: nat, number: nat, text: Seq<char>) -> Seq<char> {
    spaces_spec((width - decimal_spec(number).len()) as nat) + FORMAT_BOLD@
        + COLOR_FG_BLUE_BRIGHT@ + decimal_spec(number) + " | "@ + FORMAT_RESET@ + text + "\n"@
}

/// The start of a line that points into the source line above it: the bar,
/// then one space for each column in front of `column`.
pub open spec fn pointer(width: nat, column: nat) -> Seq<char> {
    margin(width) + " | "@ + spaces_spec((column - 1) as nat)
}

/// The two lines of a remark: the source line that it is about, and under
/// it a dash at the remark's column with the remark behind it.
pub open spec fn hint_lines(source: Seq<char>, width: nat, hint: HintView) -> Seq<char> {
    source_line(width, hint.position.line, line_text(source, hint.position.line)) + pointer(
        width,
        hint.position.column,
    ) + "- "@ + hint.message + "\n"@
}

/// Whether a remark is shown above the primary line (`above`) or below it:
/// above if its line comes strictly before `primary`, below if strictly
/// after. A remark on the primary line itself is shown on neither side.
pub open spec fn hint_shown(hint: HintView, primary: nat, above: bool) -> bool {
    if above {
        hint.position.line < primary
    } else {
        hint.position.line > primary
    }
}

/// The lines of the remarks shown on one side of the primary line, in the
/// order in which the remarks were given.
pub open spec fn hints_block(
    source: Seq<char>,
    width: nat,
    hints: Seq<HintView>,
    primary: nat,
    above: bool,
) -> Seq<char>
    decreases hints.len(),
{
    if hints.len() == 0 {
        Seq::empty()
    } else {
        let before = hints_block(source, width, hints.drop_last(), primary, above);
        if hint_shown(hints.last(), primary, above) {
            before + hint_lines(source, width, hints.last())
        } else {
            before
        }
    }
}

/// The two lines of the primary place: its source line, and under it a
/// caret in bold red at its column with the message `base_hint` behind it.
pub open spec fn primary_lines(
    source: Seq<char>,
    width: nat,
    at: Position,
    base_hint: Option<Seq<char>>,
) -> Seq<char> {
    source_line(width, at.line, line_text(source, at.line)) + pointer(width, at.column)
        + FORMAT_BOLD@ + COLOR_FG_RED@ + "^ "@ + match base_hint {
        Some(message) => message,
        None => Seq::empty(),
    } + "\n"@
}

/// The closing note: a line with the bar alone, then the note behind the
/// word `note` in bold. Nothing at all for a note that is absent or empty.
pub open spec fn note_lines(width: nat, note: Option<Seq<char>>) -> Seq<char> {
    match note {
        Some(text) if text.len() > 0 => gutter_line(width) + margin(width) + " = "@
            + FORMAT_RESET@ + FORMAT_BOLD@ + "note"@ + FORMAT_RESET@ + ": "@ + text + "\n"@,
        _ => Seq::empty(),
    }
}

/// A diagnostic as text, framed by the lines of `source` that it is about:
/// header, location, a blank gutter line, the remarks above the primary
/// line, the primary line with its caret, the remarks below it, the note,
/// and an empty line. Every line ends in a line feed.
pub open spec fn rendered(source: Seq<char>, file_name: Seq<char>, diagnostic: DiagnosticView)
    -> Seq<char> {
    let at = diagnostic.position;
    let width = gutter_width(at.line, diagnostic.hints);
    header_line(diagnostic.error) + location_line(width, file_name, at) + gutter_line(width)
        + hints_block(source, width, diagnostic.hints, at.line, true) + primary_lines(
        source,
        width,
        at,
        diagnostic.base_hint,
    ) + hints_block(source, width, diagnostic.hints, at.line, false) + note_lines(
        width,
        diagnostic.note,
    ) + "\n"@
}

/// The gutter is at least as wide as the line number of each remark and as
/// the primary line number.
pub proof fn lemma_gutter_width(line: nat, hints: Seq<HintView>)
    ensures
        decimal_spec(line).len() <= gutter_width(line, hints),
        forall|i: int|
            0 <= i < hints.len() ==> decimal_spec((#[trigger] hints[i]).position.line).len()
                <= gutter_width(line, hints),
    decreases hints.len(),
{
    if hints.len() > 0 {
        lemma_gutter_width(line, hints.drop_last());
        assert forall|i: int| 0 <= i < hints.len() implies decimal_spec(
            (#[trigger] hints[i]).position.line,
        ).len() <= gutter_width(line, hints) by {
            if i < hints.len() - 1 {
                assert(hints[i] == hints.drop_last()[i]);
            }
        }
    }
}

fn push_margin(out: &mut String, width: usize)
    ensures
        final(out)@ == old(out)@ + margin(width as nat),
{
    let pad = spaces(width);
    out.append(pad.as_str());
    out.append(FORMAT_BOLD);
    out.append(COLOR_FG_BLUE_BRIGHT);
    assert(out@ =~= old(out)@ + margin(width as nat));
}

fn push_header(out: &mut String, error: CompileError)
    ensures
        final(out)@ == old(out)@ + header_line(error),
{
    out.append(FORMAT_BOLD);
    out.append(COLOR_FG_RED);
    out.append("error");
    out.append(FORMAT_RESET);
    out.append(FORMAT_BOLD);
    out.append(": [");
    out.append(error.name().as_str());
    out.append("] ");
    out.append(error.to_string().as_str());
    out.append("\n");
    assert(out@ =~= old(out)@ + header_line(error));
}

fn push_location(out: &mut String, width: usize, file_name: &str, at: TokenPosition)
    ensures
        final(out)@ == old(out)@ + location_line(width as nat, file_name@, at@),
{
    push_margin(out, width);
    out.append("--> ");
    out.append(file_name);
    out.append(":");
    push_decimal(out, at.line);
    out.append(":");
    push_decimal(out, at.column);
    out.append("\n");
    assert(out@ =~= old(out)@ + location_line(width as nat, file_name@, at@));
}

fn push_gutter(out: &mut String, width: usize)
    ensures
        final(out)@ == old(out)@ + gutter_line(width as nat),
{
    push_margin(out, width);
    out.append(" |");
    out.append("\n");
    assert(out@ =~= old(out)@ + gutter_line(width as nat));
}

fn push_source_line(out: &mut String, width: usize, number: usize, text: &str)
    requires
        decimal_spec(number as nat).len() <= width,
    ensures
        final(out)@ == old(out)@ + source_line(width as nat, number as nat, text@),
{
    let pad = spaces(width - decimal_width(number));
    out.append(pad.as_str());
    out.append(FORMAT_BOLD);
    out.append(COLOR_FG_BLUE_BRIGHT);
    push_decimal(out, number);
    out.append(" | ");
    out.append(FORMAT_RESET);
    out.append(text);
    out.append("\n");
    assert(out@ =~= old(out)@ + source_line(width as nat, number as nat, text@));
}

fn push_pointer(out: &mut String, width: usize, column: usize)
    requires
        column >= 1,
    ensures
        final(out)@ == old(out)@ + pointer(width as nat, column as nat),
{
    push_margin(out, width);
    out.append(" | ");
    let pad = spaces(column - 1);
    out.append(pad.as_str());
    assert(out@ =~= old(out)@ + pointer(width as nat, column as nat));
}

fn push_hint(out: &mut String, token_scanner: &TokenScanner, width: usize, hint: &ErrorHint)
    requires
        hint.position.column >= 1,
        decimal_spec(hint.position.line as nat).len() <= width,
    ensures
        final(out)@ == old(out)@ + hint_lines(token_scanner.chars@, width as nat, hint@),
{
    let text = token_scanner.get_line(hint.position.line);
    push_source_line(out, width, hint.position.line, text.as_str());
    push_pointer(out, width, hint.position.column);
    out.append("- ");
    out.append(hint.message);
    out.append("\n");
    assert(out@ =~= old(out)@ + hint_lines(token_scanner.chars@, width as nat, hint@));
}

fn push_note(out: &mut String, width: usize, note: Option<&str>)
    ensures
        final(out)@ == old(out)@ + note_lines(width as nat, text_view(note)),
{
    match note {
        Some(text) => {
            if !text.is_empty() {
                push_gutter(out, width);
                push_margin(out, width);
                out.append(" = ");
                out.append(FORMAT_RESET);
                out.append(FORMAT_BOLD);
                out.append("note");
                out.append(FORMAT_RESET);
                out.append(": ");
                out.append(text);
                out.append("\n");
            }
        },
        None => {},
    }
    assert(out@ =~= old(out)@ + note_lines(width as nat, text_view(note)));
}

impl<'a> Diagnostic<'a> {
    /// The diagnostic names places that exist: line and column are at least
    /// one, at the primary place and in every remark.
    pub open spec fn wf(&self) -> bool {
        &&& self.position@.wf()
        &&& forall|i: int| 0 <= i < self.hints.len() ==> (#[trigger] self.hints[i]).position@.wf()
    }

    /// The width of the column of line numbers.
    fn gutter(&self) -> (width: usize)
        ensures
            width == gutter_width(self.position.line as nat, hint_views(self.hints@)),
    {
        let mut longest = decimal_width(self.position.line);
        let mut i: usize = 0;
        while i < self.hints.len()
            invariant
                i <= self.hints.len(),
                longest == gutter_width(
                    self.position.line as nat,
                    hint_views(self.hints@).take(i as int),
                ),
            decreases self.hints.len() - i,
        {
            let width = decimal_width(self.hints[i].position.line);
            proof {
                let views = hint_views(self.hints@);
                assert(views.take(i + 1).drop_last() =~= views.take(i as int));
                assert(views.take(i + 1).last() == self.hints[i as int]@);
            }
            if width > longest {
                longest = width;
            }
            i = i + 1;
        }
        assert(hint_views(self.hints@).take(i as int) =~= hint_views(self.hints@));
        longest
    }

    /// Appends the remarks shown on one side of the primary line.
    fn push_hints(&self, out: &mut String, token_scanner: &TokenScanner, width: usize, above: bool)
        requires
            self.wf(),
            width == gutter_width(self.position.line as nat, hint_views(self.hints@)),
        ensures
            final(out)@ == old(out)@ + hints_block(
                token_scanner.chars@,
                width as nat,
                hint_views(self.hints@),
                self.position.line as nat,
                above,
            ),
    {
        let ghost views = hint_views(self.hints@);
        let ghost source = token_scanner.chars@;
        let ghost primary = self.position.line as nat;
        proof {
            lemma_gutter_width(primary, views);
        }
        let mut i: usize = 0;
        while i < self.hints.len()
            invariant
                i <= self.hints.len(),
                self.wf(),
                views == hint_views(self.hints@),
                source == token_scanner.chars@,
                primary == self.position.line as nat,
                forall|k: int|
                    0 <= k < views.len() ==> decimal_spec((#[trigger] views[k]).position.line).len()
                        <= width,
                out@ == old(out)@ + hints_block(
                    source,
                    width as nat,
                    views.take(i as int),
                    primary,
                    above,
                ),
            decreases self.hints.len() - i,
        {
            let hint = &self.hints[i];
            proof {
                assert(views.take(i + 1).drop_last() =~= views.take(i as int));
                assert(views.take(i + 1).last() == hint@);
                assert(views[i as int] == hint@);
            }
            let shown = if above {
                hint.position.line < self.position.line
            } else {
                hint.position.line > self.position.line
            };
            if shown {
                push_hint(out, token_scanner, width, hint);
                assert(out@ =~= old(out)@ + hints_block(
                    source,
                    width as nat,
                    views.take(i + 1),
                    primary,
                    above,
                ));
            }
            i = i + 1;
        }
        assert(views.take(i as int) =~= views);
    }

    /// Appends the primary line and the caret under it.
    fn push_primary(&self, out: &mut String, token_scanner: &TokenScanner, width: usize)
        requires
            self.position.column >= 1,
            decimal_spec(self.position.line as nat).len() <= width,
        ensures
            final(out)@ == old(out)@ + primary_lines(
                token_scanner.chars@,
                width as nat,
                self.position@,
                text_view(self.base_hint),
            ),
    {
        let text = token_scanner.get_line(self.position.line);
        push_source_line(out, width, self.position.line, text.as_str());
        push_pointer(out, width, self.position.column);
        out.append(FORMAT_BOLD);
        out.append(COLOR_FG_RED);
        out.append("^ ");
        match self.base_hint {
            Some(message) => {
                out.append(message);
            },
            None => {},
        }
        out.append("\n");
        assert(out@ =~= old(out)@ + primary_lines(
            token_scanner.chars@,
            width as nat,
            self.position@,
            text_view(self.base_hint),
        ));
    }

    /// The diagnostic as text, framed by the lines of the scanner's source
    /// text that it is about.
    pub fn render(&self, token_scanner: &TokenScanner) -> (out: String)
        requires
            self.wf(),
        ensures
            out@ == rendered(token_scanner.chars@, token_scanner.file_name@, self@),
    {
        let width = self.gutter();
        proof {
            lemma_gutter_width(self.position.line as nat, hint_views(self.hints@));
        }
        let mut out = String::new();
        push_header(&mut out, self.error);
        assert(out@ =~= header_line(self.error));
        push_location(&mut out, width, token_scanner.file_name.as_str(), self.position);
        push_gutter(&mut out, width);
        self.push_hints(&mut out, token_scanner, width, true);
        self.push_primary(&mut out, token_scanner, width);
        self.push_hints(&mut out, token_scanner, width, false);
        push_note(&mut out, width, self.note);
        out.append("\n");
        out
    }
}

/// The view of the remarks handed to `raise_error`: none where none were
/// given.
pub open spec fn given_hints(hints: Option<ErrorHints>) -> Seq<HintView> {
    match hints {
        Some(given) => hint_views(given@),
        None => Seq::empty(),
    }
}

/// Reports a fault found where the scanner stands: builds the diagnostic of
/// kind `error` at the scanner's line and column, with `base_hint` under the
/// caret, the remarks `hints` and the closing `note`, and returns it as
/// text. Ending the run is left to the caller.
pub fn raise_error<'a>(
    token_scanner: &TokenScanner,
    error: CompileError,
    base_hint: Option<&'a str>,
    hints: Option<ErrorHints<'a>>,
    note: Option<&'a str>,
) -> (out: String)
    requires
        token_scanner.wf(),
        hints matches Some(given) ==> forall|i: int|
            0 <= i < given.len() ==> (#[trigger] given[i]).position@.wf(),
    ensures
        out@ == rendered(
            token_scanner.chars@,
            token_scanner.file_name@,
            DiagnosticView {
                error,
                position: token_scanner@.position(),
                base_hint: text_view(base_hint),
                hints: given_hints(hints),
                note: text_view(note),
            },
        ),
{
    let ghost views = given_hints(hints);
    let hints = match hints {
        Some(given) => given,
        None => Vec::new(),
    };
    let diagnostic = Diagnostic {
        error,
        position: TokenPosition::from_scanner(token_scanner),
        base_hint,
        hints,
        note,
    };
    assert(diagnostic@.hints =~= views);
    diagnostic.render(token_scanner)
}

} // verus!
