//! The scanner: a cursor over the source text that keeps track of the line
//! and the column it stands at.

use crate::lexer::{Delimiter, Position};
use crate::text::{first_index, is_white_space, lemma_first_index, string_of, to_chars};
use vstd::prelude::*;
use vstd::string::*;

verus! {

/// The scanner as a mathematical value: the whole source text, how many of
/// its characters have been consumed, and the line and column counted so far.
pub struct Cursor {
    pub source: Seq<char>,
    pub index: nat,
    pub line: nat,
    pub column: nat,
}

impl Cursor {
    /// The cursor stands inside the text or at its end, and both coordinates
    /// are at least one.
    pub open spec fn wf(self) -> bool {
        self.index <= self.source.len() && self.line >= 1 && self.column >= 1
    }

    /// A cursor at the start of `source`: line one, column one.
    pub open spec fn start(source: Seq<char>) -> Cursor {
        Cursor { source, index: 0, line: 1, column: 1 }
    }

    /// The line and column that the cursor stands at.
    pub open spec fn position(self) -> Position {
        Position { line: self.line, column: self.column }
    }

    /// How many characters are left to consume.
    pub open spec fn remaining(self) -> nat {
        (self.source.len() - self.index) as nat
    }

    /// Line and column stay within `usize` however the rest of the text is
    /// consumed, with one step to spare for running off its end.
    pub open spec fn has_room(self) -> bool {
        self.line + self.column + self.remaining() + 1 <= usize::MAX
    }

    /// The next character, if there is one.
    pub open spec fn peek(self) -> Option<char> {
        if self.index < self.source.len() {
            Some(self.source[self.index as int])
        } else {
            None
        }
    }

    /// The last of the next `n` characters, if that many are left.
    pub open spec fn nth(self, n: nat) -> Option<char> {
        if 1 <= n && self.index + n <= self.source.len() {
            Some(self.source[self.index + n - 1])
        } else {
            None
        }
    }

    /// The cursor after an attempt to consume `n` characters. It moves past
    /// them, or to the end of the text if fewer are left. Line and column
    /// follow the last character alone: a line feed starts a new line at
    /// column one, and anything else, running off the end included, adds one
    /// to the column.
    pub open spec fn advance(self, n: nat) -> Cursor {
        let index = if self.index + n <= self.source.len() {
            self.index + n
        } else {
            self.source.len()
        };
        if self.nth(n) == Some('\n') {
            Cursor { index, line: self.line + 1, column: 1, ..self }
        } else {
            Cursor { index, column: self.column + 1, ..self }
        }
    }

    /// Where the word under the cursor ends: the index of the next delimiter,
    /// or the end of the text.
    pub open spec fn word_end(self) -> nat {
        first_index(self.source, self.index as int, |c: char| Delimiter::ends_word(c)) as nat
    }

    /// The word under the cursor: the characters up to the next delimiter.
    pub open spec fn word(self) -> Seq<char> {
        self.source.subrange(self.index as int, self.word_end() as int)
    }

    /// The cursor after the word under it: one column further for each of the
    /// word's characters.
    pub open spec fn advance_word(self) -> Cursor {
        Cursor {
            index: self.word_end(),
            column: self.column + (self.word_end() - self.index) as nat,
            ..self
        }
    }

    /// Where the line under the cursor ends: the index of the next line feed,
    /// or the end of the text.
    pub open spec fn line_end(self) -> nat {
        first_index(self.source, self.index as int, |c: char| c == '\n') as nat
    }

    /// The rest of the line under the cursor, without its line feed.
    pub open spec fn rest_of_line(self) -> Seq<char> {
        self.source.subrange(self.index as int, self.line_end() as int)
    }

    /// The cursor after the rest of the line, in front of its line feed.
    /// Line and column stay as they are.
    pub open spec fn advance_line(self) -> Cursor {
        Cursor { index: self.line_end(), ..self }
    }
}

/// An attempt to consume goes by the text, the place and the number of
/// characters alone: on two scanners that stand at the same place of the
/// same text it returns the same character and leaves both at the same
/// place again, whatever file each was given to name.
pub proof fn lemma_advance_deterministic(first: TokenScanner, second: TokenScanner, num: usize)
    requires
        first@ == second@,
    ensures
        first@.nth(num as nat) == second@.nth(num as nat),
        first@.advance(num as nat) == second@.advance(num as nat),
{
}

/// The position rule of consuming `n` characters. If that many are left and
/// the last of them is a line feed, it is returned, the line grows by one
/// and the column is one. In every other case the line stays and the column
/// grows by one: by one and not by `n`, and line feeds among the characters
/// in front of the last are not counted.
pub proof fn lemma_advance_position(cursor: Cursor, n: nat)
    requires
        n >= 1,
    ensures
        cursor.index + n <= cursor.source.len() && cursor.source[cursor.index + n - 1] == '\n'
            ==> {
            &&& cursor.nth(n) == Some('\n')
            &&& cursor.advance(n).line == cursor.line + 1
            &&& cursor.advance(n).column == 1
        },
        !(cursor.index + n <= cursor.source.len() && cursor.source[cursor.index + n - 1] == '\n')
            ==> {
            &&& cursor.nth(n) != Some('\n')
            &&& cursor.advance(n).line == cursor.line
            &&& cursor.advance(n).column == cursor.column + 1
        },
        cursor.advance(n).source == cursor.source,
        cursor.index + n <= cursor.source.len() ==> cursor.advance(n).index == cursor.index + n,
        cursor.index + n > cursor.source.len() ==> cursor.advance(n).index == cursor.source.len(),
{
}

/// An attempt to consume leaves the cursor at a strictly later position: on
/// the next line at column one, or on the same line one column further. The
/// line never goes down, and line and column stay at least one.
pub proof fn lemma_advance_moves_forward(cursor: Cursor, n: nat)
    ensures
        cursor.position().lt(cursor.advance(n).position()),
        (cursor.advance(n).line == cursor.line + 1 && cursor.advance(n).column == 1) || (
        cursor.advance(n).line == cursor.line && cursor.advance(n).column == cursor.column + 1),
        cursor.wf() ==> cursor.advance(n).wf(),
{
}

/// The index at which line `n` of `source` starts, lines counted from one
/// and ended by line feeds; the length of `source` when it has fewer lines.
pub open spec fn line_start(source: Seq<char>, n: nat) -> nat
    decreases n,
{
    if n <= 1 {
        0
    } else {
        let previous = line_start(source, (n - 1) as nat);
        let end = first_index(source, previous as int, |c: char| c == '\n');
        if end < source.len() {
            (end + 1) as nat
        } else {
            source.len()
        }
    }
}

/// The line of `source` that starts at index `start`: the characters up to
/// the next line feed or the end of the text, without a carriage return that
/// stands in front of that line feed.
pub open spec fn line_at(source: Seq<char>, start: int) -> Seq<char> {
    let end = first_index(source, start, |c: char| c == '\n');
    if start < end < source.len() && source[end - 1] == '\r' {
        source.subrange(start, end - 1)
    } else {
        source.subrange(start, end)
    }
}

/// Line `n` of `source`, lines counted from one, without the line feed that
/// ends it and without a carriage return in front of that line feed. Empty
/// when `n` is zero or `source` has fewer lines.
pub open spec fn line_text(source: Seq<char>, n: nat) -> Seq<char> {
    if n == 0 {
        Seq::empty()
    } else {
        line_at(source, line_start(source, n) as int)
    }
}

/// `s` without the white space at its start.
pub open spec fn trim_start(s: Seq<char>) -> Seq<char>
    decreases s.len(),
{
    if s.len() > 0 && is_white_space(s[0]) {
        trim_start(s.drop_first())
    } else {
        s
    }
}

/// `s` without the white space at its end.
pub open spec fn trim_end(s: Seq<char>) -> Seq<char>
    decreases s.len(),
{
    if s.len() > 0 && is_white_space(s.last()) {
        trim_end(s.drop_last())
    } else {
        s
    }
}

/// `s` without the white space at its start and at its end.
pub open spec fn trim(s: Seq<char>) -> Seq<char> {
    trim_end(trim_start(s))
}

/// The text of `source` from index `start` on as the tokenizer wants it:
/// line after line, each without the white space at its two ends and each
/// followed by a line feed, the last one too.
pub open spec fn normalized_from(source: Seq<char>, start: int) -> Seq<char>
    decreases source.len() - start,
{
    if 0 <= start < source.len() {
        let end = first_index(source, start, |c: char| c == '\n');
        proof {
            lemma_first_index(source, start, |c: char| c == '\n');
        }
        let next = if end < source.len() {
            end + 1
        } else {
            source.len() as int
        };
        trim(line_at(source, start)).push('\n') + normalized_from(source, next)
    } else {
        Seq::empty()
    }
}

/// The whole of `source` as the tokenizer wants it.
pub open spec fn normalized(source: Seq<char>) -> Seq<char> {
    normalized_from(source, 0)
}

/// Once the lines have run out they stay run out.
pub proof fn lemma_line_start_past_end(source: Seq<char>, m: nat, n: nat)
    requires
        1 <= m <= n,
        line_start(source, m) == source.len(),
    ensures
        line_start(source, n) == source.len(),
    decreases n,
{
    if m < n {
        lemma_line_start_past_end(source, m, (n - 1) as nat);
    }
}

/// Where the line that starts at `from` ends: the index of its line feed,
/// or the end of the text.
fn line_end_from(chars: &Vec<char>, from: usize) -> (end: usize)
    requires
        from <= chars.len(),
    ensures
        end == first_index(chars@, from as int, |c: char| c == '\n'),
        from <= end <= chars.len(),
{
    proof {
        lemma_first_index(chars@, from as int, |c: char| c == '\n');
    }
    let mut end = from;
    while end < chars.len() && chars[end] != '\n'
        invariant
            from <= end <= chars.len(),
            first_index(chars@, end as int, |c: char| c == '\n') == first_index(
                chars@,
                from as int,
                |c: char| c == '\n',
            ),
        decreases chars.len() - end,
    {
        end = end + 1;
    }
    end
}

/// Where the text of the line that starts at `from` stops: in front of its
/// line feed, and of a carriage return in front of that.
fn line_stop_from(chars: &Vec<char>, from: usize) -> (stop: usize)
    requires
        from <= chars.len(),
    ensures
        from <= stop <= chars.len(),
        chars@.subrange(from as int, stop as int) == line_at(chars@, from as int),
{
    let end = line_end_from(chars, from);
    if from < end && end < chars.len() && chars[end - 1] == '\r' {
        end - 1
    } else {
        end
    }
}

/// The bounds of `chars[from..to]` without the white space at its two ends.
fn trim_range(chars: &Vec<char>, from: usize, to: usize) -> (bounds: (usize, usize))
    requires
        from <= to <= chars.len(),
    ensures
        from <= bounds.0 <= bounds.1 <= to,
        chars@.subrange(bounds.0 as int, bounds.1 as int) == trim(
            chars@.subrange(from as int, to as int),
        ),
{
    let mut start = from;
    while start < to && chars[start].is_whitespace()
        invariant
            from <= start <= to <= chars.len(),
            trim_start(chars@.subrange(start as int, to as int)) == trim_start(
                chars@.subrange(from as int, to as int),
            ),
        decreases to - start,
    {
        assert(chars@.subrange(start as int, to as int).drop_first() =~= chars@.subrange(
            start + 1,
            to as int,
        ));
        start = start + 1;
    }
    let mut end = to;
    while start < end && chars[end - 1].is_whitespace()
        invariant
            start <= end <= to <= chars.len(),
            trim_end(chars@.subrange(start as int, end as int)) == trim_end(
                chars@.subrange(start as int, to as int),
            ),
        decreases end - start,
    {
        assert(chars@.subrange(start as int, end as int).drop_last() =~= chars@.subrange(
            start as int,
            end - 1,
        ));
        end = end - 1;
    }
    (start, end)
}

/// Makes a text ready for the tokenizer: takes it line by line, strips each
/// line of the white space at its two ends, and puts a line feed behind each,
/// the last one too. An empty text stays empty.
pub fn normalize(string: &str) -> (text: String)
    ensures
        text@ == normalized(string@),
{
    let chars = to_chars(string);
    let len = chars.len();
    let mut text = String::new();
    let mut start: usize = 0;
    while start < len
        invariant
            start <= len,
            len == chars.len(),
            chars@ == string@,
            text@ + normalized_from(chars@, start as int) == normalized(chars@),
        decreases len - start,
    {
        let end = line_end_from(&chars, start);
        let stop = line_stop_from(&chars, start);
        let (first, last) = trim_range(&chars, start, stop);
        let ghost before = text@;
        let ghost line = trim(line_at(chars@, start as int)).push('\n');
        let mut i: usize = first;
        while i < last
            invariant
                first <= i <= last <= chars.len(),
                text@ == before + chars@.subrange(first as int, i as int),
            decreases last - i,
        {
            text.push(chars[i]);
            i = i + 1;
        }
        text.push('\n');
        assert(text@ =~= before + line);
        let next = if end < len {
            end + 1
        } else {
            len
        };
        assert((before + line) + normalized_from(chars@, next as int) =~= before + (line
            + normalized_from(chars@, next as int)));
        start = next;
    }
    assert(text@ + Seq::<char>::empty() =~= text@);
    text
}

/// A cursor over the characters of a source text, with the name of the file
/// that the text came from.
pub struct TokenScanner {
    /// The whole source text.
    pub chars: Vec<char>,
    /// How many characters have been consumed.
    pub index: usize,
    /// The line that the cursor stands at, counted from one.
    pub line: usize,
    /// The column that the cursor stands at, counted from one.
    pub column: usize,
    /// The name of the file, for messages.
    pub file_name: String,
}

/// The view is what scanning goes by: the text and the place in it. The
/// file name plays no part in scanning and is not in the view; contracts that
/// speak of it name the field.
impl View for TokenScanner {
    type V = Cursor;

    open spec fn view(&self) -> Cursor {
        Cursor {
            source: self.chars@,
            index: self.index as nat,
            line: self.line as nat,
            column: self.column as nat,
        }
    }
}

impl TokenScanner {
    /// The cursor stands inside the text or at its end, and both coordinates
    /// are at least one.
    pub open spec fn wf(&self) -> bool {
        self@.wf()
    }

    /// A scanner at the start of `string`: line one, column one.
    pub fn from_file_string(string: &str, file_name: &str) -> (scanner: Self)
        ensures
            scanner@ == Cursor::start(string@),
            scanner.file_name@ == file_name@,
            scanner.wf(),
    {
        Self {
            chars: to_chars(string),
            index: 0,
            line: 1,
            column: 1,
            file_name: file_name.to_owned(),
        }
    }

    /// Whether line and column have room for the rest of the text: what
    /// `tokenize` asks of a scanner.
    pub fn has_room(&self) -> (r: bool)
        requires
            self.wf(),
        ensures
            r == self@.has_room(),
    {
        let budget = usize::MAX - 1;
        let remaining = self.chars.len() - self.index;
        self.line <= budget && self.column <= budget - self.line && remaining <= budget
            - self.line - self.column
    }

    /// The next character, which stays unconsumed; `None` at the end of the
    /// text.
    pub fn peek(&self) -> (c: Option<char>)
        ensures
            c == self@.peek(),
    {
        if self.index < self.chars.len() {
            Some(self.chars[self.index])
        } else {
            None
        }
    }

    /// Consumes `num` characters and returns the last of them, or consumes
    /// what is left and returns `None` if fewer than `num` are left. A line
    /// feed returned starts a new line at column one; any other outcome adds
    /// one to the column, whatever `num` is. The counter that grows must not
    /// stand at the largest `usize`.
    pub fn advance(&mut self, num: usize) -> (c: Option<char>)
        requires
            old(self).wf(),
            num >= 1,
            old(self)@.nth(num as nat) == Some('\n') ==> old(self).line < usize::MAX,
            old(self)@.nth(num as nat) != Some('\n') ==> old(self).column < usize::MAX,
        ensures
            c == old(self)@.nth(num as nat),
            final(self)@ == old(self)@.advance(num as nat),
            final(self).file_name == old(self).file_name,
            final(self).wf(),
            c == Some('\n') ==> final(self).line == old(self).line + 1 && final(self).column == 1,
            c != Some('\n') ==> final(self).line == old(self).line && final(self).column
                == old(self).column + 1,
    {
        let c = if num <= self.chars.len() - self.index {
            self.index = self.index + num;
            Some(self.chars[self.index - 1])
        } else {
            self.index = self.chars.len();
            None
        };
        match c {
            Some('\n') => {
                self.line = self.line + 1;
                self.column = 1;
            },
            _ => {
                self.column = self.column + 1;
            },
        }
        c
    }

    /// Consumes the characters up to the next delimiter, which stays
    /// unconsumed, and returns them; the column grows by their number. The
    /// word is empty if the cursor stands at a delimiter or at the end.
    pub fn advance_word(&mut self) -> (word: String)
        requires
            old(self).wf(),
            old(self).column + old(self)@.remaining() <= usize::MAX,
        ensures
            word@ == old(self)@.word(),
            final(self)@ == old(self)@.advance_word(),
            final(self).file_name == old(self).file_name,
            final(self).wf(),
            forall|i: int| 0 <= i < word@.len() ==> !Delimiter::ends_word(#[trigger] word@[i]),
            final(self)@.peek() matches Some(c) ==> Delimiter::ends_word(c),
    {
        let start = self.index;
        proof {
            lemma_first_index(self.chars@, start as int, |c: char| Delimiter::ends_word(c));
        }
        while self.index < self.chars.len() && !Delimiter::is_delimiter(&self.chars[self.index])
            invariant
                start <= self.index <= self.chars.len(),
                self.chars == old(self).chars,
                self.file_name == old(self).file_name,
                self.line == old(self).line,
                start == old(self).index,
                self.column == old(self).column + (self.index - start),
                old(self).column + (self.chars.len() - start) <= usize::MAX,
                first_index(self.chars@, self.index as int, |c: char| Delimiter::ends_word(c))
                    == first_index(self.chars@, start as int, |c: char| Delimiter::ends_word(c)),
                old(self).wf(),
            decreases self.chars.len() - self.index,
        {
            self.column = self.column + 1;
            self.index = self.index + 1;
        }
        string_of(&self.chars, start, self.index)
    }

    /// Consumes the characters up to the next line feed, which stays
    /// unconsumed, and returns them. Line and column stay as they are.
    pub fn advance_line(&mut self) -> (rest: String)
        requires
            old(self).wf(),
        ensures
            rest@ == old(self)@.rest_of_line(),
            final(self)@ == old(self)@.advance_line(),
            final(self).file_name == old(self).file_name,
            final(self).wf(),
            forall|i: int| 0 <= i < rest@.len() ==> #[trigger] rest@[i] != '\n',
            final(self)@.peek() matches Some(c) ==> c == '\n',
    {
        let start = self.index;
        proof {
            lemma_first_index(self.chars@, start as int, |c: char| c == '\n');
        }
        while self.index < self.chars.len() && self.chars[self.index] != '\n'
            invariant
                start <= self.index <= self.chars.len(),
                self.chars == old(self).chars,
                self.file_name == old(self).file_name,
                self.line == old(self).line,
                self.column == old(self).column,
                start == old(self).index,
                first_index(self.chars@, self.index as int, |c: char| c == '\n') == first_index(
                    self.chars@,
                    start as int,
                    |c: char| c == '\n',
                ),
                old(self).wf(),
            decreases self.chars.len() - self.index,
        {
            self.index = self.index + 1;
        }
        string_of(&self.chars, start, self.index)
    }

    /// Line `line` of the source text, lines counted from one; empty if the
    /// text has no such line. The cursor does not move.
    pub fn get_line(&self, line: usize) -> (text: String)
        ensures
            text@ == line_text(self.chars@, line as nat),
    {
        if line == 0 {
            return String::new();
        }
        let len = self.chars.len();
        let mut start: usize = 0;
        let mut k: usize = 1;
        while k < line && start < len
            invariant
                1 <= k <= line,
                len == self.chars.len(),
                start <= len,
                start == line_start(self.chars@, k as nat),
            decreases line - k,
        {
            let end = line_end_from(&self.chars, start);
            start = if end < len {
                end + 1
            } else {
                len
            };
            k = k + 1;
        }
        proof {
            if k < line {
                lemma_line_start_past_end(self.chars@, k as nat, line as nat);
            }
        }
        let stop = line_stop_from(&self.chars, start);
        string_of(&self.chars, start, stop)
    }

    /// The line of the source text that the cursor stands at.
    pub fn get_current_line(&self) -> (text: String)
        ensures
            text@ == line_text(self.chars@, self.line as nat),
    {
        self.get_line(self.line)
    }
}

} // verus!
