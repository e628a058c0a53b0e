//! The lexer: from a character sequence to tokens, one at a time.

use vstd::prelude::*;
use crate::error::{LexError, LexErrorKind};
use crate::text::{alphanumeric, char_at, is_digit, is_digit_spec, is_letter, is_letter_spec, slice_of};
pub use crate::token::{keyword_of, Token, TokenType, TokenView};

verus! {

/// Whether `c` separates tokens without being one: a space, a tab or a
/// carriage return.
pub open spec fn is_blank(c: char) -> bool {
    c == ' ' || c == '\t' || c == '\r'
}

/// Whether `c` may not stand inside a string literal.
pub open spec fn is_illegal_in_string(c: char) -> bool {
    c == '\r' || c == '\n' || c == '\t' || c == '\\' || c == '%'
}

/// The kinds of character run that the lexer passes over in one sweep.
pub enum Run {
    /// Spaces, tabs and carriage returns.
    Blanks,
    /// Everything up to the next line break.
    Remark,
    /// Decimal digits.
    Digits,
    /// Characters that continue an identifier or keyword.
    Word,
    /// Characters inside a string literal, up to the closing quote or the
    /// first character that may not stand there.
    StringBody,
}

/// Whether a run of the given kind goes on over `c`.
pub open spec fn continues(run: Run, c: char) -> bool {
    match run {
        Run::Blanks => is_blank(c),
        Run::Remark => c != '\n',
        Run::Digits => is_digit_spec(c),
        Run::Word => alphanumeric(c),
        Run::StringBody => c != '"' && !is_illegal_in_string(c),
    }
}

/// The first index at or after `pos` at which the run stops: the index of a
/// character over which it does not go on, or the length of the source.
pub open spec fn run_end(source: Seq<char>, pos: int, run: Run) -> int
    decreases source.len() - pos,
{
    if 0 <= pos < source.len() && continues(run, source[pos]) {
        run_end(source, pos + 1, run)
    } else {
        pos
    }
}

/// Where the next token starts when the lexer stands at `pos`: after any
/// blanks and, if a `#` follows them, after the rest of that line.
pub open spec fn token_start(source: Seq<char>, pos: int) -> int {
    let after_blanks = run_end(source, pos, Run::Blanks);
    if char_at(source, after_blanks) == '#' {
        run_end(source, after_blanks, Run::Remark)
    } else {
        after_blanks
    }
}

/// A token as a place in the source: its kind, the half-open range
/// `start..end` that holds its text, and the index `next` at which the lexer
/// stands once the token is taken.
pub struct Scan {
    pub kind: TokenType,
    pub start: int,
    pub end: int,
    pub next: int,
}

impl Scan {
    /// A token of `len` characters at `start`, all of them its text.
    pub open spec fn plain(kind: TokenType, start: int, len: int) -> Scan {
        Scan { kind, start, end: start + len, next: start + len }
    }

    /// The token that the scan denotes in `source`.
    pub open spec fn token(self, source: Seq<char>) -> TokenView {
        TokenView { text: source.subrange(self.start, self.end), kind: self.kind }
    }
}

/// A lexer failure of the given kind at `pos`, about the character `ch`.
pub open spec fn failure(kind: LexErrorKind, ch: char, pos: int) -> LexError {
    LexError { kind, ch, pos: pos as usize }
}

/// The token that starts at `start`, an index at which no blank and no
/// remark begins.
pub open spec fn token_at(source: Seq<char>, start: int) -> Result<Scan, LexError> {
    let c = char_at(source, start);
    let after = char_at(source, start + 1);
    if start >= source.len() {
        Ok(Scan::plain(TokenType::EOF, start, 0))
    } else if c == '+' {
        Ok(Scan::plain(TokenType::PLUS, start, 1))
    } else if c == '-' {
        Ok(Scan::plain(TokenType::MINUS, start, 1))
    } else if c == '*' {
        Ok(Scan::plain(TokenType::ASTERISK, start, 1))
    } else if c == '/' {
        Ok(Scan::plain(TokenType::SLASH, start, 1))
    } else if c == '>' {
        if after == '=' {
            Ok(Scan::plain(TokenType::GTEQ, start, 2))
        } else {
            Ok(Scan::plain(TokenType::GT, start, 1))
        }
    } else if c == '<' {
        if after == '=' {
            Ok(Scan::plain(TokenType::LTEQ, start, 2))
        } else {
            Ok(Scan::plain(TokenType::LT, start, 1))
        }
    } else if c == '!' {
        if after == '=' {
            Ok(Scan::plain(TokenType::NOTEQ, start, 2))
        } else {
            Err(failure(LexErrorKind::MalformedNotEqual, after, start))
        }
    } else if c == '=' {
        if after == '=' {
            Ok(Scan::plain(TokenType::EQEQ, start, 2))
        } else {
            Ok(Scan::plain(TokenType::EQ, start, 1))
        }
    } else if c == '"' {
        let close = run_end(source, start + 1, Run::StringBody);
        if char_at(source, close) == '"' {
            Ok(Scan { kind: TokenType::STRING, start: start + 1, end: close, next: close + 1 })
        } else {
            Err(failure(LexErrorKind::IllegalStringCharacter, char_at(source, close), close))
        }
    } else if is_digit_spec(c) {
        let whole_end = run_end(source, start + 1, Run::Digits);
        if char_at(source, whole_end) == '.' {
            if is_digit_spec(char_at(source, whole_end + 1)) {
                let end = run_end(source, whole_end + 1, Run::Digits);
                Ok(Scan::plain(TokenType::NUMBER, start, end - start))
            } else {
                Err(
                    failure(
                        LexErrorKind::IllegalDecimal,
                        char_at(source, whole_end + 1),
                        whole_end,
                    ),
                )
            }
        } else {
            Ok(Scan::plain(TokenType::NUMBER, start, whole_end - start))
        }
    } else if is_letter_spec(c) {
        let end = run_end(source, start + 1, Run::Word);
        match keyword_of(source.subrange(start, end)) {
            Some(keyword) => Ok(Scan::plain(keyword, start, end - start)),
            None => Ok(Scan::plain(TokenType::IDENT, start, end - start)),
        }
    } else if c == '\n' {
        Ok(Scan::plain(TokenType::NEWLINE, start, 1))
    } else {
        Err(failure(LexErrorKind::UnknownCharacter, c, start))
    }
}

/// What the lexer yields when it stands at `pos`: the next token, or the
/// failure that it meets on the way.
pub open spec fn lex_at(source: Seq<char>, pos: int) -> Result<Scan, LexError> {
    token_at(source, token_start(source, pos))
}

/// A run ends at or after the index where it was entered, and within the
/// source if it was entered there.
pub proof fn lemma_run_end_bounds(source: Seq<char>, pos: int, run: Run)
    ensures
        pos <= run_end(source, pos, run),
        run_end(source, pos, run) <= source.len() || run_end(source, pos, run) == pos,
    decreases source.len() - pos,
{
    if 0 <= pos < source.len() && continues(run, source[pos]) {
        lemma_run_end_bounds(source, pos + 1, run);
    }
}

/// A run goes on over every character it passes and stops at one over which
/// it does not, or at the end of the source.
pub proof fn lemma_run_end_is_first_stop(source: Seq<char>, pos: int, run: Run)
    requires
        0 <= pos <= source.len(),
    ensures
        forall|i: int| pos <= i < run_end(source, pos, run) ==> continues(run, #[trigger] source[i]),
        run_end(source, pos, run) < source.len() ==> !continues(
            run,
            source[run_end(source, pos, run)],
        ),
    decreases source.len() - pos,
{
    if pos < source.len() && continues(run, source[pos]) {
        lemma_run_end_is_first_stop(source, pos + 1, run);
    }
}

/// A token starts at or after the lexer's position, and within the source if
/// the lexer stands there.
pub proof fn lemma_token_start_bounds(source: Seq<char>, pos: int)
    ensures
        pos <= token_start(source, pos),
        token_start(source, pos) <= source.len() || token_start(source, pos) == pos,
{
    lemma_run_end_bounds(source, pos, Run::Blanks);
    lemma_run_end_bounds(source, run_end(source, pos, Run::Blanks), Run::Remark);
}

/// Taking a token never moves the lexer back, and taking any token but `EOF`
/// moves it forward, to an index within the source.
pub proof fn lemma_lex_progress(source: Seq<char>, pos: int)
    ensures
        lex_at(source, pos) matches Ok(scan) ==> {
            &&& pos <= scan.next
            &&& scan.kind == TokenType::EOF ==> source.len() <= scan.next
            &&& scan.kind != TokenType::EOF ==> pos < scan.next <= source.len()
        },
{
    let start = token_start(source, pos);
    lemma_token_start_bounds(source, pos);
    lemma_run_end_bounds(source, start + 1, Run::StringBody);
    lemma_run_end_bounds(source, start + 1, Run::Digits);
    lemma_run_end_bounds(source, start + 1, Run::Word);
    lemma_run_end_bounds(source, run_end(source, start + 1, Run::Digits) + 1, Run::Digits);
}

/// A keyword is spelt in capital letters, and `keyword_of` yields keywords
/// only: a word in any other case is no keyword.
pub proof fn lemma_keywords_are_capitals(text: Seq<char>)
    ensures
        keyword_of(text) matches Some(kind) ==> {
            &&& kind.is_keyword()
            &&& text == kind.name()
            &&& forall|i: int| 0 <= i < text.len() ==> 'A' <= #[trigger] text[i] <= 'Z'
        },
{
    reveal_strlit("LABEL");
    reveal_strlit("GOTO");
    reveal_strlit("PRINT");
    reveal_strlit("INPUT");
    reveal_strlit("LET");
    reveal_strlit("IF");
    reveal_strlit("THEN");
    reveal_strlit("ENDIF");
    reveal_strlit("WHILE");
    reveal_strlit("REPEAT");
    reveal_strlit("ENDWHILE");
}

/// The text of a token is the stretch of the source that was taken for it.
///
/// The lexer passes from `pos` to the token's start over blanks and at most
/// one remark, and from there to `next` over the token. For every kind but
/// `STRING` the text is all that lies between the start and `next`; for a
/// `STRING` it is what lies between the two quotes that stand there.
pub proof fn lemma_token_text_is_consumed_source(source: Seq<char>, pos: int)
    requires
        0 <= pos <= source.len(),
    ensures
        lex_at(source, pos) matches Ok(scan) ==> {
            let from = token_start(source, pos);
            &&& pos <= from <= scan.start <= scan.end <= scan.next <= source.len()
            &&& scan.token(source).text == source.subrange(scan.start, scan.end)
            &&& scan.token(source).text.len() == scan.end - scan.start
            &&& scan.kind != TokenType::STRING ==> scan.start == from && scan.end == scan.next
            &&& scan.kind == TokenType::STRING ==> {
                &&& scan.start == from + 1
                &&& scan.next == scan.end + 1
                &&& source[from] == '"'
                &&& source[scan.end] == '"'
            }
        },
{
    let start = token_start(source, pos);
    lemma_token_start_bounds(source, pos);
    lemma_lex_progress(source, pos);
    lemma_run_end_bounds(source, start + 1, Run::StringBody);
    lemma_run_end_bounds(source, start + 1, Run::Digits);
    lemma_run_end_bounds(source, start + 1, Run::Word);
    lemma_run_end_bounds(source, run_end(source, start + 1, Run::Digits) + 1, Run::Digits);
    lemma_keywords_are_capitals(source.subrange(start, run_end(source, start + 1, Run::Word)));
}

/// Between the lexer's position and the start of the next token lie blanks
/// and, after them, at most one remark, which ends before a line break or at
/// the end of the source.
pub proof fn lemma_only_blanks_and_remark_are_skipped(source: Seq<char>, pos: int)
    requires
        0 <= pos <= source.len(),
    ensures
        ({
            let blanks_end = run_end(source, pos, Run::Blanks);
            let from = token_start(source, pos);
            &&& pos <= blanks_end <= from <= source.len()
            &&& forall|i: int| pos <= i < blanks_end ==> is_blank(#[trigger] source[i])
            &&& blanks_end < from ==> source[blanks_end] == '#'
            &&& forall|i: int| blanks_end <= i < from ==> #[trigger] source[i] != '\n'
            &&& blanks_end < from < source.len() ==> source[from] == '\n'
            &&& from < source.len() ==> !is_blank(source[from]) && (source[from] == '#'
                ==> blanks_end < from)
        }),
{
    let blanks_end = run_end(source, pos, Run::Blanks);
    lemma_run_end_bounds(source, pos, Run::Blanks);
    lemma_run_end_is_first_stop(source, pos, Run::Blanks);
    lemma_run_end_bounds(source, blanks_end, Run::Remark);
    lemma_run_end_is_first_stop(source, blanks_end, Run::Remark);
}

/// The lexer yields `EOF` exactly when nothing but blanks and a remark is
/// left, and from then on it yields `EOF` again, with no text, without
/// moving.
pub proof fn lemma_end_of_input_repeats(source: Seq<char>, pos: int)
    requires
        0 <= pos <= source.len(),
    ensures
        (lex_at(source, pos) matches Ok(scan) && scan.kind == TokenType::EOF) <==> token_start(
            source,
            pos,
        ) == source.len(),
        lex_at(source, pos) matches Ok(scan) ==> (scan.kind == TokenType::EOF ==> {
            &&& scan.token(source).text == Seq::<char>::empty()
            &&& scan.next == source.len()
            &&& lex_at(source, scan.next) == Ok::<Scan, LexError>(scan)
        }),
{
    let start = token_start(source, pos);
    lemma_token_start_bounds(source, pos);
    lemma_keywords_are_capitals(source.subrange(start, run_end(source, start + 1, Run::Word)));
    assert(source.subrange(source.len() as int, source.len() as int) =~= Seq::<char>::empty());
}

/// A string literal with a line break, a carriage return, a tab, a backslash
/// or a percent sign before its closing quote is no token: the lexer fails
/// at the first such character.
pub proof fn lemma_string_with_illegal_character_fails(source: Seq<char>, pos: int, at: int)
    requires
        0 <= pos <= source.len() <= usize::MAX,
        token_start(source, pos) < at < source.len(),
        char_at(source, token_start(source, pos)) == '"',
        is_illegal_in_string(char_at(source, at)),
        forall|i: int| token_start(source, pos) < i < at ==> char_at(source, i) != '"',
    ensures
        lex_at(source, pos) matches Err(error) && error.kind
            == LexErrorKind::IllegalStringCharacter && is_illegal_in_string(error.ch)
            && token_start(source, pos) < error.pos <= at && error.ch == char_at(
            source,
            error.pos as int,
        ),
{
    let start = token_start(source, pos);
    lemma_token_start_bounds(source, pos);
    lemma_run_end_bounds(source, start + 1, Run::StringBody);
    lemma_run_end_is_first_stop(source, start + 1, Run::StringBody);
    let close = run_end(source, start + 1, Run::StringBody);
    if close > at {
        assert(continues(Run::StringBody, source[at]));
    }
    if close < at {
        assert(char_at(source, close) != '"');
    }
}

/// The lexer over a fixed source.
///
/// `cur_pos` is the index of the current character, `None` before the first
/// one is read; it runs up to the length of the source and stops there.
/// `cur_char` is the character at `cur_pos`, NUL past the end.
#[derive(Debug)]
pub struct Lexer {
    pub source: Vec<char>,
    pub cur_char: char,
    pub cur_pos: Option<usize>,
}

impl Lexer {
    /// The index of the current character; -1 before the first is read.
    pub open spec fn position(&self) -> int {
        match self.cur_pos {
            Some(p) => p as int,
            None => -1,
        }
    }

    /// The lexer has read its first character, stands within the source or
    /// just past its end, and `cur_char` is the character there.
    pub open spec fn wf(&self) -> bool {
        &&& 0 <= self.position() <= self.source@.len()
        &&& self.cur_char == char_at(self.source@, self.position())
    }

    /// A lexer that stands on the first character of `source`.
    pub fn new(source: Vec<char>) -> (r: Self)
        ensures
            r.source == source,
            r.position() == 0,
            r.wf(),
    {
        let mut lexer = Lexer { source, cur_char: '\0', cur_pos: None };
        lexer.next_char();
        lexer
    }

    /// Moves to the next character; past the end of the source there is
    /// nowhere further to go.
    pub fn next_char(&mut self)
        ensures
            final(self).source == old(self).source,
            final(self).wf(),
            final(self).position() == if old(self).position() < old(self).source@.len() {
                old(self).position() + 1
            } else {
                old(self).source@.len() as int
            },
    {
        let len = self.source.len();
        let next: usize = match self.cur_pos {
            Some(x) => if x < len {
                x + 1
            } else {
                len
            },
            None => 0,
        };
        self.cur_pos = Some(next);
        if next < len {
            self.cur_char = self.source[next];
        } else {
            self.cur_char = '\0';
        }
    }

    /// The character after the current one, NUL if there is none.
    pub fn peek(&self) -> (r: char)
        ensures
            r == match self.cur_pos {
                Some(p) => char_at(self.source@, p + 1),
                None => '\0',
            },
    {
        match self.cur_pos {
            Some(x) => {
                if x < self.source.len() && x + 1 < self.source.len() {
                    self.source[x + 1]
                } else {
                    '\0'
                }
            },
            None => '\0',
        }
    }

    /// Whether the lexer stands past the last character.
    pub fn at_end(&self) -> (r: bool)
        requires
            self.wf(),
        ensures
            r == (self.position() >= self.source@.len()),
    {
        match self.cur_pos {
            Some(x) => x >= self.source.len(),
            None => false,
        }
    }

    /// Passes over spaces, tabs and carriage returns.
    pub fn skip_whitespace(&mut self)
        requires
            old(self).wf(),
        ensures
            final(self).source == old(self).source,
            final(self).wf(),
            final(self).position() == run_end(old(self).source@, old(self).position(), Run::Blanks),
    {
        while self.cur_char == ' ' || self.cur_char == '\t' || self.cur_char == '\r'
            invariant
                self.source == old(self).source,
                self.wf(),
                run_end(self.source@, self.position(), Run::Blanks) == run_end(
                    old(self).source@,
                    old(self).position(),
                    Run::Blanks,
                ),
            decreases self.source@.len() - self.position(),
        {
            self.next_char();
        }
    }

    /// If the current character is `#`, passes over the rest of the line, up
    /// to but not over its line break.
    pub fn skip_comment(&mut self)
        requires
            old(self).wf(),
        ensures
            final(self).source == old(self).source,
            final(self).wf(),
            final(self).position() == if old(self).cur_char == '#' {
                run_end(old(self).source@, old(self).position(), Run::Remark)
            } else {
                old(self).position()
            },
    {
        if self.cur_char == '#' {
            while self.cur_char != '\n' && !self.at_end()
                invariant
                    self.source == old(self).source,
                    self.wf(),
                    run_end(self.source@, self.position(), Run::Remark) == run_end(
                        old(self).source@,
                        old(self).position(),
                        Run::Remark,
                    ),
                decreases self.source@.len() - self.position(),
            {
                self.next_char();
            }
        }
    }

    /// The index of the current character.
    fn index(&self) -> (r: usize)
        requires
            self.wf(),
        ensures
            r == self.position(),
    {
        match self.cur_pos {
            Some(x) => x,
            None => 0,
        }
    }

    /// Whether a character follows the current one.
    fn more_after(&self) -> (r: bool)
        requires
            self.wf(),
        ensures
            r == (self.position() + 1 < self.source@.len()),
    {
        match self.cur_pos {
            Some(x) => x < self.source.len() && x + 1 < self.source.len(),
            None => false,
        }
    }

    /// Moves over the digits that follow the current character.
    fn take_digits(&mut self)
        requires
            old(self).wf(),
            old(self).position() < old(self).source@.len(),
        ensures
            final(self).source == old(self).source,
            final(self).wf(),
            final(self).position() + 1 == run_end(
                old(self).source@,
                old(self).position() + 1,
                Run::Digits,
            ),
            old(self).position() <= final(self).position() < final(self).source@.len(),
    {
        while is_digit(self.peek())
            invariant
                self.source == old(self).source,
                self.wf(),
                old(self).position() <= self.position() < self.source@.len(),
                run_end(self.source@, self.position() + 1, Run::Digits) == run_end(
                    old(self).source@,
                    old(self).position() + 1,
                    Run::Digits,
                ),
            decreases self.source@.len() - self.position(),
        {
            self.next_char();
        }
    }

    /// Takes the next token and moves past it.
    ///
    /// The token's text is the stretch of the source that the token was read
    /// from, without the quotes in the case of a string. At the end of the
    /// source the token is `EOF` with no text, on this call and on every
    /// later one. A NUL character in the source is a character like any
    /// other: it does not end the source, and outside a string and a remark
    /// it starts no token. On failure the lexer stops at the index that the
    /// error names.
    #[verifier::loop_isolation(false)]
    pub fn get_token(&mut self) -> (r: Result<Token, LexError>)
        requires
            old(self).wf(),
        ensures
            final(self).source == old(self).source,
            final(self).wf(),
            match lex_at(old(self).source@, old(self).position()) {
                Ok(scan) => {
                    &&& r matches Ok(token)
                    &&& token@ == scan.token(old(self).source@)
                    &&& final(self).position() == scan.next
                },
                Err(error) => r == Err::<Token, LexError>(error) && final(self).position()
                    == error.pos,
            },
    {
        self.skip_whitespace();
        self.skip_comment();
        let ghost source = self.source@;
        let ghost start = self.position();
        proof {
            lemma_token_start_bounds(source, old(self).position());
            assert(start == token_start(source, old(self).position()));
        }
        if self.at_end() {
            let token = Token::new(Vec::new(), TokenType::EOF);
            assert(token@.text =~= source.subrange(start, start));
            return Ok(token);
        }
        let here = self.index();
        let c = self.cur_char;
        assert(here < self.source.len());
        let token: Token;
        if c == '+' {
            token = Token::new(vec![c], TokenType::PLUS);
        } else if c == '-' {
            token = Token::new(vec![c], TokenType::MINUS);
        } else if c == '*' {
            token = Token::new(vec![c], TokenType::ASTERISK);
        } else if c == '/' {
            token = Token::new(vec![c], TokenType::SLASH);
        } else if c == '>' {
            if self.peek() == '=' {
                self.next_char();
                token = Token::new(vec![c, self.cur_char], TokenType::GTEQ);
            } else {
                token = Token::new(vec![c], TokenType::GT);
            }
        } else if c == '<' {
            if self.peek() == '=' {
                self.next_char();
                token = Token::new(vec![c, self.cur_char], TokenType::LTEQ);
            } else {
                token = Token::new(vec![c], TokenType::LT);
            }
        } else if c == '!' {
            if self.peek() == '=' {
                self.next_char();
                token = Token::new(vec![c, self.cur_char], TokenType::NOTEQ);
            } else {
                return Err(
                    LexError { kind: LexErrorKind::MalformedNotEqual, ch: self.peek(), pos: here },
                );
            }
        } else if c == '=' {
            if self.peek() == '=' {
                self.next_char();
                token = Token::new(vec![c, self.cur_char], TokenType::EQEQ);
            } else {
                token = Token::new(vec![c], TokenType::EQ);
            }
        } else if c == '"' {
            self.next_char();
            let first = self.index();
            while self.cur_char != '"'
                invariant
                    self.source == old(self).source,
                    self.wf(),
                    first <= self.position() <= source.len(),
                    run_end(source, self.position(), Run::StringBody) == run_end(
                        source,
                        first as int,
                        Run::StringBody,
                    ),
                decreases source.len() - self.position(),
            {
                if self.cur_char == '\r' || self.cur_char == '\n' || self.cur_char == '\t'
                    || self.cur_char == '\\' || self.cur_char == '%' || self.at_end() {
                    return Err(
                        LexError {
                            kind: LexErrorKind::IllegalStringCharacter,
                            ch: self.cur_char,
                            pos: self.index(),
                        },
                    );
                }
                self.next_char();
            }
            token = Token::new(slice_of(&self.source, first, self.index()), TokenType::STRING);
        } else if is_digit(c) {
            self.take_digits();
            if self.peek() == '.' {
                self.next_char();
                if !is_digit(self.peek()) {
                    return Err(
                        LexError {
                            kind: LexErrorKind::IllegalDecimal,
                            ch: self.peek(),
                            pos: self.index(),
                        },
                    );
                }
                self.take_digits();
            }
            token = Token::new(slice_of(&self.source, here, self.index() + 1), TokenType::NUMBER);
        } else if is_letter(c) {
            while self.more_after() && self.peek().is_alphanumeric()
                invariant
                    self.source == old(self).source,
                    self.wf(),
                    here <= self.position() < source.len(),
                    run_end(source, self.position() + 1, Run::Word) == run_end(
                        source,
                        here + 1,
                        Run::Word,
                    ),
                decreases source.len() - self.position(),
            {
                self.next_char();
            }
            let text = slice_of(&self.source, here, self.index() + 1);
            token = match Token::check_keyword(&text) {
                Some(keyword) => Token::new(text, keyword),
                None => Token::new(text, TokenType::IDENT),
            };
        } else if c == '\n' {
            token = Token::new(vec![c], TokenType::NEWLINE);
        } else {
            return Err(LexError { kind: LexErrorKind::UnknownCharacter, ch: c, pos: here });
        }
        proof {
            assert(token@.text =~= token_at(source, start)->Ok_0.token(source).text);
        }
        self.next_char();
        Ok(token)
    }
}

} // verus!
