//! The lexer: an on-demand scanner over an immutable source buffer.
//!
//! Every call to [`Lexer::next`] returns exactly the token and successor
//! state given by the specification function [`spec_next`], so the whole
//! token stream is a mathematical function of the source text.

use vstd::prelude::*;
use vstd::string::StrSliceExecFns;
use vstd::string::StringExecFns;

use crate::number::count_char;
use crate::number::is_ascii_digit_char;
use crate::number::is_base_marker_char;
use crate::number::number_of_literal;
use crate::token::Number;
use crate::token::NumberParseError;
use crate::token::Token;
use crate::token::TokenKind;
use crate::token::TokenKindValue;
use crate::token::TokenValue;

verus! {

/// The scanner state: a character offset into the source, and the 1-based
/// line and column of that offset.
pub struct LexState {
    pub cursor: int,
    pub line: int,
    pub column: int,
}

/// The state of a fresh lexer: at the first character, line 1, column 1.
pub open spec fn initial_state() -> LexState {
    LexState { cursor: 0, line: 1, column: 1 }
}

/// Addition capped at `u64::MAX`, under which line and column counters
/// advance.
pub open spec fn sat_add(a: int, b: int) -> int {
    if a + b <= u64::MAX {
        a + b
    } else {
        u64::MAX as int
    }
}

/// The whitespace the scanner skips: space, tab and newline.
pub open spec fn is_whitespace_char(c: char) -> bool {
    c == ' ' || c == '\t' || c == '\n'
}

/// One character consumed: the cursor advances, a newline starts the next
/// line at column 1, anything else moves one column to the right.
pub open spec fn advance_over(c: char, st: LexState) -> LexState {
    if c == '\n' {
        LexState { cursor: st.cursor + 1, line: sat_add(st.line, 1), column: 1 }
    } else {
        LexState { cursor: st.cursor + 1, line: st.line, column: sat_add(st.column, 1) }
    }
}

/// The state after skipping every whitespace character at the cursor.
pub open spec fn skip_whitespace_spec(s: Seq<char>, st: LexState) -> LexState
    decreases s.len() - st.cursor,
{
    if st.cursor < s.len() && is_whitespace_char(s[st.cursor]) {
        skip_whitespace_spec(s, advance_over(s[st.cursor], st))
    } else {
        st
    }
}

/// Whether a character is alphabetic in the Unicode sense; what
/// `char::is_alphabetic` returns.
pub uninterp spec fn unicode_alphabetic(c: char) -> bool;

/// Whether a character is alphanumeric in the Unicode sense; what
/// `char::is_alphanumeric` returns.
pub uninterp spec fn unicode_alphanumeric(c: char) -> bool;

/// Relies on `char::is_alphabetic`: the Unicode alphabetic classification
/// of a character, which depends on the character alone.
#[verifier::external_body]
fn char_alphabetic(c: char) -> (r: bool)
    ensures
        r == unicode_alphabetic(c),
{
    c.is_alphabetic()
}

/// Relies on `char::is_alphanumeric`: the Unicode alphanumeric
/// classification of a character, which depends on the character alone.
#[verifier::external_body]
fn char_alphanumeric(c: char) -> (r: bool)
    ensures
        r == unicode_alphanumeric(c),
{
    c.is_alphanumeric()
}

/// Relies on `String::push`: it appends exactly the one character.
#[verifier::external_body]
fn push_char(s: &mut String, c: char)
    ensures
        final(s)@ == old(s)@.push(c),
{
    s.push(c);
}

/// Whether `c` may start an identifier: alphabetic or an underscore.
pub open spec fn is_identifier_start_char(c: char) -> bool {
    unicode_alphabetic(c) || c == '_'
}

/// Whether `c` may continue an identifier: alphanumeric or an underscore.
pub open spec fn is_identifier_char(c: char) -> bool {
    unicode_alphanumeric(c) || c == '_'
}

/// Whether `c` may start an identifier: alphabetic or an underscore.
pub fn is_valid_identifier_start_char(c: char) -> (r: bool)
    ensures
        r == is_identifier_start_char(c),
{
    char_alphabetic(c) || c == '_'
}

/// Whether `c` may continue an identifier: alphanumeric or an underscore.
pub fn is_valid_identifier_char(c: char) -> (r: bool)
    ensures
        r == is_identifier_char(c),
{
    char_alphanumeric(c) || c == '_'
}

/// Whether `c` belongs to a numeric-literal run: an ASCII digit, a base
/// marker, or a dot.
pub open spec fn is_number_char(c: char) -> bool {
    is_ascii_digit_char(c) || is_base_marker_char(c) || c == '.'
}

/// The end of the identifier run starting at `i`.
pub open spec fn identifier_end(s: Seq<char>, i: int) -> int
    decreases s.len() - i,
{
    if i < s.len() && is_identifier_char(s[i]) {
        identifier_end(s, i + 1)
    } else {
        i
    }
}

/// The end of the numeric-literal run starting at `i`.
pub open spec fn number_end(s: Seq<char>, i: int) -> int
    decreases s.len() - i,
{
    if i < s.len() && is_number_char(s[i]) {
        number_end(s, i + 1)
    } else {
        i
    }
}

/// The end of a line comment starting at `i`: just past the next newline,
/// or the end of input.
pub open spec fn comment_end(s: Seq<char>, i: int) -> int
    decreases s.len() - i,
{
    if i < s.len() {
        if s[i] == '\n' {
            i + 1
        } else {
            comment_end(s, i + 1)
        }
    } else {
        i
    }
}

/// The message of the error token for an unexpected character.
pub open spec fn unexpected_char_message(c: char) -> Seq<char> {
    "Unexpected character '"@ + seq![c] + "'"@
}

/// The message of the error token for a literal with more than one dot.
pub open spec fn too_many_dots_message() -> Seq<char> {
    "too many dots in floating-point literal"@
}

/// The message of the error token for a repeated base marker `m`.
pub open spec fn repeated_marker_message(m: char) -> Seq<char> {
    "Too many '"@ + seq![m] + "' in integer literal"@
}

/// The message of the error token wrapping a number-parse error.
pub open spec fn parse_error_message(e: NumberParseError) -> Seq<char> {
    match e {
        NumberParseError::InvalidBase => "Error when parsing integer literal: InvalidBase"@,
        NumberParseError::InvalidInteger => "Error when parsing integer literal: InvalidInteger"@,
    }
}

/// The kind of a completed identifier run: one of the five keywords when
/// the run is exactly that keyword, an identifier otherwise. A run that
/// merely begins like a keyword is an identifier.
pub open spec fn keyword_or_identifier(r: Seq<char>) -> TokenKindValue {
    if r == seq!['i', 'f'] {
        TokenKindValue::If
    } else if r == seq!['i', 'n'] {
        TokenKindValue::In
    } else if r == seq!['l', 'e', 't'] {
        TokenKindValue::Let
    } else if r == seq!['l', 'o', 'o', 'p'] {
        TokenKindValue::Loop
    } else if r == seq!['t', 'y', 'p', 'e'] {
        TokenKindValue::Type
    } else {
        TokenKindValue::Identifier(r)
    }
}

/// The kind of a completed numeric-literal run: an error for more than one
/// dot or a repeated base marker (checked in the order x, y, z, s, o, b),
/// otherwise the parsed number or the parse error, wrapped as a token kind.
pub open spec fn number_token_kind(lit: Seq<char>) -> TokenKindValue {
    if count_char(lit, '.') > 1 {
        TokenKindValue::Error(too_many_dots_message())
    } else if count_char(lit, 'x') > 1 {
        TokenKindValue::Error(repeated_marker_message('x'))
    } else if count_char(lit, 'y') > 1 {
        TokenKindValue::Error(repeated_marker_message('y'))
    } else if count_char(lit, 'z') > 1 {
        TokenKindValue::Error(repeated_marker_message('z'))
    } else if count_char(lit, 's') > 1 {
        TokenKindValue::Error(repeated_marker_message('s'))
    } else if count_char(lit, 'o') > 1 {
        TokenKindValue::Error(repeated_marker_message('o'))
    } else if count_char(lit, 'b') > 1 {
        TokenKindValue::Error(repeated_marker_message('b'))
    } else {
        match number_of_literal(lit) {
            Ok(v) => TokenKindValue::Number(v),
            Err(e) => TokenKindValue::Error(parse_error_message(e)),
        }
    }
}

/// The token starting at state `st` with kind `k`.
pub open spec fn token_at(st: LexState, k: TokenKindValue) -> TokenValue {
    TokenValue { line: st.line, column: st.column, kind: k }
}

/// A one-character token at `st`.
pub open spec fn single_char_token(st: LexState, k: TokenKindValue) -> (TokenValue, LexState) {
    (
        token_at(st, k),
        LexState { cursor: st.cursor + 1, line: st.line, column: sat_add(st.column, 1) },
    )
}

/// A two-character token at `st`.
pub open spec fn two_char_token(st: LexState, k: TokenKindValue) -> (TokenValue, LexState) {
    (
        token_at(st, k),
        LexState { cursor: st.cursor + 2, line: st.line, column: sat_add(st.column, 2) },
    )
}

/// An operator at `st`: its compound form when the next character is
/// `second`, its bare form otherwise.
pub open spec fn operator_token(
    s: Seq<char>,
    st: LexState,
    second: char,
    compound: TokenKindValue,
    bare: TokenKindValue,
) -> (TokenValue, LexState) {
    if st.cursor + 1 < s.len() && s[st.cursor + 1] == second {
        two_char_token(st, compound)
    } else {
        single_char_token(st, bare)
    }
}

/// The identifier or keyword token whose run starts at `st`.
pub open spec fn scan_identifier_spec(s: Seq<char>, st: LexState) -> (TokenValue, LexState) {
    let e = identifier_end(s, st.cursor);
    (
        token_at(st, keyword_or_identifier(s.subrange(st.cursor, e))),
        LexState { cursor: e, line: st.line, column: sat_add(st.column, e - st.cursor) },
    )
}

/// The numeric-literal (or error) token whose run starts at `st`.
pub open spec fn scan_number_spec(s: Seq<char>, st: LexState) -> (TokenValue, LexState) {
    let e = number_end(s, st.cursor);
    (
        token_at(st, number_token_kind(s.subrange(st.cursor, e))),
        LexState { cursor: e, line: st.line, column: sat_add(st.column, e - st.cursor) },
    )
}

/// The comment token whose `//` starts at `st`: it runs to just past the
/// next newline (or to end of input), after which the state is at the start
/// of the next line.
pub open spec fn scan_comment_spec(s: Seq<char>, st: LexState) -> (TokenValue, LexState) {
    let e = comment_end(s, st.cursor);
    (
        token_at(st, TokenKindValue::Comment),
        LexState { cursor: e, line: sat_add(st.line, 1), column: 1 },
    )
}

/// What one call to [`Lexer::next`] produces from source `s` in state `st`:
/// the token and the successor state. Whitespace is skipped first; then the
/// character at the cursor decides: end of input, punctuation, an operator
/// with a possible compound form, a `//` comment, a numeric literal run, an
/// identifier-or-keyword run, or an unexpected-character error.
pub open spec fn spec_next(s: Seq<char>, st: LexState) -> (TokenValue, LexState) {
    let q = skip_whitespace_spec(s, st);
    if q.cursor >= s.len() {
        (token_at(q, TokenKindValue::Eof), q)
    } else {
        let c = s[q.cursor];
        if c == ':' {
            single_char_token(q, TokenKindValue::Colon)
        } else if c == ';' {
            single_char_token(q, TokenKindValue::Semicolon)
        } else if c == '(' {
            single_char_token(q, TokenKindValue::LeftParen)
        } else if c == ')' {
            single_char_token(q, TokenKindValue::RightParen)
        } else if c == '{' {
            single_char_token(q, TokenKindValue::LeftCurly)
        } else if c == '}' {
            single_char_token(q, TokenKindValue::RightCurly)
        } else if c == ',' {
            single_char_token(q, TokenKindValue::Comma)
        } else if c == '=' {
            operator_token(s, q, '=', TokenKindValue::EqualsEquals, TokenKindValue::Equals)
        } else if c == '+' {
            operator_token(s, q, '=', TokenKindValue::PlusEquals, TokenKindValue::Plus)
        } else if c == '-' {
            operator_token(s, q, '=', TokenKindValue::MinusEquals, TokenKindValue::Minus)
        } else if c == '*' {
            operator_token(s, q, '=', TokenKindValue::StarEquals, TokenKindValue::Star)
        } else if c == '!' {
            operator_token(s, q, '=', TokenKindValue::NotEquals, TokenKindValue::Not)
        } else if c == '~' {
            operator_token(s, q, '=', TokenKindValue::TildeEquals, TokenKindValue::Tilde)
        } else if c == '&' {
            operator_token(s, q, '&', TokenKindValue::AmpersandAmpersand, TokenKindValue::Ampersand)
        } else if c == '|' {
            operator_token(s, q, '|', TokenKindValue::PipePipe, TokenKindValue::Pipe)
        } else if c == '/' {
            if q.cursor + 1 < s.len() && s[q.cursor + 1] == '=' {
                two_char_token(q, TokenKindValue::SlashEquals)
            } else if q.cursor + 1 < s.len() && s[q.cursor + 1] == '/' {
                scan_comment_spec(s, q)
            } else {
                single_char_token(q, TokenKindValue::Slash)
            }
        } else if is_ascii_digit_char(c) {
            scan_number_spec(s, q)
        } else if is_identifier_start_char(c) {
            scan_identifier_spec(s, q)
        } else {
            (
                token_at(q, TokenKindValue::Error(unexpected_char_message(c))),
                LexState { cursor: q.cursor + 1, line: q.line, column: sat_add(q.column, 1) },
            )
        }
    }
}

/// Addition on `u64` capped at `u64::MAX`.
fn sat_add_u64(a: u64, b: u64) -> (r: u64)
    ensures
        r as int == sat_add(a as int, b as int),
{
    if a <= u64::MAX - b {
        a + b
    } else {
        u64::MAX
    }
}

/// How many times `c` occurs in `src` between positions `from` and `to`.
fn count_char_range(src: &str, from: usize, to: usize, c: char) -> (cnt: usize)
    requires
        from <= to <= src@.len(),
    ensures
        cnt == count_char(src@.subrange(from as int, to as int), c),
{
    let mut cnt: usize = 0;
    let mut k: usize = from;
    while k < to
        invariant
            from <= k <= to <= src@.len(),
            cnt == count_char(src@.subrange(from as int, k as int), c),
            cnt <= k - from,
        decreases to - k,
    {
        proof {
            crate::number::lemma_subrange_extend(src@, from as int, k as int);
        }
        if src.get_char(k) == c {
            cnt += 1;
        }
        k += 1;
    }
    cnt
}

/// The scanner: cursor, line and column state over a borrowed source
/// buffer, advanced one token per call to [`Lexer::next`].
pub struct Lexer<'src> {
    src: &'src str,
    cursor: usize,
    line: u64,
    column: u64,
}

/// Mathematical value of a [`Lexer`]: the source text and the state.
pub struct LexerValue {
    pub src: Seq<char>,
    pub state: LexState,
}

impl<'src> View for Lexer<'src> {
    type V = LexerValue;

    closed spec fn view(&self) -> LexerValue {
        LexerValue {
            src: self.src@,
            state: LexState {
                cursor: self.cursor as int,
                line: self.line as int,
                column: self.column as int,
            },
        }
    }
}

impl<'src> Lexer<'src> {
    /// The cursor never runs past the end of the source.
    pub closed spec fn wf(&self) -> bool {
        self.cursor as int <= self.src@.len()
    }

    /// A fresh lexer over `src`, at its first character, line 1, column 1.
    pub fn new(src: &'src str) -> (l: Lexer<'src>)
        ensures
            l.wf(),
            l@.src == src@,
            l@.state == initial_state(),
    {
        Lexer { src, cursor: 0, line: 1, column: 1 }
    }

    /// Skips whitespace, tracking lines and columns.
    fn skip_whitespace(&mut self)
        requires
            old(self).wf(),
        ensures
            final(self).wf(),
            final(self)@.src == old(self)@.src,
            final(self)@.state == skip_whitespace_spec(old(self)@.src, old(self)@.state),
    {
        let n = self.src.unicode_len();
        loop
            invariant
                self.wf(),
                n == self.src@.len(),
                self@.src == old(self)@.src,
                skip_whitespace_spec(old(self)@.src, old(self)@.state) == skip_whitespace_spec(
                    self@.src,
                    self@.state,
                ),
            ensures
                self.wf(),
                self@.src == old(self)@.src,
                self@.state == skip_whitespace_spec(old(self)@.src, old(self)@.state),
            decreases self@.src.len() - self@.state.cursor,
        {
            if self.cursor >= n {
                break;
            }
            let c = self.src.get_char(self.cursor);
            if !(c == ' ' || c == '\t' || c == '\n') {
                break;
            }
            if c == '\n' {
                self.line = sat_add_u64(self.line, 1);
                self.column = 1;
            } else {
                self.column = sat_add_u64(self.column, 1);
            }
            self.cursor = self.cursor + 1;
        }
    }

    /// Emits a one-character token of the given kind.
    fn single(&mut self, kind: TokenKind) -> (t: Token)
        requires
            old(self).wf(),
            old(self)@.state.cursor < old(self)@.src.len(),
            old(self)@.src.len() <= usize::MAX,
        ensures
            final(self).wf(),
            final(self)@.src == old(self)@.src,
            ({
                let (tv, st) = single_char_token(old(self)@.state, kind@);
                t@ == tv && final(self)@.state == st
            }),
    {
        let tok = Token::simple(self.line, self.column, kind);
        self.cursor = self.cursor + 1;
        self.column = sat_add_u64(self.column, 1);
        tok
    }

    /// Emits a two-character token of the given kind.
    fn double(&mut self, kind: TokenKind) -> (t: Token)
        requires
            old(self).wf(),
            old(self)@.state.cursor + 2 <= old(self)@.src.len(),
            old(self)@.src.len() <= usize::MAX,
        ensures
            final(self).wf(),
            final(self)@.src == old(self)@.src,
            ({
                let (tv, st) = two_char_token(old(self)@.state, kind@);
                t@ == tv && final(self)@.state == st
            }),
    {
        let tok = Token::simple(self.line, self.column, kind);
        self.cursor = self.cursor + 2;
        self.column = sat_add_u64(self.column, 2);
        tok
    }

    /// Emits an operator's compound form when the next character is
    /// `second`, its bare form otherwise.
    fn operator(&mut self, second: char, compound: TokenKind, bare: TokenKind) -> (t: Token)
        requires
            old(self).wf(),
            old(self)@.state.cursor < old(self)@.src.len(),
        ensures
            final(self).wf(),
            final(self)@.src == old(self)@.src,
            ({
                let (tv, st) = operator_token(
                    old(self)@.src,
                    old(self)@.state,
                    second,
                    compound@,
                    bare@,
                );
                t@ == tv && final(self)@.state == st
            }),
    {
        let n = self.src.unicode_len();
        if self.cursor + 1 < n && self.src.get_char(self.cursor + 1) == second {
            self.double(compound)
        } else {
            self.single(bare)
        }
    }

    /// Scans the maximal identifier run at the cursor and classifies it as
    /// a keyword or an identifier.
    fn scan_identifier(&mut self) -> (t: Token)
        requires
            old(self).wf(),
        ensures
            final(self).wf(),
            final(self)@.src == old(self)@.src,
            ({
                let (tv, st) = scan_identifier_spec(old(self)@.src, old(self)@.state);
                t@ == tv && final(self)@.state == st
            }),
    {
        let src = self.src;
        let n = src.unicode_len();
        let start = self.cursor;
        let mut j = start;
        loop
            invariant
                start <= j <= n,
                n == src@.len(),
                identifier_end(src@, start as int) == identifier_end(src@, j as int),
            ensures
                start <= j <= n,
                j == identifier_end(src@, start as int),
            decreases n - j,
        {
            if j >= n {
                break;
            }
            if !is_valid_identifier_char(src.get_char(j)) {
                break;
            }
            j += 1;
        }
        let ghost run = src@.subrange(start as int, j as int);
        proof {
            assert(run.len() == j - start);
            assert(run.len() >= 1 ==> run[0] == src@[start as int]);
            assert(run.len() >= 2 ==> run[1] == src@[start as int + 1]);
            assert(run.len() >= 3 ==> run[2] == src@[start as int + 2]);
            assert(run.len() >= 4 ==> run[3] == src@[start as int + 3]);
            assert(seq!['i', 'f'].len() == 2 && seq!['i', 'f'][0] == 'i' && seq!['i', 'f'][1]
                == 'f');
            assert(seq!['i', 'n'].len() == 2 && seq!['i', 'n'][0] == 'i' && seq!['i', 'n'][1]
                == 'n');
            assert(seq!['l', 'e', 't'].len() == 3 && seq!['l', 'e', 't'][0] == 'l' && seq![
                'l',
                'e',
                't',
            ][1] == 'e' && seq!['l', 'e', 't'][2] == 't');
            assert(seq!['l', 'o', 'o', 'p'].len() == 4 && seq!['l', 'o', 'o', 'p'][0] == 'l'
                && seq!['l', 'o', 'o', 'p'][1] == 'o' && seq!['l', 'o', 'o', 'p'][2] == 'o'
                && seq!['l', 'o', 'o', 'p'][3] == 'p');
            assert(seq!['t', 'y', 'p', 'e'].len() == 4 && seq!['t', 'y', 'p', 'e'][0] == 't'
                && seq!['t', 'y', 'p', 'e'][1] == 'y' && seq!['t', 'y', 'p', 'e'][2] == 'p'
                && seq!['t', 'y', 'p', 'e'][3] == 'e');
        }
        let len = j - start;
        let kind: TokenKind = if len == 2 && src.get_char(start) == 'i' && src.get_char(start + 1)
            == 'f' {
            proof {
                assert(run =~= seq!['i', 'f']);
            }
            TokenKind::If
        } else if len == 2 && src.get_char(start) == 'i' && src.get_char(start + 1) == 'n' {
            proof {
                assert(run =~= seq!['i', 'n']);
            }
            TokenKind::In
        } else if len == 3 && src.get_char(start) == 'l' && src.get_char(start + 1) == 'e'
            && src.get_char(start + 2) == 't' {
            proof {
                assert(run =~= seq!['l', 'e', 't']);
            }
            TokenKind::Let
        } else if len == 4 && src.get_char(start) == 'l' && src.get_char(start + 1) == 'o'
            && src.get_char(start + 2) == 'o' && src.get_char(start + 3) == 'p' {
            proof {
                assert(run =~= seq!['l', 'o', 'o', 'p']);
            }
            TokenKind::Loop
        } else if len == 4 && src.get_char(start) == 't' && src.get_char(start + 1) == 'y'
            && src.get_char(start + 2) == 'p' && src.get_char(start + 3) == 'e' {
            proof {
                assert(run =~= seq!['t', 'y', 'p', 'e']);
            }
            TokenKind::Type
        } else {
            TokenKind::Identifier(String::from_str(src.substring_char(start, j)))
        };
        let tok = Token::simple(self.line, self.column, kind);
        self.cursor = j;
        self.column = sat_add_u64(self.column, len as u64);
        tok
    }

    /// Scans the maximal numeric-literal run at the cursor, checks its dot
    /// and base-marker counts, and parses it.
    fn scan_number(&mut self) -> (t: Token)
        requires
            old(self).wf(),
        ensures
            final(self).wf(),
            final(self)@.src == old(self)@.src,
            ({
                let (tv, st) = scan_number_spec(old(self)@.src, old(self)@.state);
                t@ == tv && final(self)@.state == st
            }),
    {
        let src = self.src;
        let n = src.unicode_len();
        let start = self.cursor;
        let mut j = start;
        loop
            invariant
                start <= j <= n,
                n == src@.len(),
                number_end(src@, start as int) == number_end(src@, j as int),
            ensures
                start <= j <= n,
                j == number_end(src@, start as int),
            decreases n - j,
        {
            if j >= n {
                break;
            }
            let c = src.get_char(j);
            if !(crate::number::ascii_digit(c) || c == 'x' || c == 'y' || c == 'z' || c == 's'
                || c == 'o' || c == 'b' || c == '.') {
                break;
            }
            j += 1;
        }
        let ghost lit = src@.subrange(start as int, j as int);
        let kind: TokenKind = if count_char_range(src, start, j, '.') > 1 {
            TokenKind::Error(String::from_str("too many dots in floating-point literal"))
        } else if count_char_range(src, start, j, 'x') > 1 {
            TokenKind::Error(Self::marker_message('x'))
        } else if count_char_range(src, start, j, 'y') > 1 {
            TokenKind::Error(Self::marker_message('y'))
        } else if count_char_range(src, start, j, 'z') > 1 {
            TokenKind::Error(Self::marker_message('z'))
        } else if count_char_range(src, start, j, 's') > 1 {
            TokenKind::Error(Self::marker_message('s'))
        } else if count_char_range(src, start, j, 'o') > 1 {
            TokenKind::Error(Self::marker_message('o'))
        } else if count_char_range(src, start, j, 'b') > 1 {
            TokenKind::Error(Self::marker_message('b'))
        } else {
            match Number::from_str(src.substring_char(start, j)) {
                Ok(num) => TokenKind::Number(num),
                Err(NumberParseError::InvalidBase) => TokenKind::Error(
                    String::from_str("Error when parsing integer literal: InvalidBase"),
                ),
                Err(NumberParseError::InvalidInteger) => TokenKind::Error(
                    String::from_str("Error when parsing integer literal: InvalidInteger"),
                ),
            }
        };
        let tok = Token::simple(self.line, self.column, kind);
        self.cursor = j;
        self.column = sat_add_u64(self.column, (j - start) as u64);
        tok
    }

    /// The repeated-base-marker error message for marker `m`.
    fn marker_message(m: char) -> (msg: String)
        ensures
            msg@ == repeated_marker_message(m),
    {
        let mut msg = String::from_str("Too many '");
        push_char(&mut msg, m);
        msg.append("' in integer literal");
        proof {
            assert(msg@ =~= repeated_marker_message(m));
        }
        msg
    }

    /// Consumes a `//` line comment through the next newline (or to end of
    /// input) and emits one comment token.
    fn scan_comment(&mut self) -> (t: Token)
        requires
            old(self).wf(),
        ensures
            final(self).wf(),
            final(self)@.src == old(self)@.src,
            ({
                let (tv, st) = scan_comment_spec(old(self)@.src, old(self)@.state);
                t@ == tv && final(self)@.state == st
            }),
    {
        let src = self.src;
        let n = src.unicode_len();
        let start = self.cursor;
        let mut j = start;
        loop
            invariant_except_break
                start <= j <= n,
                n == src@.len(),
                comment_end(src@, start as int) == comment_end(src@, j as int),
            ensures
                start <= j <= n,
                j == comment_end(src@, start as int),
            decreases n - j,
        {
            if j >= n {
                break;
            }
            let c = src.get_char(j);
            j += 1;
            if c == '\n' {
                break;
            }
        }
        let tok = Token::simple(self.line, self.column, TokenKind::Comment);
        self.cursor = j;
        self.line = sat_add_u64(self.line, 1);
        self.column = 1;
        tok
    }

    /// Returns the next token, advancing the lexer past it, exactly as
    /// [`spec_next`] specifies. Error tokens never stop the scan: the
    /// cursor has already advanced past the offending text, so the next
    /// call makes forward progress; once end of input is reached, every
    /// further call returns the end-of-input token again.
    pub fn next(&mut self) -> (t: Token)
        requires
            old(self).wf(),
        ensures
            final(self).wf(),
            final(self)@.src == old(self)@.src,
            ({
                let (tv, st) = spec_next(old(self)@.src, old(self)@.state);
                t@ == tv && final(self)@.state == st
            }),
    {
        self.skip_whitespace();
        let src = self.src;
        let n = src.unicode_len();
        if self.cursor >= n {
            return Token::eof(self.line, self.column);
        }
        let c = src.get_char(self.cursor);
        if c == ':' {
            self.single(TokenKind::Colon)
        } else if c == ';' {
            self.single(TokenKind::Semicolon)
        } else if c == '(' {
            self.single(TokenKind::LeftParen)
        } else if c == ')' {
            self.single(TokenKind::RightParen)
        } else if c == '{' {
            self.single(TokenKind::LeftCurly)
        } else if c == '}' {
            self.single(TokenKind::RightCurly)
        } else if c == ',' {
            self.single(TokenKind::Comma)
        } else if c == '=' {
            self.operator('=', TokenKind::EqualsEquals, TokenKind::Equals)
        } else if c == '+' {
            self.operator('=', TokenKind::PlusEquals, TokenKind::Plus)
        } else if c == '-' {
            self.operator('=', TokenKind::MinusEquals, TokenKind::Minus)
        } else if c == '*' {
            self.operator('=', TokenKind::StarEquals, TokenKind::Star)
        } else if c == '!' {
            self.operator('=', TokenKind::NotEquals, TokenKind::Not)
        } else if c == '~' {
            self.operator('=', TokenKind::TildeEquals, TokenKind::Tilde)
        } else if c == '&' {
            self.operator('&', TokenKind::AmpersandAmpersand, TokenKind::Ampersand)
        } else if c == '|' {
            self.operator('|', TokenKind::PipePipe, TokenKind::Pipe)
        } else if c == '/' {
            if self.cursor + 1 < n && src.get_char(self.cursor + 1) == '=' {
                self.double(TokenKind::SlashEquals)
            } else if self.cursor + 1 < n && src.get_char(self.cursor + 1) == '/' {
                self.scan_comment()
            } else {
                self.single(TokenKind::Slash)
            }
        } else if crate::number::ascii_digit(c) {
            self.scan_number()
        } else if is_valid_identifier_start_char(c) {
            self.scan_identifier()
        } else {
            let mut msg = String::from_str("Unexpected character '");
            push_char(&mut msg, c);
            msg.append("'");
            proof {
                assert(msg@ =~= unexpected_char_message(c));
            }
            let tok = Token::error(self.line, self.column, msg);
            self.cursor = self.cursor + 1;
            self.column = sat_add_u64(self.column, 1);
            tok
        }
    }
}

} // verus!
