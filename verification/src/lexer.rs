//! The lexer: source text in, one token per call out.

use vstd::prelude::*;
use crate::text::{chars_of, same_text, string_of};
use crate::token::{Token, TokenV};

verus! {

/// Whether `c` is skipped between tokens.
pub open spec fn is_blank(c: char) -> bool {
    c == ' ' || c == '\t' || c == '\n' || c == '\r'
}

/// Whether `c` may stand in an identifier or a keyword.
pub open spec fn is_letter_char(c: char) -> bool {
    ('a' <= c && c <= 'z') || ('A' <= c && c <= 'Z') || c == '_'
}

/// Whether `c` is a decimal digit.
pub open spec fn is_digit(c: char) -> bool {
    '0' <= c && c <= '9'
}

/// Whether `c` may stand in a numeric literal.
pub open spec fn is_numeral(c: char) -> bool {
    is_digit(c) || c == '.'
}

/// The character at `pos`, and the NUL character past the end of the input.
pub open spec fn char_at(input: Seq<char>, pos: int) -> char {
    if 0 <= pos < input.len() {
        input[pos]
    } else {
        '\0'
    }
}

/// One position further, but never past the end of the input.
pub open spec fn advance(input: Seq<char>, pos: int) -> int {
    if pos < input.len() {
        pos + 1
    } else {
        pos
    }
}

/// The classes of characters of which the lexer reads whole runs.
#[derive(Clone, Copy, Debug, PartialEq, Eq, Structural)]
pub enum CharClass {
    Blank,
    Letter,
    Numeral,
}

/// Whether `c` belongs to the class `class`.
pub open spec fn in_class(c: char, class: CharClass) -> bool {
    match class {
        CharClass::Blank => is_blank(c),
        CharClass::Letter => is_letter_char(c),
        CharClass::Numeral => is_numeral(c),
    }
}

/// The end of the longest run of characters of one class, starting at `pos`.
pub open spec fn run_end(input: Seq<char>, pos: int, class: CharClass) -> int
    decreases input.len() - pos,
{
    if 0 <= pos < input.len() && in_class(input[pos], class) {
        run_end(input, pos + 1, class)
    } else {
        pos
    }
}

/// The first position from `pos` on that holds `stop` or the NUL character,
/// or the end of the input.
pub open spec fn stop_at(input: Seq<char>, pos: int, stop: char) -> int
    decreases input.len() - pos,
{
    if 0 <= pos < input.len() && input[pos] != stop && input[pos] != '\0' {
        stop_at(input, pos + 1, stop)
    } else {
        pos
    }
}

/// The number that a sequence of decimal digits writes.
pub open spec fn digits_value(digits: Seq<char>) -> nat
    decreases digits.len(),
{
    if digits.len() == 0 {
        0
    } else {
        (digits_value(digits.drop_last()) * 10 + (digits.last() as int - '0' as int)) as nat
    }
}

/// Whether every character of `text` is a decimal digit.
pub open spec fn all_digits(text: Seq<char>) -> bool {
    forall|i: int| 0 <= i < text.len() ==> is_digit(#[trigger] text[i])
}

/// The token for the text of a numeric literal: an `Int` where the text is
/// made of digits alone and writes a value of at most `i32::MAX`, and
/// `Illegal` otherwise.
pub open spec fn number_token(text: Seq<char>) -> TokenV {
    if all_digits(text) && digits_value(text) <= i32::MAX {
        TokenV::Int(digits_value(text) as i32)
    } else {
        TokenV::Illegal
    }
}

/// The keyword that `text` spells, if any.
pub open spec fn keyword(text: Seq<char>) -> Option<TokenV> {
    if text == "set"@ {
        Some(TokenV::Let)
    } else if text == "anew"@ {
        Some(TokenV::Anew)
    } else if text == "fun"@ {
        Some(TokenV::Func)
    } else if text == "if"@ {
        Some(TokenV::If)
    } else if text == "else"@ {
        Some(TokenV::Else)
    } else if text == "return"@ {
        Some(TokenV::Return)
    } else if text == "include"@ {
        Some(TokenV::Include)
    } else if text == "true"@ {
        Some(TokenV::Boolean(true))
    } else if text == "false"@ {
        Some(TokenV::Boolean(false))
    } else {
        None
    }
}

/// The token for a run of letters: the keyword it spells, or an identifier.
pub open spec fn word_token(text: Seq<char>) -> TokenV {
    match keyword(text) {
        Some(t) => t,
        None => TokenV::Ident(text),
    }
}

/// The token that starts at `pos`, where no blank stands, and the position
/// after it.
#[verifier::opaque]
pub open spec fn scan_at(input: Seq<char>, pos: int) -> (TokenV, int) {
    let c = char_at(input, pos);
    let next = char_at(input, pos + 1);
    let one = advance(input, pos);
    let two = advance(input, pos + 1);
    if c == '=' {
        if next == '=' {
            (TokenV::Equals, two)
        } else {
            (TokenV::Assign, one)
        }
    } else if c == ';' {
        (TokenV::Semicolon, one)
    } else if c == ':' {
        (TokenV::Colon, one)
    } else if c == ',' {
        (TokenV::Comma, one)
    } else if c == '+' {
        (TokenV::Plus, one)
    } else if c == '-' {
        (TokenV::Minus, one)
    } else if c == '%' {
        (TokenV::Percent, one)
    } else if c == '!' {
        if next == '=' {
            (TokenV::NotEquals, two)
        } else {
            (TokenV::Bang, one)
        }
    } else if c == '(' {
        (TokenV::LeftParen, one)
    } else if c == ')' {
        (TokenV::RightParen, one)
    } else if c == '{' {
        (TokenV::LeftBrace, one)
    } else if c == '}' {
        (TokenV::RightBrace, one)
    } else if c == '[' {
        (TokenV::LeftBracket, one)
    } else if c == ']' {
        (TokenV::RightBracket, one)
    } else if c == '*' {
        (TokenV::Asterisk, one)
    } else if c == '/' {
        if next == '/' {
            (TokenV::Comment, advance(input, stop_at(input, pos + 1, '\n')))
        } else {
            (TokenV::Slash, one)
        }
    } else if c == '<' {
        if next == '=' {
            (TokenV::LessEqual, two)
        } else {
            (TokenV::Less, one)
        }
    } else if c == '>' {
        if next == '=' {
            (TokenV::GreaterEqual, two)
        } else {
            (TokenV::Greater, one)
        }
    } else if c == '"' {
        let end = stop_at(input, pos + 1, '"');
        (TokenV::String(input.subrange(pos + 1, end)), advance(input, end))
    } else if c == '\0' {
        (TokenV::Eof, one)
    } else if is_letter_char(c) {
        let end = run_end(input, pos, CharClass::Letter);
        (word_token(input.subrange(pos, end)), end)
    } else if is_digit(c) {
        let end = run_end(input, pos, CharClass::Numeral);
        (number_token(input.subrange(pos, end)), end)
    } else {
        (TokenV::Illegal, one)
    }
}

/// The next token from `pos` on, blanks skipped, and the position after it.
pub open spec fn scan(input: Seq<char>, pos: int) -> (TokenV, int) {
    scan_at(input, run_end(input, pos, CharClass::Blank))
}

/// A run ends at or after its start and inside the input.
pub proof fn lemma_run_end_bounds(input: Seq<char>, pos: int, class: CharClass)
    requires
        0 <= pos <= input.len(),
    ensures
        pos <= run_end(input, pos, class) <= input.len(),
    decreases input.len() - pos,
{
    if pos < input.len() && in_class(input[pos], class) {
        lemma_run_end_bounds(input, pos + 1, class);
    }
}

/// A search for a stop character ends at or after its start and inside the
/// input.
pub proof fn lemma_stop_at_bounds(input: Seq<char>, pos: int, stop: char)
    requires
        0 <= pos <= input.len(),
    ensures
        pos <= stop_at(input, pos, stop) <= input.len(),
    decreases input.len() - pos,
{
    if pos < input.len() && input[pos] != stop && input[pos] != '\0' {
        lemma_stop_at_bounds(input, pos + 1, stop);
    }
}

/// Every call of the lexer moves forward until the input is used up, and stays
/// inside the input: before the end a token takes at least one character.
pub proof fn lemma_scan_advances(input: Seq<char>, pos: int)
    requires
        0 <= pos <= input.len(),
    ensures
        pos <= scan(input, pos).1 <= input.len(),
        pos < input.len() ==> pos < scan(input, pos).1,
{
    reveal(scan_at);
    lemma_run_end_bounds(input, pos, CharClass::Blank);
    let start = run_end(input, pos, CharClass::Blank);
    if start < input.len() {
        lemma_stop_at_bounds(input, start + 1, '\n');
        lemma_stop_at_bounds(input, start + 1, '"');
        lemma_run_end_bounds(input, start + 1, CharClass::Letter);
        lemma_run_end_bounds(input, start + 1, CharClass::Numeral);
    }
}

/// Once the input is used up, the lexer answers `Eof` and stays where it is.
pub proof fn lemma_scan_at_end(input: Seq<char>, pos: int)
    requires
        pos >= input.len(),
    ensures
        scan(input, pos) == (TokenV::Eof, pos),
{
    reveal(scan_at);
}

/// A longer run of digits does not write a smaller number.
proof fn lemma_digits_value_step(digits: Seq<char>, i: int)
    requires
        0 <= i < digits.len(),
        is_digit(digits[i]),
    ensures
        digits_value(digits.subrange(0, i + 1)) == digits_value(digits.subrange(0, i)) * 10 + (
        digits[i] as int - '0' as int),
        digits_value(digits.subrange(0, i + 1)) >= digits_value(digits.subrange(0, i)),
{
    assert(digits.subrange(0, i + 1).drop_last() =~= digits.subrange(0, i));
}

/// Whether `c` is skipped between tokens.
fn is_blank_char(c: char) -> (b: bool)
    ensures
        b == is_blank(c),
{
    c == ' ' || c == '\t' || c == '\n' || c == '\r'
}

/// Whether `c` may stand in an identifier or a keyword.
fn is_letter(c: char) -> (b: bool)
    ensures
        b == is_letter_char(c),
{
    (c >= 'a' && c <= 'z') || (c >= 'A' && c <= 'Z') || c == '_'
}

/// Whether `c` is a decimal digit.
fn is_digit_char(c: char) -> (b: bool)
    ensures
        b == is_digit(c),
{
    c >= '0' && c <= '9'
}

/// Whether `c` belongs to the class `class`.
fn belongs(c: char, class: CharClass) -> (b: bool)
    ensures
        b == in_class(c, class),
{
    match class {
        CharClass::Blank => is_blank_char(c),
        CharClass::Letter => is_letter(c),
        CharClass::Numeral => is_digit_char(c) || c == '.',
    }
}

/// The keyword token that `ident` spells, if it spells one.
pub fn find_indentifier(ident: &str) -> (found: Option<Token>)
    ensures
        match found {
            Some(t) => keyword(ident@) == Some(t@),
            None => keyword(ident@) is None,
        },
{
    if same_text(ident, "set") {
        Some(Token::Let)
    } else if same_text(ident, "anew") {
        Some(Token::Anew)
    } else if same_text(ident, "fun") {
        Some(Token::Func)
    } else if same_text(ident, "if") {
        Some(Token::If)
    } else if same_text(ident, "else") {
        Some(Token::Else)
    } else if same_text(ident, "return") {
        Some(Token::Return)
    } else if same_text(ident, "include") {
        Some(Token::Include)
    } else if same_text(ident, "true") {
        Some(Token::Boolean(true))
    } else if same_text(ident, "false") {
        Some(Token::Boolean(false))
    } else {
        None
    }
}

/// A lexer over one source text. It holds the text and the position of the
/// character it looks at.
pub struct Lexer {
    input: Vec<char>,
    position: usize,
}

impl Lexer {
    #[verifier::type_invariant]
    spec fn in_bounds(self) -> bool {
        self.position <= self.input.len()
    }

    /// The source text.
    pub closed spec fn source(&self) -> Seq<char> {
        self.input@
    }

    /// The position of the character that the lexer looks at.
    pub closed spec fn cursor(&self) -> int {
        self.position as int
    }

    /// A lexer at the start of `input`.
    pub fn new(input: String) -> (lexer: Lexer)
        ensures
            lexer.source() == input@,
            lexer.cursor() == 0,
    {
        Lexer { input: chars_of(input.as_str()), position: 0 }
    }

    /// The position of the character that the lexer looks at.
    pub fn position(&self) -> (at: usize)
        ensures
            at == self.cursor(),
            at <= self.source().len(),
    {
        proof {
            use_type_invariant(self);
        }
        self.position
    }

    /// The character under the cursor, NUL at the end of the input.
    fn current(&self) -> (c: char)
        ensures
            c == char_at(self.source(), self.cursor()),
    {
        proof {
            use_type_invariant(self);
        }
        if self.position < self.input.len() {
            self.input[self.position]
        } else {
            '\0'
        }
    }

    /// The character after the one under the cursor, NUL at the end of the
    /// input.
    fn peek_char(&self) -> (c: char)
        ensures
            c == char_at(self.source(), self.cursor() + 1),
    {
        proof {
            use_type_invariant(self);
        }
        if self.position < self.input.len() && self.position + 1 < self.input.len() {
            self.input[self.position + 1]
        } else {
            '\0'
        }
    }

    /// Moves the cursor one character on, unless it stands at the end.
    pub fn read_char(&mut self)
        ensures
            final(self).source() == old(self).source(),
            final(self).cursor() <= final(self).source().len(),
            final(self).cursor() == advance(old(self).source(), old(self).cursor()),
    {
        proof {
            use_type_invariant(&*self);
        }
        if self.position < self.input.len() {
            self.position = self.position + 1;
        }
    }

    /// Moves the cursor to the end of the run of `class` that starts under it.
    fn skip_run(&mut self, class: CharClass)
        ensures
            final(self).source() == old(self).source(),
            final(self).cursor() == run_end(old(self).source(), old(self).cursor(), class),
    {
        proof {
            use_type_invariant(&*self);
        }
        while self.position < self.input.len() && belongs(self.input[self.position], class)
            invariant
                self.input == old(self).input,
                self.position <= self.input.len(),
                run_end(self.input@, self.position as int, class) == run_end(
                    old(self).input@,
                    old(self).position as int,
                    class,
                ),
            decreases self.input.len() - self.position,
        {
            self.position = self.position + 1;
        }
    }

    /// Moves the cursor to the first `stop` or NUL character at or after it,
    /// or to the end of the input.
    fn skip_until(&mut self, stop: char)
        ensures
            final(self).source() == old(self).source(),
            final(self).cursor() == stop_at(old(self).source(), old(self).cursor(), stop),
    {
        proof {
            use_type_invariant(&*self);
        }
        while self.position < self.input.len() && self.input[self.position] != stop
            && self.input[self.position] != '\0'
            invariant
                self.input == old(self).input,
                self.position <= self.input.len(),
                stop_at(self.input@, self.position as int, stop) == stop_at(
                    old(self).input@,
                    old(self).position as int,
                    stop,
                ),
            decreases self.input.len() - self.position,
        {
            self.position = self.position + 1;
        }
    }

    /// Moves the cursor over the blanks under it.
    fn skip_whitespace(&mut self)
        ensures
            final(self).source() == old(self).source(),
            final(self).cursor() == run_end(
                old(self).source(),
                old(self).cursor(),
                CharClass::Blank,
            ),
    {
        self.skip_run(CharClass::Blank);
    }

    /// Reads the run of letters under the cursor.
    fn read_identifier(&mut self) -> (text: String)
        ensures
            final(self).source() == old(self).source(),
            final(self).cursor() == run_end(
                old(self).source(),
                old(self).cursor(),
                CharClass::Letter,
            ),
            text@ == old(self).source().subrange(old(self).cursor(), final(self).cursor()),
    {
        let start = self.position;
        proof {
            use_type_invariant(&*self);
            lemma_run_end_bounds(self.input@, start as int, CharClass::Letter);
        }
        self.skip_run(CharClass::Letter);
        proof {
            use_type_invariant(&*self);
        }
        string_of(&self.input, start, self.position)
    }

    /// Reads the numeric literal under the cursor.
    fn read_number(&mut self) -> (token: Token)
        ensures
            final(self).source() == old(self).source(),
            final(self).cursor() == run_end(
                old(self).source(),
                old(self).cursor(),
                CharClass::Numeral,
            ),
            token@ == number_token(
                old(self).source().subrange(old(self).cursor(), final(self).cursor()),
            ),
    {
        let start = self.position;
        proof {
            use_type_invariant(&*self);
            lemma_run_end_bounds(self.input@, start as int, CharClass::Numeral);
        }
        self.skip_run(CharClass::Numeral);
        proof {
            use_type_invariant(&*self);
        }
        let end = self.position;
        let ghost text = self.input@.subrange(start as int, end as int);
        let mut fits = true;
        let mut value: u64 = 0;
        let mut i: usize = start;
        while i < end
            invariant
                start <= i <= end <= self.input.len(),
                text == self.input@.subrange(start as int, end as int),
                fits == (all_digits(text.subrange(0, i - start)) && digits_value(
                    text.subrange(0, i - start),
                ) <= i32::MAX),
                fits ==> value == digits_value(text.subrange(0, i - start)),
            decreases end - i,
        {
            let c = self.input[i];
            let ghost k = i - start;
            assert(text[k] == c);
            assert(text.subrange(0, k + 1).drop_last() =~= text.subrange(0, k));
            if fits && is_digit_char(c) {
                proof {
                    lemma_digits_value_step(text, k);
                }
                value = value * 10 + (c as u64 - '0' as u64);
                if value > 0x7fff_ffff {
                    fits = false;
                }
            } else {
                proof {
                    if is_digit(c) {
                        lemma_digits_value_step(text, k);
                    } else {
                        assert(!is_digit(text.subrange(0, k + 1)[k]));
                    }
                }
                fits = false;
            }
            i += 1;
        }
        assert(text.subrange(0, end - start) =~= text);
        if fits {
            Token::Int(value as i32)
        } else {
            Token::Illegal
        }
    }

    /// Reads the string literal whose opening quote stands under the cursor,
    /// and leaves the cursor on the closing quote or where the text ends.
    fn read_string(&mut self) -> (text: String)
        requires
            old(self).cursor() < old(self).source().len(),
        ensures
            final(self).source() == old(self).source(),
            final(self).cursor() == stop_at(old(self).source(), old(self).cursor() + 1, '"'),
            text@ == old(self).source().subrange(old(self).cursor() + 1, final(self).cursor()),
    {
        self.read_char();
        let start = self.position;
        proof {
            use_type_invariant(&*self);
            lemma_stop_at_bounds(self.input@, start as int, '"');
        }
        self.skip_until('"');
        proof {
            use_type_invariant(&*self);
        }
        string_of(&self.input, start, self.position)
    }

    /// Reads a line comment from the cursor to the end of the line, and
    /// leaves the cursor on the line break or where the text ends. Returns
    /// the text passed over.
    pub fn read_comment(&mut self) -> (text: String)
        ensures
            final(self).source() == old(self).source(),
            final(self).cursor() <= final(self).source().len(),
            final(self).cursor() == stop_at(
                old(self).source(),
                advance(old(self).source(), old(self).cursor()),
                '\n',
            ),
            text@ == old(self).source().subrange(old(self).cursor(), final(self).cursor()),
    {
        let start = self.position;
        self.read_char();
        proof {
            use_type_invariant(&*self);
            lemma_stop_at_bounds(self.input@, self.position as int, '\n');
        }
        self.skip_until('\n');
        proof {
            use_type_invariant(&*self);
        }
        string_of(&self.input, start, self.position)
    }

    /// The next token of the source text. Blanks before it are skipped, and
    /// at the end of the text every call answers `Eof`.
    pub fn next_token(&mut self) -> (token: Token)
        ensures
            final(self).source() == old(self).source(),
            final(self).cursor() <= final(self).source().len(),
            token@ == scan(old(self).source(), old(self).cursor()).0,
            final(self).cursor() == scan(old(self).source(), old(self).cursor()).1,
    {
        reveal(scan_at);
        self.skip_whitespace();
        let c = self.current();
        let token = if c == '=' {
            if self.peek_char() == '=' {
                self.read_char();
                Token::Equals
            } else {
                Token::Assign
            }
        } else if c == ';' {
            Token::Semicolon
        } else if c == ':' {
            Token::Colon
        } else if c == ',' {
            Token::Comma
        } else if c == '+' {
            Token::Plus
        } else if c == '-' {
            Token::Minus
        } else if c == '%' {
            Token::Percent
        } else if c == '!' {
            if self.peek_char() == '=' {
                self.read_char();
                Token::NotEquals
            } else {
                Token::Bang
            }
        } else if c == '(' {
            Token::LeftParen
        } else if c == ')' {
            Token::RightParen
        } else if c == '{' {
            Token::LeftBrace
        } else if c == '}' {
            Token::RightBrace
        } else if c == '[' {
            Token::LeftBracket
        } else if c == ']' {
            Token::RightBracket
        } else if c == '*' {
            Token::Asterisk
        } else if c == '/' {
            if self.peek_char() == '/' {
                self.read_comment();
                Token::Comment
            } else {
                Token::Slash
            }
        } else if c == '<' {
            if self.peek_char() == '=' {
                self.read_char();
                Token::LessEqual
            } else {
                Token::Less
            }
        } else if c == '>' {
            if self.peek_char() == '=' {
                self.read_char();
                Token::GreaterEqual
            } else {
                Token::Greater
            }
        } else if c == '"' {
            Token::String(self.read_string())
        } else if c == '\0' {
            Token::Eof
        } else if is_letter(c) {
            let word = self.read_identifier();
            proof {
                use_type_invariant(&*self);
            }
            return match find_indentifier(word.as_str()) {
                Some(t) => t,
                None => Token::Ident(word),
            };
        } else if is_digit_char(c) {
            let number = self.read_number();
            proof {
                use_type_invariant(&*self);
            }
            return number;
        } else {
            Token::Illegal
        };
        self.read_char();
        token
    }
}

} // verus!
