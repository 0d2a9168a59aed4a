//! The lexer: from the characters of a source text to its tokens, one at a
//! time.
//!
//! What the lexer returns is stated by [`lex_at`], a function of the source
//! text and of a position in it.

pub use crate::token::{SpecToken, Token, TokenKind};
use vstd::prelude::*;

verus! {

/// Why a text has no next token.
#[derive(Clone, Copy, Debug, PartialEq, Eq, Structural)]
pub enum LexError {
    /// A character that starts no token, and its index in the text.
    UnexpectedCharacter { character: char, position: usize },
    /// A string literal that is still open at the end of the text, and the
    /// index of its opening quote.
    UnterminatedString { position: usize },
    /// An integer literal above `i64::MAX`, and the index of its first digit.
    IntegerOverflow { position: usize },
}

/// Whether `c` has the Unicode property `White_Space`, as `char::is_whitespace`
/// reports it.
pub uninterp spec fn unicode_whitespace(c: char) -> bool;

/// Whether `c` has the Unicode property `Alphabetic`, as `char::is_alphabetic`
/// reports it.
pub uninterp spec fn unicode_alphabetic(c: char) -> bool;

/// Whether `c` is a letter or a number of Unicode, as `char::is_alphanumeric`
/// reports it.
pub uninterp spec fn unicode_alphanumeric(c: char) -> bool;

/// `char::is_whitespace` of the standard library. Its result depends on the
/// character alone; the contract gives it the name [`unicode_whitespace`].
pub assume_specification[ char::is_whitespace ](c: char) -> (b: bool)
    ensures
        b == unicode_whitespace(c),
;

/// `char::is_alphabetic` of the standard library. Its result depends on the
/// character alone; the contract gives it the name [`unicode_alphabetic`].
pub assume_specification[ char::is_alphabetic ](c: char) -> (b: bool)
    ensures
        b == unicode_alphabetic(c),
;

/// `char::is_alphanumeric` of the standard library. Its result depends on the
/// character alone; the contract gives it the name [`unicode_alphanumeric`].
pub assume_specification[ char::is_alphanumeric ](c: char) -> (b: bool)
    ensures
        b == unicode_alphanumeric(c),
;

/// `String::push` of the standard library, which appends one character to
/// the end of the string.
pub assume_specification[ String::push ](text: &mut String, c: char)
    ensures
        final(text)@ == old(text)@.push(c),
;

/// One of the ten decimal digits.
pub open spec fn is_decimal_digit(c: char) -> bool {
    '0' <= c && c <= '9'
}

/// The classes of character that a token is a run of.
pub enum CharClass {
    /// A letter or a number: the body of a word.
    Alphanumeric,
    /// A decimal digit: the body of an integer literal.
    Digit,
    /// Anything but a double quote: the body of a string literal.
    Quoted,
    /// Anything but a line feed: the body of a comment.
    Comment,
}

impl CharClass {
    pub open spec fn holds(self, c: char) -> bool {
        match self {
            CharClass::Alphanumeric => unicode_alphanumeric(c),
            CharClass::Digit => is_decimal_digit(c),
            CharClass::Quoted => c != '"',
            CharClass::Comment => c != '\n',
        }
    }
}

/// The end of the longest run of characters of `class` that starts at `from`:
/// the index of the first character from `from` on that is not of the class,
/// or the length of the text.
pub open spec fn run_end(src: Seq<char>, from: nat, class: CharClass) -> nat
    decreases src.len() - from,
{
    if from < src.len() && class.holds(src[from as int]) {
        run_end(src, from + 1, class)
    } else {
        from
    }
}

/// The number that a sequence of decimal digits writes.
pub open spec fn decimal_value(digits: Seq<char>) -> nat
    decreases digits.len(),
{
    if digits.len() == 0 {
        0
    } else {
        (decimal_value(digits.drop_last()) * 10 + (digits.last() as nat - '0' as nat)) as nat
    }
}

/// The token that a word is: the reserved token where the word is exactly a
/// reserved word, else an identifier.
pub open spec fn word_token(text: Seq<char>) -> SpecToken {
    if text == "int"@ {
        SpecToken::TypeInt
    } else if text == "int32"@ {
        SpecToken::TypeInt32
    } else if text == "int64"@ {
        SpecToken::TypeInt64
    } else if text == "float"@ {
        SpecToken::TypeFloat
    } else if text == "float32"@ {
        SpecToken::TypeFloat32
    } else if text == "float64"@ {
        SpecToken::TypeFloat64
    } else if text == "char"@ {
        SpecToken::TypeChar
    } else if text == "str"@ {
        SpecToken::TypeStr
    } else if text == "str8"@ {
        SpecToken::TypeStr8
    } else if text == "str32"@ {
        SpecToken::TypeStr32
    } else if text == "str64"@ {
        SpecToken::TypeStr64
    } else if text == "print"@ {
        SpecToken::Print
    } else {
        SpecToken::Identifier(text)
    }
}

/// The token of a single punctuation character, if it is one. The slash and
/// the double quote are not among them: they start more than one thing.
pub open spec fn punctuation(c: char) -> Option<SpecToken> {
    if c == '+' {
        Some(SpecToken::Plus)
    } else if c == '-' {
        Some(SpecToken::Minus)
    } else if c == '*' {
        Some(SpecToken::Asterisk)
    } else if c == '(' {
        Some(SpecToken::LParen)
    } else if c == ')' {
        Some(SpecToken::RParen)
    } else if c == '=' {
        Some(SpecToken::Assign)
    } else if c == ';' {
        Some(SpecToken::Semicolon)
    } else if c == ':' {
        Some(SpecToken::Colon)
    } else {
        None
    }
}

/// What one call of the lexer yields: a token or an error, and the position
/// at which the lexer then stands.
pub struct LexStep {
    pub result: Result<SpecToken, LexError>,
    pub next: nat,
}

/// The position behind a comment whose text starts at `from`: behind the
/// line feed that ends it, or the end of the text.
pub open spec fn comment_end(src: Seq<char>, from: nat) -> nat {
    let end = run_end(src, from, CharClass::Comment);
    if end < src.len() {
        end + 1
    } else {
        end
    }
}

/// The next token of `src` from position `pos` on.
///
/// - Whitespace before the token is passed over.
/// - A letter starts a word, which runs on over letters and numbers.
/// - A decimal digit starts an integer literal, which runs on over digits.
/// - Two slashes start a comment, which is passed over to the end of its
///   line.
/// - A double quote starts a string literal, which the next double quote
///   ends; nothing in it is an escape.
/// - At the end of the text the token is `EOF`, and the position stays.
///
/// After an unexpected character the position is that of the character;
/// after an unterminated string it is the end of the text; after a literal
/// that overflows it is the end of the literal.
pub open spec fn lex_at(src: Seq<char>, pos: nat) -> LexStep
    decreases src.len() - pos,
{
    if pos >= src.len() {
        LexStep { result: Ok(SpecToken::EOF), next: pos }
    } else {
        let c = src[pos as int];
        if unicode_whitespace(c) {
            lex_at(src, pos + 1)
        } else if unicode_alphabetic(c) {
            let end = run_end(src, pos + 1, CharClass::Alphanumeric);
            LexStep { result: Ok(word_token(src.subrange(pos as int, end as int))), next: end }
        } else if is_decimal_digit(c) {
            let end = run_end(src, pos, CharClass::Digit);
            let value = decimal_value(src.subrange(pos as int, end as int));
            if value <= i64::MAX {
                LexStep { result: Ok(SpecToken::Number(value as i64)), next: end }
            } else {
                LexStep {
                    result: Err(LexError::IntegerOverflow { position: pos as usize }),
                    next: end,
                }
            }
        } else if punctuation(c) is Some {
            LexStep { result: Ok(punctuation(c)->Some_0), next: pos + 1 }
        } else if c == '/' {
            if pos + 1 < src.len() && src[(pos + 1) as int] == '/' {
                proof {
                    lemma_comment_end_bounds(src, pos + 2);
                }
                lex_at(src, comment_end(src, pos + 2))
            } else {
                LexStep { result: Ok(SpecToken::Slash), next: pos + 1 }
            }
        } else if c == '"' {
            let end = run_end(src, pos + 1, CharClass::Quoted);
            if end < src.len() {
                LexStep {
                    result: Ok(SpecToken::StringLiteral(src.subrange((pos + 1) as int, end as int))),
                    next: end + 1,
                }
            } else {
                LexStep {
                    result: Err(LexError::UnterminatedString { position: pos as usize }),
                    next: end,
                }
            }
        } else {
            LexStep {
                result: Err(LexError::UnexpectedCharacter { character: c, position: pos as usize }),
                next: pos,
            }
        }
    }
}

/// A run ends at or after its start, and within the text if it starts there.
pub proof fn lemma_run_end_bounds(src: Seq<char>, from: nat, class: CharClass)
    ensures
        from <= run_end(src, from, class),
        from <= src.len() ==> run_end(src, from, class) <= src.len(),
    decreases src.len() - from,
{
    if from < src.len() && class.holds(src[from as int]) {
        lemma_run_end_bounds(src, from + 1, class);
    }
}

/// Every character of a run is of its class, and the character at its end,
/// if there is one, is not.
pub proof fn lemma_run_end_maximal(src: Seq<char>, from: nat, class: CharClass)
    ensures
        forall|i: int| from <= i < run_end(src, from, class) ==> class.holds(#[trigger] src[i]),
        run_end(src, from, class) < src.len() ==> !class.holds(
            src[run_end(src, from, class) as int],
        ),
    decreases src.len() - from,
{
    if from < src.len() && class.holds(src[from as int]) {
        lemma_run_end_maximal(src, from + 1, class);
    }
}

/// A comment ends behind its start and within the text.
pub proof fn lemma_comment_end_bounds(src: Seq<char>, from: nat)
    requires
        from <= src.len(),
    ensures
        from <= comment_end(src, from) <= src.len(),
{
    lemma_run_end_bounds(src, from, CharClass::Comment);
}

/// The lexer never moves backward nor leaves the text, and it moves forward
/// whenever it yields a token other than `EOF`.
pub proof fn lemma_lex_at_advances(src: Seq<char>, pos: nat)
    requires
        pos <= src.len(),
    ensures
        pos <= lex_at(src, pos).next <= src.len(),
        lex_at(src, pos).result is Ok && lex_at(src, pos).result != Ok::<SpecToken, LexError>(
            SpecToken::EOF,
        ) ==> pos < lex_at(src, pos).next,
        lex_at(src, pos).result == Ok::<SpecToken, LexError>(SpecToken::EOF) ==> lex_at(
            src,
            pos,
        ).next == src.len(),
    decreases src.len() - pos,
{
    if pos < src.len() {
        let c = src[pos as int];
        if unicode_whitespace(c) {
            lemma_lex_at_advances(src, pos + 1);
        } else if unicode_alphabetic(c) {
            lemma_run_end_bounds(src, pos + 1, CharClass::Alphanumeric);
            let end = run_end(src, pos + 1, CharClass::Alphanumeric);
            lemma_word_is_not_eof(src.subrange(pos as int, end as int));
        } else if is_decimal_digit(c) {
            lemma_run_end_bounds(src, pos + 1, CharClass::Digit);
        } else if punctuation(c) is Some {
        } else if c == '/' {
            if pos + 1 < src.len() && src[(pos + 1) as int] == '/' {
                lemma_comment_end_bounds(src, pos + 2);
                lemma_lex_at_advances(src, comment_end(src, pos + 2));
            }
        } else if c == '"' {
            lemma_run_end_bounds(src, pos + 1, CharClass::Quoted);
        }
    }
}

/// Once the lexer has yielded `EOF`, it yields `EOF` again and stays where
/// it is, as often as it is asked.
pub proof fn lemma_end_of_input_repeats(src: Seq<char>, pos: nat)
    requires
        pos <= src.len(),
        lex_at(src, pos).result == Ok::<SpecToken, LexError>(SpecToken::EOF),
    ensures
        lex_at(src, lex_at(src, pos).next) == lex_at(src, pos),
        lex_at(src, pos).next == src.len(),
{
    lemma_lex_at_advances(src, pos);
}

/// No word is the end of the text.
pub proof fn lemma_word_is_not_eof(text: Seq<char>)
    ensures
        word_token(text) != SpecToken::EOF,
{
}

/// The view of what the lexer returns.
pub open spec fn lexed(r: Result<Token, LexError>) -> Result<SpecToken, LexError> {
    match r {
        Ok(token) => Ok(token@),
        Err(e) => Err(e),
    }
}

/// The characters of a text, in order.
pub fn characters(input: &str) -> (chars: Vec<char>)
    ensures
        chars@ == input@,
{
    let mut chars: Vec<char> = Vec::new();
    for c in it: input.chars()
        invariant
            chars@ == it.seq().take(it.index() as int),
    {
        chars.push(c);
    }
    chars
}

/// Whether the characters of `chars` from `from` up to `to` spell `word`.
fn spells(chars: &Vec<char>, from: usize, to: usize, word: &str) -> (b: bool)
    requires
        from <= to <= chars.len(),
    ensures
        b == (chars@.subrange(from as int, to as int) == word@),
{
    let n = word.unicode_len();
    if to - from != n {
        return false;
    }
    let mut i: usize = 0;
    while i < n
        invariant
            from <= to <= chars.len(),
            to - from == n,
            n == word@.len(),
            i <= n,
            forall|j: int| 0 <= j < i ==> chars@[from + j] == word@[j],
        decreases n - i,
    {
        if chars[from + i] != word.get_char(i) {
            assert(chars@.subrange(from as int, to as int)[i as int] != word@[i as int]);
            return false;
        }
        i += 1;
    }
    assert(chars@.subrange(from as int, to as int) =~= word@);
    true
}

/// The characters of `chars` from `from` up to `to`, as a string.
fn text_of(chars: &Vec<char>, from: usize, to: usize) -> (text: String)
    requires
        from <= to <= chars.len(),
    ensures
        text@ == chars@.subrange(from as int, to as int),
{
    let mut text = String::new();
    let mut i: usize = from;
    while i < to
        invariant
            from <= i <= to <= chars.len(),
            text@ == chars@.subrange(from as int, i as int),
        decreases to - i,
    {
        text.push(chars[i]);
        assert(chars@.subrange(from as int, i as int).push(chars@[i as int]) =~= chars@.subrange(
            from as int,
            i + 1,
        ));
        i += 1;
    }
    text
}

/// The token that the word from `from` up to `to` is.
fn word(chars: &Vec<char>, from: usize, to: usize) -> (token: Token)
    requires
        from <= to <= chars.len(),
    ensures
        token@ == word_token(chars@.subrange(from as int, to as int)),
{
    if spells(chars, from, to, "int") {
        Token::TypeInt
    } else if spells(chars, from, to, "int32") {
        Token::TypeInt32
    } else if spells(chars, from, to, "int64") {
        Token::TypeInt64
    } else if spells(chars, from, to, "float") {
        Token::TypeFloat
    } else if spells(chars, from, to, "float32") {
        Token::TypeFloat32
    } else if spells(chars, from, to, "float64") {
        Token::TypeFloat64
    } else if spells(chars, from, to, "char") {
        Token::TypeChar
    } else if spells(chars, from, to, "str") {
        Token::TypeStr
    } else if spells(chars, from, to, "str8") {
        Token::TypeStr8
    } else if spells(chars, from, to, "str32") {
        Token::TypeStr32
    } else if spells(chars, from, to, "str64") {
        Token::TypeStr64
    } else if spells(chars, from, to, "print") {
        Token::Print
    } else {
        Token::Identifier(text_of(chars, from, to))
    }
}

/// Tests whether `c` is a decimal digit.
pub fn decimal_digit(c: char) -> (b: bool)
    ensures
        b == is_decimal_digit(c),
{
    c >= '0' && c <= '9'
}

/// A cursor over the characters of a source text.
pub struct Lexer {
    /// The characters of the text.
    chars: Vec<char>,
    /// The index of the next character to read.
    position: usize,
}

impl Lexer {
    #[verifier::type_invariant]
    spec fn within_text(self) -> bool {
        self.position <= self.chars.len()
    }

    /// The text that this lexer reads.
    pub closed spec fn source(&self) -> Seq<char> {
        self.chars@
    }

    /// The number of characters that this lexer has passed.
    pub closed spec fn position(&self) -> nat {
        self.position as nat
    }

    /// What the next call of [`Lexer::get_next_token`] yields.
    pub open spec fn upcoming(&self) -> LexStep {
        lex_at(self.source(), self.position())
    }

    /// A lexer at the start of `input`.
    pub fn new(input: &str) -> (lexer: Self)
        ensures
            lexer.source() == input@,
            lexer.position() == 0,
    {
        Lexer { chars: characters(input), position: 0 }
    }

    /// The character under the cursor, if the text has not ended.
    fn current_char(&self) -> (c: Option<char>)
        ensures
            self.position() < self.source().len() ==> c == Some(
                self.source()[self.position() as int],
            ),
            self.position() >= self.source().len() ==> c is None,
            self.position() <= self.source().len(),
    {
        proof {
            use_type_invariant(self);
        }
        if self.position < self.chars.len() {
            Some(self.chars[self.position])
        } else {
            None
        }
    }

    /// Moves the cursor over one character; at the end of the text it stays.
    fn advance(&mut self)
        ensures
            final(self).source() == old(self).source(),
            old(self).position() < old(self).source().len() ==> final(self).position() == old(
                self,
            ).position() + 1,
            old(self).position() >= old(self).source().len() ==> final(self).position() == old(
                self,
            ).position(),
    {
        proof {
            use_type_invariant(&*self);
        }
        if self.position < self.chars.len() {
            self.position = self.position + 1;
        }
    }

    /// Reads a word, whose first letter is under the cursor, and returns the
    /// reserved token that it spells or else an identifier.
    fn identifier(&mut self) -> (token: Token)
        requires
            old(self).position() < old(self).source().len(),
        ensures
            final(self).source() == old(self).source(),
            final(self).position() == run_end(
                old(self).source(),
                old(self).position() + 1,
                CharClass::Alphanumeric,
            ),
            token@ == word_token(
                old(self).source().subrange(
                    old(self).position() as int,
                    final(self).position() as int,
                ),
            ),
    {
        let start = self.position;
        self.advance();
        while self.position < self.chars.len() && self.chars[self.position].is_alphanumeric()
            invariant
                self.chars@ == old(self).chars@,
                start < self.position <= self.chars.len(),
                run_end(self.chars@, self.position as nat, CharClass::Alphanumeric) == run_end(
                    self.chars@,
                    (start + 1) as nat,
                    CharClass::Alphanumeric,
                ),
            decreases self.chars.len() - self.position,
        {
            self.advance();
        }
        word(&self.chars, start, self.position)
    }

    /// Reads an integer literal, whose first digit is under the cursor.
    fn number(&mut self) -> (r: Result<Token, LexError>)
        requires
            old(self).position() < old(self).source().len(),
        ensures
            final(self).source() == old(self).source(),
            final(self).position() == run_end(
                old(self).source(),
                old(self).position(),
                CharClass::Digit,
            ),
            ({
                let value = decimal_value(
                    old(self).source().subrange(
                        old(self).position() as int,
                        final(self).position() as int,
                    ),
                );
                if value <= i64::MAX {
                    r == Ok::<Token, LexError>(Token::Number(value as i64))
                } else {
                    r == Err::<Token, LexError>(
                        LexError::IntegerOverflow { position: old(self).position() as usize },
                    )
                }
            }),
    {
        let start = self.position;
        let mut value: i64 = 0;
        let mut overflow = false;
        assert(self.chars@.subrange(start as int, start as int) =~= Seq::<char>::empty());
        while self.position < self.chars.len() && decimal_digit(self.chars[self.position])
            invariant
                self.chars@ == old(self).chars@,
                start <= self.position <= self.chars.len(),
                run_end(self.chars@, self.position as nat, CharClass::Digit) == run_end(
                    self.chars@,
                    start as nat,
                    CharClass::Digit,
                ),
                0 <= value,
                !overflow ==> value == decimal_value(
                    self.chars@.subrange(start as int, self.position as int),
                ),
                overflow ==> decimal_value(
                    self.chars@.subrange(start as int, self.position as int),
                ) > i64::MAX,
            decreases self.chars.len() - self.position,
        {
            let c = self.chars[self.position];
            let digit: i64 = (c as u32 - '0' as u32) as i64;
            proof {
                let read = self.chars@.subrange(start as int, self.position + 1);
                assert(read.drop_last() =~= self.chars@.subrange(
                    start as int,
                    self.position as int,
                ));
                assert(read.last() == c);
            }
            if !overflow {
                match value.checked_mul(10) {
                    Some(tens) => match tens.checked_add(digit) {
                        Some(sum) => {
                            value = sum;
                        },
                        None => {
                            overflow = true;
                        },
                    },
                    None => {
                        overflow = true;
                    },
                }
            }
            self.advance();
        }
        if overflow {
            Err(LexError::IntegerOverflow { position: start })
        } else {
            Ok(Token::Number(value))
        }
    }

    /// Reads a string literal, whose opening quote is under the cursor.
    fn string_literal(&mut self) -> (r: Result<Token, LexError>)
        requires
            old(self).position() < old(self).source().len(),
        ensures
            final(self).source() == old(self).source(),
            ({
                let src = old(self).source();
                let start = old(self).position();
                let end = run_end(src, start + 1, CharClass::Quoted);
                if end < src.len() {
                    &&& lexed(r) == Ok::<SpecToken, LexError>(
                        SpecToken::StringLiteral(src.subrange((start + 1) as int, end as int)),
                    )
                    &&& final(self).position() == end + 1
                } else {
                    &&& r == Err::<Token, LexError>(
                        LexError::UnterminatedString { position: start as usize },
                    )
                    &&& final(self).position() == end
                }
            }),
    {
        let start = self.position;
        self.advance();
        while self.position < self.chars.len() && self.chars[self.position] != '"'
            invariant
                self.chars@ == old(self).chars@,
                start < self.position <= self.chars.len(),
                run_end(self.chars@, self.position as nat, CharClass::Quoted) == run_end(
                    self.chars@,
                    (start + 1) as nat,
                    CharClass::Quoted,
                ),
            decreases self.chars.len() - self.position,
        {
            self.advance();
        }
        if self.position < self.chars.len() {
            let text = text_of(&self.chars, start + 1, self.position);
            self.advance();
            Ok(Token::StringLiteral(text))
        } else {
            Err(LexError::UnterminatedString { position: start })
        }
    }

    /// Passes over the rest of a comment, up to and with the line feed that
    /// ends it.
    fn comment(&mut self)
        ensures
            final(self).source() == old(self).source(),
            final(self).position() == comment_end(old(self).source(), old(self).position()),
    {
        proof {
            use_type_invariant(&*self);
        }
        while self.position < self.chars.len() && self.chars[self.position] != '\n'
            invariant
                self.chars@ == old(self).chars@,
                self.position <= self.chars.len(),
                run_end(self.chars@, self.position as nat, CharClass::Comment) == run_end(
                    self.chars@,
                    old(self).position as nat,
                    CharClass::Comment,
                ),
            decreases self.chars.len() - self.position,
        {
            self.advance();
        }
        self.advance();
    }

    /// Reads the next token and moves behind it. At the end of the text the
    /// token is `EOF`, as often as it is asked for.
    pub fn get_next_token(&mut self) -> (r: Result<Token, LexError>)
        ensures
            final(self).source() == old(self).source(),
            lexed(r) == old(self).upcoming().result,
            final(self).position() == old(self).upcoming().next,
            old(self).position() <= old(self).source().len(),
    {
        proof {
            use_type_invariant(&*self);
        }
        loop
            invariant
                self.chars@ == old(self).chars@,
                self.position <= self.chars.len(),
                lex_at(self.chars@, self.position as nat) == lex_at(
                    old(self).chars@,
                    old(self).position as nat,
                ),
            decreases self.chars.len() - self.position,
        {
            if self.position >= self.chars.len() {
                return Ok(Token::EOF);
            }
            let c = self.chars[self.position];
            if c.is_whitespace() {
                self.advance();
                continue ;
            }
            if c.is_alphabetic() {
                return Ok(self.identifier());
            }
            if decimal_digit(c) {
                return self.number();
            }
            match c {
                '+' => {
                    self.advance();
                    return Ok(Token::Plus);
                },
                '-' => {
                    self.advance();
                    return Ok(Token::Minus);
                },
                '*' => {
                    self.advance();
                    return Ok(Token::Asterisk);
                },
                '/' => {
                    self.advance();
                    if self.position < self.chars.len() && self.chars[self.position] == '/' {
                        self.advance();
                        proof {
                            lemma_comment_end_bounds(self.chars@, self.position as nat);
                        }
                        self.comment();
                        continue ;
                    } else {
                        return Ok(Token::Slash);
                    }
                },
                '(' => {
                    self.advance();
                    return Ok(Token::LParen);
                },
                ')' => {
                    self.advance();
                    return Ok(Token::RParen);
                },
                '=' => {
                    self.advance();
                    return Ok(Token::Assign);
                },
                ';' => {
                    self.advance();
                    return Ok(Token::Semicolon);
                },
                ':' => {
                    self.advance();
                    return Ok(Token::Colon);
                },
                '"' => {
                    return self.string_literal();
                },
                _ => {
                    return Err(
                        LexError::UnexpectedCharacter { character: c, position: self.position },
                    );
                },
            }
        }
    }
}

} // verus!
