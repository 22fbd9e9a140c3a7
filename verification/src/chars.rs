//! Character classification: partitions input characters into identifier
//! characters, digits, and fixed single-character classes for each
//! punctuation or operator symbol; any other character is invalid.

use vstd::prelude::*;

verus! {

/// The lexical class of a single source character.
#[derive(Debug, PartialEq, Eq, Structural, Clone, Copy)]
pub enum CharType {
    Char,
    Equals,
    Plus,
    Minus,
    Comma,
    Semicolon,
    OpenParen,
    CloseParen,
    OpenBrace,
    CloseBrace,
    OpenSquare,
    CloseSquare,
    Dot,
    At,
    Digit,
    Whitespace,
    Newline,
    Dquote,
    Squote,
    Exclamation,
    Tilde,
    ForwSlash,
    Langle,
    Rangle,
    Dollar,
    Question,
    Asterisk,
    Hash,
}

/// A letter or `_`: a character that may start an identifier.
pub open spec fn is_letter(c: char) -> bool {
    ('a' as u32 <= c as u32 && c as u32 <= 'z' as u32)
    || ('A' as u32 <= c as u32 && c as u32 <= 'Z' as u32)
    || c == '_'
}

/// An ASCII decimal digit.
pub open spec fn is_digit_char(c: char) -> bool {
    '0' as u32 <= c as u32 && c as u32 <= '9' as u32
}

/// The classification of one character, or `None` when the character is
/// not part of the language's alphabet.
pub open spec fn classify(c: char) -> Option<CharType> {
    if c == ' ' {
        Some(CharType::Whitespace)
    } else if c == '\n' {
        Some(CharType::Newline)
    } else if c == ';' {
        Some(CharType::Semicolon)
    } else if c == '=' {
        Some(CharType::Equals)
    } else if c == '+' {
        Some(CharType::Plus)
    } else if c == '-' {
        Some(CharType::Minus)
    } else if c == '.' {
        Some(CharType::Dot)
    } else if c == '"' {
        Some(CharType::Dquote)
    } else if c == '\'' {
        Some(CharType::Squote)
    } else if c == '(' {
        Some(CharType::OpenParen)
    } else if c == ')' {
        Some(CharType::CloseParen)
    } else if c == '{' {
        Some(CharType::OpenBrace)
    } else if c == '}' {
        Some(CharType::CloseBrace)
    } else if c == '[' {
        Some(CharType::OpenSquare)
    } else if c == ']' {
        Some(CharType::CloseSquare)
    } else if c == '<' {
        Some(CharType::Langle)
    } else if c == '>' {
        Some(CharType::Rangle)
    } else if c == ',' {
        Some(CharType::Comma)
    } else if c == '@' {
        Some(CharType::At)
    } else if c == '!' {
        Some(CharType::Exclamation)
    } else if c == '~' {
        Some(CharType::Tilde)
    } else if c == '/' {
        Some(CharType::ForwSlash)
    } else if c == '$' {
        Some(CharType::Dollar)
    } else if c == '?' {
        Some(CharType::Question)
    } else if c == '*' {
        Some(CharType::Asterisk)
    } else if c == '#' {
        Some(CharType::Hash)
    } else if is_letter(c) {
        Some(CharType::Char)
    } else if is_digit_char(c) {
        Some(CharType::Digit)
    } else {
        None
    }
}

impl CharType {
    /// Classifies one character, failing on a character outside the
    /// language's alphabet.
    pub fn try_from(input_char: char) -> (r: Result<CharType, InvalidTokenError>)
        ensures
            match r {
                Ok(t) => classify(input_char) == Some(t),
                Err(e) => classify(input_char) is None && e.spec_cause() == input_char,
            },
    {
        match input_char {
            ' ' => Ok(CharType::Whitespace),
            '\n' => Ok(CharType::Newline),
            ';' => Ok(CharType::Semicolon),
            '=' => Ok(CharType::Equals),
            '+' => Ok(CharType::Plus),
            '-' => Ok(CharType::Minus),
            '.' => Ok(CharType::Dot),
            '"' => Ok(CharType::Dquote),
            '\'' => Ok(CharType::Squote),
            '(' => Ok(CharType::OpenParen),
            ')' => Ok(CharType::CloseParen),
            '{' => Ok(CharType::OpenBrace),
            '}' => Ok(CharType::CloseBrace),
            '[' => Ok(CharType::OpenSquare),
            ']' => Ok(CharType::CloseSquare),
            '<' => Ok(CharType::Langle),
            '>' => Ok(CharType::Rangle),
            ',' => Ok(CharType::Comma),
            '@' => Ok(CharType::At),
            '!' => Ok(CharType::Exclamation),
            '~' => Ok(CharType::Tilde),
            '/' => Ok(CharType::ForwSlash),
            '$' => Ok(CharType::Dollar),
            '?' => Ok(CharType::Question),
            '*' => Ok(CharType::Asterisk),
            '#' => Ok(CharType::Hash),
            _ => {
                if let Some(char_token) = get_char(input_char) {
                    return Ok(char_token);
                }
                if let Some(digit_token) = get_digit(input_char) {
                    return Ok(digit_token);
                }
                Err(InvalidTokenError::new(input_char))
            },
        }
    }

    /// Whether the character is the double-quote delimiter.
    pub fn is_dquote(ch: char) -> (r: bool)
        ensures
            r == (ch == '"'),
    {
        ch == '"'
    }

    /// Whether the character is the single-quote delimiter.
    pub fn is_squote(ch: char) -> (r: bool)
        ensures
            r == (ch == '\''),
    {
        ch == '\''
    }
}

fn get_char(ch: char) -> (r: Option<CharType>)
    ensures
        r == (if is_letter(ch) || ch == '-' || ch == '.' {
            Some(CharType::Char)
        } else {
            Option::<CharType>::None
        }),
{
    let n = ch as u32;
    if !('a' as u32 <= n && n <= 'z' as u32) && !('A' as u32 <= n && n <= 'Z' as u32) && ch != '-'
        && ch != '.' && ch != '_' {
        return None;
    }
    Some(CharType::Char)
}

fn get_digit(ch: char) -> (r: Option<CharType>)
    ensures
        r == (if is_digit_char(ch) { Some(CharType::Digit) } else { Option::<CharType>::None }),
{
    let n = ch as u32;
    if !('0' as u32 <= n && n <= '9' as u32) {
        return None;
    }
    Some(CharType::Digit)
}

/// Lexical failure on a single character that cannot be classified.
#[derive(Debug, PartialEq, Eq, Structural, Clone, Copy)]
pub struct InvalidTokenError {
    cause: char,
}

impl InvalidTokenError {
    /// The character that could not be classified.
    pub closed spec fn spec_cause(&self) -> char {
        self.cause
    }

    pub fn new(cause: char) -> (r: InvalidTokenError)
        ensures
            r.spec_cause() == cause,
    {
        InvalidTokenError { cause }
    }

    /// The character that could not be classified.
    pub fn cause(&self) -> (c: char)
        ensures
            c == self.spec_cause(),
    {
        self.cause
    }
}

} // verus!
