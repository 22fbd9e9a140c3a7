//! The token vocabulary: tags for identifiers, keywords, literals, operators
//! and punctuation, together with the functions that classify captured runs
//! of source text into tokens.
//!
//! A numeric literal that contains no `.` and fits the 32-bit signed range
//! becomes `Int`; any other run with at most one `.` becomes `Flo`, which
//! carries the literal's source text (this crate keeps floating-point values
//! as text and never computes with them).

use vstd::prelude::*;
use crate::chars::is_digit_char;

verus! {

/// One lexical token. Text-carrying tokens own a copy of the captured slice
/// of the source.
#[derive(Debug, PartialEq)]
pub enum TokenType {
    Ident(String),
    StrLiteral(String),
    Path(String),
    NixPath(String),
    Int(i32),
    Flo(String),
    LogicalComparison(LogicalComparison),
    ArithmComparison(ArithmComparison),
    AdditiveOperator(AdditiveOperator),
    MultiplicativeOperator(MultiplicativeOperator),
    Bool(bool),
    LogicalNegation,
    ArithmNegation,
    Assign,
    Semicolon,
    Let,
    In,
    Inherit,
    Import,
    With,
    And,
    Or,
    MapKw,
    Null,
    CloseBrace,
    OpenBrace,
    CloseSquare,
    OpenSquare,
    OpenParen,
    CloseParen,
    Access,
    If,
    Then,
    Else,
    Rec,
    LogImpl,
    Update,
    Concat,
    Has,
}

/// The mathematical image of a token: text payloads abstracted to
/// character sequences.
pub enum TokenV {
    Ident(Seq<char>),
    StrLiteral(Seq<char>),
    Path(Seq<char>),
    NixPath(Seq<char>),
    Int(i32),
    Flo(Seq<char>),
    LogicalComparison(LogicalComparison),
    ArithmComparison(ArithmComparison),
    AdditiveOperator(AdditiveOperator),
    MultiplicativeOperator(MultiplicativeOperator),
    Bool(bool),
    LogicalNegation,
    ArithmNegation,
    Assign,
    Semicolon,
    Let,
    In,
    Inherit,
    Import,
    With,
    And,
    Or,
    MapKw,
    Null,
    CloseBrace,
    OpenBrace,
    CloseSquare,
    OpenSquare,
    OpenParen,
    CloseParen,
    Access,
    If,
    Then,
    Else,
    Rec,
    LogImpl,
    Update,
    Concat,
    Has,
}

impl View for TokenType {
    type V = TokenV;

    open spec fn view(&self) -> TokenV {
        match self {
            TokenType::Ident(s) => TokenV::Ident(s@),
            TokenType::StrLiteral(s) => TokenV::StrLiteral(s@),
            TokenType::Path(s) => TokenV::Path(s@),
            TokenType::NixPath(s) => TokenV::NixPath(s@),
            TokenType::Int(i) => TokenV::Int(*i),
            TokenType::Flo(s) => TokenV::Flo(s@),
            TokenType::LogicalComparison(c) => TokenV::LogicalComparison(*c),
            TokenType::ArithmComparison(c) => TokenV::ArithmComparison(*c),
            TokenType::AdditiveOperator(o) => TokenV::AdditiveOperator(*o),
            TokenType::MultiplicativeOperator(o) => TokenV::MultiplicativeOperator(*o),
            TokenType::Bool(b) => TokenV::Bool(*b),
            TokenType::LogicalNegation => TokenV::LogicalNegation,
            TokenType::ArithmNegation => TokenV::ArithmNegation,
            TokenType::Assign => TokenV::Assign,
            TokenType::Semicolon => TokenV::Semicolon,
            TokenType::Let => TokenV::Let,
            TokenType::In => TokenV::In,
            TokenType::Inherit => TokenV::Inherit,
            TokenType::Import => TokenV::Import,
            TokenType::With => TokenV::With,
            TokenType::And => TokenV::And,
            TokenType::Or => TokenV::Or,
            TokenType::MapKw => TokenV::MapKw,
            TokenType::Null => TokenV::Null,
            TokenType::CloseBrace => TokenV::CloseBrace,
            TokenType::OpenBrace => TokenV::OpenBrace,
            TokenType::CloseSquare => TokenV::CloseSquare,
            TokenType::OpenSquare => TokenV::OpenSquare,
            TokenType::OpenParen => TokenV::OpenParen,
            TokenType::CloseParen => TokenV::CloseParen,
            TokenType::Access => TokenV::Access,
            TokenType::If => TokenV::If,
            TokenType::Then => TokenV::Then,
            TokenType::Else => TokenV::Else,
            TokenType::Rec => TokenV::Rec,
            TokenType::LogImpl => TokenV::LogImpl,
            TokenType::Update => TokenV::Update,
            TokenType::Concat => TokenV::Concat,
            TokenType::Has => TokenV::Has,
        }
    }
}

#[derive(Debug, PartialEq, Eq, Structural, Clone, Copy)]
pub enum LogicalComparison {
    CompareEquals,
    CompareNotEquals,
}

#[derive(Debug, PartialEq, Eq, Structural, Clone, Copy)]
pub enum ArithmComparison {
    More,
    Less,
    MoreOrEquals,
    LessOrEquals,
}

#[derive(Debug, PartialEq, Eq, Structural, Clone, Copy)]
pub enum AdditiveOperator {
    Add,
    Sub,
}

#[derive(Debug, PartialEq, Eq, Structural, Clone, Copy)]
pub enum MultiplicativeOperator {
    Mult,
    Div,
}

/// A failure of the lexical stage: an unclassifiable or unusable character,
/// an unterminated literal, or a malformed numeric literal.
#[derive(Debug, PartialEq, Eq, Structural, Clone, Copy)]
pub enum LexError {
    /// A character outside the language's alphabet.
    InvalidChar(char),
    /// A classifiable character for which no token exists.
    UnsupportedChar(char),
    /// A `"` string literal never closed before end of input.
    UnterminatedString,
    /// A `''` opener not completed by its second quote.
    MissingSecondQuote,
    /// An `''` string literal never closed before end of input.
    UnterminatedIndentedString,
    /// A digit/`.` run that is neither an integer nor a float literal.
    MalformedNumber,
}

impl Clone for TokenType {
    /// Clones a token, preserving its mathematical image.
    fn clone(&self) -> (res: Self)
        ensures
            res@ == self@,
    {
        match self {
            TokenType::Ident(s) => TokenType::Ident(s.clone()),
            TokenType::StrLiteral(s) => TokenType::StrLiteral(s.clone()),
            TokenType::Path(s) => TokenType::Path(s.clone()),
            TokenType::NixPath(s) => TokenType::NixPath(s.clone()),
            TokenType::Int(i) => TokenType::Int(*i),
            TokenType::Flo(s) => TokenType::Flo(s.clone()),
            TokenType::LogicalComparison(c) => TokenType::LogicalComparison(*c),
            TokenType::ArithmComparison(c) => TokenType::ArithmComparison(*c),
            TokenType::AdditiveOperator(o) => TokenType::AdditiveOperator(*o),
            TokenType::MultiplicativeOperator(o) => TokenType::MultiplicativeOperator(*o),
            TokenType::Bool(b) => TokenType::Bool(*b),
            TokenType::LogicalNegation => TokenType::LogicalNegation,
            TokenType::ArithmNegation => TokenType::ArithmNegation,
            TokenType::Assign => TokenType::Assign,
            TokenType::Semicolon => TokenType::Semicolon,
            TokenType::Let => TokenType::Let,
            TokenType::In => TokenType::In,
            TokenType::Inherit => TokenType::Inherit,
            TokenType::Import => TokenType::Import,
            TokenType::With => TokenType::With,
            TokenType::And => TokenType::And,
            TokenType::Or => TokenType::Or,
            TokenType::MapKw => TokenType::MapKw,
            TokenType::Null => TokenType::Null,
            TokenType::CloseBrace => TokenType::CloseBrace,
            TokenType::OpenBrace => TokenType::OpenBrace,
            TokenType::CloseSquare => TokenType::CloseSquare,
            TokenType::OpenSquare => TokenType::OpenSquare,
            TokenType::OpenParen => TokenType::OpenParen,
            TokenType::CloseParen => TokenType::CloseParen,
            TokenType::Access => TokenType::Access,
            TokenType::If => TokenType::If,
            TokenType::Then => TokenType::Then,
            TokenType::Else => TokenType::Else,
            TokenType::Rec => TokenType::Rec,
            TokenType::LogImpl => TokenType::LogImpl,
            TokenType::Update => TokenType::Update,
            TokenType::Concat => TokenType::Concat,
            TokenType::Has => TokenType::Has,
        }
    }
}

/// Compares two string slices character by character.
pub fn str_eq(a: &str, b: &str) -> (r: bool)
    ensures
        r == (a@ == b@),
{
    let alen = a.unicode_len();
    let blen = b.unicode_len();
    if alen != blen {
        proof {
            assert(a@ != b@) by {
                assert(a@.len() != b@.len());
            }
        }
        return false;
    }
    let mut i: usize = 0;
    while i < alen
        invariant
            i <= alen,
            alen == a@.len(),
            alen == b@.len(),
            forall|j: int| 0 <= j < i ==> a@[j] == b@[j],
        decreases alen - i,
    {
        if a.get_char(i) != b.get_char(i) {
            proof {
                assert(a@[i as int] != b@[i as int]);
            }
            return false;
        }
        i += 1;
    }
    proof {
        assert(a@ =~= b@);
    }
    true
}

/// The keyword table: maps an identifier run to its dedicated token, and any
/// run matching no keyword to `Ident`. `true`/`false` become boolean literals.
pub open spec fn spec_ident_or_keyword(s: Seq<char>) -> TokenV {
    if s == "let"@ {
        TokenV::Let
    } else if s == "in"@ {
        TokenV::In
    } else if s == "import"@ {
        TokenV::Import
    } else if s == "with"@ {
        TokenV::With
    } else if s == "inherit"@ {
        TokenV::Inherit
    } else if s == "map"@ {
        TokenV::MapKw
    } else if s == "null"@ {
        TokenV::Null
    } else if s == "true"@ {
        TokenV::Bool(true)
    } else if s == "false"@ {
        TokenV::Bool(false)
    } else if s == "if"@ {
        TokenV::If
    } else if s == "then"@ {
        TokenV::Then
    } else if s == "else"@ {
        TokenV::Else
    } else if s == "&&"@ {
        TokenV::And
    } else if s == "||"@ {
        TokenV::Or
    } else if s == "->"@ {
        TokenV::LogImpl
    } else if s == "rec"@ {
        TokenV::Rec
    } else if s == ">="@ {
        TokenV::ArithmComparison(ArithmComparison::MoreOrEquals)
    } else if s == "<="@ {
        TokenV::ArithmComparison(ArithmComparison::LessOrEquals)
    } else if s == "//"@ {
        TokenV::Update
    } else {
        TokenV::Ident(s)
    }
}

/// Whether `s` exactly matches an entry of the keyword table.
pub open spec fn is_keyword(s: Seq<char>) -> bool {
    !(spec_ident_or_keyword(s) matches TokenV::Ident(_))
}

/// An identifier run exactly matching the keyword table lexes to its
/// dedicated token, never to `Ident`.
pub proof fn lemma_keyword_never_ident(s: Seq<char>)
    requires
        is_keyword(s),
    ensures
        forall|name: Seq<char>| spec_ident_or_keyword(s) != TokenV::Ident(name),
{
}

/// The numeric value of a sequence of decimal digits.
pub open spec fn digits_val(s: Seq<char>) -> int
    decreases s.len(),
{
    if s.len() == 0 {
        0
    } else {
        digits_val(s.drop_last()) * 10 + (s.last() as u32 - '0' as u32)
    }
}

/// How many `.` characters a run contains.
pub open spec fn count_dots(s: Seq<char>) -> int
    decreases s.len(),
{
    if s.len() == 0 {
        0
    } else {
        count_dots(s.drop_last()) + if s.last() == '.' { 1int } else { 0int }
    }
}

/// The token a maximal digit/`.` run lexes to: `Int` when the run has no `.`
/// and its value fits the 32-bit signed range, `Flo` (carrying the run's
/// text) when the run has at most one `.` or overflows that range, and a
/// malformed-number failure when the run has two or more `.`.
pub open spec fn spec_num_token(s: Seq<char>) -> Result<TokenV, LexError> {
    if count_dots(s) == 0 {
        if digits_val(s) <= i32::MAX {
            Ok(TokenV::Int(digits_val(s) as i32))
        } else {
            Ok(TokenV::Flo(s))
        }
    } else if count_dots(s) == 1 {
        Ok(TokenV::Flo(s))
    } else {
        Err(LexError::MalformedNumber)
    }
}

/// A maximal digit/`.` run lexes to `Int` exactly when it contains no `.`
/// and its value fits the 32-bit signed range, and otherwise (with at most
/// one `.`) to `Flo`.
pub proof fn lemma_digit_run_int_or_flo(s: Seq<char>)
    requires
        count_dots(s) <= 1,
    ensures
        count_dots(s) == 0 && digits_val(s) <= i32::MAX ==> spec_num_token(s) == Ok::<
            TokenV,
            LexError,
        >(TokenV::Int(digits_val(s) as i32)),
        count_dots(s) != 0 || digits_val(s) > i32::MAX ==> spec_num_token(s) == Ok::<
            TokenV,
            LexError,
        >(TokenV::Flo(s)),
{
    lemma_count_dots_nonneg(s);
}

proof fn lemma_count_dots_extend(s: Seq<char>, i: int)
    requires
        0 <= i < s.len(),
    ensures
        count_dots(s.subrange(0, i + 1)) == count_dots(s.subrange(0, i)) + if s[i] == '.' {
            1int
        } else {
            0int
        },
{
    let t = s.subrange(0, i + 1);
    assert(t.drop_last() =~= s.subrange(0, i));
    assert(t.last() == s[i]);
}

proof fn lemma_digits_val_extend(s: Seq<char>, i: int)
    requires
        0 <= i < s.len(),
    ensures
        digits_val(s.subrange(0, i + 1)) == digits_val(s.subrange(0, i)) * 10 + (s[i] as u32
            - '0' as u32),
{
    let t = s.subrange(0, i + 1);
    assert(t.drop_last() =~= s.subrange(0, i));
    assert(t.last() == s[i]);
}

/// Appending digits to a run whose value already exceeds the 32-bit signed
/// range keeps it above that range.
proof fn lemma_digits_val_monotone(s: Seq<char>, i: int)
    requires
        0 <= i <= s.len(),
        digits_val(s.subrange(0, i)) > i32::MAX,
    ensures
        digits_val(s) > i32::MAX,
    decreases s.len() - i,
{
    if i == s.len() {
        assert(s.subrange(0, i) =~= s);
    } else {
        lemma_digits_val_extend(s, i);
        assert(s[i] as u32 >= 0);
        assert(digits_val(s.subrange(0, i + 1)) > i32::MAX);
        lemma_digits_val_monotone(s, i + 1);
    }
}

impl TokenType {
    /// Looks a captured identifier run up in the keyword table; unmatched
    /// runs become identifiers.
    pub fn ident_or_keyword_from(chars: &str) -> (r: TokenType)
        ensures
            r@ == spec_ident_or_keyword(chars@),
    {
        if str_eq(chars, "let") {
            Self::Let
        } else if str_eq(chars, "in") {
            Self::In
        } else if str_eq(chars, "import") {
            Self::Import
        } else if str_eq(chars, "with") {
            Self::With
        } else if str_eq(chars, "inherit") {
            Self::Inherit
        } else if str_eq(chars, "map") {
            Self::MapKw
        } else if str_eq(chars, "null") {
            Self::Null
        } else if str_eq(chars, "true") || str_eq(chars, "false") {
            Self::bool_from(chars)
        } else if str_eq(chars, "if") {
            Self::If
        } else if str_eq(chars, "then") {
            Self::Then
        } else if str_eq(chars, "else") {
            Self::Else
        } else if str_eq(chars, "&&") {
            Self::And
        } else if str_eq(chars, "||") {
            Self::Or
        } else if str_eq(chars, "->") {
            Self::LogImpl
        } else if str_eq(chars, "rec") {
            Self::Rec
        } else if str_eq(chars, ">=") {
            Self::ArithmComparison(ArithmComparison::MoreOrEquals)
        } else if str_eq(chars, "<=") {
            Self::ArithmComparison(ArithmComparison::LessOrEquals)
        } else if str_eq(chars, "//") {
            Self::Update
        } else {
            Self::Ident(String::from_str(chars))
        }
    }

    /// Classifies a maximal digit/`.` run: integer parse first, text-carrying
    /// float fallback, and a malformed-number failure when the run has more
    /// than one `.`.
    pub fn num_from(chars: &str) -> (r: Result<TokenType, LexError>)
        requires
            chars@.len() > 0,
            forall|j: int|
                0 <= j < chars@.len() ==> is_digit_char(#[trigger] chars@[j]) || chars@[j] == '.',
        ensures
            match r {
                Ok(t) => spec_num_token(chars@) == Ok::<TokenV, LexError>(t@),
                Err(e) => spec_num_token(chars@) == Err::<TokenV, LexError>(e),
            },
    {
        let n = chars.unicode_len();
        let mut dots: usize = 0;
        let mut i: usize = 0;
        while i < n
            invariant
                i <= n,
                n == chars@.len(),
                dots <= i,
                dots == count_dots(chars@.subrange(0, i as int)),
            decreases n - i,
        {
            let c = chars.get_char(i);
            proof {
                lemma_count_dots_extend(chars@, i as int);
            }
            if c == '.' {
                dots += 1;
            }
            i += 1;
        }
        proof {
            assert(chars@.subrange(0, n as int) =~= chars@);
        }
        if dots == 0 {
            // Integer parse: accumulate left to right, watching the 32-bit
            // signed bound.
            let mut val: u64 = 0;
            let mut i: usize = 0;
            let mut overflow: bool = false;
            while i < n
                invariant
                    i <= n,
                    n == chars@.len(),
                    forall|j: int|
                        0 <= j < chars@.len() ==> is_digit_char(#[trigger] chars@[j]) || chars@[j]
                            == '.',
                    count_dots(chars@) == 0,
                    !overflow ==> val == digits_val(chars@.subrange(0, i as int)) && val
                        <= i32::MAX,
                    overflow ==> digits_val(chars@) > i32::MAX,
                decreases n - i,
            {
                if !overflow {
                    let c = chars.get_char(i);
                    proof {
                        lemma_digits_val_extend(chars@, i as int);
                        if chars@[i as int] == '.' {
                            lemma_count_dots_nonzero(chars@, i as int);
                        }
                    }
                    let d = (c as u32 - 48) as u64;
                    val = val * 10 + d;
                    if val > 2147483647 {
                        proof {
                            lemma_digits_val_monotone(chars@, i + 1 as int);
                        }
                        overflow = true;
                    }
                }
                i += 1;
            }
            if overflow {
                Ok(TokenType::Flo(String::from_str(chars)))
            } else {
                proof {
                    assert(chars@.subrange(0, n as int) =~= chars@);
                }
                Ok(TokenType::Int(val as i32))
            }
        } else if dots == 1 {
            Ok(TokenType::Flo(String::from_str(chars)))
        } else {
            Err(LexError::MalformedNumber)
        }
    }

    /// Turns the keyword runs `true` and `false` into boolean literals.
    pub fn bool_from(chars: &str) -> (r: TokenType)
        requires
            chars@ == "true"@ || chars@ == "false"@,
        ensures
            r@ == TokenV::Bool(chars@ == "true"@),
    {
        if str_eq(chars, "true") {
            TokenType::Bool(true)
        } else {
            TokenType::Bool(false)
        }
    }
}

/// A `.` inside a run makes its dot count positive.
proof fn lemma_count_dots_nonzero(s: Seq<char>, i: int)
    requires
        0 <= i < s.len(),
        s[i] == '.',
    ensures
        count_dots(s) >= 1,
    decreases s.len(),
{
    if i == s.len() - 1 {
        assert(count_dots(s.drop_last()) >= 0) by {
            lemma_count_dots_nonneg(s.drop_last());
        }
    } else {
        lemma_count_dots_nonzero(s.drop_last(), i);
        assert(count_dots(s) >= count_dots(s.drop_last()));
    }
}

/// A dot count is never negative.
proof fn lemma_count_dots_nonneg(s: Seq<char>)
    ensures
        count_dots(s) >= 0,
    decreases s.len(),
{
    if s.len() > 0 {
        lemma_count_dots_nonneg(s.drop_last());
    }
}

} // verus!
