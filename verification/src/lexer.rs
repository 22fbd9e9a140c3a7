//! The tokenizer: converts raw source text into an ordered token sequence,
//! or fails with a lexical error naming the offending character or the
//! literal that was never closed.
//!
//! `spec_tokenize` is the mathematical statement of the lexical rules:
//! maximal-munch identifier and number runs, quoted and indented string
//! literals, path and bracketed include-path literals, comments, and
//! multi-character operator disambiguation with one-token lookahead.

use vstd::prelude::*;
use crate::chars::{classify, is_digit_char, CharType};
use crate::tokens::{
    spec_ident_or_keyword, spec_num_token, AdditiveOperator, ArithmComparison, LexError,
    LogicalComparison, MultiplicativeOperator, TokenType, TokenV,
};

verus! {

/// A character that may continue an identifier run: a letter or `_`, a
/// digit, or `-`.
pub open spec fn is_ident_cont(c: char) -> bool {
    classify(c) == Some(CharType::Char) || classify(c) == Some(CharType::Digit) || classify(c)
        == Some(CharType::Minus)
}

/// A character that may continue a number run.
pub open spec fn is_digit_or_dot(c: char) -> bool {
    is_digit_char(c) || c == '.'
}

/// A blank: the whitespace or newline that separates tokens and ends path
/// literals.
pub open spec fn is_line_space(c: char) -> bool {
    c == ' ' || c == '\n'
}

/// First position at or after `i` that does not continue an identifier run.
pub open spec fn scan_ident_end(s: Seq<char>, i: int) -> int
    decreases s.len() - i,
{
    if i < 0 || i >= s.len() {
        i
    } else if is_ident_cont(s[i]) {
        scan_ident_end(s, i + 1)
    } else {
        i
    }
}

/// First position at or after `i` that does not continue a number run.
pub open spec fn scan_num_end(s: Seq<char>, i: int) -> int
    decreases s.len() - i,
{
    if i < 0 || i >= s.len() {
        i
    } else if is_digit_or_dot(s[i]) {
        scan_num_end(s, i + 1)
    } else {
        i
    }
}

/// Position of the first `"` at or after `i`, or the input's end.
pub open spec fn scan_str_end(s: Seq<char>, i: int) -> int
    decreases s.len() - i,
{
    if i < 0 || i >= s.len() {
        i
    } else if s[i] != '"' {
        scan_str_end(s, i + 1)
    } else {
        i
    }
}

/// First whitespace or newline at or after `i`, or the input's end: the end
/// of a path literal.
pub open spec fn scan_path_end(s: Seq<char>, i: int) -> int
    decreases s.len() - i,
{
    if i < 0 || i >= s.len() {
        i
    } else if !is_line_space(s[i]) {
        scan_path_end(s, i + 1)
    } else {
        i
    }
}

/// Position of the first quote of the closing `''` pair, scanning two
/// characters at a time after a lone quote, or `None` when the literal is
/// never closed.
pub open spec fn scan_indented_end(s: Seq<char>, i: int) -> Option<int>
    decreases s.len() - i,
{
    if i < 0 || i >= s.len() {
        None
    } else if s[i] != '\'' {
        scan_indented_end(s, i + 1)
    } else if i + 1 < s.len() {
        if s[i + 1] == '\'' {
            Some(i)
        } else {
            scan_indented_end(s, i + 2)
        }
    } else {
        None
    }
}

/// Outcome of the bracketed include-path lookahead that follows a `<`.
pub enum NixScan {
    /// A closing `>` stands at the position before any whitespace, newline
    /// or `;`.
    Found(int),
    /// Whitespace, a newline, a `;` or the input's end came first: `<` falls
    /// back to relational-operator handling.
    Stopped,
    /// An unclassifiable character came first.
    BadChar(char),
}

/// Scans ahead from `i` for the `>` that closes a bracketed include path.
pub open spec fn scan_nixpath(s: Seq<char>, i: int) -> NixScan
    decreases s.len() - i,
{
    if i < 0 || i >= s.len() {
        NixScan::Stopped
    } else if s[i] == ' ' || s[i] == '\n' || s[i] == ';' {
        NixScan::Stopped
    } else if s[i] == '>' {
        NixScan::Found(i)
    } else if classify(s[i]) is None {
        NixScan::BadChar(s[i])
    } else {
        scan_nixpath(s, i + 1)
    }
}

/// Position after the newline that ends a comment (or the input's end), or
/// the first unclassifiable character inside the comment.
pub open spec fn scan_comment_end(s: Seq<char>, i: int) -> Result<int, char>
    decreases s.len() - i,
{
    if i < 0 || i >= s.len() {
        Ok(s.len() as int)
    } else if s[i] == '\n' {
        Ok(i + 1)
    } else if classify(s[i]) is None {
        Err(s[i])
    } else {
        scan_comment_end(s, i + 1)
    }
}

pub proof fn lemma_scan_ident_end_bounds(s: Seq<char>, i: int)
    requires
        0 <= i <= s.len(),
    ensures
        i <= scan_ident_end(s, i) <= s.len(),
    decreases s.len() - i,
{
    if i < s.len() && is_ident_cont(s[i]) {
        lemma_scan_ident_end_bounds(s, i + 1);
    }
}

pub proof fn lemma_scan_num_end_bounds(s: Seq<char>, i: int)
    requires
        0 <= i <= s.len(),
    ensures
        i <= scan_num_end(s, i) <= s.len(),
    decreases s.len() - i,
{
    if i < s.len() && is_digit_or_dot(s[i]) {
        lemma_scan_num_end_bounds(s, i + 1);
    }
}

pub proof fn lemma_scan_str_end_bounds(s: Seq<char>, i: int)
    requires
        0 <= i <= s.len(),
    ensures
        i <= scan_str_end(s, i) <= s.len(),
    decreases s.len() - i,
{
    if i < s.len() && s[i] != '"' {
        lemma_scan_str_end_bounds(s, i + 1);
    }
}

pub proof fn lemma_scan_path_end_bounds(s: Seq<char>, i: int)
    requires
        0 <= i <= s.len(),
    ensures
        i <= scan_path_end(s, i) <= s.len(),
    decreases s.len() - i,
{
    if i < s.len() && !is_line_space(s[i]) {
        lemma_scan_path_end_bounds(s, i + 1);
    }
}

pub proof fn lemma_scan_indented_end_bounds(s: Seq<char>, i: int)
    requires
        0 <= i,
        scan_indented_end(s, i) is Some,
    ensures
        i <= scan_indented_end(s, i)->Some_0,
        scan_indented_end(s, i)->Some_0 + 2 <= s.len(),
        s[scan_indented_end(s, i)->Some_0] == '\'',
        s[scan_indented_end(s, i)->Some_0 + 1] == '\'',
    decreases s.len() - i,
{
    if i < s.len() && s[i] != '\'' {
        lemma_scan_indented_end_bounds(s, i + 1);
    } else if i < s.len() && i + 1 < s.len() && s[i + 1] != '\'' {
        lemma_scan_indented_end_bounds(s, i + 2);
    }
}

pub proof fn lemma_scan_nixpath_bounds(s: Seq<char>, i: int)
    requires
        0 <= i,
        scan_nixpath(s, i) is Found,
    ensures
        i <= scan_nixpath(s, i)->Found_0 < s.len(),
        s[scan_nixpath(s, i)->Found_0] == '>',
    decreases s.len() - i,
{
    if i < s.len() && !(s[i] == ' ' || s[i] == '\n' || s[i] == ';') && s[i] != '>' && !(classify(
        s[i],
    ) is None) {
        lemma_scan_nixpath_bounds(s, i + 1);
    }
}

pub proof fn lemma_scan_comment_end_bounds(s: Seq<char>, i: int)
    requires
        0 <= i <= s.len(),
        scan_comment_end(s, i) is Ok,
    ensures
        i <= scan_comment_end(s, i)->Ok_0 <= s.len(),
    decreases s.len() - i,
{
    if i < s.len() && s[i] != '\n' && !(classify(s[i]) is None) {
        lemma_scan_comment_end_bounds(s, i + 1);
    }
}

/// Whether the previously emitted token makes a following `-` a subtraction:
/// an identifier or a numeric literal does; anything else (or no token at
/// all) makes it a unary arithmetic negation.
pub open spec fn minus_is_sub(toks: Seq<TokenV>) -> bool {
    toks.len() > 0 && match toks.last() {
        TokenV::Ident(_) => true,
        TokenV::Int(_) => true,
        TokenV::Flo(_) => true,
        _ => false,
    }
}

/// The single-character tokens emitted directly from their character class,
/// or `None` for a classifiable character that makes no token.
pub open spec fn spec_simple_token(ct: CharType) -> Option<TokenV> {
    match ct {
        CharType::Equals => Some(TokenV::Assign),
        CharType::Semicolon => Some(TokenV::Semicolon),
        CharType::Asterisk => Some(
            TokenV::MultiplicativeOperator(MultiplicativeOperator::Mult),
        ),
        CharType::OpenBrace => Some(TokenV::OpenBrace),
        CharType::CloseBrace => Some(TokenV::CloseBrace),
        CharType::OpenSquare => Some(TokenV::OpenSquare),
        CharType::CloseSquare => Some(TokenV::CloseSquare),
        CharType::Question => Some(TokenV::Has),
        CharType::OpenParen => Some(TokenV::OpenParen),
        CharType::CloseParen => Some(TokenV::CloseParen),
        _ => None,
    }
}

/// One lexical rule applied at position `i`, with `toks` the tokens emitted
/// so far; recurses until the input's end. This is the reference semantics
/// of the tokenizer.
pub open spec fn spec_tokenize_from(s: Seq<char>, i: int, toks: Seq<TokenV>) -> Result<
    Seq<TokenV>,
    LexError,
>
    decreases s.len() - i,
{
    if i < 0 || i >= s.len() {
        Ok(toks)
    } else {
        let c = s[i];
        match classify(c) {
            None => Err(LexError::InvalidChar(c)),
            Some(ct) => match ct {
                CharType::Whitespace | CharType::Newline => spec_tokenize_from(s, i + 1, toks),
                CharType::Char => {
                    let end = scan_ident_end(s, i + 1);
                    proof {
                        lemma_scan_ident_end_bounds(s, i + 1);
                    }
                    spec_tokenize_from(
                        s,
                        end,
                        toks.push(spec_ident_or_keyword(s.subrange(i, end))),
                    )
                },
                CharType::Digit => {
                    let end = scan_num_end(s, i + 1);
                    proof {
                        lemma_scan_num_end_bounds(s, i + 1);
                    }
                    match spec_num_token(s.subrange(i, end)) {
                        Ok(t) => spec_tokenize_from(s, end, toks.push(t)),
                        Err(e) => Err(e),
                    }
                },
                CharType::Plus => if i + 1 < s.len() && s[i + 1] == '+' {
                    spec_tokenize_from(s, i + 2, toks.push(TokenV::Concat))
                } else {
                    spec_tokenize_from(
                        s,
                        i + 1,
                        toks.push(TokenV::AdditiveOperator(AdditiveOperator::Add)),
                    )
                },
                CharType::Minus => if minus_is_sub(toks) {
                    spec_tokenize_from(
                        s,
                        i + 1,
                        toks.push(TokenV::AdditiveOperator(AdditiveOperator::Sub)),
                    )
                } else {
                    spec_tokenize_from(s, i + 1, toks.push(TokenV::ArithmNegation))
                },
                CharType::Dquote => {
                    let end = scan_str_end(s, i + 1);
                    proof {
                        lemma_scan_str_end_bounds(s, i + 1);
                    }
                    if end < s.len() {
                        spec_tokenize_from(
                            s,
                            end + 1,
                            toks.push(TokenV::StrLiteral(s.subrange(i + 1, end))),
                        )
                    } else {
                        Err(LexError::UnterminatedString)
                    }
                },
                CharType::Squote => if i + 1 < s.len() && s[i + 1] == '\'' {
                    match scan_indented_end(s, i + 2) {
                        Some(j) => {
                            proof {
                                lemma_scan_indented_end_bounds(s, i + 2);
                            }
                            spec_tokenize_from(
                                s,
                                j + 2,
                                toks.push(TokenV::StrLiteral(s.subrange(i + 2, j))),
                            )
                        },
                        None => Err(LexError::UnterminatedIndentedString),
                    }
                } else {
                    Err(LexError::MissingSecondQuote)
                },
                CharType::Dot => if i + 1 < s.len() && s[i + 1] == '/' {
                    let end = scan_path_end(s, i + 1);
                    proof {
                        lemma_scan_path_end_bounds(s, i + 1);
                    }
                    spec_tokenize_from(s, end, toks.push(TokenV::Path(s.subrange(i, end))))
                } else {
                    spec_tokenize_from(s, i + 1, toks.push(TokenV::Access))
                },
                CharType::Tilde => if i + 1 < s.len() && s[i + 1] == '/' {
                    let end = scan_path_end(s, i + 1);
                    proof {
                        lemma_scan_path_end_bounds(s, i + 1);
                    }
                    spec_tokenize_from(s, end, toks.push(TokenV::Path(s.subrange(i, end))))
                } else {
                    Err(LexError::UnsupportedChar('~'))
                },
                CharType::ForwSlash => if i + 1 < s.len() && s[i + 1] == ' ' {
                    spec_tokenize_from(
                        s,
                        i + 2,
                        toks.push(TokenV::MultiplicativeOperator(MultiplicativeOperator::Div)),
                    )
                } else {
                    let end = scan_path_end(s, i + 1);
                    proof {
                        lemma_scan_path_end_bounds(s, i + 1);
                    }
                    spec_tokenize_from(s, end, toks.push(TokenV::Path(s.subrange(i, end))))
                },
                CharType::Langle => match scan_nixpath(s, i + 1) {
                    NixScan::Found(j) => {
                        proof {
                            lemma_scan_nixpath_bounds(s, i + 1);
                        }
                        spec_tokenize_from(
                            s,
                            j + 1,
                            toks.push(TokenV::NixPath(s.subrange(i, j + 1))),
                        )
                    },
                    NixScan::BadChar(c2) => Err(LexError::InvalidChar(c2)),
                    NixScan::Stopped => if i + 1 < s.len() && s[i + 1] == '=' {
                        spec_tokenize_from(
                            s,
                            i + 2,
                            toks.push(TokenV::ArithmComparison(ArithmComparison::LessOrEquals)),
                        )
                    } else {
                        spec_tokenize_from(
                            s,
                            i + 1,
                            toks.push(TokenV::ArithmComparison(ArithmComparison::Less)),
                        )
                    },
                },
                CharType::Rangle => if i + 1 < s.len() && s[i + 1] == '=' {
                    spec_tokenize_from(
                        s,
                        i + 2,
                        toks.push(TokenV::ArithmComparison(ArithmComparison::MoreOrEquals)),
                    )
                } else {
                    spec_tokenize_from(
                        s,
                        i + 1,
                        toks.push(TokenV::ArithmComparison(ArithmComparison::More)),
                    )
                },
                CharType::Equals => if i + 1 < s.len() && s[i + 1] == '=' {
                    spec_tokenize_from(
                        s,
                        i + 2,
                        toks.push(TokenV::LogicalComparison(LogicalComparison::CompareEquals)),
                    )
                } else {
                    spec_tokenize_from(s, i + 1, toks.push(TokenV::Assign))
                },
                CharType::Exclamation => if i + 1 < s.len() && s[i + 1] == '=' {
                    spec_tokenize_from(
                        s,
                        i + 2,
                        toks.push(TokenV::LogicalComparison(LogicalComparison::CompareNotEquals)),
                    )
                } else {
                    spec_tokenize_from(s, i + 1, toks.push(TokenV::LogicalNegation))
                },
                CharType::Hash => match scan_comment_end(s, i + 1) {
                    Ok(j) => {
                        proof {
                            lemma_scan_comment_end_bounds(s, i + 1);
                        }
                        spec_tokenize_from(s, j, toks)
                    },
                    Err(c2) => Err(LexError::InvalidChar(c2)),
                },
                _ => match spec_simple_token(ct) {
                    Some(t) => spec_tokenize_from(s, i + 1, toks.push(t)),
                    None => Err(LexError::UnsupportedChar(c)),
                },
            },
        }
    }
}

/// The token sequence of a whole source text, or its first lexical error.
pub open spec fn spec_tokenize(s: Seq<char>) -> Result<Seq<TokenV>, LexError> {
    spec_tokenize_from(s, 0, Seq::empty())
}

/// The mathematical image of an emitted token sequence.
pub open spec fn toks_view(ts: Seq<TokenType>) -> Seq<TokenV> {
    ts.map_values(|t: TokenType| t@)
}

proof fn lemma_toks_view_push(ts: Seq<TokenType>, t: TokenType)
    ensures
        toks_view(ts.push(t)) =~= toks_view(ts).push(t@),
{
}

/// Tokenization is a function of the source text alone: any two token
/// sequences lexed from the same source are equal, so tokenizing is
/// deterministic, and repeating it on the same source is idempotent.
pub proof fn lemma_tokenize_deterministic(
    s: Seq<char>,
    r1: Result<Seq<TokenV>, LexError>,
    r2: Result<Seq<TokenV>, LexError>,
)
    requires
        r1 == spec_tokenize(s),
        r2 == spec_tokenize(s),
    ensures
        r1 == r2,
{
}

/// The mathematical image of a syntax failure.
#[verifier::ext_equal]
pub enum ParseErrV {
    /// The parser met `got` where only `expected` could continue the
    /// grammar. A missing primary term or identifier is reported with an
    /// empty-named identifier as the expected token.
    UnexpectedToken { expected: TokenV, got: TokenV },
    /// The input ended where a token was required.
    UnexpectedEof,
}

/// A syntax failure naming the expected and the actual token.
#[derive(Debug, PartialEq)]
pub struct UnexpectedTokenError {
    expected: TokenType,
    got: TokenType,
}

impl UnexpectedTokenError {
    pub fn new(exp_tok: &TokenType, got_tok: &TokenType) -> (r: Self)
        ensures
            r@ == (exp_tok@, got_tok@),
    {
        UnexpectedTokenError { expected: exp_tok.clone(), got: got_tok.clone() }
    }
}

impl View for UnexpectedTokenError {
    type V = (TokenV, TokenV);

    closed spec fn view(&self) -> (TokenV, TokenV) {
        (self.expected@, self.got@)
    }
}

/// The failures a consumer of the token stream reports.
#[derive(Debug, PartialEq)]
pub enum TokenStreamErrors {
    UnexpectedToken(UnexpectedTokenError),
    UnexpectedEof,
}

impl View for TokenStreamErrors {
    type V = ParseErrV;

    open spec fn view(&self) -> ParseErrV {
        match self {
            TokenStreamErrors::UnexpectedToken(e) => ParseErrV::UnexpectedToken {
                expected: e@.0,
                got: e@.1,
            },
            TokenStreamErrors::UnexpectedEof => ParseErrV::UnexpectedEof,
        }
    }
}

/// The tokenizer: owns a copy of the source text and lexes it on demand.
pub struct Lexer {
    input_str: String,
}

impl Lexer {
    /// The source text this lexer reads.
    pub closed spec fn spec_input(&self) -> Seq<char> {
        self.input_str@
    }

    pub fn new(input_str: &str) -> (r: Lexer)
        ensures
            r.spec_input() == input_str@,
    {
        Lexer { input_str: String::from_str(input_str) }
    }

    /// Lexes the whole source: returns the token sequence that
    /// `spec_tokenize` assigns to it, or the first lexical error.
    pub fn tokenize(&self) -> (r: Result<Vec<TokenType>, LexError>)
        ensures
            match r {
                Ok(toks) => spec_tokenize(self.spec_input()) == Ok::<Seq<TokenV>, LexError>(
                    toks_view(toks@),
                ),
                Err(e) => spec_tokenize(self.spec_input()) == Err::<Seq<TokenV>, LexError>(e),
            },
    {
        let s = self.input_str.as_str();
        let ghost sv = s@;
        let n = s.unicode_len();
        let mut tokens: Vec<TokenType> = Vec::new();
        let mut i: usize = 0;
        proof {
            assert(toks_view(tokens@) =~= Seq::<TokenV>::empty());
        }
        while i < n
            invariant
                i <= n,
                n == sv.len(),
                s@ == sv,
                sv == self.spec_input(),
                spec_tokenize(sv) == spec_tokenize_from(sv, i as int, toks_view(tokens@)),
            decreases n - i,
        {
            let ghost tv = toks_view(tokens@);
            let c = s.get_char(i);
            let ct = match CharType::try_from(c) {
                Ok(ct) => ct,
                Err(e) => {
                    return Err(LexError::InvalidChar(e.cause()));
                },
            };
            match ct {
                CharType::Whitespace | CharType::Newline => {
                    i += 1;
                },
                CharType::Char => {
                    let j = find_ident_end(s, i + 1, n);
                    let text = s.substring_char(i, j);
                    let tok = TokenType::ident_or_keyword_from(text);
                    proof {
                        lemma_toks_view_push(tokens@, tok);
                    }
                    tokens.push(tok);
                    i = j;
                },
                CharType::Digit => {
                    let j = find_num_end(s, i + 1, n);
                    let text = s.substring_char(i, j);
                    proof {
                        assert(forall|k: int|
                            0 <= k < text@.len() ==> is_digit_or_dot(#[trigger] text@[k]));
                    }
                    match TokenType::num_from(text) {
                        Ok(tok) => {
                            proof {
                                lemma_toks_view_push(tokens@, tok);
                            }
                            tokens.push(tok);
                            i = j;
                        },
                        Err(e) => {
                            return Err(e);
                        },
                    }
                },
                CharType::Plus => {
                    if i + 1 < n && s.get_char(i + 1) == '+' {
                        let tok = TokenType::Concat;
                        proof {
                            lemma_toks_view_push(tokens@, tok);
                        }
                        tokens.push(tok);
                        i += 2;
                    } else {
                        let tok = TokenType::AdditiveOperator(AdditiveOperator::Add);
                        proof {
                            lemma_toks_view_push(tokens@, tok);
                        }
                        tokens.push(tok);
                        i += 1;
                    }
                },
                CharType::Minus => {
                    let is_sub = if tokens.len() > 0 {
                        match &tokens[tokens.len() - 1] {
                            TokenType::Ident(_) => true,
                            TokenType::Int(_) => true,
                            TokenType::Flo(_) => true,
                            _ => false,
                        }
                    } else {
                        false
                    };
                    proof {
                        assert(is_sub == minus_is_sub(tv));
                    }
                    let tok = if is_sub {
                        TokenType::AdditiveOperator(AdditiveOperator::Sub)
                    } else {
                        TokenType::ArithmNegation
                    };
                    proof {
                        lemma_toks_view_push(tokens@, tok);
                    }
                    tokens.push(tok);
                    i += 1;
                },
                CharType::Dquote => {
                    let j = find_str_end(s, i + 1, n);
                    if j < n {
                        let text = s.substring_char(i + 1, j);
                        let tok = TokenType::StrLiteral(String::from_str(text));
                        proof {
                            lemma_toks_view_push(tokens@, tok);
                        }
                        tokens.push(tok);
                        i = j + 1;
                    } else {
                        return Err(LexError::UnterminatedString);
                    }
                },
                CharType::Squote => {
                    if i + 1 < n && s.get_char(i + 1) == '\'' {
                        match find_indented_end(s, i + 2, n) {
                            Some(j) => {
                                proof {
                                    lemma_scan_indented_end_bounds(sv, i + 2);
                                }
                                let text = s.substring_char(i + 2, j);
                                let tok = TokenType::StrLiteral(String::from_str(text));
                                proof {
                                    lemma_toks_view_push(tokens@, tok);
                                }
                                tokens.push(tok);
                                i = j + 2;
                            },
                            None => {
                                return Err(LexError::UnterminatedIndentedString);
                            },
                        }
                    } else {
                        return Err(LexError::MissingSecondQuote);
                    }
                },
                CharType::Dot => {
                    if i + 1 < n && s.get_char(i + 1) == '/' {
                        let (tok, j) = Self::lex_path(s, i, n);
                        proof {
                            lemma_toks_view_push(tokens@, tok);
                        }
                        tokens.push(tok);
                        i = j;
                    } else {
                        let tok = TokenType::Access;
                        proof {
                            lemma_toks_view_push(tokens@, tok);
                        }
                        tokens.push(tok);
                        i += 1;
                    }
                },
                CharType::Tilde => {
                    if i + 1 < n && s.get_char(i + 1) == '/' {
                        let (tok, j) = Self::lex_path(s, i, n);
                        proof {
                            lemma_toks_view_push(tokens@, tok);
                        }
                        tokens.push(tok);
                        i = j;
                    } else {
                        return Err(LexError::UnsupportedChar('~'));
                    }
                },
                CharType::ForwSlash => {
                    if i + 1 < n && s.get_char(i + 1) == ' ' {
                        let tok = TokenType::MultiplicativeOperator(MultiplicativeOperator::Div);
                        proof {
                            lemma_toks_view_push(tokens@, tok);
                        }
                        tokens.push(tok);
                        i += 2;
                    } else {
                        let (tok, j) = Self::lex_path(s, i, n);
                        proof {
                            lemma_toks_view_push(tokens@, tok);
                        }
                        tokens.push(tok);
                        i = j;
                    }
                },
                CharType::Langle => {
                    match find_nixpath_close(s, i + 1, n) {
                        Ok(Some(j)) => {
                            proof {
                                lemma_scan_nixpath_bounds(sv, i + 1);
                            }
                            let text = s.substring_char(i, j + 1);
                            let tok = TokenType::NixPath(String::from_str(text));
                            proof {
                                lemma_toks_view_push(tokens@, tok);
                            }
                            tokens.push(tok);
                            i = j + 1;
                        },
                        Ok(None) => {
                            if i + 1 < n && s.get_char(i + 1) == '=' {
                                let tok = TokenType::ArithmComparison(
                                    ArithmComparison::LessOrEquals,
                                );
                                proof {
                                    lemma_toks_view_push(tokens@, tok);
                                }
                                tokens.push(tok);
                                i += 2;
                            } else {
                                let tok = TokenType::ArithmComparison(ArithmComparison::Less);
                                proof {
                                    lemma_toks_view_push(tokens@, tok);
                                }
                                tokens.push(tok);
                                i += 1;
                            }
                        },
                        Err(c2) => {
                            return Err(LexError::InvalidChar(c2));
                        },
                    }
                },
                CharType::Rangle => {
                    if i + 1 < n && s.get_char(i + 1) == '=' {
                        let tok = TokenType::ArithmComparison(ArithmComparison::MoreOrEquals);
                        proof {
                            lemma_toks_view_push(tokens@, tok);
                        }
                        tokens.push(tok);
                        i += 2;
                    } else {
                        let tok = TokenType::ArithmComparison(ArithmComparison::More);
                        proof {
                            lemma_toks_view_push(tokens@, tok);
                        }
                        tokens.push(tok);
                        i += 1;
                    }
                },
                CharType::Equals => {
                    if i + 1 < n && s.get_char(i + 1) == '=' {
                        let tok = TokenType::LogicalComparison(LogicalComparison::CompareEquals);
                        proof {
                            lemma_toks_view_push(tokens@, tok);
                        }
                        tokens.push(tok);
                        i += 2;
                    } else {
                        let tok = TokenType::Assign;
                        proof {
                            lemma_toks_view_push(tokens@, tok);
                        }
                        tokens.push(tok);
                        i += 1;
                    }
                },
                CharType::Exclamation => {
                    if i + 1 < n && s.get_char(i + 1) == '=' {
                        let tok = TokenType::LogicalComparison(LogicalComparison::CompareNotEquals);
                        proof {
                            lemma_toks_view_push(tokens@, tok);
                        }
                        tokens.push(tok);
                        i += 2;
                    } else {
                        let tok = TokenType::LogicalNegation;
                        proof {
                            lemma_toks_view_push(tokens@, tok);
                        }
                        tokens.push(tok);
                        i += 1;
                    }
                },
                CharType::Hash => {
                    match find_comment_end(s, i + 1, n) {
                        Ok(j) => {
                            i = j;
                        },
                        Err(c2) => {
                            return Err(LexError::InvalidChar(c2));
                        },
                    }
                },
                CharType::Semicolon => {
                    let tok = TokenType::Semicolon;
                    proof {
                        lemma_toks_view_push(tokens@, tok);
                    }
                    tokens.push(tok);
                    i += 1;
                },
                CharType::Asterisk => {
                    let tok = TokenType::MultiplicativeOperator(MultiplicativeOperator::Mult);
                    proof {
                        lemma_toks_view_push(tokens@, tok);
                    }
                    tokens.push(tok);
                    i += 1;
                },
                CharType::OpenBrace => {
                    let tok = TokenType::OpenBrace;
                    proof {
                        lemma_toks_view_push(tokens@, tok);
                    }
                    tokens.push(tok);
                    i += 1;
                },
                CharType::CloseBrace => {
                    let tok = TokenType::CloseBrace;
                    proof {
                        lemma_toks_view_push(tokens@, tok);
                    }
                    tokens.push(tok);
                    i += 1;
                },
                CharType::OpenSquare => {
                    let tok = TokenType::OpenSquare;
                    proof {
                        lemma_toks_view_push(tokens@, tok);
                    }
                    tokens.push(tok);
                    i += 1;
                },
                CharType::CloseSquare => {
                    let tok = TokenType::CloseSquare;
                    proof {
                        lemma_toks_view_push(tokens@, tok);
                    }
                    tokens.push(tok);
                    i += 1;
                },
                CharType::OpenParen => {
                    let tok = TokenType::OpenParen;
                    proof {
                        lemma_toks_view_push(tokens@, tok);
                    }
                    tokens.push(tok);
                    i += 1;
                },
                CharType::CloseParen => {
                    let tok = TokenType::CloseParen;
                    proof {
                        lemma_toks_view_push(tokens@, tok);
                    }
                    tokens.push(tok);
                    i += 1;
                },
                CharType::Question => {
                    let tok = TokenType::Has;
                    proof {
                        lemma_toks_view_push(tokens@, tok);
                    }
                    tokens.push(tok);
                    i += 1;
                },
                CharType::Comma => {
                    return Err(LexError::UnsupportedChar(c));
                },
                CharType::At => {
                    return Err(LexError::UnsupportedChar(c));
                },
                CharType::Dollar => {
                    return Err(LexError::UnsupportedChar(c));
                },
            }
        }
        Ok(tokens)
    }

    /// Captures a path literal from its trigger character up to the next
    /// whitespace or newline.
    fn lex_path(s: &str, i: usize, n: usize) -> (r: (TokenType, usize))
        requires
            n == s@.len(),
            i < n,
            !is_line_space(s@[i as int]),
        ensures
            r.1 == scan_path_end(s@, i + 1),
            i < r.1 <= n,
            r.0@ == TokenV::Path(s@.subrange(i as int, r.1 as int)),
            scan_path_end(s@, i as int) == r.1,
    {
        let j = find_path_end(s, i + 1, n);
        let text = s.substring_char(i, j);
        (TokenType::Path(String::from_str(text)), j)
    }
}

/// First position at or after `i` that does not continue an identifier run.
fn find_ident_end(s: &str, i: usize, n: usize) -> (j: usize)
    requires
        n == s@.len(),
        i <= n,
    ensures
        i <= j <= n,
        j == scan_ident_end(s@, i as int),
{
    let mut j = i;
    while j < n
        invariant
            i <= j <= n,
            n == s@.len(),
            scan_ident_end(s@, i as int) == scan_ident_end(s@, j as int),
        decreases n - j,
    {
        let c = s.get_char(j);
        let cont = match CharType::try_from(c) {
            Ok(CharType::Char) => true,
            Ok(CharType::Digit) => true,
            Ok(CharType::Minus) => true,
            _ => false,
        };
        if !cont {
            return j;
        }
        j += 1;
    }
    j
}

/// First position at or after `i` that does not continue a number run.
fn find_num_end(s: &str, i: usize, n: usize) -> (j: usize)
    requires
        n == s@.len(),
        i <= n,
    ensures
        i <= j <= n,
        j == scan_num_end(s@, i as int),
        forall|k: int| i <= k < j ==> is_digit_or_dot(#[trigger] s@[k]),
{
    let mut j = i;
    while j < n
        invariant
            i <= j <= n,
            n == s@.len(),
            scan_num_end(s@, i as int) == scan_num_end(s@, j as int),
            forall|k: int| i <= k < j ==> is_digit_or_dot(#[trigger] s@[k]),
        decreases n - j,
    {
        let c = s.get_char(j);
        let nc = c as u32;
        let cont = (48 <= nc && nc <= 57) || c == '.';
        if !cont {
            return j;
        }
        j += 1;
    }
    j
}

/// Position of the first `"` at or after `i`, or the input's end.
fn find_str_end(s: &str, i: usize, n: usize) -> (j: usize)
    requires
        n == s@.len(),
        i <= n,
    ensures
        i <= j <= n,
        j == scan_str_end(s@, i as int),
{
    let mut j = i;
    while j < n
        invariant
            i <= j <= n,
            n == s@.len(),
            scan_str_end(s@, i as int) == scan_str_end(s@, j as int),
        decreases n - j,
    {
        let c = s.get_char(j);
        if c == '"' {
            return j;
        }
        j += 1;
    }
    j
}

/// First whitespace or newline at or after `i`, or the input's end.
fn find_path_end(s: &str, i: usize, n: usize) -> (j: usize)
    requires
        n == s@.len(),
        i <= n,
    ensures
        i <= j <= n,
        j == scan_path_end(s@, i as int),
{
    let mut j = i;
    while j < n
        invariant
            i <= j <= n,
            n == s@.len(),
            scan_path_end(s@, i as int) == scan_path_end(s@, j as int),
        decreases n - j,
    {
        let c = s.get_char(j);
        if c == ' ' || c == '\n' {
            return j;
        }
        j += 1;
    }
    j
}

/// Finds the closing `''` pair of an indented string, stepping past the
/// character after any lone quote, as `scan_indented_end` describes.
fn find_indented_end(s: &str, i: usize, n: usize) -> (r: Option<usize>)
    requires
        n == s@.len(),
        i <= n,
    ensures
        match r {
            Some(j) => scan_indented_end(s@, i as int) == Some(j as int) && i <= j && j + 2 <= n,
            None => scan_indented_end(s@, i as int) is None,
        },
{
    let mut j = i;
    while j < n
        invariant
            i <= j <= n,
            n == s@.len(),
            scan_indented_end(s@, i as int) == scan_indented_end(s@, j as int),
        decreases n - j,
    {
        let c = s.get_char(j);
        if c != '\'' {
            j += 1;
        } else if j + 1 < n {
            if s.get_char(j + 1) == '\'' {
                return Some(j);
            }
            j += 2;
        } else {
            return None;
        }
    }
    None
}

/// Scans ahead for the `>` that closes a bracketed include path:
/// `Ok(Some(j))` gives its position, `Ok(None)` means the scan stopped at
/// whitespace, a newline, `;` or the input's end, and `Err` reports an
/// unclassifiable character seen first.
fn find_nixpath_close(s: &str, i: usize, n: usize) -> (r: Result<Option<usize>, char>)
    requires
        n == s@.len(),
        i <= n,
    ensures
        match r {
            Ok(Some(j)) => scan_nixpath(s@, i as int) == NixScan::Found(j as int) && i <= j < n,
            Ok(None) => scan_nixpath(s@, i as int) == NixScan::Stopped,
            Err(c) => scan_nixpath(s@, i as int) == NixScan::BadChar(c),
        },
{
    let mut j = i;
    while j < n
        invariant
            i <= j <= n,
            n == s@.len(),
            scan_nixpath(s@, i as int) == scan_nixpath(s@, j as int),
        decreases n - j,
    {
        let c = s.get_char(j);
        if c == ' ' || c == '\n' || c == ';' {
            return Ok(None);
        }
        if c == '>' {
            return Ok(Some(j));
        }
        if let Err(_) = CharType::try_from(c) {
            return Err(c);
        }
        j += 1;
    }
    Ok(None)
}

/// Position after the newline that ends a comment (or the input's end), or
/// the first unclassifiable character inside the comment.
fn find_comment_end(s: &str, i: usize, n: usize) -> (r: Result<usize, char>)
    requires
        n == s@.len(),
        i <= n,
    ensures
        match r {
            Ok(j) => scan_comment_end(s@, i as int) == Ok::<int, char>(j as int) && i <= j <= n,
            Err(c) => scan_comment_end(s@, i as int) == Err::<int, char>(c),
        },
{
    let mut j = i;
    while j < n
        invariant
            i <= j <= n,
            n == s@.len(),
            scan_comment_end(s@, i as int) == scan_comment_end(s@, j as int),
        decreases n - j,
    {
        let c = s.get_char(j);
        if c == '\n' {
            return Ok(j + 1);
        }
        if let Err(_) = CharType::try_from(c) {
            return Err(c);
        }
        j += 1;
    }
    Ok(n)
}

} // verus!
