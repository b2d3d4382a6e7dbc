//! The tokens of expression text.
//!
//! [`lex_spec`] says which tokens a text consists of; [`lex`] computes them.
//! Expression text is ASCII; blanks separate tokens and mean nothing else.

use crate::error::Error;
use vstd::prelude::*;
use vstd::string::{StrSliceExecFns, StringSliceAdditionalSpecFns};

verus! {

/// One token.
#[derive(Debug, PartialEq, Eq)]
pub enum Token {
    Ident { name: String },
    /// An integer with the suffix written after it, as in `7u8`.
    Int { value: u128, suffix: Option<String> },
    /// A floating-point number, as written.
    Float { text: String },
    /// `"..."`, as its bytes.
    Str { bytes: Vec<u8> },
    /// `b"..."`
    ByteStr { bytes: Vec<u8> },
    /// `b'x'`
    Byte { value: u8 },
    /// `'x'`
    Char { code: u32 },
    /// `::`
    PathSep,
    Dot,
    /// `..`
    DotDot,
    Comma,
    Assign,
    OpenParen,
    CloseParen,
    OpenBracket,
    CloseBracket,
    Less,
    Greater,
    Colon,
    OpenBrace,
    CloseBrace,
}

/// The mathematical counterpart of [`Token`].
pub enum TokenModel {
    Ident { name: Seq<char> },
    Int { value: u128, suffix: Option<Seq<char>> },
    Float { text: Seq<char> },
    Str { bytes: Seq<u8> },
    ByteStr { bytes: Seq<u8> },
    Byte { value: u8 },
    Char { code: u32 },
    PathSep,
    Dot,
    DotDot,
    Comma,
    Assign,
    OpenParen,
    CloseParen,
    OpenBracket,
    CloseBracket,
    Less,
    Greater,
    Colon,
    OpenBrace,
    CloseBrace,
}

impl View for Token {
    type V = TokenModel;

    open spec fn view(&self) -> TokenModel {
        match self {
            Token::Ident { name } => TokenModel::Ident { name: name@ },
            Token::Int { value, suffix } => TokenModel::Int {
                value: *value,
                suffix: match suffix {
                    Some(s) => Some(s@),
                    None => None,
                },
            },
            Token::Float { text } => TokenModel::Float { text: text@ },
            Token::Str { bytes } => TokenModel::Str { bytes: bytes@ },
            Token::ByteStr { bytes } => TokenModel::ByteStr { bytes: bytes@ },
            Token::Byte { value } => TokenModel::Byte { value: *value },
            Token::Char { code } => TokenModel::Char { code: *code },
            Token::PathSep => TokenModel::PathSep,
            Token::Dot => TokenModel::Dot,
            Token::DotDot => TokenModel::DotDot,
            Token::Comma => TokenModel::Comma,
            Token::Assign => TokenModel::Assign,
            Token::OpenParen => TokenModel::OpenParen,
            Token::CloseParen => TokenModel::CloseParen,
            Token::OpenBracket => TokenModel::OpenBracket,
            Token::CloseBracket => TokenModel::CloseBracket,
            Token::Less => TokenModel::Less,
            Token::Greater => TokenModel::Greater,
            Token::Colon => TokenModel::Colon,
            Token::OpenBrace => TokenModel::OpenBrace,
            Token::CloseBrace => TokenModel::CloseBrace,
        }
    }
}

/// The models of a sequence of tokens, in order.
pub open spec fn token_views(s: Seq<Token>) -> Seq<TokenModel> {
    Seq::new(s.len(), |i: int| s[i]@)
}

/// The character at `i` as a byte; zero past the end of the text.
pub open spec fn byte_at(s: Seq<char>, i: int) -> u8 {
    if 0 <= i < s.len() {
        s[i] as u8
    } else {
        0
    }
}

pub open spec fn is_blank(b: u8) -> bool {
    b == 32 || b == 9 || b == 10 || b == 13
}

pub open spec fn is_digit(b: u8) -> bool {
    48 <= b <= 57
}

pub open spec fn is_hex_digit(b: u8) -> bool {
    is_digit(b) || 97 <= b <= 102 || 65 <= b <= 70
}

pub open spec fn is_ident_start(b: u8) -> bool {
    97 <= b <= 122 || 65 <= b <= 90 || b == 95
}

pub open spec fn is_ident_char(b: u8) -> bool {
    is_ident_start(b) || is_digit(b)
}

/// The kinds of character that runs are made of.
#[derive(Clone, Copy, Debug, PartialEq, Eq, Structural)]
pub enum CharClass {
    /// Letters, digits and the underscore.
    Word,
    /// Decimal digits and the underscore that groups them.
    Decimal,
    /// Hexadecimal digits and the underscore.
    Hex,
    /// Anything but the double quote and the backslash.
    Quoted,
}

pub open spec fn in_class(class: CharClass, b: u8) -> bool {
    match class {
        CharClass::Word => is_ident_char(b),
        CharClass::Decimal => is_digit(b) || b == 95,
        CharClass::Hex => is_hex_digit(b) || b == 95,
        CharClass::Quoted => b != 0 && b != 34 && b != 92,
    }
}

/// Where the run of characters of `class` that starts at `pos` ends.
pub open spec fn run_end(s: Seq<char>, pos: int, class: CharClass) -> int
    decreases s.len() - pos,
{
    if 0 <= pos < s.len() && in_class(class, byte_at(s, pos)) {
        run_end(s, pos + 1, class)
    } else {
        pos
    }
}

/// The value of a digit; of a letter, its value as a hexadecimal digit.
pub open spec fn digit_value(b: u8) -> nat {
    if is_digit(b) {
        (b - 48) as nat
    } else if 97 <= b <= 102 {
        (b - 87) as nat
    } else if 65 <= b <= 70 {
        (b - 55) as nat
    } else {
        0
    }
}

/// The number that the digits of `s[from..to]` spell in base `base`;
/// underscores are passed over.
pub open spec fn digits_value(s: Seq<char>, from: int, to: int, base: nat) -> nat
    decreases to - from,
{
    if to <= from {
        0
    } else if byte_at(s, to - 1) == 95 {
        digits_value(s, from, to - 1, base)
    } else {
        base * digits_value(s, from, to - 1, base) + digit_value(byte_at(s, to - 1))
    }
}

/// The characters of `s[from..to]` as bytes.
pub open spec fn bytes_of(s: Seq<char>, from: int, to: int) -> Seq<u8> {
    Seq::new((to - from) as nat, |i: int| byte_at(s, from + i))
}

/// The number that starts at `pos`, and where it ends.
///
/// Digits, in base sixteen after `0x`; then, unless the number follows a
/// dot, a fraction, which makes it a float; then a suffix.  A suffix that
/// starts with `f` makes a float of an integer.  A number beyond 128 bits is
/// `OutOfRange`.
pub open spec fn number_token(s: Seq<char>, pos: int, after_dot: bool) -> Result<
    (TokenModel, int),
    Error,
> {
    let hex = byte_at(s, pos) == 48 && byte_at(s, pos + 1) == 120;
    let start = if hex {
        pos + 2
    } else {
        pos
    };
    let end = run_end(
        s,
        start,
        if hex {
            CharClass::Hex
        } else {
            CharClass::Decimal
        },
    );
    let value = digits_value(
        s,
        start,
        end,
        if hex {
            16
        } else {
            10
        },
    );
    let fraction = !hex && !after_dot && byte_at(s, end) == 46 && is_digit(byte_at(s, end + 1));
    let body = if fraction {
        run_end(s, end + 1, CharClass::Decimal)
    } else {
        end
    };
    let stop = if is_ident_start(byte_at(s, body)) {
        run_end(s, body, CharClass::Word)
    } else {
        body
    };
    if fraction || (stop > body && byte_at(s, body) == 102 && !hex) {
        Ok((TokenModel::Float { text: s.subrange(pos, stop) }, stop))
    } else if value > u128::MAX {
        Err(Error::OutOfRange)
    } else {
        Ok(
            (
                TokenModel::Int {
                    value: value as u128,
                    suffix: if stop > body {
                        Some(s.subrange(body, stop))
                    } else {
                        None
                    },
                },
                stop,
            ),
        )
    }
}

/// The quoted text whose opening quote is at `pos`, and where the token
/// that holds it ends; `TypeMismatch` where the closing quote is missing.
pub open spec fn quoted(s: Seq<char>, pos: int) -> Result<(Seq<u8>, int), Error> {
    let end = run_end(s, pos + 1, CharClass::Quoted);
    if byte_at(s, end) == 34 {
        Ok((bytes_of(s, pos + 1, end), end + 1))
    } else {
        Err(Error::TypeMismatch)
    }
}

/// The character between single quotes whose opening quote is at `pos`.
pub open spec fn single_quoted(s: Seq<char>, pos: int) -> Result<(u8, int), Error> {
    let b = byte_at(s, pos + 1);
    if b != 0 && b != 39 && b != 92 && byte_at(s, pos + 2) == 39 {
        Ok((b, pos + 3))
    } else {
        Err(Error::TypeMismatch)
    }
}

/// The punctuation at `pos`.
pub open spec fn punctuation(s: Seq<char>, pos: int) -> Result<(TokenModel, int), Error> {
    let b = byte_at(s, pos);
    let next = byte_at(s, pos + 1);
    if b == 58 && next == 58 {
        Ok((TokenModel::PathSep, pos + 2))
    } else if b == 46 && next == 46 {
        Ok((TokenModel::DotDot, pos + 2))
    } else if b == 46 {
        Ok((TokenModel::Dot, pos + 1))
    } else if b == 44 {
        Ok((TokenModel::Comma, pos + 1))
    } else if b == 61 {
        Ok((TokenModel::Assign, pos + 1))
    } else if b == 40 {
        Ok((TokenModel::OpenParen, pos + 1))
    } else if b == 41 {
        Ok((TokenModel::CloseParen, pos + 1))
    } else if b == 91 {
        Ok((TokenModel::OpenBracket, pos + 1))
    } else if b == 93 {
        Ok((TokenModel::CloseBracket, pos + 1))
    } else if b == 60 {
        Ok((TokenModel::Less, pos + 1))
    } else if b == 62 {
        Ok((TokenModel::Greater, pos + 1))
    } else if b == 58 {
        Ok((TokenModel::Colon, pos + 1))
    } else if b == 123 {
        Ok((TokenModel::OpenBrace, pos + 1))
    } else if b == 125 {
        Ok((TokenModel::CloseBrace, pos + 1))
    } else {
        Err(Error::TypeMismatch)
    }
}

/// The token that starts at `pos`, and where it ends.
pub open spec fn next_token(s: Seq<char>, pos: int, after_dot: bool) -> Result<
    (TokenModel, int),
    Error,
> {
    let b = byte_at(s, pos);
    if is_digit(b) {
        number_token(s, pos, after_dot)
    } else if b == 98 && byte_at(s, pos + 1) == 39 {
        match single_quoted(s, pos + 1) {
            Ok((value, end)) => Ok((TokenModel::Byte { value }, end)),
            Err(e) => Err(e),
        }
    } else if b == 98 && byte_at(s, pos + 1) == 34 {
        match quoted(s, pos + 1) {
            Ok((bytes, end)) => Ok((TokenModel::ByteStr { bytes }, end)),
            Err(e) => Err(e),
        }
    } else if is_ident_start(b) {
        let end = run_end(s, pos, CharClass::Word);
        Ok((TokenModel::Ident { name: s.subrange(pos, end) }, end))
    } else if b == 34 {
        match quoted(s, pos) {
            Ok((bytes, end)) => Ok((TokenModel::Str { bytes }, end)),
            Err(e) => Err(e),
        }
    } else if b == 39 {
        match single_quoted(s, pos) {
            Ok((value, end)) => Ok((TokenModel::Char { code: value as u32 }, end)),
            Err(e) => Err(e),
        }
    } else {
        punctuation(s, pos)
    }
}

/// The tokens of `s` from `pos` on, after the tokens `before`.
pub open spec fn lex_from(s: Seq<char>, pos: int, after_dot: bool, before: Seq<TokenModel>)
    -> Result<Seq<TokenModel>, Error>
    decreases s.len() - pos,
{
    if pos < 0 || pos >= s.len() {
        Ok(before)
    } else if is_blank(byte_at(s, pos)) {
        lex_from(s, pos + 1, after_dot, before)
    } else {
        match next_token(s, pos, after_dot) {
            Ok((token, end)) => if pos < end <= s.len() {
                lex_from(s, end, token is Dot, before.push(token))
            } else {
                Err(Error::TypeMismatch)
            },
            Err(e) => Err(e),
        }
    }
}

/// The tokens of the text `s`.  Text that is not ASCII, a character that
/// starts no token and a quote that is not closed are `TypeMismatch`; a
/// number beyond 128 bits is `OutOfRange`.
pub open spec fn lex_spec(s: Seq<char>) -> Result<Seq<TokenModel>, Error> {
    if !vstd::utf8::is_ascii_chars(s) {
        Err(Error::TypeMismatch)
    } else {
        lex_from(s, 0, false, Seq::empty())
    }
}

/// The number spelt by a prefix of the digits is at most the number spelt by
/// all of them.
pub proof fn lemma_digits_value_grows(s: Seq<char>, from: int, i: int, to: int, base: nat)
    requires
        from <= i <= to,
        base >= 1,
    ensures
        digits_value(s, from, i, base) <= digits_value(s, from, to, base),
    decreases to - i,
{
    if i < to {
        lemma_digits_value_grows(s, from, i, to - 1, base);
        let v = digits_value(s, from, to - 1, base);
        assert(v <= base * v) by (nonlinear_arith)
            requires
                base >= 1,
                v >= 0,
        ;
    }
}

/// A text together with its length, known to be ASCII.
struct Source<'a> {
    text: &'a str,
    len: usize,
}

impl<'a> Source<'a> {
    spec fn ok(&self) -> bool {
        self.text.is_ascii() && self.len == self.text@.len()
    }

    fn peek(&self, pos: usize, off: usize) -> (b: u8)
        requires
            self.ok(),
            pos <= self.len,
        ensures
            b == byte_at(self.text@, pos + off),
    {
        if off < self.len - pos {
            self.text.get_ascii(pos + off)
        } else {
            0
        }
    }

    fn run(&self, pos: usize, class: CharClass) -> (end: usize)
        requires
            self.ok(),
            pos <= self.len,
        ensures
            end == run_end(self.text@, pos as int, class),
            pos <= end <= self.len,
    {
        let mut i: usize = pos;
        while i < self.len && class_has(class, self.peek(i, 0))
            invariant
                self.ok(),
                pos <= i <= self.len,
                run_end(self.text@, pos as int, class) == run_end(self.text@, i as int, class),
            decreases self.len - i,
        {
            i += 1;
        }
        i
    }

    fn digits(&self, from: usize, to: usize, base: u128) -> (r: Option<u128>)
        requires
            self.ok(),
            from <= to <= self.len,
            base == 10 || base == 16,
        ensures
            match r {
                Some(v) => v == digits_value(self.text@, from as int, to as int, base as nat),
                None => digits_value(self.text@, from as int, to as int, base as nat) > u128::MAX,
            },
    {
        let mut acc: u128 = 0;
        let mut i: usize = from;
        while i < to
            invariant
                self.ok(),
                from <= i <= to <= self.len,
                base == 10 || base == 16,
                acc == digits_value(self.text@, from as int, i as int, base as nat),
            decreases to - i,
        {
            let b = self.peek(i, 0);
            if b != 95 {
                let d: u128 = digit_of(b) as u128;
                proof {
                    assert(byte_at(self.text@, (i + 1) - 1) == b);
                    assert(digits_value(self.text@, from as int, i + 1, base as nat) == base
                        * acc + d);
                    lemma_digits_value_grows(
                        self.text@,
                        from as int,
                        i + 1,
                        to as int,
                        base as nat,
                    );
                }
                match acc.checked_mul(base) {
                    None => {
                        return None;
                    },
                    Some(scaled) => match scaled.checked_add(d) {
                        None => {
                            return None;
                        },
                        Some(sum) => {
                            acc = sum;
                        },
                    },
                }
            } else {
                assert(byte_at(self.text@, (i + 1) - 1) == 95);
                assert(digits_value(self.text@, from as int, i + 1, base as nat) == acc);
            }
            i += 1;
        }
        Some(acc)
    }

    fn slice(&self, from: usize, to: usize) -> (r: String)
        requires
            self.ok(),
            from <= to <= self.len,
        ensures
            r@ == self.text@.subrange(from as int, to as int),
    {
        self.text.substring_ascii(from, to).to_owned()
    }

    fn bytes(&self, from: usize, to: usize) -> (r: Vec<u8>)
        requires
            self.ok(),
            from <= to <= self.len,
        ensures
            r@ == bytes_of(self.text@, from as int, to as int),
    {
        let mut out: Vec<u8> = Vec::new();
        let mut i: usize = from;
        while i < to
            invariant
                self.ok(),
                from <= i <= to <= self.len,
                out@.len() == i - from,
                forall|k: int| 0 <= k < i - from ==> out@[k] == byte_at(self.text@, from + k),
            decreases to - i,
        {
            out.push(self.peek(i, 0));
            i += 1;
        }
        assert(out@ =~= bytes_of(self.text@, from as int, to as int));
        out
    }

    fn number(&self, pos: usize, after_dot: bool) -> (r: Result<(Token, usize), Error>)
        requires
            self.ok(),
            pos < self.len,
        ensures
            token_result_view(r) == number_token(self.text@, pos as int, after_dot),
            r matches Ok((t, end)) ==> end <= self.len,
    {
        let hex = self.peek(pos, 0) == 48 && self.peek(pos, 1) == 120;
        let start: usize = if hex {
            pos + 2
        } else {
            pos
        };
        let end = self.run(
            start,
            if hex {
                CharClass::Hex
            } else {
                CharClass::Decimal
            },
        );
        let value = self.digits(
            start,
            end,
            if hex {
                16
            } else {
                10
            },
        );
        let fraction = !hex && !after_dot && self.peek(end, 0) == 46 && is_digit_byte(
            self.peek(end, 1),
        );
        let body: usize = if fraction {
            self.run(end + 1, CharClass::Decimal)
        } else {
            end
        };
        let stop: usize = if is_ident_start_byte(self.peek(body, 0)) {
            self.run(body, CharClass::Word)
        } else {
            body
        };
        if fraction || (stop > body && self.peek(body, 0) == 102 && !hex) {
            return Ok((Token::Float { text: self.slice(pos, stop) }, stop));
        }
        match value {
            None => Err(Error::OutOfRange),
            Some(v) => Ok(
                (
                    Token::Int {
                        value: v,
                        suffix: if stop > body {
                            Some(self.slice(body, stop))
                        } else {
                            None
                        },
                    },
                    stop,
                ),
            ),
        }
    }

    fn quoted(&self, pos: usize) -> (r: Result<(Vec<u8>, usize), Error>)
        requires
            self.ok(),
            pos < self.len,
        ensures
            match r {
                Ok((bytes, end)) => quoted(self.text@, pos as int) == Ok::<(Seq<u8>, int), Error>(
                    (bytes@, end as int),
                ) && end <= self.len,
                Err(e) => quoted(self.text@, pos as int) == Err::<(Seq<u8>, int), Error>(e),
            },
    {
        let end = self.run(pos + 1, CharClass::Quoted);
        if self.peek(end, 0) == 34 {
            Ok((self.bytes(pos + 1, end), end + 1))
        } else {
            Err(Error::TypeMismatch)
        }
    }

    fn single_quoted(&self, pos: usize) -> (r: Result<(u8, usize), Error>)
        requires
            self.ok(),
            pos < self.len,
        ensures
            match r {
                Ok((b, end)) => single_quoted(self.text@, pos as int) == Ok::<(u8, int), Error>(
                    (b, end as int),
                ) && end <= self.len,
                Err(e) => single_quoted(self.text@, pos as int) == Err::<(u8, int), Error>(e),
            },
    {
        let b = self.peek(pos, 1);
        if b != 0 && b != 39 && b != 92 && self.peek(pos, 2) == 39 {
            Ok((b, pos + 3))
        } else {
            Err(Error::TypeMismatch)
        }
    }

    fn punctuation(&self, pos: usize) -> (r: Result<(Token, usize), Error>)
        requires
            self.ok(),
            pos < self.len,
        ensures
            token_result_view(r) == punctuation(self.text@, pos as int),
            r matches Ok((t, end)) ==> end <= self.len,
    {
        let b = self.peek(pos, 0);
        let next = self.peek(pos, 1);
        if b == 58 && next == 58 {
            Ok((Token::PathSep, pos + 2))
        } else if b == 46 && next == 46 {
            Ok((Token::DotDot, pos + 2))
        } else if b == 46 {
            Ok((Token::Dot, pos + 1))
        } else if b == 44 {
            Ok((Token::Comma, pos + 1))
        } else if b == 61 {
            Ok((Token::Assign, pos + 1))
        } else if b == 40 {
            Ok((Token::OpenParen, pos + 1))
        } else if b == 41 {
            Ok((Token::CloseParen, pos + 1))
        } else if b == 91 {
            Ok((Token::OpenBracket, pos + 1))
        } else if b == 93 {
            Ok((Token::CloseBracket, pos + 1))
        } else if b == 60 {
            Ok((Token::Less, pos + 1))
        } else if b == 62 {
            Ok((Token::Greater, pos + 1))
        } else if b == 58 {
            Ok((Token::Colon, pos + 1))
        } else if b == 123 {
            Ok((Token::OpenBrace, pos + 1))
        } else if b == 125 {
            Ok((Token::CloseBrace, pos + 1))
        } else {
            Err(Error::TypeMismatch)
        }
    }

    fn token(&self, pos: usize, after_dot: bool) -> (r: Result<(Token, usize), Error>)
        requires
            self.ok(),
            pos < self.len,
        ensures
            token_result_view(r) == next_token(self.text@, pos as int, after_dot),
            r matches Ok((t, end)) ==> end <= self.len,
    {
        let b = self.peek(pos, 0);
        if is_digit_byte(b) {
            self.number(pos, after_dot)
        } else if b == 98 && self.peek(pos, 1) == 39 {
            match self.single_quoted(pos + 1) {
                Ok((value, end)) => Ok((Token::Byte { value }, end)),
                Err(e) => Err(e),
            }
        } else if b == 98 && self.peek(pos, 1) == 34 {
            match self.quoted(pos + 1) {
                Ok((bytes, end)) => Ok((Token::ByteStr { bytes }, end)),
                Err(e) => Err(e),
            }
        } else if is_ident_start_byte(b) {
            let end = self.run(pos, CharClass::Word);
            Ok((Token::Ident { name: self.slice(pos, end) }, end))
        } else if b == 34 {
            match self.quoted(pos) {
                Ok((bytes, end)) => Ok((Token::Str { bytes }, end)),
                Err(e) => Err(e),
            }
        } else if b == 39 {
            match self.single_quoted(pos) {
                Ok((value, end)) => Ok((Token::Char { code: value as u32 }, end)),
                Err(e) => Err(e),
            }
        } else {
            self.punctuation(pos)
        }
    }
}

/// The model of a token and its end, or the error.
pub open spec fn token_result_view(r: Result<(Token, usize), Error>) -> Result<
    (TokenModel, int),
    Error,
> {
    match r {
        Ok((t, end)) => Ok((t@, end as int)),
        Err(e) => Err(e),
    }
}

/// The models of a list of tokens, or the error.
pub open spec fn tokens_result_view(r: Result<Vec<Token>, Error>) -> Result<
    Seq<TokenModel>,
    Error,
> {
    match r {
        Ok(tokens) => Ok(token_views(tokens@)),
        Err(e) => Err(e),
    }
}

fn class_has(class: CharClass, b: u8) -> (r: bool)
    ensures
        r == in_class(class, b),
{
    match class {
        CharClass::Word => is_ident_start_byte(b) || is_digit_byte(b),
        CharClass::Decimal => is_digit_byte(b) || b == 95,
        CharClass::Hex => is_digit_byte(b) || (97 <= b && b <= 102) || (65 <= b && b <= 70) || b
            == 95,
        CharClass::Quoted => b != 0 && b != 34 && b != 92,
    }
}

fn is_digit_byte(b: u8) -> (r: bool)
    ensures
        r == is_digit(b),
{
    48 <= b && b <= 57
}

fn is_ident_start_byte(b: u8) -> (r: bool)
    ensures
        r == is_ident_start(b),
{
    (97 <= b && b <= 122) || (65 <= b && b <= 90) || b == 95
}

fn is_blank_byte(b: u8) -> (r: bool)
    ensures
        r == is_blank(b),
{
    b == 32 || b == 9 || b == 10 || b == 13
}

fn digit_of(b: u8) -> (r: u8)
    ensures
        r == digit_value(b),
        r < 16,
{
    if 48 <= b && b <= 57 {
        b - 48
    } else if 97 <= b && b <= 102 {
        b - 87
    } else if 65 <= b && b <= 70 {
        b - 55
    } else {
        0
    }
}

/// Splits `text` into its tokens; see [`lex_spec`].
pub fn lex(text: &str) -> (r: Result<Vec<Token>, Error>)
    ensures
        tokens_result_view(r) == lex_spec(text@),
{
    if !text.is_ascii() {
        return Err(Error::TypeMismatch);
    }
    proof {
        vstd::string::is_ascii_spec_bytes(text);
        assert(text.spec_bytes().len() == text@.len());
    }
    let len: usize = text.as_bytes().len();
    assert(len == text@.len());
    let src = Source { text, len };
    let mut tokens: Vec<Token> = Vec::new();
    let mut pos: usize = 0;
    let mut after_dot: bool = false;
    assert(token_views(tokens@) =~= Seq::<TokenModel>::empty());
    while pos < src.len
        invariant
            src.ok(),
            src.text@ == text@,
            pos <= src.len,
            lex_from(text@, 0, false, Seq::empty()) == lex_from(
                text@,
                pos as int,
                after_dot,
                token_views(tokens@),
            ),
        decreases src.len - pos,
    {
        if is_blank_byte(src.peek(pos, 0)) {
            pos += 1;
        } else {
            match src.token(pos, after_dot) {
                Err(e) => {
                    return Err(e);
                },
                Ok((token, end)) => {
                    if end <= pos {
                        return Err(Error::TypeMismatch);
                    }
                    after_dot = match token {
                        Token::Dot => true,
                        _ => false,
                    };
                    let ghost before = token_views(tokens@);
                    tokens.push(token);
                    assert(token_views(tokens@) =~= before.push(token@));
                    pos = end;
                },
            }
        }
    }
    Ok(tokens)
}

} // verus!
