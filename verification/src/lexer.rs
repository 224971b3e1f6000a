//! The lexer: UTF-8 text to a token stream between `Bof` and `Eof`
//! sentinels. The unary/binary reading of `+` and `-` is decided here,
//! by whether the nearest preceding non-space token can end a value.

use vstd::prelude::*;
use crate::error::{Error, ErrorKind, lex_error};
use crate::token::{Token, value_ends_spec};

verus! {

/// Whether the nearest non-space token before index `i` can end a value
/// (`false` at the start of the stream).
pub open spec fn prev_ends_value(ts: Seq<Token>, i: int) -> bool
    decreases i,
{
    if i <= 0 {
        false
    } else if ts[i - 1] is Space {
        prev_ends_value(ts, i - 1)
    } else {
        value_ends_spec(ts[i - 1])
    }
}

/// The lexical law for `+` and `-`: at every position the binary reading
/// is chosen iff the nearest preceding non-space token can end a value.
pub open spec fn plus_minus_disambiguated(ts: Seq<Token>) -> bool {
    forall|i: int|
        0 <= i < ts.len() ==> (((#[trigger] ts[i]) is UnaryPlus || ts[i] is BinaryPlus || ts[i]
            is UnaryMinus || ts[i] is BinaryMinus) ==> ((ts[i] is BinaryPlus || ts[i]
            is BinaryMinus) <==> prev_ends_value(ts, i)))
}

/// Tokens before `i` decide `prev_ends_value` at `i`; pushing more does
/// not change it.
proof fn lemma_prev_push(ts: Seq<Token>, t: Token, i: int)
    requires
        0 <= i <= ts.len(),
    ensures
        prev_ends_value(ts.push(t), i) == prev_ends_value(ts, i),
    decreases i,
{
    if i > 0 {
        assert(ts.push(t)[i - 1] == ts[i - 1]);
        lemma_prev_push(ts, t, i - 1);
    }
}

/// The lexer state: the source as characters is read through `&str`
/// positions; tokens come out in order.
struct LexState {
    tokens: Vec<Token>,
    /// Whether the last non-space token pushed can end a value.
    prev_ends: bool,
}

impl LexState {
    spec fn wf(&self) -> bool {
        &&& plus_minus_disambiguated(self.tokens@)
        &&& self.prev_ends == prev_ends_value(self.tokens@, self.tokens@.len() as int)
    }

    /// Push one token, keeping the disambiguation law. A `+` or `-`
    /// token may only be pushed with the reading the law dictates.
    fn push_token(&mut self, t: Token)
        requires
            old(self).wf(),
            (t is UnaryPlus || t is BinaryPlus || t is UnaryMinus || t is BinaryMinus) ==> ((t
                is BinaryPlus || t is BinaryMinus) <==> old(self).prev_ends),
        ensures
            final(self).wf(),
            final(self).tokens@ == old(self).tokens@.push(t),
    {
        let ghost ts = self.tokens@;
        let ghost n = ts.len() as int;
        proof {
            lemma_prev_push(ts, t, n);
            assert forall|i: int|
                0 <= i < ts.push(t).len() implies (((#[trigger] ts.push(t)[i]) is UnaryPlus
                || ts.push(t)[i] is BinaryPlus || ts.push(t)[i] is UnaryMinus || ts.push(t)[i]
                is BinaryMinus) ==> ((ts.push(t)[i] is BinaryPlus || ts.push(t)[i] is BinaryMinus)
                <==> prev_ends_value(ts.push(t), i))) by {
                if i < n {
                    assert(ts.push(t)[i] == ts[i]);
                    lemma_prev_push(ts, t, i);
                } else {
                    assert(ts.push(t)[i] == t);
                    lemma_prev_push(ts, t, n);
                }
            }
        }
        let ends = match &t {
            Token::Space => self.prev_ends,
            _ => t.value_ends(),
        };
        self.tokens.push(t);
        self.prev_ends = ends;
        proof {
            let new = self.tokens@;
            if !(new[n] is Space) {
                assert(prev_ends_value(new, n + 1) == value_ends_spec(new[n]));
            } else {
                assert(prev_ends_value(new, n + 1) == prev_ends_value(new, n));
                lemma_prev_push(ts, t, n);
            }
        }
    }
}

/// Whether a character may continue a word (letters, digits, `_`).
fn is_word_char(c: char) -> (r: bool) {
    let u = c as u32;
    (u >= 97 && u <= 122) || (u >= 65 && u <= 90) || (u >= 48 && u <= 57) || u == 95
}

/// Whether a character is a blank (space or tab).
fn is_space_char(c: char) -> (r: bool) {
    c == ' ' || c == '\t'
}

/// Whether a character is a decimal digit.
fn is_digit(c: char) -> (r: bool) {
    let u = c as u32;
    u >= 48 && u <= 57
}

/// One decimal digit as text.
fn digit_str(d: usize) -> (r: String)
    requires
        d < 10,
{
    if d == 0 {
        "0".to_owned()
    } else if d == 1 {
        "1".to_owned()
    } else if d == 2 {
        "2".to_owned()
    } else if d == 3 {
        "3".to_owned()
    } else if d == 4 {
        "4".to_owned()
    } else if d == 5 {
        "5".to_owned()
    } else if d == 6 {
        "6".to_owned()
    } else if d == 7 {
        "7".to_owned()
    } else if d == 8 {
        "8".to_owned()
    } else {
        "9".to_owned()
    }
}

/// A number as decimal text (for positions in messages).
fn decimal_digits(n: usize) -> (s: String) {
    if n == 0 {
        return "0".to_owned();
    }
    let mut v: usize = n;
    let mut s = String::new();
    while v > 0
        decreases v,
    {
        let d = v % 10;
        let ds = digit_str(d);
        s = ds.concat(s.as_str());
        v = v / 10;
    }
    s
}

/// A lexing error carrying the offending character offset.
fn lex_error_at(msg: &str, pos: usize) -> (e: Error)
    ensures
        e.kind == ErrorKind::LexError,
{
    let mut m = msg.to_owned();
    m.append(" at character ");
    let digits = decimal_digits(pos);
    m.append(digits.as_str());
    lex_error(m.as_str())
}

/// Map a word to its keyword token, or to a word token.
fn word_token(w: String) -> (t: Token)
    ensures
        !(t is UnaryPlus) && !(t is BinaryPlus) && !(t is UnaryMinus) && !(t is BinaryMinus),
{
    if w == "class".to_owned() {
        Token::KwClass
    } else if w == "end".to_owned() {
        Token::KwEnd
    } else if w == "def".to_owned() {
        Token::KwDef
    } else if w == "var".to_owned() {
        Token::KwVar
    } else if w == "and".to_owned() {
        Token::KwAnd
    } else if w == "or".to_owned() {
        Token::KwOr
    } else if w == "not".to_owned() {
        Token::KwNot
    } else if w == "if".to_owned() {
        Token::KwIf
    } else if w == "unless".to_owned() {
        Token::KwUnless
    } else if w == "while".to_owned() {
        Token::KwWhile
    } else if w == "break".to_owned() {
        Token::KwBreak
    } else if w == "then".to_owned() {
        Token::KwThen
    } else if w == "else".to_owned() {
        Token::KwElse
    } else if w == "self".to_owned() {
        Token::KwSelf
    } else if w == "true".to_owned() {
        Token::KwTrue
    } else if w == "false".to_owned() {
        Token::KwFalse
    } else {
        Token::LowerWord(w)
    }
}

/// Lex a source text. On success the stream starts with `Bof`, ends with
/// `Eof`, and every `+`/`-` token is disambiguated by the rule of
/// [`plus_minus_disambiguated`].
pub fn lex(src: &str) -> (r: Result<Vec<Token>, Error>)
    ensures
        r matches Ok(ts) ==> ts@.len() >= 2 && ts@[0] is Bof && ts@[ts@.len() - 1] is Eof
            && plus_minus_disambiguated(ts@),
        src@.len() == 0 ==> (r matches Ok(ts) && ts@.len() == 2),
        r matches Err(e) ==> e.kind == ErrorKind::LexError,
{
    let n = src.unicode_len();
    let mut st = LexState { tokens: Vec::new(), prev_ends: false };
    proof {
        assert(st.tokens@.len() == 0);
    }
    st.push_token(Token::Bof);
    let mut pos: usize = 0;
    while pos < n
        invariant
            n == src@.len(),
            0 <= pos,
            st.wf(),
            st.tokens@.len() >= 1,
            st.tokens@[0] is Bof,
            n == 0 ==> st.tokens@.len() == 1,
        decreases n - pos,
    {
        let c = src.get_char(pos);
        let u = c as u32;
        if c == ' ' || c == '\t' {
            let mut end = pos + 1;
            while end < n && is_space_char(src.get_char(end))
                invariant
                    n == src@.len(),
                    pos < end <= n,
                decreases n - end,
            {
                end = end + 1;
            }
            st.push_token(Token::Space);
            pos = end;
        } else if c == '\n' || c == ';' {
            st.push_token(Token::Separator);
            pos = pos + 1;
        } else if c == '#' {
            let mut end = pos + 1;
            while end < n && src.get_char(end) != '\n'
                invariant
                    n == src@.len(),
                    pos < end <= n,
                decreases n - end,
            {
                end = end + 1;
            }
            st.push_token(Token::Separator);
            pos = if end < n {
                end + 1
            } else {
                end
            };
        } else if (u >= 65 && u <= 90) || (u >= 97 && u <= 122) || u == 95 {
            let mut end = pos + 1;
            while end < n && is_word_char(src.get_char(end))
                invariant
                    n == src@.len(),
                    pos < end <= n,
                decreases n - end,
            {
                end = end + 1;
            }
            let w = src.substring_char(pos, end).to_owned();
            if u >= 65 && u <= 90 {
                st.push_token(Token::UpperWord(w));
            } else {
                st.push_token(word_token(w));
            }
            pos = end;
        } else if u >= 48 && u <= 57 {
            let mut end = pos + 1;
            while end < n && is_digit(src.get_char(end))
                invariant
                    n == src@.len(),
                    pos < end <= n,
                decreases n - end,
            {
                end = end + 1;
            }
            // a fraction part makes a float lexeme
            if end < n && src.get_char(end) == '.' && end + 1 < n && is_digit(
                src.get_char(end + 1),
            ) {
                let mut end2 = end + 2;
                while end2 < n && is_digit(src.get_char(end2))
                    invariant
                        n == src@.len(),
                        pos < end2 <= n,
                    decreases n - end2,
                {
                    end2 = end2 + 1;
                }
                let w = src.substring_char(pos, end2).to_owned();
                st.push_token(Token::Number(w));
                pos = end2;
            } else {
                let w = src.substring_char(pos, end).to_owned();
                st.push_token(Token::Number(w));
                pos = end;
            }
        } else if c == '"' {
            let mut end = pos + 1;
            while end < n && src.get_char(end) != '"'
                invariant
                    n == src@.len(),
                    pos < end <= n,
                decreases n - end,
            {
                end = end + 1;
            }
            if end == n {
                return Err(lex_error_at("unterminated string literal", pos));
            }
            let w = src.substring_char(pos + 1, end).to_owned();
            st.push_token(Token::Str(w));
            pos = end + 1;
        } else if c == '@' {
            if pos + 1 < n {
                let c2 = src.get_char(pos + 1);
                let u2 = c2 as u32;
                if (u2 >= 97 && u2 <= 122) || u2 == 95 {
                    let mut end = pos + 2;
                    while end < n && is_word_char(src.get_char(end))
                        invariant
                            n == src@.len(),
                            pos + 1 < end <= n,
                        decreases n - end,
                    {
                        end = end + 1;
                    }
                    let w = src.substring_char(pos + 1, end).to_owned();
                    st.push_token(Token::IVar(w));
                    pos = end;
                } else {
                    st.push_token(Token::At);
                    pos = pos + 1;
                }
            } else {
                st.push_token(Token::At);
                pos = pos + 1;
            }
        } else if c == '+' || c == '-' {
            let next = if pos + 1 < n {
                Some(src.get_char(pos + 1))
            } else {
                None
            };
            if c == '-' && next == Some('>') {
                st.push_token(Token::RightArrow);
                pos = pos + 2;
            } else if next == Some('@') {
                if c == '+' {
                    st.push_token(Token::UPlusMethod);
                } else {
                    st.push_token(Token::UMinusMethod);
                }
                pos = pos + 2;
            } else {
                let binary = st.prev_ends;
                let t = if c == '+' {
                    if binary {
                        Token::BinaryPlus
                    } else {
                        Token::UnaryPlus
                    }
                } else {
                    if binary {
                        Token::BinaryMinus
                    } else {
                        Token::UnaryMinus
                    }
                };
                st.push_token(t);
                pos = pos + 1;
            }
        } else {
            let next = if pos + 1 < n {
                Some(src.get_char(pos + 1))
            } else {
                None
            };
            let two: Option<Token> = match (c, next) {
                ('=', Some('=')) => Some(Token::EqEq),
                ('!', Some('=')) => Some(Token::NotEq),
                ('<', Some('=')) => Some(Token::LessEq),
                ('>', Some('=')) => Some(Token::GreaterEq),
                ('<', Some('<')) => Some(Token::LShift),
                ('>', Some('>')) => Some(Token::RShift),
                ('&', Some('&')) => Some(Token::AndAnd),
                ('|', Some('|')) => Some(Token::OrOr),
                (':', Some(':')) => Some(Token::ColonColon),
                _ => None,
            };
            match two {
                Some(t) => {
                    st.push_token(t);
                    pos = pos + 2;
                },
                None => {
                    let one: Option<Token> = match c {
                        '(' => Some(Token::LParen),
                        ')' => Some(Token::RParen),
                        '[' => Some(Token::LSqBracket),
                        ']' => Some(Token::RSqBracket),
                        '{' => Some(Token::LBrace),
                        '}' => Some(Token::RBrace),
                        '*' => Some(Token::Mul),
                        '/' => Some(Token::Div),
                        '%' => Some(Token::Mod),
                        '<' => Some(Token::LessThan),
                        '>' => Some(Token::GreaterThan),
                        '=' => Some(Token::Equal),
                        '!' => Some(Token::Bang),
                        '.' => Some(Token::Dot),
                        '~' => Some(Token::Tilde),
                        '?' => Some(Token::Question),
                        ',' => Some(Token::Comma),
                        ':' => Some(Token::Colon),
                        '&' => Some(Token::And),
                        '|' => Some(Token::Or),
                        '^' => Some(Token::Xor),
                        _ => None,
                    };
                    match one {
                        Some(t) => {
                            st.push_token(t);
                            pos = pos + 1;
                        },
                        None => {
                            return Err(lex_error_at("unexpected character", pos));
                        },
                    }
                },
            }
        }
    }
    st.push_token(Token::Eof);
    let r = st.tokens;
    proof {
        assert(r@[r@.len() - 1] is Eof);
    }
    Ok(r)
}

} // verus!
