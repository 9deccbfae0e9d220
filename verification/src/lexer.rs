//! The lexer: turns the description text into a token stream.
//!
//! Tokens are identifiers, integer literals (decimal, `0x..` hexadecimal,
//! `0b..` binary), and the punctuation of the grammar.  Whitespace and
//! `//` line comments separate tokens.  Every token carries the byte
//! position it starts at; a malformed literal or a foreign byte is a
//! positioned error.
//!
//! The whole tokenization is specified: `spec_tokens` is the mathematical
//! tokenization of a byte sequence, and `lex` returns exactly its result —
//! the token list where one exists, an error where none does.

use vstd::prelude::*;
use crate::ast::{is_ident_start, is_ident_continue, ident_wf};

verus! {

/// One token of the description language.
#[derive(Debug)]
pub enum TokenKind {
    Ident(Vec<u8>),
    Int(u64),
    /// `@`
    At,
    /// `=`
    Eq,
    /// `=>`
    FatArrow,
    /// `..`
    DotDot,
    /// `,`
    Comma,
    /// `:`
    Colon,
    /// `{`
    LBrace,
    /// `}`
    RBrace,
    /// `[`
    LBracket,
    /// `]`
    RBracket,
    /// `(`
    LParen,
    /// `)`
    RParen,
}

#[derive(Debug)]
pub struct Token {
    pub kind: TokenKind,
    pub pos: usize,
}

/// The mathematical image of a token kind.
pub ghost enum TokenKindSpec {
    Ident(Seq<u8>),
    Int(u64),
    At,
    Eq,
    FatArrow,
    DotDot,
    Comma,
    Colon,
    LBrace,
    RBrace,
    LBracket,
    RBracket,
    LParen,
    RParen,
}

/// The mathematical image of a token.
pub ghost struct TokenSpec {
    pub kind: TokenKindSpec,
    pub pos: int,
}

impl View for Token {
    type V = TokenSpec;

    open spec fn view(&self) -> TokenSpec {
        TokenSpec {
            kind: match self.kind {
                TokenKind::Ident(s) => TokenKindSpec::Ident(s@),
                TokenKind::Int(v) => TokenKindSpec::Int(v),
                TokenKind::At => TokenKindSpec::At,
                TokenKind::Eq => TokenKindSpec::Eq,
                TokenKind::FatArrow => TokenKindSpec::FatArrow,
                TokenKind::DotDot => TokenKindSpec::DotDot,
                TokenKind::Comma => TokenKindSpec::Comma,
                TokenKind::Colon => TokenKindSpec::Colon,
                TokenKind::LBrace => TokenKindSpec::LBrace,
                TokenKind::RBrace => TokenKindSpec::RBrace,
                TokenKind::LBracket => TokenKindSpec::LBracket,
                TokenKind::RBracket => TokenKindSpec::RBracket,
                TokenKind::LParen => TokenKindSpec::LParen,
                TokenKind::RParen => TokenKindSpec::RParen,
            },
            pos: self.pos as int,
        }
    }
}

/// The images of a token list.
pub open spec fn token_views(ts: Seq<Token>) -> Seq<TokenSpec>
    decreases ts,
{
    if ts.len() == 0 {
        Seq::empty()
    } else {
        token_views(ts.drop_last()).push(ts.last()@)
    }
}

/// A lexing failure at a byte position.
#[derive(Clone, Copy, PartialEq, Eq, Structural, Debug)]
pub struct LexError {
    pub pos: usize,
}

/// A token whose payload is well-formed.
pub open spec fn token_wf(t: Token) -> bool {
    match t.kind {
        TokenKind::Ident(s) => ident_wf(s@),
        _ => true,
    }
}

fn ident_start(b: u8) -> (r: bool)
    ensures
        r == is_ident_start(b),
{
    (0x41 <= b && b <= 0x5a) || (0x61 <= b && b <= 0x7a) || b == 0x5f
}

fn ident_continue(b: u8) -> (r: bool)
    ensures
        r == is_ident_continue(b),
{
    ident_start(b) || (0x30 <= b && b <= 0x39)
}

/// The numeric value of a digit byte, or a negative number where the byte
/// is no digit.
pub open spec fn digit_val(b: u8) -> int {
    if 0x30 <= b <= 0x39 {
        b - 0x30
    } else if 0x61 <= b <= 0x66 {
        b - 0x61 + 10
    } else if 0x41 <= b <= 0x46 {
        b - 0x41 + 10
    } else {
        -1
    }
}

fn digit_of(b: u8, base: u64) -> (r: Option<u64>)
    requires
        base == 2 || base == 10 || base == 16,
    ensures
        match r {
            Some(d) => digit_val(b) == d && d < base,
            None => !(0 <= digit_val(b) < base),
        },
{
    let v: u64 = if 0x30 <= b && b <= 0x39 {
        (b - 0x30) as u64
    } else if 0x61 <= b && b <= 0x66 {
        (b - 0x61 + 10) as u64
    } else if 0x41 <= b && b <= 0x46 {
        (b - 0x41 + 10) as u64
    } else {
        return None;
    };
    if v < base {
        Some(v)
    } else {
        None
    }
}

/// A whitespace byte: space, tab, line feed, carriage return.
pub open spec fn is_ws(b: u8) -> bool {
    b == 0x20 || b == 0x09 || b == 0x0a || b == 0x0d
}

/// The first position at or after `i` that ends a line comment: a line
/// feed, or the end of the text.
pub open spec fn comment_end(s: Seq<u8>, i: int) -> int
    decreases s.len() - i,
{
    if i >= s.len() || s[i] == 0x0a {
        i
    } else {
        comment_end(s, i + 1)
    }
}

/// The first position at or after `i` that no identifier byte occupies.
pub open spec fn ident_end(s: Seq<u8>, i: int) -> int
    decreases s.len() - i,
{
    if i >= s.len() || !is_ident_continue(s[i]) {
        i
    } else {
        ident_end(s, i + 1)
    }
}

/// Fold the digits of the given base from position `i` into `acc`:
/// the value and the position after the digits, or nothing where the
/// literal exceeds the 64-bit domain.
pub open spec fn scan_digits(s: Seq<u8>, i: int, base: u64, acc: u64) -> Option<(u64, int)>
    decreases s.len() - i,
{
    if i >= s.len() || !(0 <= digit_val(s[i]) < base) {
        Some((acc, i))
    } else {
        let d = digit_val(s[i]) as u64;
        if acc as int > (0xffff_ffff_ffff_ffff - d as int) / (base as int) {
            None
        } else {
            scan_digits(s, i + 1, base, ((acc * base + d) as u64))
        }
    }
}

/// The base and the first digit position of an integer literal at `i`:
/// `0x`/`0X` and `0b`/`0B` prefixes select sixteen and two.
pub open spec fn number_prefix(s: Seq<u8>, i: int) -> (u64, int) {
    if s[i] == 0x30 && i + 1 < s.len() && (s[i + 1] == 0x78 || s[i + 1] == 0x58) {
        (16u64, i + 2)
    } else if s[i] == 0x30 && i + 1 < s.len() && (s[i + 1] == 0x62 || s[i + 1] == 0x42) {
        (2u64, i + 2)
    } else {
        (10u64, i)
    }
}

/// A recursion step never moves backwards or past the end.
pub open spec fn next_i(end: int, i: int, len: int) -> int {
    if i + 1 <= end <= len {
        end
    } else {
        i + 1
    }
}

/// The tokenization of `s` from position `i`, the tokens before it being
/// `acc`: every byte of the language adds its token and moves on;
/// whitespace and comments are skipped; anything else fails.
pub open spec fn spec_tokens_from(s: Seq<u8>, i: int, acc: Seq<TokenSpec>) -> Option<
    Seq<TokenSpec>,
>
    decreases s.len() - i,
{
    if i < 0 || i >= s.len() {
        Some(acc)
    } else {
        let b = s[i];
        if is_ws(b) {
            spec_tokens_from(s, i + 1, acc)
        } else if b == 0x2f {
            if i + 1 < s.len() && s[i + 1] == 0x2f {
                spec_tokens_from(s, next_i(comment_end(s, i + 2), i, s.len() as int), acc)
            } else {
                None
            }
        } else if b == 0x40 {
            spec_tokens_from(s, i + 1, acc.push(TokenSpec { kind: TokenKindSpec::At, pos: i }))
        } else if b == 0x3d {
            if i + 1 < s.len() && s[i + 1] == 0x3e {
                spec_tokens_from(
                    s,
                    i + 2,
                    acc.push(TokenSpec { kind: TokenKindSpec::FatArrow, pos: i }),
                )
            } else {
                spec_tokens_from(
                    s,
                    i + 1,
                    acc.push(TokenSpec { kind: TokenKindSpec::Eq, pos: i }),
                )
            }
        } else if b == 0x2e {
            if i + 1 < s.len() && s[i + 1] == 0x2e {
                spec_tokens_from(
                    s,
                    i + 2,
                    acc.push(TokenSpec { kind: TokenKindSpec::DotDot, pos: i }),
                )
            } else {
                None
            }
        } else if b == 0x2c {
            spec_tokens_from(
                s,
                i + 1,
                acc.push(TokenSpec { kind: TokenKindSpec::Comma, pos: i }),
            )
        } else if b == 0x3a {
            spec_tokens_from(
                s,
                i + 1,
                acc.push(TokenSpec { kind: TokenKindSpec::Colon, pos: i }),
            )
        } else if b == 0x7b {
            spec_tokens_from(
                s,
                i + 1,
                acc.push(TokenSpec { kind: TokenKindSpec::LBrace, pos: i }),
            )
        } else if b == 0x7d {
            spec_tokens_from(
                s,
                i + 1,
                acc.push(TokenSpec { kind: TokenKindSpec::RBrace, pos: i }),
            )
        } else if b == 0x5b {
            spec_tokens_from(
                s,
                i + 1,
                acc.push(TokenSpec { kind: TokenKindSpec::LBracket, pos: i }),
            )
        } else if b == 0x5d {
            spec_tokens_from(
                s,
                i + 1,
                acc.push(TokenSpec { kind: TokenKindSpec::RBracket, pos: i }),
            )
        } else if b == 0x28 {
            spec_tokens_from(
                s,
                i + 1,
                acc.push(TokenSpec { kind: TokenKindSpec::LParen, pos: i }),
            )
        } else if b == 0x29 {
            spec_tokens_from(
                s,
                i + 1,
                acc.push(TokenSpec { kind: TokenKindSpec::RParen, pos: i }),
            )
        } else if 0x30 <= b <= 0x39 {
            let base = number_prefix(s, i).0;
            let dstart = number_prefix(s, i).1;
            match scan_digits(s, dstart, base, 0u64) {
                None => None,
                Some(scanned) => {
                    if scanned.1 == dstart {
                        None
                    } else if scanned.1 < s.len() && is_ident_start(s[scanned.1]) {
                        None
                    } else {
                        spec_tokens_from(
                            s,
                            next_i(scanned.1, i, s.len() as int),
                            acc.push(
                                TokenSpec { kind: TokenKindSpec::Int(scanned.0), pos: i },
                            ),
                        )
                    }
                },
            }
        } else if is_ident_start(b) {
            let end = ident_end(s, i + 1);
            spec_tokens_from(
                s,
                next_i(end, i, s.len() as int),
                acc.push(
                    TokenSpec { kind: TokenKindSpec::Ident(s.subrange(i, end)), pos: i },
                ),
            )
        } else {
            None
        }
    }
}

/// The tokenization of a whole text.
pub open spec fn spec_tokens(s: Seq<u8>) -> Option<Seq<TokenSpec>> {
    spec_tokens_from(s, 0, Seq::empty())
}

/// Tokenize the description text: exactly the mathematical tokenization —
/// its token list where it exists, an error where it does not.
pub fn lex(src: &[u8]) -> (r: Result<Vec<Token>, LexError>)
    ensures
        match r {
            Ok(toks) => spec_tokens(src@) == Some(token_views(toks@)) && (forall|i: int|
                0 <= i < toks@.len() ==> token_wf(#[trigger] toks@[i])),
            Err(_e) => spec_tokens(src@) is None,
        },
{
    let n = src.len();
    let mut toks: Vec<Token> = Vec::new();
    let mut i: usize = 0;
    proof {
        assert(token_views(toks@) =~= Seq::<TokenSpec>::empty());
    }
    while i < n
        invariant
            i <= n,
            n == src@.len(),
            spec_tokens_from(src@, i as int, token_views(toks@)) == spec_tokens(src@),
            forall|k: int| 0 <= k < toks@.len() ==> token_wf(#[trigger] toks@[k]),
        decreases n - i,
    {
        let ghost i0 = i as int;
        let ghost toks0 = toks@;
        let ghost tv0 = token_views(toks@);
        let b = src[i];
        if b == 0x20 || b == 0x09 || b == 0x0a || b == 0x0d {
            i = i + 1;
        } else if b == 0x2f {
            // a comment runs to the end of the line
            if i + 1 < n && src[i + 1] == 0x2f {
                let start = i;
                i = i + 2;
                while i < n && src[i] != 0x0a
                    invariant
                        start + 2 <= i <= n,
                        n == src@.len(),
                        comment_end(src@, start + 2) == comment_end(src@, i as int),
                    decreases n - i,
                {
                    i = i + 1;
                }
                proof {
                    assert(comment_end(src@, i as int) == i as int);
                    assert(next_i(comment_end(src@, i0 + 2), i0, src@.len() as int)
                        == i as int);
                }
            } else {
                proof {
                    assert(spec_tokens(src@) is None);
                }
                return Err(LexError { pos: i });
            }
        } else if b == 0x40 {
            toks.push(Token { kind: TokenKind::At, pos: i });
            i = i + 1;
        } else if b == 0x3d {
            // `=` or `=>`
            if i + 1 < n && src[i + 1] == 0x3e {
                toks.push(Token { kind: TokenKind::FatArrow, pos: i });
                i = i + 2;
            } else {
                toks.push(Token { kind: TokenKind::Eq, pos: i });
                i = i + 1;
            }
        } else if b == 0x2e {
            // only `..` is meaningful
            if i + 1 < n && src[i + 1] == 0x2e {
                toks.push(Token { kind: TokenKind::DotDot, pos: i });
                i = i + 2;
            } else {
                proof {
                    assert(spec_tokens(src@) is None);
                }
                return Err(LexError { pos: i });
            }
        } else if b == 0x2c {
            toks.push(Token { kind: TokenKind::Comma, pos: i });
            i = i + 1;
        } else if b == 0x3a {
            toks.push(Token { kind: TokenKind::Colon, pos: i });
            i = i + 1;
        } else if b == 0x7b {
            toks.push(Token { kind: TokenKind::LBrace, pos: i });
            i = i + 1;
        } else if b == 0x7d {
            toks.push(Token { kind: TokenKind::RBrace, pos: i });
            i = i + 1;
        } else if b == 0x5b {
            toks.push(Token { kind: TokenKind::LBracket, pos: i });
            i = i + 1;
        } else if b == 0x5d {
            toks.push(Token { kind: TokenKind::RBracket, pos: i });
            i = i + 1;
        } else if b == 0x28 {
            toks.push(Token { kind: TokenKind::LParen, pos: i });
            i = i + 1;
        } else if b == 0x29 {
            toks.push(Token { kind: TokenKind::RParen, pos: i });
            i = i + 1;
        } else if 0x30 <= b && b <= 0x39 {
            let start = i;
            let mut base: u64 = 10;
            if b == 0x30 && i + 1 < n && (src[i + 1] == 0x78 || src[i + 1] == 0x58) {
                base = 16;
                i = i + 2;
            } else if b == 0x30 && i + 1 < n && (src[i + 1] == 0x62 || src[i + 1] == 0x42) {
                base = 2;
                i = i + 2;
            }
            proof {
                assert(number_prefix(src@, i0) == (base, i as int));
            }
            let ghost dstart = i as int;
            let mut val: u64 = 0;
            let mut ndigits: u64 = 0;
            while i < n
                invariant
                    i <= n,
                    n == src@.len(),
                    base == 2 || base == 10 || base == 16,
                    0 <= i0 < n,
                    src@[i0] == b,
                    0x30 <= b <= 0x39,
                    number_prefix(src@, i0) == (base, dstart),
                    dstart <= i,
                    ndigits == i - dstart,
                    scan_digits(src@, dstart, base, 0u64) == scan_digits(
                        src@,
                        i as int,
                        base,
                        val,
                    ),
                    spec_tokens_from(src@, i0, tv0) == spec_tokens(src@),
                ensures
                    i <= n,
                    i == n || !(0 <= digit_val(src@[i as int]) < base),
                decreases n - i,
            {
                let d = match digit_of(src[i], base) {
                    Some(d) => d,
                    None => {
                        break ;
                    },
                };
                if val > (u64::MAX - d) / base {
                    // literal too large for the 64-bit domain
                    proof {
                        assert(scan_digits(src@, i as int, base, val) is None);
                        assert(spec_tokens_from(src@, i0, tv0) is None);
                    }
                    return Err(LexError { pos: start });
                }
                proof {
                    let vv = val as int;
                    let bb = base as int;
                    let dd = d as int;
                    let mx = u64::MAX as int;
                    assert(vv <= (mx - dd) / bb && bb >= 2 && 0 <= dd < bb && 0 <= vv ==> vv
                        * bb + dd <= mx) by (nonlinear_arith);
                }
                val = val * base + d;
                ndigits = ndigits + 1;
                i = i + 1;
            }
            proof {
                assert(scan_digits(src@, i as int, base, val) == Some((val, i as int)));
            }
            if ndigits == 0 {
                proof {
                    assert(spec_tokens_from(src@, i0, tv0) is None);
                }
                return Err(LexError { pos: start });
            }
            // a literal must not run straight into an identifier
            if i < n && ident_start(src[i]) {
                proof {
                    assert(spec_tokens_from(src@, i0, tv0) is None);
                }
                return Err(LexError { pos: i });
            }
            toks.push(Token { kind: TokenKind::Int(val), pos: start });
            proof {
                assert(next_i(i as int, i0, src@.len() as int) == i as int);
            }
        } else if ident_start(b) {
            let start = i;
            let mut s: Vec<u8> = Vec::new();
            s.push(b);
            i = i + 1;
            proof {
                assert(s@ =~= src@.subrange(start as int, i as int));
            }
            while i < n
                invariant
                    start < i <= n,
                    n == src@.len(),
                    s@ == src@.subrange(start as int, i as int),
                    ident_wf(s@),
                    ident_end(src@, start + 1) == ident_end(src@, i as int),
                ensures
                    i <= n,
                    i == n || !is_ident_continue(src@[i as int]),
                decreases n - i,
            {
                let c = src[i];
                if !ident_continue(c) {
                    break ;
                }
                s.push(c);
                i = i + 1;
                proof {
                    assert(src@.subrange(start as int, i as int) =~= src@.subrange(
                        start as int,
                        i - 1,
                    ).push(src@[i - 1]));
                }
            }
            proof {
                assert(ident_end(src@, i as int) == i as int);
                assert(next_i(ident_end(src@, i0 + 1), i0, src@.len() as int) == i as int);
            }
            toks.push(Token { kind: TokenKind::Ident(s), pos: start });
        } else {
            proof {
                assert(spec_tokens(src@) is None);
            }
            return Err(LexError { pos: i });
        }
        proof {
            if toks@.len() != toks0.len() {
                assert(toks@.drop_last() =~= toks0);
                assert(token_views(toks@) == token_views(toks0).push(toks@.last()@));
            }
            assert(spec_tokens_from(src@, i as int, token_views(toks@)) == spec_tokens_from(
                src@,
                i0,
                tv0,
            ));
        }
    }
    proof {
        assert(spec_tokens_from(src@, n as int, token_views(toks@)) == Some(
            token_views(toks@),
        ));
    }
    Ok(toks)
}

} // verus!
