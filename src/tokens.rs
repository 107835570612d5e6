//! A flat model of the token streams that the attribute grammar reads.
//!
//! Groups are written as an opening and a closing delimiter token, so every
//! stream is a plain sequence and positions are indices into it.
use vstd::prelude::*;
use vstd::string::*;

verus! {

/// The delimiters of a token group.
#[derive(Clone, Copy, Debug, PartialEq, Eq, Structural)]
pub enum Delim {
    Paren,
    Bracket,
    Brace,
    Invisible,
}

/// One token of an attribute's argument stream.
#[derive(Clone, Debug, PartialEq, Eq)]
pub enum Token {
    /// An identifier or keyword, such as `names` or `_`.
    Ident(String),
    /// A single punctuation character; `::` is two `:` tokens.
    Punct(char),
    /// A string literal, holding its value.
    Str(String),
    /// Any other literal, holding its source text.
    Lit(String),
    /// The start of a group.
    Open(Delim),
    /// The end of a group.
    Close(Delim),
}

/// What a token holds, with its text as a sequence of characters.
pub enum TokenV {
    Ident(Seq<char>),
    Punct(char),
    Str(Seq<char>),
    Lit(Seq<char>),
    Open(Delim),
    Close(Delim),
}

impl View for Token {
    type V = TokenV;

    open spec fn view(&self) -> TokenV {
        match self {
            Token::Ident(s) => TokenV::Ident(s@),
            Token::Punct(c) => TokenV::Punct(*c),
            Token::Str(s) => TokenV::Str(s@),
            Token::Lit(s) => TokenV::Lit(s@),
            Token::Open(d) => TokenV::Open(*d),
            Token::Close(d) => TokenV::Close(*d),
        }
    }
}

/// What a token stream holds.
pub open spec fn view_tokens(ts: Seq<Token>) -> Seq<TokenV> {
    ts.map_values(|t: Token| t@)
}

pub open spec fn punct_v(t: TokenV, c: char) -> bool {
    t matches TokenV::Punct(p) && p == c
}

pub open spec fn ident_v(t: TokenV, s: Seq<char>) -> bool {
    t matches TokenV::Ident(i) && i == s
}

/// How far a token moves the nesting depth.
pub open spec fn depth_step(t: TokenV) -> int {
    match t {
        TokenV::Open(_) => 1,
        TokenV::Close(_) => -1,
        _ => 0,
    }
}

/// The index just past the group that is open to depth `d` at `j`: the first
/// closing token that brings the depth to zero, or the end of the stream.
pub open spec fn group_end(ts: Seq<TokenV>, j: int, d: int) -> int
    decreases ts.len() - j,
{
    if j >= ts.len() {
        ts.len() as int
    } else if ts[j] is Close && d <= 1 {
        j + 1
    } else {
        group_end(ts, j + 1, d + depth_step(ts[j]))
    }
}

/// The index just past the token tree that starts at `i`.
pub open spec fn tree_end(ts: Seq<TokenV>, i: int) -> int {
    if i >= ts.len() {
        ts.len() as int
    } else if ts[i] is Open {
        group_end(ts, i + 1, 1)
    } else {
        i + 1
    }
}

pub proof fn lemma_group_end_bounds(ts: Seq<TokenV>, j: int, d: int)
    requires
        0 <= j,
    ensures
        j <= group_end(ts, j, d) <= ts.len() || (j > ts.len() && group_end(ts, j, d) == ts.len()),
    decreases ts.len() - j,
{
    if j < ts.len() && !(ts[j] is Close && d <= 1) {
        lemma_group_end_bounds(ts, j + 1, d + depth_step(ts[j]));
    }
}

pub fn token_is_punct(t: &Token, c: char) -> (r: bool)
    ensures
        r == punct_v(t@, c),
{
    match t {
        Token::Punct(p) => *p == c,
        _ => false,
    }
}

pub fn token_is_ident(t: &Token, s: &str) -> (r: bool)
    ensures
        r == ident_v(t@, s@),
{
    match t {
        Token::Ident(i) => str_eq(i.as_str(), s),
        _ => false,
    }
}

/// Whether two strings hold the same characters.
pub fn str_eq(a: &str, b: &str) -> (r: bool)
    ensures
        r == (a@ == b@),
{
    let n = a.unicode_len();
    if n != b.unicode_len() {
        return false;
    }
    let mut i: usize = 0;
    while i < n
        invariant
            n == a@.len() == b@.len(),
            i <= n,
            a@.subrange(0, i as int) == b@.subrange(0, i as int),
        decreases n - i,
    {
        if a.get_char(i) != b.get_char(i) {
            assert(a@[i as int] != b@[i as int]);
            return false;
        }
        proof {
            assert(a@.subrange(0, i + 1) =~= a@.subrange(0, i as int).push(a@[i as int]));
            assert(b@.subrange(0, i + 1) =~= b@.subrange(0, i as int).push(b@[i as int]));
        }
        i = i + 1;
    }
    assert(a@ =~= a@.subrange(0, n as int));
    assert(b@ =~= b@.subrange(0, n as int));
    true
}

/// The index just past the token tree that starts at `i`.
pub fn skip_tree(ts: &Vec<Token>, i: usize) -> (r: usize)
    requires
        i < ts@.len(),
    ensures
        r == tree_end(view_tokens(ts@), i as int),
        i < r <= ts@.len(),
{
    let ghost tv = view_tokens(ts@);
    let n = ts.len();
    if let Token::Open(_) = &ts[i] {
        assert(tv[i as int] == ts@[i as int]@);
        assert(tree_end(tv, i as int) == group_end(tv, i + 1, 1));
        let mut j: usize = i + 1;
        let mut d: usize = 1;
        while j < ts.len()
            invariant
                i < j <= ts@.len(),
                1 <= d <= j - i,
                tv == view_tokens(ts@),
                group_end(tv, j as int, d as int) == group_end(tv, i + 1, 1),
                tree_end(tv, i as int) == group_end(tv, i + 1, 1),
            decreases ts@.len() - j,
        {
            assert(tv[j as int] == ts@[j as int]@);
            match &ts[j] {
                Token::Close(_) => {
                    if d <= 1 {
                        assert(group_end(tv, j as int, d as int) == j + 1);
                        return j + 1;
                    }
                    d = d - 1;
                },
                Token::Open(_) => {
                    d = d + 1;
                },
                _ => {},
            }
            j = j + 1;
        }
        j
    } else {
        i + 1
    }
}

/// A copy of a token, equal to it.
pub fn copy_token(t: &Token) -> (r: Token)
    ensures
        r == *t,
{
    match t {
        Token::Ident(s) => Token::Ident(s.clone()),
        Token::Punct(c) => Token::Punct(*c),
        Token::Str(s) => Token::Str(s.clone()),
        Token::Lit(s) => Token::Lit(s.clone()),
        Token::Open(d) => Token::Open(*d),
        Token::Close(d) => Token::Close(*d),
    }
}

/// A copy of a token stream, equal to it.
pub fn copy_tokens(ts: &Vec<Token>) -> (r: Vec<Token>)
    ensures
        r@ == ts@,
{
    let r = slice_tokens(ts, 0, ts.len());
    proof { assert(ts@.subrange(0, ts@.len() as int) =~= ts@); }
    r
}

/// The tokens `ts[from..to]`.
pub fn slice_tokens(ts: &Vec<Token>, from: usize, to: usize) -> (r: Vec<Token>)
    requires
        from <= to <= ts@.len(),
    ensures
        r@ == ts@.subrange(from as int, to as int),
        view_tokens(r@) == view_tokens(ts@).subrange(from as int, to as int),
{
    let mut r: Vec<Token> = Vec::new();
    let mut j: usize = from;
    while j < to
        invariant
            from <= j <= to <= ts@.len(),
            r@ == ts@.subrange(from as int, j as int),
        decreases to - j,
    {
        r.push(copy_token(&ts[j]));
        proof {
            assert(ts@.subrange(from as int, j + 1) =~= ts@.subrange(from as int, j as int).push(ts@[j as int]));
        }
        j = j + 1;
    }
    assert(view_tokens(r@) =~= view_tokens(ts@).subrange(from as int, to as int));
    r
}

} // verus!
