//! Name derivation: turning a name template into the key of one field or
//! variant.
//!
//! A template is an expression written as tokens. Its leaves are rewritten
//! one by one and everything else passes through unchanged:
//! - the lone identifier `index` becomes the item's position as a literal;
//! - the lone identifier `discriminant` becomes the item's explicit
//!   discriminant expression;
//! - an identifier or string literal that spells a casing becomes the item's
//!   identifier in that casing (as an identifier or a string literal);
//! - a leaf that starts with `_` loses that prefix and is otherwise kept.
use vstd::prelude::*;
use vstd::string::*;
use crate::casing::{apply_casing, cased, casing_of_ident, casing_of_literal, ident_casing, literal_casing};
use crate::diagnostics::{Diagnostic, ItemKind};
use crate::numbers::{decimal, format_decimal};
use crate::tokens::{copy_token, punct_v, token_is_punct, view_tokens, Token, TokenV};

verus! {

/// The identifier that stands for a template that was never given.
pub open spec fn placeholder() -> Seq<char> {
    "__faible__name_required"@
}

pub open spec fn starts_underscore(s: Seq<char>) -> bool {
    s.len() > 0 && s[0] == '_'
}

/// Whether the token at `i` is a path expression of one segment: neither a
/// segment of a longer path, nor a member after `.`, nor a macro's name.
pub open spec fn lone_path(ts: Seq<TokenV>, i: int) -> bool {
    &&& !(i >= 1 && punct_v(ts[i - 1], '.'))
    &&& !(i >= 2 && punct_v(ts[i - 1], ':') && punct_v(ts[i - 2], ':'))
    &&& !(i + 1 < ts.len() && punct_v(ts[i + 1], '!'))
    &&& !(i + 2 < ts.len() && punct_v(ts[i + 1], ':') && punct_v(ts[i + 2], ':'))
}

/// What the template token at `i` becomes.
pub open spec fn leaf_output(
    ts: Seq<TokenV>,
    i: int,
    ident: Option<Seq<char>>,
    index: nat,
    disc: Option<Seq<TokenV>>,
) -> Seq<TokenV> {
    match ts[i] {
        TokenV::Ident(s) => {
            if lone_path(ts, i) && s == "index"@ {
                seq![TokenV::Lit(decimal(index))]
            } else if lone_path(ts, i) && s == "discriminant"@ {
                match disc {
                    Some(d) => d,
                    None => seq![ts[i]],
                }
            } else if !starts_underscore(s) && ident is None {
                seq![ts[i]]
            } else if ident_casing(s) is Some && ident is Some {
                seq![TokenV::Ident(cased(ident_casing(s)->0, ident->0))]
            } else if s == placeholder() {
                seq![ts[i]]
            } else if starts_underscore(s) {
                seq![TokenV::Ident(s.drop_first())]
            } else {
                seq![ts[i]]
            }
        },
        TokenV::Str(s) => {
            if !starts_underscore(s) && ident is None {
                seq![ts[i]]
            } else if literal_casing(s) is Some && ident is Some {
                seq![TokenV::Str(cased(literal_casing(s)->0, ident->0))]
            } else if starts_underscore(s) {
                seq![TokenV::Str(s.drop_first())]
            } else {
                seq![ts[i]]
            }
        },
        _ => seq![ts[i]],
    }
}

/// The problem, if any, that the template token at `i` reports.
pub open spec fn leaf_error(
    ts: Seq<TokenV>,
    i: int,
    kind: ItemKind,
    named: bool,
    has_disc: bool,
) -> Option<Diagnostic> {
    match ts[i] {
        TokenV::Ident(s) => {
            if lone_path(ts, i) && s == "index"@ {
                None
            } else if lone_path(ts, i) && s == "discriminant"@ {
                if has_disc { None } else { Some(Diagnostic::DiscriminantRequired) }
            } else if !starts_underscore(s) && !named {
                Some(Diagnostic::UnnamedInterpolation)
            } else if ident_casing(s) is Some && named {
                None
            } else if s == placeholder() {
                Some(Diagnostic::NameRequired(kind))
            } else if starts_underscore(s) {
                None
            } else {
                Some(Diagnostic::UnrecognisedIdent)
            }
        },
        TokenV::Str(s) => {
            if !starts_underscore(s) && !named {
                Some(Diagnostic::UnnamedInterpolation)
            } else if literal_casing(s) is Some && named {
                None
            } else if starts_underscore(s) {
                None
            } else {
                Some(Diagnostic::UnrecognisedLiteral)
            }
        },
        _ => None,
    }
}

pub open spec fn opt_seq<A>(o: Option<A>) -> Seq<A> {
    match o {
        Some(a) => seq![a],
        None => Seq::empty(),
    }
}

/// The rewrite of the first `n` template tokens.
pub open spec fn rendered_prefix(
    ts: Seq<TokenV>,
    n: nat,
    ident: Option<Seq<char>>,
    index: nat,
    disc: Option<Seq<TokenV>>,
) -> Seq<TokenV>
    decreases n,
{
    if n == 0 {
        Seq::empty()
    } else {
        rendered_prefix(ts, (n - 1) as nat, ident, index, disc) + leaf_output(ts, n - 1, ident, index, disc)
    }
}

/// The problems that the first `n` template tokens report, in order.
pub open spec fn errors_prefix(ts: Seq<TokenV>, n: nat, kind: ItemKind, named: bool, has_disc: bool) -> Seq<Diagnostic>
    decreases n,
{
    if n == 0 {
        Seq::empty()
    } else {
        errors_prefix(ts, (n - 1) as nat, kind, named, has_disc) + opt_seq(leaf_error(ts, n - 1, kind, named, has_disc))
    }
}

/// The name expression that a template gives an item.
pub open spec fn rendered(ts: Seq<TokenV>, ident: Option<Seq<char>>, index: nat, disc: Option<Seq<TokenV>>) -> Seq<TokenV> {
    rendered_prefix(ts, ts.len(), ident, index, disc)
}

/// The problems that deriving an item's name from a template reports.
pub open spec fn render_errors(ts: Seq<TokenV>, kind: ItemKind, named: bool, has_disc: bool) -> Seq<Diagnostic> {
    errors_prefix(ts, ts.len(), kind, named, has_disc)
}

pub open spec fn opt_chars(o: Option<String>) -> Option<Seq<char>> {
    match o {
        Some(s) => Some(s@),
        None => None,
    }
}

pub open spec fn opt_tokens(o: Option<Vec<Token>>) -> Option<Seq<TokenV>> {
    match o {
        Some(d) => Some(view_tokens(d@)),
        None => None,
    }
}

fn starts_with_underscore(s: &str) -> (r: bool)
    ensures
        r == starts_underscore(s@),
{
    s.unicode_len() > 0 && s.get_char(0) == '_'
}

fn strip_first(s: &str) -> (r: String)
    requires
        s@.len() > 0,
    ensures
        r@ == s@.drop_first(),
{
    let n = s.unicode_len();
    String::from_str(s.substring_char(1, n))
}

fn is_lone_path(ts: &Vec<Token>, i: usize) -> (r: bool)
    requires
        i < ts@.len(),
    ensures
        r == lone_path(view_tokens(ts@), i as int),
{
    let n = ts.len();
    let after_dot = i >= 1 && token_is_punct(&ts[i - 1], '.');
    let after_sep = i >= 2 && token_is_punct(&ts[i - 1], ':') && token_is_punct(&ts[i - 2], ':');
    let before_bang = i + 1 < n && token_is_punct(&ts[i + 1], '!');
    let before_sep = n - i > 2 && token_is_punct(&ts[i + 1], ':') && token_is_punct(&ts[i + 2], ':');
    !after_dot && !after_sep && !before_bang && !before_sep
}

fn push_tokens(out: &mut Vec<Token>, src: &Vec<Token>)
    ensures
        view_tokens(final(out)@) == view_tokens(old(out)@) + view_tokens(src@),
{
    let mut j: usize = 0;
    while j < src.len()
        invariant
            j <= src@.len(),
            view_tokens(out@) == view_tokens(old(out)@) + view_tokens(src@.subrange(0, j as int)),
        decreases src@.len() - j,
    {
        let ghost prev = out@;
        out.push(copy_token(&src[j]));
        proof {
            assert(view_tokens(out@) =~= view_tokens(prev).push(src@[j as int]@));
            assert(view_tokens(src@.subrange(0, j + 1)) =~= view_tokens(src@.subrange(0, j as int)).push(src@[j as int]@));
            assert(view_tokens(out@) =~= view_tokens(old(out)@) + view_tokens(src@.subrange(0, j + 1)));
        }
        j = j + 1;
    }
    assert(src@.subrange(0, src@.len() as int) =~= src@);
}

/// Derives the name expression of one field or variant from a template.
///
/// `ident` is the item's identifier, absent for a positional field of a
/// variant; `index` its zero-based position; `discriminant` its explicit
/// discriminant expression, if the declaration gives one. Every problem is
/// appended to `errors` and the token is kept as written.
pub fn render_name(
    kind: ItemKind,
    ident: &Option<String>,
    index: usize,
    discriminant: &Option<Vec<Token>>,
    template: &Vec<Token>,
    errors: &mut Vec<Diagnostic>,
) -> (r: Vec<Token>)
    ensures
        view_tokens(r@) == rendered(view_tokens(template@), opt_chars(*ident), index as nat, opt_tokens(*discriminant)),
        final(errors)@ == old(errors)@ + render_errors(view_tokens(template@), kind, ident is Some, discriminant is Some),
{
    let ghost tv = view_tokens(template@);
    let ghost id = opt_chars(*ident);
    let ghost disc = opt_tokens(*discriminant);
    let mut out: Vec<Token> = Vec::new();
    let mut i: usize = 0;
    while i < template.len()
        invariant
            i <= template@.len(),
            tv == view_tokens(template@),
            id == opt_chars(*ident),
            disc == opt_tokens(*discriminant),
            view_tokens(out@) == rendered_prefix(tv, i as nat, id, index as nat, disc),
            errors@ == old(errors)@ + errors_prefix(tv, i as nat, kind, ident is Some, discriminant is Some),
        decreases template@.len() - i,
    {
        let ghost out0 = view_tokens(out@);
        let ghost err0 = errors@;
        let t = &template[i];
        proof {
            assert(tv[i as int] == template@[i as int]@);
        }
        let mut produced: Vec<Token> = Vec::new();
        let mut problem: Option<Diagnostic> = None;
        match t {
            Token::Ident(s) => {
                let lone = is_lone_path(template, i);
                if lone && crate::tokens::str_eq(s.as_str(), "index") {
                    produced.push(Token::Lit(format_decimal(index)));
                } else if lone && crate::tokens::str_eq(s.as_str(), "discriminant") {
                    match discriminant {
                        Some(d) => {
                            push_tokens(&mut produced, d);
                        },
                        None => {
                            produced.push(copy_token(t));
                            problem = Some(Diagnostic::DiscriminantRequired);
                        },
                    }
                } else if !starts_with_underscore(s.as_str()) && ident.is_none() {
                    produced.push(copy_token(t));
                    problem = Some(Diagnostic::UnnamedInterpolation);
                } else {
                    let casing = casing_of_ident(s.as_str());
                    if casing.is_some() && ident.is_some() {
                        let c = casing.unwrap();
                        let n = ident.as_ref().unwrap();
                        produced.push(Token::Ident(apply_casing(c, n.as_str())));
                    } else if crate::tokens::str_eq(s.as_str(), "__faible__name_required") {
                        produced.push(copy_token(t));
                        problem = Some(Diagnostic::NameRequired(kind));
                    } else if starts_with_underscore(s.as_str()) {
                        produced.push(Token::Ident(strip_first(s.as_str())));
                    } else {
                        produced.push(copy_token(t));
                        problem = Some(Diagnostic::UnrecognisedIdent);
                    }
                }
            },
            Token::Str(s) => {
                if !starts_with_underscore(s.as_str()) && ident.is_none() {
                    produced.push(copy_token(t));
                    problem = Some(Diagnostic::UnnamedInterpolation);
                } else {
                    let casing = casing_of_literal(s.as_str());
                    if casing.is_some() && ident.is_some() {
                        let c = casing.unwrap();
                        let n = ident.as_ref().unwrap();
                        produced.push(Token::Str(apply_casing(c, n.as_str())));
                    } else if starts_with_underscore(s.as_str()) {
                        produced.push(Token::Str(strip_first(s.as_str())));
                    } else {
                        produced.push(copy_token(t));
                        problem = Some(Diagnostic::UnrecognisedLiteral);
                    }
                }
            },
            _ => {
                produced.push(copy_token(t));
            },
        }
        proof {
            assert(tv[i as int] == template@[i as int]@);
            assert(view_tokens(produced@) =~= leaf_output(tv, i as int, id, index as nat, disc));
        }
        push_tokens(&mut out, &produced);
        match problem {
            Some(p) => errors.push(p),
            None => {},
        }
        proof {
            assert(opt_seq(problem) =~= opt_seq(leaf_error(tv, i as int, kind, ident is Some, discriminant is Some)));
            assert(errors@ =~= err0 + opt_seq(problem));
        }
        i = i + 1;
    }
    out
}

} // verus!

verus! {

proof fn lemma_spellings_not_underscored(s: Seq<char>)
    requires
        starts_underscore(s),
    ensures
        ident_casing(s) is None,
        literal_casing(s) is None,
        s != "index"@,
        s != "discriminant"@,
{
    reveal_strlit("kebab-case");
    reveal_strlit("kebab_case");
    reveal_strlit("lowerCamelCase");
    reveal_strlit("PascalCase");
    reveal_strlit("SHOUTY-KEBAB-CASE");
    reveal_strlit("SHOUTY_KEBAB_CASE");
    reveal_strlit("SHOUTY_SNAKE_CASE");
    reveal_strlit("SHOUTY_SNEK_CASE");
    reveal_strlit("snake_case");
    reveal_strlit("snek_case");
    reveal_strlit("Title Case");
    reveal_strlit("Title_Case");
    reveal_strlit("UpperCamelCase");
    reveal_strlit("verbatim");
    reveal_strlit("index");
    reveal_strlit("discriminant");
}

/// The rewrite of a template is built leaf by leaf: the rewrite of the first
/// `i` tokens is a prefix of that of the first `n`.
pub proof fn lemma_rendered_prefix_grows(
    ts: Seq<TokenV>,
    i: nat,
    n: nat,
    ident: Option<Seq<char>>,
    index: nat,
    disc: Option<Seq<TokenV>>,
    kind: ItemKind,
)
    requires
        i <= n,
    ensures
        rendered_prefix(ts, i, ident, index, disc).len() <= rendered_prefix(ts, n, ident, index, disc).len(),
        rendered_prefix(ts, n, ident, index, disc).subrange(0, rendered_prefix(ts, i, ident, index, disc).len() as int)
            == rendered_prefix(ts, i, ident, index, disc),
        errors_prefix(ts, n, kind, ident is Some, disc is Some).subrange(0,
            errors_prefix(ts, i, kind, ident is Some, disc is Some).len() as int)
            == errors_prefix(ts, i, kind, ident is Some, disc is Some),
        errors_prefix(ts, i, kind, ident is Some, disc is Some).len()
            <= errors_prefix(ts, n, kind, ident is Some, disc is Some).len(),
    decreases n - i,
{
    if i < n {
        lemma_rendered_prefix_grows(ts, i, (n - 1) as nat, ident, index, disc, kind);
        let a = rendered_prefix(ts, (n - 1) as nat, ident, index, disc);
        let b = leaf_output(ts, n - 1, ident, index, disc);
        assert((a + b).subrange(0, rendered_prefix(ts, i, ident, index, disc).len() as int)
            =~= a.subrange(0, rendered_prefix(ts, i, ident, index, disc).len() as int));
        let ea = errors_prefix(ts, (n - 1) as nat, kind, ident is Some, disc is Some);
        let eb = opt_seq(leaf_error(ts, n - 1, kind, ident is Some, disc is Some));
        assert((ea + eb).subrange(0, errors_prefix(ts, i, kind, ident is Some, disc is Some).len() as int)
            =~= ea.subrange(0, errors_prefix(ts, i, kind, ident is Some, disc is Some).len() as int));
    }
}

/// Within the rewrite of a whole template, the token at `i` contributes
/// exactly its own rewrite, at the place where the rewrite of the tokens
/// before it ends, and exactly its own problem, if any.
pub proof fn lemma_leaf_in_rendered(
    ts: Seq<TokenV>,
    i: int,
    ident: Option<Seq<char>>,
    index: nat,
    disc: Option<Seq<TokenV>>,
    kind: ItemKind,
)
    requires
        0 <= i < ts.len(),
    ensures
        ({
            let at = rendered_prefix(ts, i as nat, ident, index, disc).len() as int;
            let out = leaf_output(ts, i, ident, index, disc);
            at + out.len() <= rendered(ts, ident, index, disc).len()
                && rendered(ts, ident, index, disc).subrange(at, at + out.len()) == out
        }),
        ({
            let at = errors_prefix(ts, i as nat, kind, ident is Some, disc is Some).len() as int;
            let e = opt_seq(leaf_error(ts, i, kind, ident is Some, disc is Some));
            at + e.len() <= render_errors(ts, kind, ident is Some, disc is Some).len()
                && render_errors(ts, kind, ident is Some, disc is Some).subrange(at, at + e.len()) == e
        }),
{
    let n = ts.len();
    lemma_rendered_prefix_grows(ts, (i + 1) as nat, n, ident, index, disc, kind);
    let p = rendered_prefix(ts, i as nat, ident, index, disc);
    let out = leaf_output(ts, i, ident, index, disc);
    let full = rendered(ts, ident, index, disc);
    assert(rendered_prefix(ts, (i + 1) as nat, ident, index, disc) == p + out);
    assert(full.subrange(p.len() as int, (p.len() + out.len()) as int) =~= (p + out).subrange(p.len() as int, (p.len() + out.len()) as int));
    let ep = errors_prefix(ts, i as nat, kind, ident is Some, disc is Some);
    let e = opt_seq(leaf_error(ts, i, kind, ident is Some, disc is Some));
    let efull = render_errors(ts, kind, ident is Some, disc is Some);
    assert(errors_prefix(ts, (i + 1) as nat, kind, ident is Some, disc is Some) == ep + e);
    assert(efull.subrange(ep.len() as int, (ep.len() + e.len()) as int) =~= (ep + e).subrange(ep.len() as int, (ep.len() + e.len()) as int));
}

proof fn lemma_single_token(t: TokenV, kind: ItemKind, ident: Option<Seq<char>>, index: nat, disc: Option<Seq<TokenV>>)
    ensures
        rendered(seq![t], ident, index, disc) == leaf_output(seq![t], 0, ident, index, disc),
        render_errors(seq![t], kind, ident is Some, disc is Some)
            == opt_seq(leaf_error(seq![t], 0, kind, ident is Some, disc is Some)),
{
    assert(rendered_prefix(seq![t], 0, ident, index, disc) == Seq::<TokenV>::empty());
    assert(errors_prefix(seq![t], 0, kind, ident is Some, disc is Some) == Seq::<Diagnostic>::empty());
    assert(Seq::<TokenV>::empty() + leaf_output(seq![t], 0, ident, index, disc)
        =~= leaf_output(seq![t], 0, ident, index, disc));
    assert(Seq::<Diagnostic>::empty() + opt_seq(leaf_error(seq![t], 0, kind, ident is Some, disc is Some))
        =~= opt_seq(leaf_error(seq![t], 0, kind, ident is Some, disc is Some)));
}

/// A string literal leaf that starts with `_` stands for itself without the
/// prefix, even where the rest spells a casing, and whether or not the item
/// has an identifier; it reports nothing.
pub proof fn lemma_underscore_literal_passes_through(
    ts: Seq<TokenV>,
    i: int,
    s: Seq<char>,
    kind: ItemKind,
    ident: Option<Seq<char>>,
    index: nat,
    disc: Option<Seq<TokenV>>,
)
    requires
        0 <= i < ts.len(),
        ts[i] == TokenV::Str(s),
        starts_underscore(s),
    ensures
        leaf_output(ts, i, ident, index, disc) == seq![TokenV::Str(s.drop_first())],
        leaf_error(ts, i, kind, ident is Some, disc is Some) is None,
        rendered(seq![TokenV::Str(s)], ident, index, disc) == seq![TokenV::Str(s.drop_first())],
        render_errors(seq![TokenV::Str(s)], kind, ident is Some, disc is Some) == Seq::<Diagnostic>::empty(),
        ({
            let at = rendered_prefix(ts, i as nat, ident, index, disc).len() as int;
            rendered(ts, ident, index, disc).subrange(at, at + 1) == seq![TokenV::Str(s.drop_first())]
        }),
{
    lemma_spellings_not_underscored(s);
    lemma_leaf_in_rendered(ts, i, ident, index, disc, kind);
    lemma_single_token(TokenV::Str(s), kind, ident, index, disc);
}

/// An identifier leaf that starts with `_` stands for itself without the
/// prefix, even where the rest spells a casing, and whether or not the item
/// has an identifier; it reports nothing. The one exception is the
/// identifier that marks a missing template.
pub proof fn lemma_underscore_ident_passes_through(
    ts: Seq<TokenV>,
    i: int,
    s: Seq<char>,
    kind: ItemKind,
    ident: Option<Seq<char>>,
    index: nat,
    disc: Option<Seq<TokenV>>,
)
    requires
        0 <= i < ts.len(),
        ts[i] == TokenV::Ident(s),
        starts_underscore(s),
        s != placeholder(),
    ensures
        leaf_output(ts, i, ident, index, disc) == seq![TokenV::Ident(s.drop_first())],
        leaf_error(ts, i, kind, ident is Some, disc is Some) is None,
        rendered(seq![TokenV::Ident(s)], ident, index, disc) == seq![TokenV::Ident(s.drop_first())],
        render_errors(seq![TokenV::Ident(s)], kind, ident is Some, disc is Some) == Seq::<Diagnostic>::empty(),
        ({
            let at = rendered_prefix(ts, i as nat, ident, index, disc).len() as int;
            rendered(ts, ident, index, disc).subrange(at, at + 1) == seq![TokenV::Ident(s.drop_first())]
        }),
{
    lemma_spellings_not_underscored(s);
    lemma_leaf_in_rendered(ts, i, ident, index, disc, kind);
    lemma_single_token(TokenV::Ident(s), kind, ident, index, disc);
}

/// The lone identifier `index` becomes the item's zero-based position as an
/// integer literal, whether or not the item has an identifier; it reports
/// nothing.
pub proof fn lemma_index_substitution(
    ts: Seq<TokenV>,
    i: int,
    kind: ItemKind,
    ident: Option<Seq<char>>,
    index: nat,
    disc: Option<Seq<TokenV>>,
)
    requires
        0 <= i < ts.len(),
        ts[i] == TokenV::Ident("index"@),
        lone_path(ts, i),
    ensures
        leaf_output(ts, i, ident, index, disc) == seq![TokenV::Lit(decimal(index))],
        leaf_error(ts, i, kind, ident is Some, disc is Some) is None,
        rendered(seq![TokenV::Ident("index"@)], ident, index, disc) == seq![TokenV::Lit(decimal(index))],
        render_errors(seq![TokenV::Ident("index"@)], kind, ident is Some, disc is Some) == Seq::<Diagnostic>::empty(),
        ({
            let at = rendered_prefix(ts, i as nat, ident, index, disc).len() as int;
            rendered(ts, ident, index, disc).subrange(at, at + 1) == seq![TokenV::Lit(decimal(index))]
        }),
{
    lemma_leaf_in_rendered(ts, i, ident, index, disc, kind);
    lemma_single_token(TokenV::Ident("index"@), kind, ident, index, disc);
}

/// The lone identifier `discriminant` becomes the item's explicit
/// discriminant when there is one, and reports nothing; without one it is
/// kept and reports that a discriminant is required.
pub proof fn lemma_discriminant_substitution(
    ts: Seq<TokenV>,
    i: int,
    kind: ItemKind,
    ident: Option<Seq<char>>,
    index: nat,
    disc: Option<Seq<TokenV>>,
)
    requires
        0 <= i < ts.len(),
        ts[i] == TokenV::Ident("discriminant"@),
        lone_path(ts, i),
    ensures
        disc is Some ==> leaf_output(ts, i, ident, index, disc) == disc->0,
        disc is Some <==> leaf_error(ts, i, kind, ident is Some, disc is Some) is None,
        disc is None ==> leaf_error(ts, i, kind, ident is Some, disc is Some) == Some(Diagnostic::DiscriminantRequired),
        disc is Some ==> rendered(seq![TokenV::Ident("discriminant"@)], ident, index, disc) == disc->0,
        render_errors(seq![TokenV::Ident("discriminant"@)], kind, ident is Some, disc is Some)
            == (if disc is Some { Seq::<Diagnostic>::empty() } else { seq![Diagnostic::DiscriminantRequired] }),
{
    reveal_strlit("index");
    reveal_strlit("discriminant");
    assert("index"@.len() != "discriminant"@.len());
    assert("discriminant"@ != "index"@);
    lemma_single_token(TokenV::Ident("discriminant"@), kind, ident, index, disc);
}

} // verus!
