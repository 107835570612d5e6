//! The attribute argument grammar.
//!
//! Top level: `<descriptor>[, faible = <path>][, names = <template>][, no_weak_conversions]`,
//! where the descriptor expression may be left out.
//! On a field or variant: `(_|<descriptor>)[, name = <template>][, names = <template>]`.
//!
//! Problems are collected in a shared list and reading always goes on, so
//! that one pass reports every independent mistake.
use vstd::prelude::*;
use vstd::string::*;
use crate::diagnostics::Diagnostic;
use crate::grammar::{insist_equals, insist_expr, insist_path, lemma_insisted_bounds, lemma_tree_end_bounds, read_equals, read_expr, read_path, Insisted};
use crate::tokens::{copy_tokens, ident_v, punct_v, skip_tree, slice_tokens, token_is_ident, token_is_punct, tree_end, view_tokens, Delim, Token, TokenV};

verus! {

/// The arguments of the attribute on a whole declaration.
pub struct Args {
    /// The expression that produces the descriptor; `()` by default.
    pub descriptor: Vec<Token>,
    /// The path to the runtime crate; `::faible` by default.
    pub faible: Vec<Token>,
    /// The name template; a placeholder that reports a missing template by default.
    pub names: Vec<Token>,
    /// Whether to leave out the conversions between wrapper and weak value.
    pub no_weak_conversions: bool,
}

pub struct ArgsV {
    pub descriptor: Seq<TokenV>,
    pub faible: Seq<TokenV>,
    pub names: Seq<TokenV>,
    pub no_weak_conversions: bool,
}

impl View for Args {
    type V = ArgsV;

    open spec fn view(&self) -> ArgsV {
        ArgsV {
            descriptor: view_tokens(self.descriptor@),
            faible: view_tokens(self.faible@),
            names: view_tokens(self.names@),
            no_weak_conversions: self.no_weak_conversions,
        }
    }
}

pub open spec fn default_args() -> ArgsV {
    ArgsV {
        descriptor: seq![TokenV::Open(Delim::Paren), TokenV::Close(Delim::Paren)],
        faible: seq![TokenV::Punct(':'), TokenV::Punct(':'), TokenV::Ident("faible"@)],
        names: seq![TokenV::Ident("__faible__name_required"@)],
        no_weak_conversions: false,
    }
}

impl Default for Args {
    fn default() -> (r: Args)
        ensures
            r@ == default_args(),
    {
        let descriptor = vec![Token::Open(Delim::Paren), Token::Close(Delim::Paren)];
        let faible = vec![Token::Punct(':'), Token::Punct(':'), Token::Ident(String::from_str("faible"))];
        let names = vec![Token::Ident(String::from_str("__faible__name_required"))];
        let r = Args { descriptor, faible, names, no_weak_conversions: false };
        assert(r@.descriptor =~= default_args().descriptor);
        assert(r@.faible =~= default_args().faible);
        assert(r@.names =~= default_args().names);
        r
    }
}

/// Reading the top-level clauses from `i`. `at_clause` tells whether a
/// keyword clause is due (just after a comma) or a comma is.
pub open spec fn top_rest(ts: Seq<TokenV>, i: int, a: ArgsV, at_clause: bool) -> (ArgsV, Seq<Diagnostic>)
    decreases ts.len() - i, if at_clause { 1int } else { 0int },
{
    if i < 0 || i >= ts.len() {
        (a, Seq::empty())
    } else if !at_clause {
        if punct_v(ts[i], ',') {
            top_rest(ts, i + 1, a, true)
        } else {
            (a, seq![Diagnostic::UnexpectedTokens])
        }
    } else if ident_v(ts[i], "faible"@) {
        proof { lemma_insisted_bounds(ts, i + 1); }
        let eq = insist_equals(ts, i + 1);
        if eq.found {
            proof { lemma_insisted_bounds(ts, eq.next); }
            let p = insist_path(ts, eq.next);
            let a2 = if p.found { ArgsV { faible: ts.subrange(p.start, p.end), ..a } } else { a };
            let r = top_rest(ts, p.next, a2, false);
            (r.0, eq.errors + p.errors + r.1)
        } else {
            let r = top_rest(ts, eq.next, a, false);
            (r.0, eq.errors + r.1)
        }
    } else if ident_v(ts[i], "names"@) {
        proof { lemma_insisted_bounds(ts, i + 1); }
        let eq = insist_equals(ts, i + 1);
        if eq.found {
            proof { lemma_insisted_bounds(ts, eq.next); }
            let e = insist_expr(ts, eq.next);
            let a2 = if e.found { ArgsV { names: ts.subrange(e.start, e.end), ..a } } else { a };
            let r = top_rest(ts, e.next, a2, false);
            (r.0, eq.errors + e.errors + r.1)
        } else {
            let r = top_rest(ts, eq.next, a, false);
            (r.0, eq.errors + r.1)
        }
    } else if ident_v(ts[i], "no_weak_conversions"@) {
        top_rest(ts, i + 1, ArgsV { no_weak_conversions: true, ..a }, false)
    } else {
        proof { lemma_tree_end_bounds(ts, i); }
        let r = top_rest(ts, tree_end(ts, i), a, true);
        (r.0, seq![Diagnostic::ExpectedTopLevelKeyword] + r.1)
    }
}

/// What the top-level argument tokens `ts` configure, and the problems they
/// report, in order.
pub open spec fn args_of(ts: Seq<TokenV>) -> (ArgsV, Seq<Diagnostic>) {
    let d = insist_expr(ts, 0);
    let a = if d.found { ArgsV { descriptor: ts.subrange(d.start, d.end), ..default_args() } } else { default_args() };
    let r = top_rest(ts, d.next, a, false);
    (r.0, d.errors + r.1)
}

/// Parses the arguments of the attribute on a whole declaration. Every
/// problem is appended to `errors`; settings that were not read keep their
/// defaults.
pub fn parse_args(ts: &Vec<Token>, errors: &mut Vec<Diagnostic>) -> (r: Args)
    ensures
        r@ == args_of(view_tokens(ts@)).0,
        final(errors)@ == old(errors)@ + args_of(view_tokens(ts@)).1,
{
    let ghost tv = view_tokens(ts@);
    let ghost goal = args_of(tv);
    let mut args = Args::default();
    let d = read_expr(ts, 0, errors);
    proof { lemma_insisted_bounds(tv, 0); }
    if d.found {
        args.descriptor = slice_tokens(ts, d.start, d.end);
    }
    let mut i: usize = d.next;
    let mut at_clause = false;
    proof {
        assert(args@ == (if insist_expr(tv, 0).found { ArgsV { descriptor: tv.subrange(d.start as int, d.end as int), ..default_args() } } else { default_args() }));
    }
    while i < ts.len()
        invariant
            i <= ts@.len(),
            tv == view_tokens(ts@),
            goal == args_of(tv),
            goal.0 == top_rest(tv, i as int, args@, at_clause).0,
            old(errors)@ + goal.1 == errors@ + top_rest(tv, i as int, args@, at_clause).1,
        decreases ts@.len() - i, if at_clause { 1int } else { 0int },
    {
        let ghost e0 = errors@;
        let ghost a0 = args@;
        let ghost i0 = i as int;
        let ghost c0 = at_clause;
        assert(tv[i as int] == ts@[i as int]@);
        proof {
            reveal_strlit("faible");
            reveal_strlit("names");
            reveal_strlit("no_weak_conversions");
        }
        if !at_clause {
            if token_is_punct(&ts[i], ',') {
                i = i + 1;
                at_clause = true;
            } else {
                errors.push(Diagnostic::UnexpectedTokens);
                i = ts.len();
                assert(top_rest(tv, i as int, args@, at_clause).1 =~= Seq::<Diagnostic>::empty());
                assert(errors@ =~= e0 + top_rest(tv, i0, a0, c0).1);
                assert(errors@ =~= errors@ + top_rest(tv, i as int, args@, at_clause).1);
            }
        } else if token_is_ident(&ts[i], "faible") {
            proof { lemma_insisted_bounds(tv, i + 1); }
            let eq = read_equals(ts, i + 1, errors);
            let ghost e1 = errors@;
            if eq.found {
                proof { lemma_insisted_bounds(tv, eq.next as int); }
                let p = read_path(ts, eq.next, errors);
                if p.found {
                    args.faible = slice_tokens(ts, p.start, p.end);
                }
                i = p.next;
                at_clause = false;
                proof {
                    let pe = insist_path(tv, eq.next as int).errors;
                    let ee = insist_equals(tv, i0 + 1).errors;
                    assert(args@ == (if p.found { ArgsV { faible: tv.subrange(p.start as int, p.end as int), ..a0 } } else { a0 }));
                    assert(errors@ =~= e0 + (ee + pe));
                    assert(top_rest(tv, i0, a0, c0).1 == ee + pe + top_rest(tv, i as int, args@, false).1);
                    assert(errors@ + top_rest(tv, i as int, args@, false).1 =~= e0 + top_rest(tv, i0, a0, c0).1);
                }
            } else {
                i = eq.next;
                at_clause = false;
                proof {
                    assert(errors@ + top_rest(tv, i as int, args@, false).1 =~= e0 + top_rest(tv, i0, a0, c0).1);
                }
            }
        } else if token_is_ident(&ts[i], "names") {
            proof { lemma_insisted_bounds(tv, i + 1); }
            let eq = read_equals(ts, i + 1, errors);
            if eq.found {
                proof { lemma_insisted_bounds(tv, eq.next as int); }
                let e = read_expr(ts, eq.next, errors);
                if e.found {
                    args.names = slice_tokens(ts, e.start, e.end);
                }
                i = e.next;
                at_clause = false;
                proof {
                    let xe = insist_expr(tv, eq.next as int).errors;
                    let ee = insist_equals(tv, i0 + 1).errors;
                    assert(args@ == (if e.found { ArgsV { names: tv.subrange(e.start as int, e.end as int), ..a0 } } else { a0 }));
                    assert(errors@ =~= e0 + (ee + xe));
                    assert(top_rest(tv, i0, a0, c0).1 == ee + xe + top_rest(tv, i as int, args@, false).1);
                    assert(errors@ + top_rest(tv, i as int, args@, false).1 =~= e0 + top_rest(tv, i0, a0, c0).1);
                }
            } else {
                i = eq.next;
                at_clause = false;
                proof {
                    assert(errors@ + top_rest(tv, i as int, args@, false).1 =~= e0 + top_rest(tv, i0, a0, c0).1);
                }
            }
        } else if token_is_ident(&ts[i], "no_weak_conversions") {
            args.no_weak_conversions = true;
            i = i + 1;
            at_clause = false;
        } else {
            errors.push(Diagnostic::ExpectedTopLevelKeyword);
            i = skip_tree(ts, i);
            proof {
                assert(errors@ + top_rest(tv, i as int, args@, true).1 =~= e0 + top_rest(tv, i0, a0, c0).1);
            }
        }
    }
    assert(errors@ =~= errors@ + Seq::<Diagnostic>::empty());
    args
}

} // verus!

verus! {

/// The arguments of the attribute on one field or variant. An absent
/// setting is taken from the enclosing scope.
pub struct InnerArgs {
    /// The descriptor expression for this item; `None` where `_` or nothing
    /// was given.
    pub descriptor: Option<Vec<Token>>,
    /// The template of this item's own name.
    pub name: Option<Vec<Token>>,
    /// The template that the item's own fields inherit.
    pub names: Option<Vec<Token>>,
}

pub struct InnerArgsV {
    pub descriptor: Option<Seq<TokenV>>,
    pub name: Option<Seq<TokenV>>,
    pub names: Option<Seq<TokenV>>,
}

pub open spec fn view_opt_tokens(o: Option<Vec<Token>>) -> Option<Seq<TokenV>> {
    match o {
        Some(v) => Some(view_tokens(v@)),
        None => None,
    }
}

impl View for InnerArgs {
    type V = InnerArgsV;

    open spec fn view(&self) -> InnerArgsV {
        InnerArgsV {
            descriptor: view_opt_tokens(self.descriptor),
            name: view_opt_tokens(self.name),
            names: view_opt_tokens(self.names),
        }
    }
}

pub open spec fn default_inner_args() -> InnerArgsV {
    InnerArgsV { descriptor: None, name: None, names: None }
}

impl Default for InnerArgs {
    fn default() -> (r: InnerArgs)
        ensures
            r@ == default_inner_args(),
    {
        InnerArgs { descriptor: None, name: None, names: None }
    }
}

/// The range that insisting found, as tokens, where it found one.
pub open spec fn found_tokens(ts: Seq<TokenV>, x: Insisted) -> Option<Seq<TokenV>> {
    if x.found {
        Some(ts.subrange(x.start, x.end))
    } else {
        None
    }
}

/// Reading the clauses inside a field or variant attribute from `i`.
pub open spec fn inner_rest(ts: Seq<TokenV>, i: int, a: InnerArgsV, at_clause: bool) -> (InnerArgsV, Seq<Diagnostic>)
    decreases ts.len() - i, if at_clause { 1int } else { 0int },
{
    if i < 0 || i >= ts.len() {
        (a, Seq::empty())
    } else if !at_clause {
        if punct_v(ts[i], ',') {
            inner_rest(ts, i + 1, a, true)
        } else {
            (a, seq![Diagnostic::UnexpectedTokens])
        }
    } else if ident_v(ts[i], "name"@) {
        proof { lemma_insisted_bounds(ts, i + 1); }
        let eq = insist_equals(ts, i + 1);
        proof { lemma_insisted_bounds(ts, eq.next); }
        let e = insist_expr(ts, eq.next);
        let dup = if a.name is Some { seq![Diagnostic::DuplicateName] } else { Seq::empty() };
        let r = inner_rest(ts, e.next, InnerArgsV { name: found_tokens(ts, e), ..a }, false);
        (r.0, dup + eq.errors + e.errors + r.1)
    } else if ident_v(ts[i], "names"@) {
        proof { lemma_insisted_bounds(ts, i + 1); }
        let eq = insist_equals(ts, i + 1);
        proof { lemma_insisted_bounds(ts, eq.next); }
        let e = insist_expr(ts, eq.next);
        let a2 = if e.found { InnerArgsV { names: found_tokens(ts, e), ..a } } else { a };
        let r = inner_rest(ts, e.next, a2, false);
        (r.0, eq.errors + e.errors + r.1)
    } else {
        let r = inner_rest(ts, i, a, false);
        (r.0, seq![Diagnostic::ExpectedInnerKeyword] + r.1)
    }
}

/// What the tokens inside one attribute's parentheses configure, on top of
/// `a`, and the problems they report.
pub open spec fn inner_content(ts: Seq<TokenV>, a: InnerArgsV) -> (InnerArgsV, Seq<Diagnostic>) {
    if ts.len() > 0 && ident_v(ts[0], "_"@) {
        inner_rest(ts, 1, a, false)
    } else {
        let d = insist_expr(ts, 0);
        let a2 = if d.found { InnerArgsV { descriptor: found_tokens(ts, d), ..a } } else { a };
        let r = inner_rest(ts, d.next, a2, false);
        (r.0, d.errors + r.1)
    }
}

/// The end of the parenthesised list that opens a field or variant attribute.
pub open spec fn list_end(ts: Seq<TokenV>) -> int {
    let close = tree_end(ts, 0);
    if close >= 2 && ts[close - 1] is Close { close - 1 } else { close }
}

/// What one field or variant attribute's tokens configure, on top of `a`,
/// and the problems they report.
pub open spec fn attr_args(ts: Seq<TokenV>, a: InnerArgsV) -> (InnerArgsV, Seq<Diagnostic>) {
    if ts.len() == 0 || !(ts[0] == TokenV::Open(Delim::Paren)) {
        (a, seq![Diagnostic::ExpectedParenthesized])
    } else {
        let r = inner_content(ts.subrange(1, list_end(ts)), a);
        (r.0, r.1 + if tree_end(ts, 0) < ts.len() { seq![Diagnostic::UnexpectedTokens] } else { Seq::empty() })
    }
}

fn read_inner_content(ts: &Vec<Token>, a: InnerArgs, errors: &mut Vec<Diagnostic>) -> (r: InnerArgs)
    ensures
        r@ == inner_content(view_tokens(ts@), a@).0,
        final(errors)@ == old(errors)@ + inner_content(view_tokens(ts@), a@).1,
{
    let ghost tv = view_tokens(ts@);
    let ghost goal = inner_content(tv, a@);
    let mut args = a;
    let mut i: usize;
    proof { reveal_strlit("_"); }
    if ts.len() > 0 && token_is_ident(&ts[0], "_") {
        assert(tv[0] == ts@[0]@);
        i = 1;
    } else {
        proof { if ts@.len() > 0 { assert(tv[0] == ts@[0]@); } }
        let d = read_expr(ts, 0, errors);
        proof { lemma_insisted_bounds(tv, 0); }
        if d.found {
            args.descriptor = Some(slice_tokens(ts, d.start, d.end));
        }
        i = d.next;
    }
    let mut at_clause = false;
    while i < ts.len()
        invariant
            i <= ts@.len(),
            tv == view_tokens(ts@),
            goal == inner_content(tv, a@),
            goal.0 == inner_rest(tv, i as int, args@, at_clause).0,
            old(errors)@ + goal.1 == errors@ + inner_rest(tv, i as int, args@, at_clause).1,
        decreases ts@.len() - i, if at_clause { 1int } else { 0int },
    {
        let ghost e0 = errors@;
        let ghost a0 = args@;
        let ghost i0 = i as int;
        let ghost c0 = at_clause;
        assert(tv[i as int] == ts@[i as int]@);
        proof {
            reveal_strlit("name");
            reveal_strlit("names");
        }
        if !at_clause {
            if token_is_punct(&ts[i], ',') {
                i = i + 1;
                at_clause = true;
            } else {
                errors.push(Diagnostic::UnexpectedTokens);
                i = ts.len();
                assert(inner_rest(tv, i as int, args@, at_clause).1 =~= Seq::<Diagnostic>::empty());
                assert(errors@ =~= errors@ + inner_rest(tv, i as int, args@, at_clause).1);
            }
        } else if token_is_ident(&ts[i], "name") {
            if args.name.is_some() {
                errors.push(Diagnostic::DuplicateName);
            }
            let ghost e1 = errors@;
            proof { lemma_insisted_bounds(tv, i + 1); }
            let eq = read_equals(ts, i + 1, errors);
            proof { lemma_insisted_bounds(tv, eq.next as int); }
            let e = read_expr(ts, eq.next, errors);
            args.name = if e.found { Some(slice_tokens(ts, e.start, e.end)) } else { None };
            i = e.next;
            at_clause = false;
            proof {
                let dup = if a0.name is Some { seq![Diagnostic::DuplicateName] } else { Seq::<Diagnostic>::empty() };
                assert(e1 =~= e0 + dup);
                let xe = insist_expr(tv, eq.next as int).errors;
                let ee = insist_equals(tv, i0 + 1).errors;
                assert(args@ == InnerArgsV { name: found_tokens(tv, insist_expr(tv, eq.next as int)), ..a0 });
                assert(errors@ =~= e0 + (dup + ee + xe));
                assert(errors@ + inner_rest(tv, i as int, args@, false).1 =~= e0 + inner_rest(tv, i0, a0, c0).1);
            }
        } else if token_is_ident(&ts[i], "names") {
            proof { lemma_insisted_bounds(tv, i + 1); }
            let eq = read_equals(ts, i + 1, errors);
            proof { lemma_insisted_bounds(tv, eq.next as int); }
            let e = read_expr(ts, eq.next, errors);
            if e.found {
                args.names = Some(slice_tokens(ts, e.start, e.end));
            }
            i = e.next;
            at_clause = false;
            proof {
                let xe = insist_expr(tv, eq.next as int).errors;
                let ee = insist_equals(tv, i0 + 1).errors;
                assert(errors@ =~= e0 + (ee + xe));
                assert(errors@ + inner_rest(tv, i as int, args@, false).1 =~= e0 + inner_rest(tv, i0, a0, c0).1);
            }
        } else {
            errors.push(Diagnostic::ExpectedInnerKeyword);
            at_clause = false;
            proof {
                assert(errors@ + inner_rest(tv, i as int, args@, false).1 =~= e0 + inner_rest(tv, i0, a0, c0).1);
            }
        }
    }
    assert(errors@ =~= errors@ + Seq::<Diagnostic>::empty());
    proof {
        if !(ts@.len() > 0 && ident_v(tv[0], "_"@)) {
            assert(old(errors)@ + goal.1 =~= errors@);
        }
    }
    args
}

} // verus!

verus! {

/// An attribute on a field or variant: its path, as text, and the tokens
/// that follow the path.
pub struct Attr {
    pub path: String,
    pub tokens: Vec<Token>,
}

pub struct AttrV {
    pub path: Seq<char>,
    pub tokens: Seq<TokenV>,
}

impl View for Attr {
    type V = AttrV;

    open spec fn view(&self) -> AttrV {
        AttrV { path: self.path@, tokens: view_tokens(self.tokens@) }
    }
}

pub open spec fn view_attrs(s: Seq<Attr>) -> Seq<AttrV> {
    s.map_values(|a: Attr| a@)
}

/// Whether an attribute belongs to this library.
pub open spec fn is_faible_attr(a: AttrV) -> bool {
    a.path == "faible"@
}

/// The attributes that stay on the item: all but this library's.
pub open spec fn kept_attrs(s: Seq<AttrV>) -> Seq<AttrV>
    decreases s.len(),
{
    if s.len() == 0 {
        Seq::empty()
    } else {
        kept_attrs(s.drop_last()) + if is_faible_attr(s.last()) { Seq::empty() } else { seq![s.last()] }
    }
}

/// This library's attributes among `s`, in order.
pub open spec fn faible_attrs(s: Seq<AttrV>) -> Seq<AttrV>
    decreases s.len(),
{
    if s.len() == 0 {
        Seq::empty()
    } else {
        faible_attrs(s.drop_last()) + if is_faible_attr(s.last()) { seq![s.last()] } else { Seq::empty() }
    }
}

/// What the attributes `s` configure when read in order, and the problems
/// they report.
pub open spec fn fold_attr_args(s: Seq<AttrV>) -> (InnerArgsV, Seq<Diagnostic>)
    decreases s.len(),
{
    if s.len() == 0 {
        (default_inner_args(), Seq::empty())
    } else {
        let r = fold_attr_args(s.drop_last());
        let q = attr_args(s.last().tokens, r.0);
        (q.0, r.1 + q.1)
    }
}

/// What this library's attributes among `s` configure, read in order, and
/// the problems they report.
pub open spec fn attrs_args(s: Seq<AttrV>) -> (InnerArgsV, Seq<Diagnostic>) {
    fold_attr_args(faible_attrs(s))
}

fn read_attr(ts: &Vec<Token>, a: InnerArgs, errors: &mut Vec<Diagnostic>) -> (r: InnerArgs)
    ensures
        r@ == attr_args(view_tokens(ts@), a@).0,
        final(errors)@ == old(errors)@ + attr_args(view_tokens(ts@), a@).1,
{
    let ghost tv = view_tokens(ts@);
    let opens = ts.len() > 0 && match &ts[0] {
        Token::Open(Delim::Paren) => true,
        _ => false,
    };
    proof { if ts@.len() > 0 { assert(tv[0] == ts@[0]@); } }
    if !opens {
        errors.push(Diagnostic::ExpectedParenthesized);
        return a;
    }
    let close = skip_tree(ts, 0);
    assert(tv[close - 1] == ts@[close - 1]@);
    let end = if close >= 2 && match &ts[close - 1] {
        Token::Close(_) => true,
        _ => false,
    } {
        close - 1
    } else {
        close
    };
    let content = slice_tokens(ts, 1, end);
    let r = read_inner_content(&content, a, errors);
    if close < ts.len() {
        errors.push(Diagnostic::UnexpectedTokens);
    }
    assert(final(errors)@ =~= old(errors)@ + attr_args(tv, a@).1);
    r
}

fn attr_is_faible(a: &Attr) -> (r: bool)
    ensures
        r == is_faible_attr(a@),
{
    crate::tokens::str_eq(a.path.as_str(), "faible")
}

/// Relies on vec_drain_where's `VecDrainWhereExt::e_drain_where`, run to
/// completion: it yields, in order, the items that the predicate accepts and
/// leaves the others in the vector, in order.
#[verifier::external_body]
fn drain_faible_attrs(attrs: &mut Vec<Attr>) -> (r: Vec<Attr>)
    ensures
        view_attrs(r@) == faible_attrs(view_attrs(old(attrs)@)),
        view_attrs(final(attrs)@) == kept_attrs(view_attrs(old(attrs)@)),
{
    vec_drain_where::VecDrainWhereExt::e_drain_where(attrs, |a| attr_is_faible(a)).collect()
}

/// Takes this library's attributes off an item, leaving the others in
/// order, and reads what they configure. Every problem is appended to
/// `errors`.
pub fn take_args_from_attrs(attrs: &mut Vec<Attr>, errors: &mut Vec<Diagnostic>) -> (r: InnerArgs)
    ensures
        view_attrs(final(attrs)@) == kept_attrs(view_attrs(old(attrs)@)),
        r@ == attrs_args(view_attrs(old(attrs)@)).0,
        final(errors)@ == old(errors)@ + attrs_args(view_attrs(old(attrs)@)).1,
{
    let drained = drain_faible_attrs(attrs);
    let ghost dv = view_attrs(drained@);
    let mut args = InnerArgs::default();
    let mut j: usize = 0;
    while j < drained.len()
        invariant
            j <= drained@.len(),
            dv == view_attrs(drained@),
            args@ == fold_attr_args(dv.subrange(0, j as int)).0,
            errors@ == old(errors)@ + fold_attr_args(dv.subrange(0, j as int)).1,
        decreases drained@.len() - j,
    {
        proof {
            assert(dv.subrange(0, j + 1).drop_last() =~= dv.subrange(0, j as int));
            assert(dv.subrange(0, j + 1).last() == drained@[j as int]@);
        }
        args = read_attr(&drained[j].tokens, args, errors);
        assert(errors@ =~= old(errors)@ + fold_attr_args(dv.subrange(0, j + 1)).1);
        j = j + 1;
    }
    assert(dv.subrange(0, drained@.len() as int) =~= dv);
    args
}

} // verus!
