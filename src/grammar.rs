//! The building blocks of the argument grammar: expressions, paths and the
//! `=` sign, each read with recovery.
//!
//! Reading "insists": where the wanted form does not start at the current
//! token, a problem is reported, one token tree is skipped and reading goes
//! on, until the form is found or the stream ends.
use vstd::prelude::*;
use crate::diagnostics::Diagnostic;
use crate::tokens::{group_end, lemma_group_end_bounds, punct_v, str_eq, skip_tree, token_is_punct, tree_end, view_tokens, Token, TokenV};

verus! {

/// The outcome of insisting on a form: whether it was found, the range of
/// tokens it covers, where reading goes on, and the problems reported.
pub struct Insisted {
    pub found: bool,
    pub start: int,
    pub end: int,
    pub next: int,
    pub errors: Seq<Diagnostic>,
}

/// The exec counterpart of `Insisted`, without the problems, which go to
/// the shared list.
#[derive(Clone, Copy, Debug)]
pub struct Found {
    pub found: bool,
    pub start: usize,
    pub end: usize,
    pub next: usize,
}

pub open spec fn matches_insisted(f: Found, s: Insisted) -> bool {
    f.found == s.found && f.start == s.start && f.end == s.end && f.next == s.next
}

pub proof fn lemma_tree_end_bounds(ts: Seq<TokenV>, i: int)
    requires
        0 <= i < ts.len(),
    ensures
        i < tree_end(ts, i) <= ts.len(),
{
    if ts[i] is Open {
        lemma_group_end_bounds(ts, i + 1, 1);
    }
}

/// Insisting on a `=` sign from `i`.
pub open spec fn insist_equals(ts: Seq<TokenV>, i: int) -> Insisted
    decreases ts.len() - i,
{
    if i < 0 || i >= ts.len() {
        Insisted { found: false, start: ts.len() as int, end: ts.len() as int, next: ts.len() as int, errors: Seq::empty() }
    } else if punct_v(ts[i], '=') {
        Insisted { found: true, start: i, end: i + 1, next: i + 1, errors: Seq::empty() }
    } else {
        proof { lemma_tree_end_bounds(ts, i); }
        let r = insist_equals(ts, tree_end(ts, i));
        Insisted { errors: seq![Diagnostic::ExpectedEquals] + r.errors, ..r }
    }
}

/// Rust keywords that stand between operands without being one.
pub open spec fn keyword(s: Seq<char>) -> bool {
    s == "as"@ || s == "async"@ || s == "box"@ || s == "break"@ || s == "const"@ || s == "continue"@
        || s == "dyn"@ || s == "else"@ || s == "fn"@ || s == "for"@ || s == "if"@ || s == "impl"@
        || s == "in"@ || s == "let"@ || s == "loop"@ || s == "match"@ || s == "move"@ || s == "mut"@
        || s == "ref"@ || s == "return"@ || s == "static"@ || s == "unsafe"@ || s == "where"@
        || s == "while"@ || s == "yield"@
}

/// Whether a token can start an operand: an identifier that is no keyword,
/// or a literal.
pub open spec fn starts_operand(t: TokenV) -> bool {
    match t {
        TokenV::Ident(s) => !keyword(s),
        TokenV::Str(_) | TokenV::Lit(_) => true,
        _ => false,
    }
}

/// Where scanning an expression stands: the group depth, the depth of
/// generic arguments `::<…>`, whether closure parameters `|…|` are open,
/// whether the last token ended an operand, whether it was the first `|` of
/// a binary `|` or `||`, and how many `:` came just before.
pub struct ScanState {
    pub depth: int,
    pub angle: int,
    pub bars: bool,
    pub after_operand: bool,
    pub after_bar_op: bool,
    pub colons: int,
}

pub open spec fn initial_scan() -> ScanState {
    ScanState { depth: 0, angle: 0, bars: false, after_operand: false, after_bar_op: false, colons: 0 }
}

/// Whether the expression ends before the token `t`: at the top level, a
/// comma, or an operand that directly follows another one.
pub open spec fn ends_before(t: TokenV, st: ScanState) -> bool {
    st.depth == 0 && st.angle == 0 && !st.bars
        && (punct_v(t, ',') || (starts_operand(t) && st.after_operand))
}

/// The scanning state after the token `t`.
pub open spec fn scan_step(t: TokenV, st: ScanState) -> ScanState {
    let plain = ScanState { after_operand: false, after_bar_op: false, colons: 0, ..st };
    match t {
        TokenV::Open(_) => ScanState { depth: st.depth + 1, ..plain },
        TokenV::Close(_) => ScanState { depth: st.depth - 1, after_operand: true, ..plain },
        _ => if st.depth != 0 {
            st
        } else {
            match t {
                TokenV::Punct(c) => {
                    if c == ':' {
                        ScanState { colons: if st.colons >= 2 { 2 } else { st.colons + 1 }, ..plain }
                    } else if c == '<' && (st.angle > 0 || st.colons >= 2) {
                        ScanState { angle: st.angle + 1, ..plain }
                    } else if c == '>' && st.angle > 0 {
                        ScanState { angle: st.angle - 1, after_operand: st.angle == 1, ..plain }
                    } else if c == '|' && st.angle == 0 {
                        if st.bars {
                            ScanState { bars: false, ..plain }
                        } else if st.after_operand {
                            ScanState { after_bar_op: true, ..plain }
                        } else if st.after_bar_op {
                            plain
                        } else {
                            ScanState { bars: true, ..plain }
                        }
                    } else {
                        plain
                    }
                },
                _ => ScanState { after_operand: starts_operand(t), ..plain },
            }
        },
    }
}

/// The end of the expression whose scan stands at `j` in state `st`.
pub open spec fn expr_extent_from(ts: Seq<TokenV>, j: int, st: ScanState) -> int
    decreases ts.len() - j,
{
    if j < 0 || j >= ts.len() {
        ts.len() as int
    } else if ends_before(ts[j], st) {
        j
    } else {
        expr_extent_from(ts, j + 1, scan_step(ts[j], st))
    }
}

/// The end of the expression that starts at `i`: the first comma outside
/// any group, generic arguments or closure parameters, or the first operand
/// that follows another with no operator between them, or the end of the
/// stream.
pub open spec fn expr_extent(ts: Seq<TokenV>, i: int) -> int {
    expr_extent_from(ts, i, initial_scan())
}

pub proof fn lemma_expr_extent_bounds(ts: Seq<TokenV>, j: int, st: ScanState)
    requires
        0 <= j <= ts.len(),
    ensures
        j <= expr_extent_from(ts, j, st) <= ts.len(),
    decreases ts.len() - j,
{
    if j < ts.len() && !ends_before(ts[j], st) {
        lemma_expr_extent_bounds(ts, j + 1, scan_step(ts[j], st));
    }
}

/// Insisting on an expression from `i`: a non-empty run of tokens up to the
/// next comma outside any group.
pub open spec fn insist_expr(ts: Seq<TokenV>, i: int) -> Insisted
    decreases ts.len() - i,
{
    if i < 0 || i >= ts.len() {
        Insisted { found: false, start: ts.len() as int, end: ts.len() as int, next: ts.len() as int, errors: Seq::empty() }
    } else if punct_v(ts[i], ',') {
        proof { lemma_tree_end_bounds(ts, i); }
        let r = insist_expr(ts, tree_end(ts, i));
        Insisted { errors: seq![Diagnostic::ExpectedExpression] + r.errors, ..r }
    } else {
        Insisted { found: true, start: i, end: expr_extent(ts, i), next: expr_extent(ts, i), errors: Seq::empty() }
    }
}

/// Whether `::` starts at `j`.
pub open spec fn path_sep_at(ts: Seq<TokenV>, j: int) -> bool {
    0 <= j && j + 1 < ts.len() && punct_v(ts[j], ':') && punct_v(ts[j + 1], ':')
}

/// Whether a `>` at `j` closes angle brackets (it is not the tip of `->`).
pub open spec fn closes_angle(ts: Seq<TokenV>, j: int) -> bool {
    punct_v(ts[j], '>') && !(j >= 1 && punct_v(ts[j - 1], '-'))
}

/// The index just past the `>` that closes angle brackets open to depth
/// `a` at `j`, or the end of the stream.
pub open spec fn angle_end(ts: Seq<TokenV>, j: int, a: int) -> int
    decreases ts.len() - j,
{
    if j < 0 || j >= ts.len() {
        ts.len() as int
    } else if closes_angle(ts, j) {
        if a <= 1 { j + 1 } else { angle_end(ts, j + 1, a - 1) }
    } else if punct_v(ts[j], '<') {
        angle_end(ts, j + 1, a + 1)
    } else {
        angle_end(ts, j + 1, a)
    }
}

pub proof fn lemma_angle_end_bounds(ts: Seq<TokenV>, j: int, a: int)
    requires
        0 <= j <= ts.len(),
    ensures
        j <= angle_end(ts, j, a) <= ts.len(),
    decreases ts.len() - j,
{
    if j < ts.len() {
        if closes_angle(ts, j) {
            if a > 1 {
                lemma_angle_end_bounds(ts, j + 1, a - 1);
            }
        } else if punct_v(ts[j], '<') {
            lemma_angle_end_bounds(ts, j + 1, a + 1);
        } else {
            lemma_angle_end_bounds(ts, j + 1, a);
        }
    }
}

/// Whether generic arguments `::<` start at `j`.
pub open spec fn turbofish_at(ts: Seq<TokenV>, j: int) -> bool {
    path_sep_at(ts, j) && j + 2 < ts.len() && punct_v(ts[j + 2], '<')
}

/// Reading the rest of a path after a segment's identifier, which ends at
/// `j`: generic arguments `::<…>` and further segments `::name`. The result
/// is the end of the path and the position of the `::` before its last
/// segment (`last`, or -1 for a path of one segment).
pub open spec fn path_scan(ts: Seq<TokenV>, j: int, last: int) -> (int, int)
    decreases ts.len() - j,
{
    if j < 0 || j >= ts.len() {
        (j, last)
    } else if turbofish_at(ts, j) {
        proof { lemma_angle_end_bounds(ts, j + 3, 1); }
        path_scan(ts, angle_end(ts, j + 3, 1), last)
    } else if path_sep_at(ts, j) && j + 2 < ts.len() && ts[j + 2] is Ident {
        path_scan(ts, j + 3, j)
    } else {
        (j, last)
    }
}

/// Where the first segment of a path starting at `i` stands: after an
/// optional leading `::`.
pub open spec fn first_segment(ts: Seq<TokenV>, i: int) -> int {
    if path_sep_at(ts, i) { i + 2 } else { i }
}

/// The end of the path that starts at `i`, if one does: an optional leading
/// `::`, then identifiers separated by `::`, each with optional generic
/// arguments `::<…>`.
pub open spec fn path_end(ts: Seq<TokenV>, i: int) -> Option<int> {
    let k = first_segment(ts, i);
    if 0 <= k < ts.len() && ts[k] is Ident {
        Some(path_scan(ts, k + 1, -1).0)
    } else {
        None
    }
}

/// The position of the `::` before the last segment of the path that starts
/// at `i`, or -1 where the path has one segment.
pub open spec fn path_last_sep(ts: Seq<TokenV>, i: int) -> int {
    path_scan(ts, first_segment(ts, i) + 1, -1).1
}

pub proof fn lemma_path_scan(ts: Seq<TokenV>, j: int, last: int)
    requires
        0 <= j <= ts.len(),
        last == -1 || (0 <= last && last + 3 <= j && path_sep_at(ts, last) && ts[last + 2] is Ident),
    ensures
        j <= path_scan(ts, j, last).0 <= ts.len(),
        path_scan(ts, j, last).1 == -1 || (0 <= path_scan(ts, j, last).1
            && path_scan(ts, j, last).1 + 3 <= path_scan(ts, j, last).0
            && path_sep_at(ts, path_scan(ts, j, last).1) && ts[path_scan(ts, j, last).1 + 2] is Ident),
    decreases ts.len() - j,
{
    if j < ts.len() {
        if turbofish_at(ts, j) {
            lemma_angle_end_bounds(ts, j + 3, 1);
            lemma_path_scan(ts, angle_end(ts, j + 3, 1), last);
        } else if path_sep_at(ts, j) && j + 2 < ts.len() && ts[j + 2] is Ident {
            lemma_path_scan(ts, j + 3, j);
        }
    }
}

/// Insisting on a path from `i`.
pub open spec fn insist_path(ts: Seq<TokenV>, i: int) -> Insisted
    decreases ts.len() - i,
{
    if i < 0 || i >= ts.len() {
        Insisted { found: false, start: ts.len() as int, end: ts.len() as int, next: ts.len() as int, errors: Seq::empty() }
    } else if path_end(ts, i) is Some {
        Insisted { found: true, start: i, end: path_end(ts, i)->0, next: path_end(ts, i)->0, errors: Seq::empty() }
    } else {
        proof { lemma_tree_end_bounds(ts, i); }
        let r = insist_path(ts, tree_end(ts, i));
        Insisted { errors: seq![Diagnostic::ExpectedPath] + r.errors, ..r }
    }
}

/// Where reading goes on after insisting stays within the stream and past
/// the start, and a found form lies between the two.
pub proof fn lemma_insisted_bounds(ts: Seq<TokenV>, i: int)
    requires
        0 <= i <= ts.len(),
    ensures
        i <= insist_equals(ts, i).next <= ts.len(),
        i <= insist_expr(ts, i).next <= ts.len(),
        i <= insist_path(ts, i).next <= ts.len(),
        insist_expr(ts, i).found ==> i <= insist_expr(ts, i).start < insist_expr(ts, i).end
            == insist_expr(ts, i).next,
        insist_path(ts, i).found ==> i <= insist_path(ts, i).start < insist_path(ts, i).end
            == insist_path(ts, i).next,
        !insist_equals(ts, i).found ==> insist_equals(ts, i).next == ts.len(),
        !insist_expr(ts, i).found ==> insist_expr(ts, i).next == ts.len(),
        !insist_path(ts, i).found ==> insist_path(ts, i).next == ts.len(),
    decreases ts.len() - i,
{
    if i < ts.len() {
        lemma_tree_end_bounds(ts, i);
        lemma_insisted_bounds(ts, tree_end(ts, i));
        lemma_expr_extent_bounds(ts, i, initial_scan());
        if !punct_v(ts[i], ',') {
            lemma_expr_extent_bounds(ts, i + 1, scan_step(ts[i], initial_scan()));
        }
        let k = first_segment(ts, i);
        if 0 <= k < ts.len() && ts[k] is Ident {
            lemma_path_scan(ts, k + 1, -1);
        }
    }
}

fn not_found(ts: &Vec<Token>) -> (r: Found)
    ensures
        !r.found && r.start == ts@.len() && r.end == ts@.len() && r.next == ts@.len(),
{
    let n = ts.len();
    Found { found: false, start: n, end: n, next: n }
}

/// Reads a `=` sign from `i`, with recovery.
pub fn read_equals(ts: &Vec<Token>, i: usize, errors: &mut Vec<Diagnostic>) -> (r: Found)
    requires
        i <= ts@.len(),
    ensures
        matches_insisted(r, insist_equals(view_tokens(ts@), i as int)),
        final(errors)@ == old(errors)@ + insist_equals(view_tokens(ts@), i as int).errors,
    decreases ts@.len() - i,
{
    let ghost tv = view_tokens(ts@);
    if i >= ts.len() {
        return not_found(ts);
    }
    assert(tv[i as int] == ts@[i as int]@);
    if token_is_punct(&ts[i], '=') {
        assert(errors@ =~= old(errors)@ + Seq::<Diagnostic>::empty());
        return Found { found: true, start: i, end: i + 1, next: i + 1 };
    }
    errors.push(Diagnostic::ExpectedEquals);
    let j = skip_tree(ts, i);
    let r = read_equals(ts, j, errors);
    assert(final(errors)@ =~= old(errors)@ + insist_equals(tv, i as int).errors);
    r
}

/// Reads an expression from `i`, with recovery.
pub fn read_expr(ts: &Vec<Token>, i: usize, errors: &mut Vec<Diagnostic>) -> (r: Found)
    requires
        i <= ts@.len(),
    ensures
        matches_insisted(r, insist_expr(view_tokens(ts@), i as int)),
        final(errors)@ == old(errors)@ + insist_expr(view_tokens(ts@), i as int).errors,
    decreases ts@.len() - i,
{
    let ghost tv = view_tokens(ts@);
    if i >= ts.len() {
        return not_found(ts);
    }
    assert(tv[i as int] == ts@[i as int]@);
    if !token_is_punct(&ts[i], ',') {
        assert(errors@ =~= old(errors)@ + Seq::<Diagnostic>::empty());
        let e = scan_expr(ts, i);
        proof { lemma_expr_extent_bounds(tv, i + 1, scan_step(tv[i as int], initial_scan())); }
        return Found { found: true, start: i, end: e, next: e };
    }
    errors.push(Diagnostic::ExpectedExpression);
    let j = skip_tree(ts, i);
    let r = read_expr(ts, j, errors);
    assert(final(errors)@ =~= old(errors)@ + insist_expr(tv, i as int).errors);
    r
}

fn is_ident_token(t: &Token) -> (r: bool)
    ensures
        r == t@ is Ident,
{
    match t {
        Token::Ident(_) => true,
        _ => false,
    }
}

pub fn path_sep_at_exec(ts: &Vec<Token>, j: usize) -> (r: bool)
    ensures
        r == path_sep_at(view_tokens(ts@), j as int),
{
    let ghost tv = view_tokens(ts@);
    if j < ts.len() && ts.len() - j > 1 {
        assert(tv[j as int] == ts@[j as int]@);
        assert(tv[j + 1] == ts@[j + 1]@);
        token_is_punct(&ts[j], ':') && token_is_punct(&ts[j + 1], ':')
    } else {
        false
    }
}

/// Where a path ends, and the `::` before its last segment, if it has
/// more than one.
#[derive(Clone, Copy, Debug)]
pub struct PathSpan {
    pub end: usize,
    pub last_sep: Option<usize>,
}

fn scan_angle(ts: &Vec<Token>, j: usize) -> (r: usize)
    requires
        1 <= j <= ts@.len(),
    ensures
        r == angle_end(view_tokens(ts@), j as int, 1),
{
    let ghost tv = view_tokens(ts@);
    let n = ts.len();
    let mut k: usize = j;
    let mut a: usize = 1;
    while k < ts.len()
        invariant
            j <= k <= ts@.len(),
            n == ts@.len(),
            1 <= j,
            1 <= a <= k + 1 - j,
            tv == view_tokens(ts@),
            angle_end(tv, k as int, a as int) == angle_end(tv, j as int, 1),
        decreases ts@.len() - k,
    {
        assert(tv[k as int] == ts@[k as int]@);
        if k >= 1 {
            assert(tv[k - 1] == ts@[k - 1]@);
        }
        let closes = token_is_punct(&ts[k], '>') && !(k >= 1 && token_is_punct(&ts[k - 1], '-'));
        if closes {
            if a <= 1 {
                return k + 1;
            }
            a = a - 1;
        } else if token_is_punct(&ts[k], '<') {
            a = a + 1;
        }
        k = k + 1;
    }
    k
}

/// The path that starts at `i`, if one does.
pub fn scan_path(ts: &Vec<Token>, i: usize) -> (r: Option<PathSpan>)
    requires
        i <= ts@.len(),
    ensures
        match r {
            Some(p) => path_end(view_tokens(ts@), i as int) == Some(p.end as int)
                && path_last_sep(view_tokens(ts@), i as int) == match p.last_sep {
                    Some(l) => l as int,
                    None => -1,
                },
            None => path_end(view_tokens(ts@), i as int) is None,
        },
{
    let ghost tv = view_tokens(ts@);
    let n = ts.len();
    let k = if path_sep_at_exec(ts, i) { i + 2 } else { i };
    if k >= ts.len() {
        return None;
    }
    assert(tv[k as int] == ts@[k as int]@);
    if !is_ident_token(&ts[k]) {
        return None;
    }
    let mut j: usize = k + 1;
    let mut last: Option<usize> = None;
    loop
        invariant
            k < j <= ts@.len(),
            tv == view_tokens(ts@),
            k == first_segment(tv, i as int),
            tv[k as int] is Ident,
            path_scan(tv, j as int, match last { Some(l) => l as int, None => -1 })
                == path_scan(tv, k + 1, -1),
        ensures
            k < j <= ts@.len(),
            tv[k as int] is Ident,
            path_scan(tv, k + 1, -1) == (j as int, match last { Some(l) => l as int, None => -1 }),
        decreases ts@.len() - j,
    {
        let ghost l0 = match last { Some(l) => l as int, None => -1 };
        if j < ts.len() && path_sep_at_exec(ts, j) && ts.len() - j > 2 {
            assert(tv[j + 2] == ts@[j + 2]@);
            if token_is_punct(&ts[j + 2], '<') {
                proof { lemma_angle_end_bounds(tv, j + 3, 1); }
                j = scan_angle(ts, j + 3);
                continue;
            } else if is_ident_token(&ts[j + 2]) {
                last = Some(j);
                j = j + 3;
                continue;
            }
        }
        proof {
            if j < ts@.len() && ts@.len() - j > 2 {
                assert(tv[j + 2] == ts@[j + 2]@);
            }
            assert(path_scan(tv, j as int, l0) == (j as int, l0));
        }
        break;
    }
    Some(PathSpan { end: j, last_sep: last })
}

/// Reads a path from `i`, with recovery.
pub fn read_path(ts: &Vec<Token>, i: usize, errors: &mut Vec<Diagnostic>) -> (r: Found)
    requires
        i <= ts@.len(),
    ensures
        matches_insisted(r, insist_path(view_tokens(ts@), i as int)),
        final(errors)@ == old(errors)@ + insist_path(view_tokens(ts@), i as int).errors,
    decreases ts@.len() - i,
{
    let ghost tv = view_tokens(ts@);
    if i >= ts.len() {
        return not_found(ts);
    }
    match scan_path(ts, i) {
        Some(p) => {
            assert(errors@ =~= old(errors)@ + Seq::<Diagnostic>::empty());
            Found { found: true, start: i, end: p.end, next: p.end }
        },
        None => {
            errors.push(Diagnostic::ExpectedPath);
            let j = skip_tree(ts, i);
            let r = read_path(ts, j, errors);
            assert(final(errors)@ =~= old(errors)@ + insist_path(tv, i as int).errors);
            r
        },
    }
}

/// An exec scanning state; `depth` and `angle` are bounded by the number of
/// tokens read.
struct Scan {
    depth: i128,
    angle: usize,
    bars: bool,
    after_operand: bool,
    after_bar_op: bool,
    colons: usize,
}

impl View for Scan {
    type V = ScanState;

    closed spec fn view(&self) -> ScanState {
        ScanState {
            depth: self.depth as int,
            angle: self.angle as int,
            bars: self.bars,
            after_operand: self.after_operand,
            after_bar_op: self.after_bar_op,
            colons: self.colons as int,
        }
    }
}

fn is_keyword(s: &str) -> (r: bool)
    ensures
        r == keyword(s@),
{
    str_eq(s, "as") || str_eq(s, "async") || str_eq(s, "box") || str_eq(s, "break") || str_eq(s, "const")
        || str_eq(s, "continue") || str_eq(s, "dyn") || str_eq(s, "else") || str_eq(s, "fn")
        || str_eq(s, "for") || str_eq(s, "if") || str_eq(s, "impl") || str_eq(s, "in") || str_eq(s, "let")
        || str_eq(s, "loop") || str_eq(s, "match") || str_eq(s, "move") || str_eq(s, "mut")
        || str_eq(s, "ref") || str_eq(s, "return") || str_eq(s, "static") || str_eq(s, "unsafe")
        || str_eq(s, "where") || str_eq(s, "while") || str_eq(s, "yield")
}

fn token_starts_operand(t: &Token) -> (r: bool)
    ensures
        r == starts_operand(t@),
{
    match t {
        Token::Ident(s) => !is_keyword(s.as_str()),
        Token::Str(_) | Token::Lit(_) => true,
        _ => false,
    }
}

/// The end of the expression that starts at `i`.
pub fn scan_expr(ts: &Vec<Token>, i: usize) -> (r: usize)
    requires
        i <= ts@.len(),
    ensures
        r == expr_extent(view_tokens(ts@), i as int),
        i <= r <= ts@.len(),
{
    let ghost tv = view_tokens(ts@);
    let n = ts.len();
    let mut j: usize = i;
    let mut st = Scan { depth: 0, angle: 0, bars: false, after_operand: false, after_bar_op: false, colons: 0 };
    proof { lemma_expr_extent_bounds(tv, i as int, initial_scan()); }
    assert(st@ == initial_scan());
    while j < n
        invariant
            i <= j <= ts@.len(),
            n == ts@.len(),
            tv == view_tokens(ts@),
            -(j - i) <= st.depth <= j - i,
            st.angle <= j - i,
            st.colons <= 2,
            expr_extent_from(tv, j as int, st@) == expr_extent(tv, i as int),
        decreases ts@.len() - j,
    {
        let t = &ts[j];
        assert(tv[j as int] == ts@[j as int]@);
        let operand = token_starts_operand(t);
        let top = st.depth == 0 && st.angle == 0 && !st.bars;
        if top && (token_is_punct(t, ',') || (operand && st.after_operand)) {
            return j;
        }
        let ghost before = st@;
        match t {
            Token::Open(_) => {
                st = Scan { depth: st.depth + 1, after_operand: false, after_bar_op: false, colons: 0, ..st };
            },
            Token::Close(_) => {
                st = Scan { depth: st.depth - 1, after_operand: true, after_bar_op: false, colons: 0, ..st };
            },
            Token::Punct(c) => {
                if st.depth == 0 {
                    let c = *c;
                    let plain = Scan { after_operand: false, after_bar_op: false, colons: 0, ..st };
                    if c == ':' {
                        st = Scan { colons: if st.colons >= 2 { 2 } else { st.colons + 1 }, ..plain };
                    } else if c == '<' && (st.angle > 0 || st.colons >= 2) {
                        st = Scan { angle: st.angle + 1, ..plain };
                    } else if c == '>' && st.angle > 0 {
                        st = Scan { angle: st.angle - 1, after_operand: st.angle == 1, ..plain };
                    } else if c == '|' && st.angle == 0 {
                        if st.bars {
                            st = Scan { bars: false, ..plain };
                        } else if st.after_operand {
                            st = Scan { after_bar_op: true, ..plain };
                        } else if st.after_bar_op {
                            st = plain;
                        } else {
                            st = Scan { bars: true, ..plain };
                        }
                    } else {
                        st = plain;
                    }
                }
            },
            _ => {
                if st.depth == 0 {
                    st = Scan { after_operand: operand, after_bar_op: false, colons: 0, ..st };
                }
            },
        }
        assert(st@ == scan_step(tv[j as int], before));
        j = j + 1;
    }
    j
}

} // verus!
