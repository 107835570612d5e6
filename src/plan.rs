//! Planning the generated code of a declaration: the wrapper's accessor
//! methods, the keys they look fields up by, and for enums the companion
//! types and the variant dispatch.
use vstd::prelude::*;
use vstd::string::*;
use crate::args::{Args, attrs_args, kept_attrs, take_args_from_attrs, view_attrs, Attr, AttrV, InnerArgsV};
use crate::decl::{ItemDecl, view_fields, view_variants, FieldDecl, FieldDeclV, VariantDecl, VariantDeclV};
use crate::diagnostics::{Diagnostic, ItemKind};
use crate::names::{opt_chars, render_errors, render_name, rendered};
use crate::numbers::{decimal, format_decimal};
use crate::grammar::{lemma_path_scan, path_end, path_last_sep, scan_path, first_segment};
use crate::tokens::{Delim, slice_tokens, copy_tokens, view_tokens, Token, TokenV};

verus! {

/// The four accessor methods of one struct or union field, and what they
/// pass on to the field-access capability.
pub struct AccessorPlan {
    /// The getter: the field's member name, or `get_` and the member name
    /// where that starts with a digit.
    pub get: String,
    /// The getter's name and `_mut`.
    pub get_mut: String,
    /// `set_` and the member name.
    pub set: String,
    /// `insert_` and the member name.
    pub insert: String,
    /// The field's own descriptor expression, if it overrides the
    /// declaration's.
    pub descriptor: Option<Vec<Token>>,
    /// The key expression the field is looked up by.
    pub key: Vec<Token>,
    /// The field's other attributes, which go onto its methods.
    pub attrs: Vec<Attr>,
}

pub struct AccessorPlanV {
    pub get: Seq<char>,
    pub get_mut: Seq<char>,
    pub set: Seq<char>,
    pub insert: Seq<char>,
    pub descriptor: Option<Seq<TokenV>>,
    pub key: Seq<TokenV>,
    pub attrs: Seq<AttrV>,
}

impl View for AccessorPlan {
    type V = AccessorPlanV;

    open spec fn view(&self) -> AccessorPlanV {
        AccessorPlanV {
            get: self.get@,
            get_mut: self.get_mut@,
            set: self.set@,
            insert: self.insert@,
            descriptor: crate::names::opt_tokens(self.descriptor),
            key: view_tokens(self.key@),
            attrs: view_attrs(self.attrs@),
        }
    }
}

pub open spec fn view_accessors(s: Seq<AccessorPlan>) -> Seq<AccessorPlanV> {
    s.map_values(|p: AccessorPlan| p@)
}

/// The member name of a field: its identifier, or its position in decimal.
pub open spec fn member_name(ident: Option<Seq<char>>, index: nat) -> Seq<char> {
    match ident {
        Some(s) => s,
        None => decimal(index),
    }
}

pub open spec fn starts_with_digit(s: Seq<char>) -> bool {
    s.len() > 0 && '0' <= s[0] <= '9'
}

/// The getter's name for a member name.
pub open spec fn getter_name(m: Seq<char>) -> Seq<char> {
    if starts_with_digit(m) {
        "get_"@ + m
    } else {
        m
    }
}

/// The template an item's own name comes from: its `name` override, or the
/// template it inherits.
pub open spec fn own_template(a: InnerArgsV, inherited: Seq<TokenV>) -> Seq<TokenV> {
    match a.name {
        Some(n) => n,
        None => inherited,
    }
}

/// The template an item hands down to its fields: its `names` override, or
/// the template it inherits.
pub open spec fn handed_down(a: InnerArgsV, inherited: Seq<TokenV>) -> Seq<TokenV> {
    match a.names {
        Some(n) => n,
        None => inherited,
    }
}

/// The accessor plan of the struct or union field `f` at `index`, under the
/// declaration's template `names`, and the problems it reports.
pub open spec fn accessor_of(f: FieldDeclV, index: nat, names: Seq<TokenV>) -> (AccessorPlanV, Seq<Diagnostic>) {
    let a = attrs_args(f.attrs);
    let m = member_name(f.ident, index);
    let t = own_template(a.0, names);
    (
        AccessorPlanV {
            get: getter_name(m),
            get_mut: getter_name(m) + "_mut"@,
            set: "set_"@ + m,
            insert: "insert_"@ + m,
            descriptor: a.0.descriptor,
            key: rendered(t, f.ident, index, None),
            attrs: kept_attrs(f.attrs),
        },
        a.1 + render_errors(t, ItemKind::Field, f.ident is Some, false),
    )
}

/// The accessor plans of the fields of a struct or union, in declaration
/// order.
pub open spec fn accessors_of(fs: Seq<FieldDeclV>, names: Seq<TokenV>) -> Seq<AccessorPlanV> {
    Seq::new(fs.len(), |i: int| accessor_of(fs[i], i as nat, names).0)
}

/// The problems that planning the first `n` fields reports, in order.
pub open spec fn accessor_errors(fs: Seq<FieldDeclV>, names: Seq<TokenV>, n: nat) -> Seq<Diagnostic>
    decreases n,
{
    if n == 0 {
        Seq::empty()
    } else {
        accessor_errors(fs, names, (n - 1) as nat) + accessor_of(fs[n - 1], (n - 1) as nat, names).1
    }
}

fn digit_first(s: &str) -> (r: bool)
    ensures
        r == starts_with_digit(s@),
{
    if s.unicode_len() == 0 {
        return false;
    }
    let c = s.get_char(0);
    '0' <= c && c <= '9'
}

fn concat(a: &str, b: &str) -> (r: String)
    ensures
        r@ == a@ + b@,
{
    let mut r = String::from_str(a);
    r.append(b);
    r
}

/// A field's member name.
pub fn member_of(ident: &Option<String>, index: usize) -> (r: String)
    ensures
        r@ == member_name(opt_chars(*ident), index as nat),
{
    match ident {
        Some(s) => s.clone(),
        None => format_decimal(index),
    }
}

/// Plans the accessors of one struct or union field.
pub fn plan_accessor(field: &FieldDecl, index: usize, names: &Vec<Token>, errors: &mut Vec<Diagnostic>) -> (r: AccessorPlan)
    ensures
        r@ == accessor_of(field@, index as nat, view_tokens(names@)).0,
        final(errors)@ == old(errors)@ + accessor_of(field@, index as nat, view_tokens(names@)).1,
{
    let mut attrs = copy_attrs(&field.attrs);
    let a = take_args_from_attrs(&mut attrs, errors);
    let m = member_of(&field.ident, index);
    let get = if digit_first(m.as_str()) { concat("get_", m.as_str()) } else { m.clone() };
    let get_mut = concat(get.as_str(), "_mut");
    let set = concat("set_", m.as_str());
    let insert = concat("insert_", m.as_str());
    let template = match &a.name {
        Some(n) => copy_tokens(n),
        None => copy_tokens(names),
    };
    let key = render_name(ItemKind::Field, &field.ident, index, &None, &template, errors);
    let r = AccessorPlan { get, get_mut, set, insert, descriptor: a.descriptor, key, attrs };
    assert(final(errors)@ =~= old(errors)@ + accessor_of(field@, index as nat, view_tokens(names@)).1);
    r
}

/// A copy of a list of attributes, equal to it.
pub fn copy_attrs(attrs: &Vec<Attr>) -> (r: Vec<Attr>)
    ensures
        view_attrs(r@) == view_attrs(attrs@),
{
    let mut r: Vec<Attr> = Vec::new();
    let mut j: usize = 0;
    while j < attrs.len()
        invariant
            j <= attrs@.len(),
            view_attrs(r@) == view_attrs(attrs@).subrange(0, j as int),
        decreases attrs@.len() - j,
    {
        let a = &attrs[j];
        let ghost prev = r@;
        let c = Attr { path: a.path.clone(), tokens: copy_tokens(&a.tokens) };
        assert(c@ == view_attrs(attrs@)[j as int]);
        r.push(c);
        assert(view_attrs(r@) =~= view_attrs(prev).push(c@));
        assert(view_attrs(r@) =~= view_attrs(attrs@).subrange(0, j + 1));
        j = j + 1;
    }
    assert(view_attrs(attrs@).subrange(0, attrs@.len() as int) =~= view_attrs(attrs@));
    r
}

/// Plans the accessors of every field of a struct or union, in declaration
/// order, under the declaration's name template.
pub fn plan_accessors(fields: &Vec<FieldDecl>, names: &Vec<Token>, errors: &mut Vec<Diagnostic>) -> (r: Vec<AccessorPlan>)
    ensures
        view_accessors(r@) == accessors_of(view_fields(fields@), view_tokens(names@)),
        final(errors)@ == old(errors)@ + accessor_errors(view_fields(fields@), view_tokens(names@), fields@.len()),
{
    let ghost fv = view_fields(fields@);
    let ghost nv = view_tokens(names@);
    let mut r: Vec<AccessorPlan> = Vec::new();
    let mut i: usize = 0;
    while i < fields.len()
        invariant
            i <= fields@.len(),
            fv == view_fields(fields@),
            nv == view_tokens(names@),
            view_accessors(r@) == accessors_of(fv, nv).subrange(0, i as int),
            errors@ == old(errors)@ + accessor_errors(fv, nv, i as nat),
        decreases fields@.len() - i,
    {
        assert(fv[i as int] == fields@[i as int]@);
        let p = plan_accessor(&fields[i], i, names, errors);
        assert(p@ == accessors_of(fv, nv)[i as int]);
        let ghost prev = r@;
        r.push(p);
        assert(view_accessors(r@) =~= view_accessors(prev).push(p@));
        assert(view_accessors(r@) =~= accessors_of(fv, nv).subrange(0, i + 1));
        assert(errors@ =~= old(errors)@ + accessor_errors(fv, nv, (i + 1) as nat));
        i = i + 1;
    }
    assert(accessors_of(fv, nv).subrange(0, fields@.len() as int) =~= accessors_of(fv, nv));
    r
}

} // verus!

verus! {

/// One field of an enum variant: its member name, and what its access
/// passes on.
pub struct VariantFieldPlan {
    pub member: String,
    pub descriptor: Option<Vec<Token>>,
    pub key: Vec<Token>,
    pub attrs: Vec<Attr>,
}

pub struct VariantFieldPlanV {
    pub member: Seq<char>,
    pub descriptor: Option<Seq<TokenV>>,
    pub key: Seq<TokenV>,
    pub attrs: Seq<AttrV>,
}

impl View for VariantFieldPlan {
    type V = VariantFieldPlanV;

    open spec fn view(&self) -> VariantFieldPlanV {
        VariantFieldPlanV {
            member: self.member@,
            descriptor: crate::names::opt_tokens(self.descriptor),
            key: view_tokens(self.key@),
            attrs: view_attrs(self.attrs@),
        }
    }
}

pub open spec fn view_variant_fields(s: Seq<VariantFieldPlan>) -> Seq<VariantFieldPlanV> {
    s.map_values(|p: VariantFieldPlan| p@)
}

/// One variant of an enum: the key its predicate is asked about, and its
/// fields.
pub struct VariantPlan {
    pub ident: String,
    pub descriptor: Option<Vec<Token>>,
    pub key: Vec<Token>,
    pub attrs: Vec<Attr>,
    pub fields: Vec<VariantFieldPlan>,
}

pub struct VariantPlanV {
    pub ident: Seq<char>,
    pub descriptor: Option<Seq<TokenV>>,
    pub key: Seq<TokenV>,
    pub attrs: Seq<AttrV>,
    pub fields: Seq<VariantFieldPlanV>,
}

impl View for VariantPlan {
    type V = VariantPlanV;

    open spec fn view(&self) -> VariantPlanV {
        VariantPlanV {
            ident: self.ident@,
            descriptor: crate::names::opt_tokens(self.descriptor),
            key: view_tokens(self.key@),
            attrs: view_attrs(self.attrs@),
            fields: view_variant_fields(self.fields@),
        }
    }
}

pub open spec fn view_variant_plans(s: Seq<VariantPlan>) -> Seq<VariantPlanV> {
    s.map_values(|p: VariantPlan| p@)
}

/// The plan of an enum: the names of its three companion types (owned,
/// borrowed, mutably borrowed), whether they need a lifetime, and its
/// variants in declaration order, which is the order they are tested in.
pub struct EnumPlan {
    pub owned: String,
    pub by_ref: String,
    pub by_mut: String,
    pub has_fields: bool,
    /// Whether every variant is tested by the enum's own descriptor with a
    /// key of one kind (all string literals, or all other literals), so
    /// that one call of the ordered dispatch can test them all.
    pub shared_dispatch: bool,
    pub variants: Vec<VariantPlan>,
}

pub struct EnumPlanV {
    pub owned: Seq<char>,
    pub by_ref: Seq<char>,
    pub by_mut: Seq<char>,
    pub has_fields: bool,
    pub shared_dispatch: bool,
    pub variants: Seq<VariantPlanV>,
}

impl View for EnumPlan {
    type V = EnumPlanV;

    open spec fn view(&self) -> EnumPlanV {
        EnumPlanV {
            owned: self.owned@,
            by_ref: self.by_ref@,
            by_mut: self.by_mut@,
            has_fields: self.has_fields,
            shared_dispatch: self.shared_dispatch,
            variants: view_variant_plans(self.variants@),
        }
    }
}

/// The plan of the variant field `f` at `index`, under the template its
/// variant hands down.
pub open spec fn variant_field_of(f: FieldDeclV, index: nat, inherited: Seq<TokenV>) -> (VariantFieldPlanV, Seq<Diagnostic>) {
    let a = attrs_args(f.attrs);
    let t = own_template(a.0, inherited);
    (
        VariantFieldPlanV {
            member: member_name(f.ident, index),
            descriptor: a.0.descriptor,
            key: rendered(t, f.ident, index, None),
            attrs: kept_attrs(f.attrs),
        },
        a.1 + render_errors(t, ItemKind::Field, f.ident is Some, false),
    )
}

pub open spec fn variant_fields_of(fs: Seq<FieldDeclV>, inherited: Seq<TokenV>) -> Seq<VariantFieldPlanV> {
    Seq::new(fs.len(), |j: int| variant_field_of(fs[j], j as nat, inherited).0)
}

pub open spec fn variant_field_errors(fs: Seq<FieldDeclV>, inherited: Seq<TokenV>, n: nat) -> Seq<Diagnostic>
    decreases n,
{
    if n == 0 {
        Seq::empty()
    } else {
        variant_field_errors(fs, inherited, (n - 1) as nat) + variant_field_of(fs[n - 1], (n - 1) as nat, inherited).1
    }
}

/// The plan of the variant `v` at `index`, under the enum's template.
pub open spec fn variant_of(v: VariantDeclV, index: nat, names: Seq<TokenV>) -> (VariantPlanV, Seq<Diagnostic>) {
    let a = attrs_args(v.attrs);
    let t = own_template(a.0, names);
    let down = handed_down(a.0, names);
    (
        VariantPlanV {
            ident: v.ident,
            descriptor: a.0.descriptor,
            key: rendered(t, Some(v.ident), index, v.discriminant),
            attrs: kept_attrs(v.attrs),
            fields: variant_fields_of(v.fields, down),
        },
        a.1 + render_errors(t, ItemKind::Variant, true, v.discriminant is Some)
            + variant_field_errors(v.fields, down, v.fields.len()),
    )
}

pub open spec fn variants_of(vs: Seq<VariantDeclV>, names: Seq<TokenV>) -> Seq<VariantPlanV> {
    Seq::new(vs.len(), |i: int| variant_of(vs[i], i as nat, names).0)
}

pub open spec fn variant_errors(vs: Seq<VariantDeclV>, names: Seq<TokenV>, n: nat) -> Seq<Diagnostic>
    decreases n,
{
    if n == 0 {
        Seq::empty()
    } else {
        variant_errors(vs, names, (n - 1) as nat) + variant_of(vs[n - 1], (n - 1) as nat, names).1
    }
}

/// Whether any variant carries fields.
pub open spec fn any_fields(vs: Seq<VariantDeclV>) -> bool {
    exists|i: int| 0 <= i < vs.len() && vs[i].fields.len() > 0
}

/// The plan of the enum `ident` with variants `vs` under the template `names`.
pub open spec fn enum_of(ident: Seq<char>, vs: Seq<VariantDeclV>, names: Seq<TokenV>) -> EnumPlanV {
    EnumPlanV {
        owned: ident + "VariantOwned"@,
        by_ref: ident + "VariantRef"@,
        by_mut: ident + "VariantMut"@,
        has_fields: any_fields(vs),
        shared_dispatch: shared_dispatch(variants_of(vs, names)),
        variants: variants_of(vs, names),
    }
}

pub open spec fn single_str(k: Seq<TokenV>) -> bool {
    k.len() == 1 && k[0] is Str
}

pub open spec fn single_lit(k: Seq<TokenV>) -> bool {
    k.len() == 1 && k[0] is Lit
}

/// Whether there are variants, every one inherits the enum's descriptor,
/// and all keys are of one kind: each a single string literal, or each a
/// single other literal.
pub open spec fn shared_dispatch(vs: Seq<VariantPlanV>) -> bool {
    vs.len() > 0 && (forall|i: int| 0 <= i < vs.len() ==> (#[trigger] vs[i]).descriptor is None)
        && ((forall|i: int| 0 <= i < vs.len() ==> single_str((#[trigger] vs[i]).key))
        || (forall|i: int| 0 <= i < vs.len() ==> single_lit((#[trigger] vs[i]).key)))
}

fn key_kind(k: &Vec<Token>) -> (r: (bool, bool))
    ensures
        r.0 == single_str(view_tokens(k@)),
        r.1 == single_lit(view_tokens(k@)),
{
    if k.len() != 1 {
        return (false, false);
    }
    assert(view_tokens(k@)[0] == k@[0]@);
    match &k[0] {
        Token::Str(_) => (true, false),
        Token::Lit(_) => (false, true),
        _ => (false, false),
    }
}

fn plans_share_dispatch(plans: &Vec<VariantPlan>) -> (r: bool)
    ensures
        r == shared_dispatch(view_variant_plans(plans@)),
{
    let ghost pv = view_variant_plans(plans@);
    let mut inherit = true;
    let mut strs = true;
    let mut lits = true;
    let mut i: usize = 0;
    while i < plans.len()
        invariant
            i <= plans@.len(),
            pv == view_variant_plans(plans@),
            inherit == forall|k: int| 0 <= k < i ==> (#[trigger] pv[k]).descriptor is None,
            strs == forall|k: int| 0 <= k < i ==> single_str((#[trigger] pv[k]).key),
            lits == forall|k: int| 0 <= k < i ==> single_lit((#[trigger] pv[k]).key),
        decreases plans@.len() - i,
    {
        assert(pv[i as int] == plans@[i as int]@);
        let (s, l) = key_kind(&plans[i].key);
        if plans[i].descriptor.is_some() {
            inherit = false;
        }
        if !s {
            strs = false;
        }
        if !l {
            lits = false;
        }
        i = i + 1;
    }
    plans.len() > 0 && inherit && (strs || lits)
}

fn plan_variant_field(field: &FieldDecl, index: usize, inherited: &Vec<Token>, errors: &mut Vec<Diagnostic>) -> (r: VariantFieldPlan)
    ensures
        r@ == variant_field_of(field@, index as nat, view_tokens(inherited@)).0,
        final(errors)@ == old(errors)@ + variant_field_of(field@, index as nat, view_tokens(inherited@)).1,
{
    let mut attrs = copy_attrs(&field.attrs);
    let a = take_args_from_attrs(&mut attrs, errors);
    let member = member_of(&field.ident, index);
    let template = match &a.name {
        Some(n) => copy_tokens(n),
        None => copy_tokens(inherited),
    };
    let key = render_name(ItemKind::Field, &field.ident, index, &None, &template, errors);
    let r = VariantFieldPlan { member, descriptor: a.descriptor, key, attrs };
    assert(final(errors)@ =~= old(errors)@ + variant_field_of(field@, index as nat, view_tokens(inherited@)).1);
    r
}

fn plan_variant_fields(fields: &Vec<FieldDecl>, inherited: &Vec<Token>, errors: &mut Vec<Diagnostic>) -> (r: Vec<VariantFieldPlan>)
    ensures
        view_variant_fields(r@) == variant_fields_of(view_fields(fields@), view_tokens(inherited@)),
        final(errors)@ == old(errors)@ + variant_field_errors(view_fields(fields@), view_tokens(inherited@), fields@.len()),
{
    let ghost fv = view_fields(fields@);
    let ghost nv = view_tokens(inherited@);
    let mut r: Vec<VariantFieldPlan> = Vec::new();
    let mut j: usize = 0;
    while j < fields.len()
        invariant
            j <= fields@.len(),
            fv == view_fields(fields@),
            nv == view_tokens(inherited@),
            view_variant_fields(r@) == variant_fields_of(fv, nv).subrange(0, j as int),
            errors@ == old(errors)@ + variant_field_errors(fv, nv, j as nat),
        decreases fields@.len() - j,
    {
        assert(fv[j as int] == fields@[j as int]@);
        let p = plan_variant_field(&fields[j], j, inherited, errors);
        assert(p@ == variant_fields_of(fv, nv)[j as int]);
        let ghost prev = r@;
        r.push(p);
        assert(view_variant_fields(r@) =~= view_variant_fields(prev).push(p@));
        assert(view_variant_fields(r@) =~= variant_fields_of(fv, nv).subrange(0, j + 1));
        assert(errors@ =~= old(errors)@ + variant_field_errors(fv, nv, (j + 1) as nat));
        j = j + 1;
    }
    assert(variant_fields_of(fv, nv).subrange(0, fields@.len() as int) =~= variant_fields_of(fv, nv));
    r
}

fn plan_variant(variant: &VariantDecl, index: usize, names: &Vec<Token>, errors: &mut Vec<Diagnostic>) -> (r: VariantPlan)
    ensures
        r@ == variant_of(variant@, index as nat, view_tokens(names@)).0,
        final(errors)@ == old(errors)@ + variant_of(variant@, index as nat, view_tokens(names@)).1,
{
    let mut attrs = copy_attrs(&variant.attrs);
    let a = take_args_from_attrs(&mut attrs, errors);
    let template = match &a.name {
        Some(n) => copy_tokens(n),
        None => copy_tokens(names),
    };
    let down = match &a.names {
        Some(n) => copy_tokens(n),
        None => copy_tokens(names),
    };
    let ident = Some(variant.ident.clone());
    let key = render_name(ItemKind::Variant, &ident, index, &variant.discriminant, &template, errors);
    let fields = plan_variant_fields(&variant.fields, &down, errors);
    let r = VariantPlan { ident: variant.ident.clone(), descriptor: a.descriptor, key, attrs, fields };
    assert(final(errors)@ =~= old(errors)@ + variant_of(variant@, index as nat, view_tokens(names@)).1);
    r
}

/// Plans an enum: its companion type names and every variant, in
/// declaration order, under the declaration's name template. A variant's
/// own name comes from its `name` override or the enum's template; its
/// fields inherit its `names` override, or else the enum's template.
pub fn plan_enum(ident: &String, variants: &Vec<VariantDecl>, names: &Vec<Token>, errors: &mut Vec<Diagnostic>) -> (r: EnumPlan)
    ensures
        r@ == enum_of(ident@, view_variants(variants@), view_tokens(names@)),
        final(errors)@ == old(errors)@ + variant_errors(view_variants(variants@), view_tokens(names@), variants@.len()),
{
    let ghost vv = view_variants(variants@);
    let ghost nv = view_tokens(names@);
    let mut plans: Vec<VariantPlan> = Vec::new();
    let mut has_fields = false;
    let mut i: usize = 0;
    while i < variants.len()
        invariant
            i <= variants@.len(),
            vv == view_variants(variants@),
            nv == view_tokens(names@),
            view_variant_plans(plans@) == variants_of(vv, nv).subrange(0, i as int),
            errors@ == old(errors)@ + variant_errors(vv, nv, i as nat),
            has_fields == exists|k: int| 0 <= k < i && vv[k].fields.len() > 0,
        decreases variants@.len() - i,
    {
        assert(vv[i as int] == variants@[i as int]@);
        if variants[i].fields.len() > 0 {
            has_fields = true;
        }
        let p = plan_variant(&variants[i], i, names, errors);
        assert(p@ == variants_of(vv, nv)[i as int]);
        let ghost prev = plans@;
        plans.push(p);
        assert(view_variant_plans(plans@) =~= view_variant_plans(prev).push(p@));
        assert(view_variant_plans(plans@) =~= variants_of(vv, nv).subrange(0, i + 1));
        assert(errors@ =~= old(errors)@ + variant_errors(vv, nv, (i + 1) as nat));
        i = i + 1;
    }
    assert(variants_of(vv, nv).subrange(0, variants@.len() as int) =~= variants_of(vv, nv));
    let shared_dispatch = plans_share_dispatch(&plans);
    EnumPlan {
        owned: concat(ident.as_str(), "VariantOwned"),
        by_ref: concat(ident.as_str(), "VariantRef"),
        by_mut: concat(ident.as_str(), "VariantMut"),
        has_fields,
        shared_dispatch,
        variants: plans,
    }
}

} // verus!

verus! {

/// The identifier that stands for a descriptor type that could not be read.
pub open spec fn unknown_type() -> Seq<char> {
    "__faible__UnknownType"@
}

/// Whether an identifier, without any `r#` prefix, starts with a lower-case
/// ASCII letter.
pub open spec fn lower_start(s: Seq<char>) -> bool {
    let t = if s.len() >= 2 && s[0] == 'r' && s[1] == '#' { s.subrange(2, s.len() as int) } else { s };
    t.len() > 0 && 'a' <= t[0] <= 'z'
}

/// The descriptor's type, read off its expression: the unit type for the
/// unit expression `()`, else the path the expression starts with (generic
/// arguments included), less a last segment that starts in lower case (the name of a
/// constructor function, as in `Descriptor::new()`). Where the expression
/// starts with no path, a placeholder type and a problem.
pub open spec fn descriptor_type_of(ts: Seq<TokenV>) -> (Seq<TokenV>, Seq<Diagnostic>) {
    if ts == unit_tokens() {
        (unit_tokens(), Seq::empty())
    } else {
    match path_end(ts, 0) {
        None => (seq![TokenV::Ident(unknown_type())], seq![Diagnostic::DescriptorTypeUnknown]),
        Some(e) => {
            let last = path_last_sep(ts, 0);
            let drop_last = last >= 0 && match ts[last + 2] {
                TokenV::Ident(s) => lower_start(s),
                _ => false,
            };
            if drop_last {
                (ts.subrange(0, last), Seq::empty())
            } else {
                (ts.subrange(0, e), Seq::empty())
            }
        },
    }
    }
}

/// The unit expression `()`, which is also the unit type.
pub open spec fn unit_tokens() -> Seq<TokenV> {
    seq![TokenV::Open(Delim::Paren), TokenV::Close(Delim::Paren)]
}

fn is_unit(ts: &Vec<Token>) -> (r: bool)
    ensures
        r == (view_tokens(ts@) == unit_tokens()),
{
    if ts.len() != 2 {
        proof { if view_tokens(ts@) == unit_tokens() { assert(view_tokens(ts@).len() == 2); } }
        return false;
    }
    let r = match (&ts[0], &ts[1]) {
        (Token::Open(Delim::Paren), Token::Close(Delim::Paren)) => true,
        _ => false,
    };
    proof {
        assert(view_tokens(ts@)[0] == ts@[0]@);
        assert(view_tokens(ts@)[1] == ts@[1]@);
        if r { assert(view_tokens(ts@) =~= unit_tokens()); }
    }
    r
}

fn lower_first(s: &str) -> (r: bool)
    ensures
        r == lower_start(s@),
{
    let n = s.unicode_len();
    let raw = n >= 2 && s.get_char(0) == 'r' && s.get_char(1) == '#';
    let t = if raw { s.substring_char(2, n) } else { s };
    if t.unicode_len() == 0 {
        return false;
    }
    let c = t.get_char(0);
    'a' <= c && c <= 'z'
}

/// Reads the descriptor's type off its expression.
pub fn descriptor_type(descriptor: &Vec<Token>, errors: &mut Vec<Diagnostic>) -> (r: Vec<Token>)
    ensures
        view_tokens(r@) == descriptor_type_of(view_tokens(descriptor@)).0,
        final(errors)@ == old(errors)@ + descriptor_type_of(view_tokens(descriptor@)).1,
{
    let ghost tv = view_tokens(descriptor@);
    if is_unit(descriptor) {
        assert(errors@ =~= old(errors)@ + Seq::<Diagnostic>::empty());
        return copy_tokens(descriptor);
    }
    match scan_path(descriptor, 0) {
        None => {
            errors.push(Diagnostic::DescriptorTypeUnknown);
            let r = vec![Token::Ident(String::from_str("__faible__UnknownType"))];
            assert(view_tokens(r@) =~= descriptor_type_of(tv).0);
            assert(final(errors)@ =~= old(errors)@ + descriptor_type_of(tv).1);
            r
        },
        Some(p) => {
            proof {
                lemma_path_scan(tv, first_segment(tv, 0) + 1, -1);
            }
            let drop_last = match p.last_sep {
                Some(l) => {
                    assert(tv[l + 2] == descriptor@[l + 2]@);
                    match &descriptor[l + 2] {
                        Token::Ident(s) => lower_first(s.as_str()),
                        _ => false,
                    }
                },
                None => false,
            };
            assert(errors@ =~= old(errors)@ + Seq::<Diagnostic>::empty());
            if drop_last {
                slice_tokens(descriptor, 0, p.last_sep.unwrap())
            } else {
                slice_tokens(descriptor, 0, p.end)
            }
        },
    }
}

/// What is planned for the body of a declaration.
pub enum ItemPlan {
    Struct(Vec<AccessorPlan>),
    Union(Vec<AccessorPlan>),
    Enum(EnumPlan),
}

/// The plan of a whole declaration: its wrapper type's name, the
/// descriptor's type, whether the conversions to and from the weak type are
/// emitted, and the body.
pub struct Plan {
    pub ident: String,
    pub descriptor_type: Vec<Token>,
    pub weak_conversions: bool,
    pub body: ItemPlan,
}

/// Plans the wrapper of a declaration under the attribute's arguments.
/// Items other than structs, unions and enums get no plan and a problem.
/// Problems with the descriptor's type come first, then those of the
/// fields or variants in declaration order.
pub fn plan_item(args: &Args, item: &ItemDecl, errors: &mut Vec<Diagnostic>) -> (r: Option<Plan>)
    ensures
        match *item {
            ItemDecl::Other => r is None && final(errors)@ == old(errors)@.push(Diagnostic::UnsupportedItem),
            ItemDecl::Struct { ident, fields } => r matches Some(p) && p.ident@ == ident@
                && view_tokens(p.descriptor_type@) == descriptor_type_of(args@.descriptor).0
                && p.weak_conversions == !args.no_weak_conversions
                && (p.body matches ItemPlan::Struct(ps)
                    && view_accessors(ps@) == accessors_of(view_fields(fields@), args@.names))
                && final(errors)@ == old(errors)@ + descriptor_type_of(args@.descriptor).1
                    + accessor_errors(view_fields(fields@), args@.names, fields@.len()),
            ItemDecl::Union { ident, fields } => r matches Some(p) && p.ident@ == ident@
                && view_tokens(p.descriptor_type@) == descriptor_type_of(args@.descriptor).0
                && p.weak_conversions == !args.no_weak_conversions
                && (p.body matches ItemPlan::Union(ps)
                    && view_accessors(ps@) == accessors_of(view_fields(fields@), args@.names))
                && final(errors)@ == old(errors)@ + descriptor_type_of(args@.descriptor).1
                    + accessor_errors(view_fields(fields@), args@.names, fields@.len()),
            ItemDecl::Enum { ident, variants } => r matches Some(p) && p.ident@ == ident@
                && view_tokens(p.descriptor_type@) == descriptor_type_of(args@.descriptor).0
                && p.weak_conversions == !args.no_weak_conversions
                && (p.body matches ItemPlan::Enum(ep)
                    && ep@ == enum_of(ident@, view_variants(variants@), args@.names))
                && final(errors)@ == old(errors)@ + descriptor_type_of(args@.descriptor).1
                    + variant_errors(view_variants(variants@), args@.names, variants@.len()),
        },
{
    match item {
        ItemDecl::Other => {
            errors.push(Diagnostic::UnsupportedItem);
            None
        },
        ItemDecl::Struct { ident, fields } => {
            let dt = descriptor_type(&args.descriptor, errors);
            let ps = plan_accessors(fields, &args.names, errors);
            Some(Plan { ident: ident.clone(), descriptor_type: dt, weak_conversions: !args.no_weak_conversions, body: ItemPlan::Struct(ps) })
        },
        ItemDecl::Union { ident, fields } => {
            let dt = descriptor_type(&args.descriptor, errors);
            let ps = plan_accessors(fields, &args.names, errors);
            Some(Plan { ident: ident.clone(), descriptor_type: dt, weak_conversions: !args.no_weak_conversions, body: ItemPlan::Union(ps) })
        },
        ItemDecl::Enum { ident, variants } => {
            let dt = descriptor_type(&args.descriptor, errors);
            let ep = plan_enum(ident, variants, &args.names, errors);
            Some(Plan { ident: ident.clone(), descriptor_type: dt, weak_conversions: !args.no_weak_conversions, body: ItemPlan::Enum(ep) })
        },
    }
}

} // verus!
