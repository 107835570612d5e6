//! The declarations that the generator reads: structs, unions and enums,
//! reduced to what planning needs.
use vstd::prelude::*;
use crate::args::{view_attrs, Attr, AttrV};
use crate::names::{opt_chars, opt_tokens};
use crate::tokens::{Token, TokenV};

verus! {

/// A field of a struct, union or variant. `ident` is absent for a
/// positional field.
pub struct FieldDecl {
    pub ident: Option<String>,
    pub attrs: Vec<Attr>,
}

pub struct FieldDeclV {
    pub ident: Option<Seq<char>>,
    pub attrs: Seq<AttrV>,
}

impl View for FieldDecl {
    type V = FieldDeclV;

    open spec fn view(&self) -> FieldDeclV {
        FieldDeclV { ident: opt_chars(self.ident), attrs: view_attrs(self.attrs@) }
    }
}

pub open spec fn view_fields(s: Seq<FieldDecl>) -> Seq<FieldDeclV> {
    s.map_values(|f: FieldDecl| f@)
}

/// A variant of an enum, with its explicit discriminant if it has one.
pub struct VariantDecl {
    pub ident: String,
    pub attrs: Vec<Attr>,
    pub fields: Vec<FieldDecl>,
    pub discriminant: Option<Vec<Token>>,
}

pub struct VariantDeclV {
    pub ident: Seq<char>,
    pub attrs: Seq<AttrV>,
    pub fields: Seq<FieldDeclV>,
    pub discriminant: Option<Seq<TokenV>>,
}

impl View for VariantDecl {
    type V = VariantDeclV;

    open spec fn view(&self) -> VariantDeclV {
        VariantDeclV {
            ident: self.ident@,
            attrs: view_attrs(self.attrs@),
            fields: view_fields(self.fields@),
            discriminant: opt_tokens(self.discriminant),
        }
    }
}

pub open spec fn view_variants(s: Seq<VariantDecl>) -> Seq<VariantDeclV> {
    s.map_values(|v: VariantDecl| v@)
}

/// The item that the attribute stands on.
pub enum ItemDecl {
    Struct { ident: String, fields: Vec<FieldDecl> },
    Union { ident: String, fields: Vec<FieldDecl> },
    Enum { ident: String, variants: Vec<VariantDecl> },
    /// Any other item, which the attribute does not support.
    Other,
}

} // verus!
