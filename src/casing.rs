//! The casing styles that a name template can ask for, and their spellings.
use vstd::prelude::*;
use vstd::string::*;
use crate::tokens::str_eq;

verus! {

/// A casing style applied to an identifier's text.
#[derive(Clone, Copy, Debug, PartialEq, Eq, Structural)]
pub enum Casing {
    Kebab,
    LowerCamel,
    Pascal,
    ShoutyKebab,
    ShoutySnake,
    ShoutySnek,
    Snake,
    Snek,
    Title,
    UpperCamel,
    Verbatim,
}

pub uninterp spec fn kebab_of(s: Seq<char>) -> Seq<char>;

pub uninterp spec fn lower_camel_of(s: Seq<char>) -> Seq<char>;

pub uninterp spec fn upper_camel_of(s: Seq<char>) -> Seq<char>;

pub uninterp spec fn shouty_kebab_of(s: Seq<char>) -> Seq<char>;

pub uninterp spec fn shouty_snake_of(s: Seq<char>) -> Seq<char>;

pub uninterp spec fn snake_of(s: Seq<char>) -> Seq<char>;

pub uninterp spec fn title_of(s: Seq<char>) -> Seq<char>;

/// Relies on heck's `ToKebabCase::to_kebab_case`: lower-case words joined by `-`.
#[verifier::external_body]
fn heck_kebab(s: &str) -> (r: String)
    ensures
        r@ == kebab_of(s@),
{
    heck::ToKebabCase::to_kebab_case(s)
}

/// Relies on heck's `ToLowerCamelCase::to_lower_camel_case`: words joined, each
/// capitalised but the first, which is lower case.
#[verifier::external_body]
fn heck_lower_camel(s: &str) -> (r: String)
    ensures
        r@ == lower_camel_of(s@),
{
    heck::ToLowerCamelCase::to_lower_camel_case(s)
}

/// Relies on heck's `ToUpperCamelCase::to_upper_camel_case`: capitalised words
/// joined. heck's `to_pascal_case` is this same function under another name.
#[verifier::external_body]
fn heck_upper_camel(s: &str) -> (r: String)
    ensures
        r@ == upper_camel_of(s@),
{
    heck::ToUpperCamelCase::to_upper_camel_case(s)
}

/// Relies on heck's `ToShoutyKebabCase::to_shouty_kebab_case`: upper-case
/// words joined by `-`.
#[verifier::external_body]
fn heck_shouty_kebab(s: &str) -> (r: String)
    ensures
        r@ == shouty_kebab_of(s@),
{
    heck::ToShoutyKebabCase::to_shouty_kebab_case(s)
}

/// Relies on heck's `ToShoutySnakeCase::to_shouty_snake_case`: upper-case
/// words joined by `_`. heck's `TO_SHOUTY_SNEK_CASE` calls this function.
#[verifier::external_body]
fn heck_shouty_snake(s: &str) -> (r: String)
    ensures
        r@ == shouty_snake_of(s@),
{
    heck::ToShoutySnakeCase::to_shouty_snake_case(s)
}

/// Relies on heck's `ToSnakeCase::to_snake_case`: lower-case words joined by
/// `_`. heck's `to_snek_case` calls this function.
#[verifier::external_body]
fn heck_snake(s: &str) -> (r: String)
    ensures
        r@ == snake_of(s@),
{
    heck::ToSnakeCase::to_snake_case(s)
}

/// Relies on heck's `ToTitleCase::to_title_case`: capitalised words joined by
/// spaces.
#[verifier::external_body]
fn heck_title(s: &str) -> (r: String)
    ensures
        r@ == title_of(s@),
{
    heck::ToTitleCase::to_title_case(s)
}

/// The text of `name` in the casing `c`.
pub open spec fn cased(c: Casing, name: Seq<char>) -> Seq<char> {
    match c {
        Casing::Kebab => kebab_of(name),
        Casing::LowerCamel => lower_camel_of(name),
        Casing::Pascal | Casing::UpperCamel => upper_camel_of(name),
        Casing::ShoutyKebab => shouty_kebab_of(name),
        Casing::ShoutySnake | Casing::ShoutySnek => shouty_snake_of(name),
        Casing::Snake | Casing::Snek => snake_of(name),
        Casing::Title => title_of(name),
        Casing::Verbatim => name,
    }
}

/// Applies a casing style to an identifier's text.
pub fn apply_casing(c: Casing, name: &str) -> (r: String)
    ensures
        r@ == cased(c, name@),
{
    match c {
        Casing::Kebab => heck_kebab(name),
        Casing::LowerCamel => heck_lower_camel(name),
        Casing::Pascal | Casing::UpperCamel => heck_upper_camel(name),
        Casing::ShoutyKebab => heck_shouty_kebab(name),
        Casing::ShoutySnake | Casing::ShoutySnek => heck_shouty_snake(name),
        Casing::Snake | Casing::Snek => heck_snake(name),
        Casing::Title => heck_title(name),
        Casing::Verbatim => String::from_str(name),
    }
}

/// The casing that a string literal in a name template spells, if any.
pub open spec fn literal_casing(s: Seq<char>) -> Option<Casing> {
    if s == "kebab-case"@ {
        Some(Casing::Kebab)
    } else if s == "lowerCamelCase"@ {
        Some(Casing::LowerCamel)
    } else if s == "PascalCase"@ {
        Some(Casing::Pascal)
    } else if s == "SHOUTY-KEBAB-CASE"@ {
        Some(Casing::ShoutyKebab)
    } else if s == "SHOUTY_SNAKE_CASE"@ {
        Some(Casing::ShoutySnake)
    } else if s == "SHOUTY_SNEK_CASE"@ {
        Some(Casing::ShoutySnek)
    } else if s == "snake_case"@ {
        Some(Casing::Snake)
    } else if s == "snek_case"@ {
        Some(Casing::Snek)
    } else if s == "Title Case"@ {
        Some(Casing::Title)
    } else if s == "UpperCamelCase"@ {
        Some(Casing::UpperCamel)
    } else if s == "verbatim"@ {
        Some(Casing::Verbatim)
    } else {
        None
    }
}

/// The casing that an identifier in a name template spells, if any.
pub open spec fn ident_casing(s: Seq<char>) -> Option<Casing> {
    if s == "kebab_case"@ {
        Some(Casing::Kebab)
    } else if s == "lowerCamelCase"@ {
        Some(Casing::LowerCamel)
    } else if s == "PascalCase"@ {
        Some(Casing::Pascal)
    } else if s == "SHOUTY_KEBAB_CASE"@ {
        Some(Casing::ShoutyKebab)
    } else if s == "SHOUTY_SNAKE_CASE"@ {
        Some(Casing::ShoutySnake)
    } else if s == "SHOUTY_SNEK_CASE"@ {
        Some(Casing::ShoutySnek)
    } else if s == "snake_case"@ {
        Some(Casing::Snake)
    } else if s == "snek_case"@ {
        Some(Casing::Snek)
    } else if s == "Title_Case"@ {
        Some(Casing::Title)
    } else if s == "UpperCamelCase"@ {
        Some(Casing::UpperCamel)
    } else if s == "verbatim"@ {
        Some(Casing::Verbatim)
    } else {
        None
    }
}

/// Reads the casing that a string literal's value spells.
pub fn casing_of_literal(s: &str) -> (r: Option<Casing>)
    ensures
        r == literal_casing(s@),
{
    if str_eq(s, "kebab-case") {
        Some(Casing::Kebab)
    } else if str_eq(s, "lowerCamelCase") {
        Some(Casing::LowerCamel)
    } else if str_eq(s, "PascalCase") {
        Some(Casing::Pascal)
    } else if str_eq(s, "SHOUTY-KEBAB-CASE") {
        Some(Casing::ShoutyKebab)
    } else if str_eq(s, "SHOUTY_SNAKE_CASE") {
        Some(Casing::ShoutySnake)
    } else if str_eq(s, "SHOUTY_SNEK_CASE") {
        Some(Casing::ShoutySnek)
    } else if str_eq(s, "snake_case") {
        Some(Casing::Snake)
    } else if str_eq(s, "snek_case") {
        Some(Casing::Snek)
    } else if str_eq(s, "Title Case") {
        Some(Casing::Title)
    } else if str_eq(s, "UpperCamelCase") {
        Some(Casing::UpperCamel)
    } else if str_eq(s, "verbatim") {
        Some(Casing::Verbatim)
    } else {
        None
    }
}

/// Reads the casing that an identifier spells.
pub fn casing_of_ident(s: &str) -> (r: Option<Casing>)
    ensures
        r == ident_casing(s@),
{
    if str_eq(s, "kebab_case") {
        Some(Casing::Kebab)
    } else if str_eq(s, "lowerCamelCase") {
        Some(Casing::LowerCamel)
    } else if str_eq(s, "PascalCase") {
        Some(Casing::Pascal)
    } else if str_eq(s, "SHOUTY_KEBAB_CASE") {
        Some(Casing::ShoutyKebab)
    } else if str_eq(s, "SHOUTY_SNAKE_CASE") {
        Some(Casing::ShoutySnake)
    } else if str_eq(s, "SHOUTY_SNEK_CASE") {
        Some(Casing::ShoutySnek)
    } else if str_eq(s, "snake_case") {
        Some(Casing::Snake)
    } else if str_eq(s, "snek_case") {
        Some(Casing::Snek)
    } else if str_eq(s, "Title_Case") {
        Some(Casing::Title)
    } else if str_eq(s, "UpperCamelCase") {
        Some(Casing::UpperCamel)
    } else if str_eq(s, "verbatim") {
        Some(Casing::Verbatim)
    } else {
        None
    }
}

} // verus!
