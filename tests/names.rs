use faible::casing::{apply_casing, casing_of_ident, casing_of_literal, Casing};
use faible::diagnostics::{Diagnostic, ItemKind};
use faible::names::render_name;
use faible::tokens::{Delim, Token};

fn ident(s: &str) -> Token {
    Token::Ident(s.to_string())
}

fn lit_str(s: &str) -> Token {
    Token::Str(s.to_string())
}

fn render(
    ident_name: Option<&str>,
    index: usize,
    discriminant: Option<Vec<Token>>,
    template: Vec<Token>,
) -> (Vec<Token>, Vec<Diagnostic>) {
    let mut errors = Vec::new();
    let out = render_name(
        ItemKind::Field,
        &ident_name.map(|s| s.to_string()),
        index,
        &discriminant,
        &template,
        &mut errors,
    );
    (out, errors)
}

#[test]
fn casing_styles_of_parent_id() {
    let cases = [
        (Casing::Kebab, "parent-id"),
        (Casing::LowerCamel, "parentId"),
        (Casing::Pascal, "ParentId"),
        (Casing::ShoutyKebab, "PARENT-ID"),
        (Casing::ShoutySnake, "PARENT_ID"),
        (Casing::ShoutySnek, "PARENT_ID"),
        (Casing::Snake, "parent_id"),
        (Casing::Snek, "parent_id"),
        (Casing::Title, "Parent Id"),
        (Casing::UpperCamel, "ParentId"),
        (Casing::Verbatim, "parent_id"),
    ];
    for (casing, expected) in cases {
        assert_eq!(apply_casing(casing, "parent_id"), expected, "{:?}", casing);
    }
}

#[test]
fn casing_of_camel_identifier() {
    assert_eq!(apply_casing(Casing::Snake, "parentId"), "parent_id");
    assert_eq!(apply_casing(Casing::Kebab, "scrollX"), "scroll-x");
    assert_eq!(apply_casing(Casing::ShoutySnake, "scrollX"), "SCROLL_X");
}

#[test]
fn casing_spellings() {
    assert_eq!(casing_of_literal("kebab-case"), Some(Casing::Kebab));
    assert_eq!(casing_of_literal("kebab_case"), None);
    assert_eq!(casing_of_ident("kebab_case"), Some(Casing::Kebab));
    assert_eq!(casing_of_literal("Title Case"), Some(Casing::Title));
    assert_eq!(casing_of_ident("Title_Case"), Some(Casing::Title));
    assert_eq!(casing_of_literal("SHOUTY-KEBAB-CASE"), Some(Casing::ShoutyKebab));
    assert_eq!(casing_of_ident("SHOUTY_KEBAB_CASE"), Some(Casing::ShoutyKebab));
    assert_eq!(casing_of_literal("verbatim"), Some(Casing::Verbatim));
    assert_eq!(casing_of_ident("shouting"), None);
}

#[test]
fn literal_template_applies_casing() {
    let (out, errors) = render(Some("parent_id"), 4, None, vec![lit_str("lowerCamelCase")]);
    assert_eq!(out, vec![lit_str("parentId")]);
    assert!(errors.is_empty());
}

#[test]
fn ident_template_applies_casing() {
    let (out, errors) = render(Some("parent_id"), 4, None, vec![ident("SHOUTY_SNAKE_CASE")]);
    assert_eq!(out, vec![ident("PARENT_ID")]);
    assert!(errors.is_empty());
}

#[test]
fn underscore_literal_passes_through() {
    let (out, errors) = render(Some("parent_id"), 0, None, vec![lit_str("_verbatim")]);
    assert_eq!(out, vec![lit_str("verbatim")]);
    assert!(errors.is_empty());
    let (out, errors) = render(None, 0, None, vec![lit_str("_kebab-case")]);
    assert_eq!(out, vec![lit_str("kebab-case")]);
    assert!(errors.is_empty());
}

#[test]
fn underscore_ident_passes_through() {
    let (out, errors) = render(Some("parent_id"), 0, None, vec![ident("_verbatim")]);
    assert_eq!(out, vec![ident("verbatim")]);
    assert!(errors.is_empty());
    let (out, errors) = render(None, 0, None, vec![ident("_STRUCTURED")]);
    assert_eq!(out, vec![ident("STRUCTURED")]);
    assert!(errors.is_empty());
}

#[test]
fn index_substitution_without_identifier() {
    let (out, errors) = render(None, 3, None, vec![ident("index")]);
    assert_eq!(out, vec![Token::Lit("3".to_string())]);
    assert!(errors.is_empty());
    let (out, _) = render(Some("a"), 12, None, vec![ident("index")]);
    assert_eq!(out, vec![Token::Lit("12".to_string())]);
}

#[test]
fn index_inside_call_is_substituted() {
    let template = vec![
        ident("_key"),
        Token::Open(Delim::Paren),
        ident("index"),
        Token::Close(Delim::Paren),
    ];
    let (out, errors) = render(Some("a"), 7, None, template);
    assert_eq!(
        out,
        vec![
            ident("key"),
            Token::Open(Delim::Paren),
            Token::Lit("7".to_string()),
            Token::Close(Delim::Paren),
        ]
    );
    assert!(errors.is_empty());
}

#[test]
fn index_as_path_segment_is_not_substituted() {
    let template = vec![ident("_m"), Token::Punct(':'), Token::Punct(':'), ident("index")];
    let (out, errors) = render(Some("a"), 7, None, template.clone());
    assert_eq!(out[3], ident("index"));
    assert_eq!(errors, vec![Diagnostic::UnrecognisedIdent]);
}

#[test]
fn discriminant_substitution() {
    let disc = vec![Token::Lit("2".to_string())];
    let (out, errors) = render(Some("B"), 1, Some(disc.clone()), vec![ident("discriminant")]);
    assert_eq!(out, disc);
    assert!(errors.is_empty());
}

#[test]
fn discriminant_missing_is_reported() {
    let (out, errors) = render(Some("B"), 1, None, vec![ident("discriminant")]);
    assert_eq!(out, vec![ident("discriminant")]);
    assert_eq!(errors, vec![Diagnostic::DiscriminantRequired]);
}

#[test]
fn casing_without_identifier_is_reported() {
    let (out, errors) = render(None, 0, None, vec![lit_str("kebab-case")]);
    assert_eq!(out, vec![lit_str("kebab-case")]);
    assert_eq!(errors, vec![Diagnostic::UnnamedInterpolation]);
    let (_, errors) = render(None, 0, None, vec![ident("snake_case")]);
    assert_eq!(errors, vec![Diagnostic::UnnamedInterpolation]);
}

#[test]
fn unrecognised_leaves_are_reported() {
    let (out, errors) = render(Some("a"), 0, None, vec![lit_str("camel")]);
    assert_eq!(out, vec![lit_str("camel")]);
    assert_eq!(errors, vec![Diagnostic::UnrecognisedLiteral]);
    let (_, errors) = render(Some("a"), 0, None, vec![ident("camel")]);
    assert_eq!(errors, vec![Diagnostic::UnrecognisedIdent]);
}

#[test]
fn missing_template_is_reported_at_use() {
    let mut errors = Vec::new();
    let out = render_name(
        ItemKind::Variant,
        &Some("A".to_string()),
        0,
        &None,
        &vec![ident("__faible__name_required")],
        &mut errors,
    );
    assert_eq!(out, vec![ident("__faible__name_required")]);
    assert_eq!(errors, vec![Diagnostic::NameRequired(ItemKind::Variant)]);
}

#[test]
fn errors_accumulate_in_order() {
    let template = vec![lit_str("x"), Token::Punct(','), ident("y")];
    let (_, errors) = render(Some("a"), 0, None, template);
    assert_eq!(errors, vec![Diagnostic::UnrecognisedLiteral, Diagnostic::UnrecognisedIdent]);
}

#[test]
fn empty_template_gives_empty_name() {
    let (out, errors) = render(Some("a"), 0, None, vec![]);
    assert!(out.is_empty());
    assert!(errors.is_empty());
}

#[test]
fn template_structure_passes_through() {
    let template = vec![
        ident("_format"),
        p_bang(),
        Token::Open(Delim::Paren),
        lit_str("SHOUTY-KEBAB-CASE"),
        Token::Punct(','),
        Token::Lit("1".to_string()),
        Token::Close(Delim::Paren),
    ];
    let (out, errors) = render(Some("scroll_y"), 0, None, template);
    assert!(errors.is_empty());
    assert_eq!(
        out,
        vec![
            ident("format"),
            p_bang(),
            Token::Open(Delim::Paren),
            lit_str("SCROLL-Y"),
            Token::Punct(','),
            Token::Lit("1".to_string()),
            Token::Close(Delim::Paren),
        ]
    );
}

fn p_bang() -> Token {
    Token::Punct('!')
}
