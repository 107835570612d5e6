use faible::args::{parse_args, take_args_from_attrs, Args, Attr};
use faible::diagnostics::Diagnostic;
use faible::grammar::scan_expr;
use faible::tokens::{skip_tree, Delim, Token};

fn ident(s: &str) -> Token {
    Token::Ident(s.to_string())
}

fn lit_str(s: &str) -> Token {
    Token::Str(s.to_string())
}

fn p(c: char) -> Token {
    Token::Punct(c)
}

fn parse(ts: Vec<Token>) -> (Args, Vec<Diagnostic>) {
    let mut errors = Vec::new();
    let args = parse_args(&ts, &mut errors);
    (args, errors)
}

fn faible_attr(tokens: Vec<Token>) -> Attr {
    Attr { path: "faible".to_string(), tokens }
}

#[test]
fn defaults_for_empty_arguments() {
    let (args, errors) = parse(vec![]);
    assert!(errors.is_empty());
    assert_eq!(args.descriptor, vec![Token::Open(Delim::Paren), Token::Close(Delim::Paren)]);
    assert_eq!(args.faible, vec![p(':'), p(':'), ident("faible")]);
    assert_eq!(args.names, vec![ident("__faible__name_required")]);
    assert!(!args.no_weak_conversions);
}

#[test]
fn full_top_level_arguments() {
    // JsonObjectDescriptor("MapInfo"), faible = ::faible, names = "lowerCamelCase"
    let ts = vec![
        ident("JsonObjectDescriptor"),
        Token::Open(Delim::Paren),
        lit_str("MapInfo"),
        Token::Close(Delim::Paren),
        p(','),
        ident("faible"),
        p('='),
        p(':'),
        p(':'),
        ident("faible"),
        p(','),
        ident("names"),
        p('='),
        lit_str("lowerCamelCase"),
    ];
    let (args, errors) = parse(ts);
    assert!(errors.is_empty());
    assert_eq!(
        args.descriptor,
        vec![
            ident("JsonObjectDescriptor"),
            Token::Open(Delim::Paren),
            lit_str("MapInfo"),
            Token::Close(Delim::Paren),
        ]
    );
    assert_eq!(args.faible, vec![p(':'), p(':'), ident("faible")]);
    assert_eq!(args.names, vec![lit_str("lowerCamelCase")]);
    assert!(!args.no_weak_conversions);
}

#[test]
fn flag_and_discriminant_template() {
    // ValueDescriptor::new(), no_weak_conversions, names = discriminant,
    let ts = vec![
        ident("ValueDescriptor"),
        p(':'),
        p(':'),
        ident("new"),
        Token::Open(Delim::Paren),
        Token::Close(Delim::Paren),
        p(','),
        ident("no_weak_conversions"),
        p(','),
        ident("names"),
        p('='),
        ident("discriminant"),
        p(','),
    ];
    let (args, errors) = parse(ts);
    assert!(errors.is_empty());
    assert!(args.no_weak_conversions);
    assert_eq!(args.names, vec![ident("discriminant")]);
    assert_eq!(args.descriptor.len(), 6);
}

#[test]
fn unknown_keyword_is_reported_and_skipped() {
    // (), nested_names = "x", names = index
    let ts = vec![
        Token::Open(Delim::Paren),
        Token::Close(Delim::Paren),
        p(','),
        ident("nested_names"),
        p('='),
        lit_str("x"),
        p(','),
        ident("names"),
        p('='),
        ident("index"),
    ];
    let (args, errors) = parse(ts);
    assert_eq!(
        errors,
        vec![
            Diagnostic::ExpectedTopLevelKeyword,
            Diagnostic::ExpectedTopLevelKeyword,
            Diagnostic::ExpectedTopLevelKeyword,
            Diagnostic::ExpectedTopLevelKeyword,
        ]
    );
    assert_eq!(args.names, vec![ident("index")]);
}

#[test]
fn missing_equals_is_reported() {
    // d, names "x"
    let ts = vec![ident("d"), p(','), ident("names"), lit_str("x")];
    let (args, errors) = parse(ts);
    assert_eq!(errors, vec![Diagnostic::ExpectedEquals]);
    assert_eq!(args.names, vec![ident("__faible__name_required")]);
}

#[test]
fn path_expected_after_faible() {
    // d, faible = "x"
    let ts = vec![ident("d"), p(','), ident("faible"), p('='), lit_str("x")];
    let (args, errors) = parse(ts);
    assert_eq!(errors, vec![Diagnostic::ExpectedPath]);
    assert_eq!(args.faible, vec![p(':'), p(':'), ident("faible")]);
}

#[test]
fn trailing_tokens_are_reported() {
    // d, faible = a::b c
    let ts = vec![
        ident("d"),
        p(','),
        ident("faible"),
        p('='),
        ident("a"),
        p(':'),
        p(':'),
        ident("b"),
        ident("c"),
    ];
    let (args, errors) = parse(ts);
    assert_eq!(errors, vec![Diagnostic::UnexpectedTokens]);
    assert_eq!(args.faible, vec![ident("a"), p(':'), p(':'), ident("b")]);
}

#[test]
fn leading_comma_needs_an_expression() {
    let ts = vec![p(','), ident("d")];
    let (args, errors) = parse(ts);
    assert_eq!(errors, vec![Diagnostic::ExpectedExpression]);
    assert_eq!(args.descriptor, vec![ident("d")]);
}

#[test]
fn inner_arguments_with_inherited_descriptor() {
    // #[faible(_, name = "_null")]
    let mut attrs = vec![
        Attr { path: "doc".to_string(), tokens: vec![p('='), lit_str("text")] },
        faible_attr(vec![
            Token::Open(Delim::Paren),
            ident("_"),
            p(','),
            ident("name"),
            p('='),
            lit_str("_null"),
            Token::Close(Delim::Paren),
        ]),
    ];
    let mut errors = Vec::new();
    let inner = take_args_from_attrs(&mut attrs, &mut errors);
    assert!(errors.is_empty());
    assert!(inner.descriptor.is_none());
    assert_eq!(inner.name, Some(vec![lit_str("_null")]));
    assert!(inner.names.is_none());
    assert_eq!(attrs.len(), 1);
    assert_eq!(attrs[0].path, "doc");
}

#[test]
fn inner_arguments_with_descriptor_and_names() {
    // #[faible(Other::new(), name = 0, names = index)]
    let mut attrs = vec![faible_attr(vec![
        Token::Open(Delim::Paren),
        ident("Other"),
        p(':'),
        p(':'),
        ident("new"),
        Token::Open(Delim::Paren),
        Token::Close(Delim::Paren),
        p(','),
        ident("name"),
        p('='),
        Token::Lit("0".to_string()),
        p(','),
        ident("names"),
        p('='),
        ident("index"),
        Token::Close(Delim::Paren),
    ])];
    let mut errors = Vec::new();
    let inner = take_args_from_attrs(&mut attrs, &mut errors);
    assert!(errors.is_empty());
    assert_eq!(inner.descriptor.map(|d| d.len()), Some(6));
    assert_eq!(inner.name, Some(vec![Token::Lit("0".to_string())]));
    assert_eq!(inner.names, Some(vec![ident("index")]));
    assert!(attrs.is_empty());
}

#[test]
fn duplicate_name_is_reported() {
    let mut attrs = vec![
        faible_attr(vec![
            Token::Open(Delim::Paren),
            ident("_"),
            p(','),
            ident("name"),
            p('='),
            lit_str("_a"),
            Token::Close(Delim::Paren),
        ]),
        faible_attr(vec![
            Token::Open(Delim::Paren),
            ident("_"),
            p(','),
            ident("name"),
            p('='),
            lit_str("_b"),
            Token::Close(Delim::Paren),
        ]),
    ];
    let mut errors = Vec::new();
    let inner = take_args_from_attrs(&mut attrs, &mut errors);
    assert_eq!(errors, vec![Diagnostic::DuplicateName]);
    assert_eq!(inner.name, Some(vec![lit_str("_b")]));
}

#[test]
fn inner_attribute_needs_parentheses() {
    let mut attrs = vec![faible_attr(vec![p('='), ident("x")])];
    let mut errors = Vec::new();
    let inner = take_args_from_attrs(&mut attrs, &mut errors);
    assert_eq!(errors, vec![Diagnostic::ExpectedParenthesized]);
    assert!(inner.name.is_none());
    assert!(attrs.is_empty());
}

#[test]
fn inner_unknown_keyword_is_reported() {
    let mut attrs = vec![faible_attr(vec![
        Token::Open(Delim::Paren),
        ident("_"),
        p(','),
        ident("label"),
        p('='),
        lit_str("x"),
        Token::Close(Delim::Paren),
        ident("extra"),
    ])];
    let mut errors = Vec::new();
    take_args_from_attrs(&mut attrs, &mut errors);
    assert_eq!(
        errors,
        vec![
            Diagnostic::ExpectedInnerKeyword,
            Diagnostic::UnexpectedTokens,
            Diagnostic::UnexpectedTokens,
        ]
    );
}

#[test]
fn token_trees_and_expressions() {
    let ts = vec![
        ident("f"),
        Token::Open(Delim::Paren),
        ident("a"),
        p(','),
        ident("b"),
        Token::Close(Delim::Paren),
        p(','),
        ident("c"),
    ];
    assert_eq!(skip_tree(&ts, 0), 1);
    assert_eq!(skip_tree(&ts, 1), 6);
    assert_eq!(scan_expr(&ts, 0), 6);
    assert_eq!(scan_expr(&ts, 7), 8);
}

#[test]
fn missing_comma_ends_the_descriptor() {
    // JsonObjectDescriptor names = "x"
    let ts = vec![ident("JsonObjectDescriptor"), ident("names"), p('='), lit_str("x")];
    let (args, errors) = parse(ts);
    assert_eq!(args.descriptor, vec![ident("JsonObjectDescriptor")]);
    assert_eq!(args.names, vec![ident("__faible__name_required")]);
    assert_eq!(errors, vec![Diagnostic::UnexpectedTokens]);
}

#[test]
fn generic_arguments_stay_in_the_expression() {
    // Foo::<A, B>::new(), names = index
    let ts = vec![
        ident("Foo"),
        p(':'),
        p(':'),
        p('<'),
        ident("A"),
        p(','),
        ident("B"),
        p('>'),
        p(':'),
        p(':'),
        ident("new"),
        Token::Open(Delim::Paren),
        Token::Close(Delim::Paren),
        p(','),
        ident("names"),
        p('='),
        ident("index"),
    ];
    assert_eq!(scan_expr(&ts, 0), 13);
    let (args, errors) = parse(ts);
    assert!(errors.is_empty());
    assert_eq!(args.descriptor.len(), 13);
    assert_eq!(args.names, vec![ident("index")]);
}

#[test]
fn closure_parameters_stay_in_the_expression() {
    // |a, b| a || b, c
    let ts = vec![
        p('|'),
        ident("a"),
        p(','),
        ident("b"),
        p('|'),
        ident("a"),
        p('|'),
        p('|'),
        ident("b"),
        p(','),
        ident("c"),
    ];
    assert_eq!(scan_expr(&ts, 0), 9);
}

#[test]
fn keywords_do_not_end_the_expression() {
    // x as u8 y
    let ts = vec![ident("x"), ident("as"), ident("u8"), ident("y")];
    assert_eq!(scan_expr(&ts, 0), 3);
}
