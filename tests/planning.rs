use faible::args::{parse_args, Attr};
use faible::decl::{FieldDecl, ItemDecl, VariantDecl};
use faible::diagnostics::{Diagnostic, ItemKind};
use faible::plan::{descriptor_type, member_of, plan_accessors, plan_enum, plan_item, ItemPlan};
use faible::tokens::{Delim, Token};

fn ident(s: &str) -> Token {
    Token::Ident(s.to_string())
}

fn lit_str(s: &str) -> Token {
    Token::Str(s.to_string())
}

fn p(c: char) -> Token {
    Token::Punct(c)
}

fn field(name: &str) -> FieldDecl {
    FieldDecl { ident: Some(name.to_string()), attrs: vec![] }
}

fn unit_variant(name: &str, discriminant: Option<&str>) -> VariantDecl {
    VariantDecl {
        ident: name.to_string(),
        attrs: vec![],
        fields: vec![],
        discriminant: discriminant.map(|d| vec![Token::Lit(d.to_string())]),
    }
}

#[test]
fn struct_fields_under_lower_camel_case() {
    let fields = vec![field("id"), field("parent_id")];
    let mut errors = Vec::new();
    let plans = plan_accessors(&fields, &vec![lit_str("lowerCamelCase")], &mut errors);
    assert!(errors.is_empty());
    assert_eq!(plans.len(), 2);
    assert_eq!(plans[0].get, "id");
    assert_eq!(plans[0].get_mut, "id_mut");
    assert_eq!(plans[0].set, "set_id");
    assert_eq!(plans[0].insert, "insert_id");
    assert_eq!(plans[0].key, vec![lit_str("id")]);
    assert_eq!(plans[1].get, "parent_id");
    assert_eq!(plans[1].key, vec![lit_str("parentId")]);
}

#[test]
fn positional_fields_get_prefixed_getters() {
    let fields = vec![
        FieldDecl { ident: None, attrs: vec![] },
        FieldDecl { ident: None, attrs: vec![] },
    ];
    let mut errors = Vec::new();
    let plans = plan_accessors(&fields, &vec![ident("index")], &mut errors);
    assert!(errors.is_empty());
    assert_eq!(plans[1].get, "get_1");
    assert_eq!(plans[1].get_mut, "get_1_mut");
    assert_eq!(plans[1].set, "set_1");
    assert_eq!(plans[1].insert, "insert_1");
    assert_eq!(plans[1].key, vec![Token::Lit("1".to_string())]);
}

#[test]
fn member_names() {
    assert_eq!(member_of(&None, 0), "0");
    assert_eq!(member_of(&None, 42), "42");
    assert_eq!(member_of(&Some("x".to_string()), 42), "x");
}

#[test]
fn field_name_override() {
    let fields = vec![FieldDecl {
        ident: Some("kind".to_string()),
        attrs: vec![Attr {
            path: "faible".to_string(),
            tokens: vec![
                Token::Open(Delim::Paren),
                ident("_"),
                p(','),
                ident("name"),
                p('='),
                lit_str("_type"),
                Token::Close(Delim::Paren),
            ],
        }],
    }];
    let mut errors = Vec::new();
    let plans = plan_accessors(&fields, &vec![lit_str("kebab-case")], &mut errors);
    assert!(errors.is_empty());
    assert_eq!(plans[0].key, vec![lit_str("type")]);
    assert!(plans[0].attrs.is_empty());
}

#[test]
fn missing_template_reported_per_field() {
    let fields = vec![field("a"), field("b")];
    let mut errors = Vec::new();
    plan_accessors(&fields, &vec![ident("__faible__name_required")], &mut errors);
    assert_eq!(
        errors,
        vec![Diagnostic::NameRequired(ItemKind::Field), Diagnostic::NameRequired(ItemKind::Field)]
    );
}

#[test]
fn enum_names_from_discriminants() {
    let variants = vec![
        unit_variant("A", Some("1")),
        unit_variant("B", Some("2")),
        unit_variant("C", Some("3")),
    ];
    let mut errors = Vec::new();
    let plan = plan_enum(&"Discriminated".to_string(), &variants, &vec![ident("discriminant")], &mut errors);
    assert!(errors.is_empty());
    assert_eq!(plan.owned, "DiscriminatedVariantOwned");
    assert_eq!(plan.by_ref, "DiscriminatedVariantRef");
    assert_eq!(plan.by_mut, "DiscriminatedVariantMut");
    assert!(!plan.has_fields);
    assert!(plan.shared_dispatch);
    let keys: Vec<Vec<Token>> = plan.variants.iter().map(|v| v.key.clone()).collect();
    assert_eq!(
        keys,
        vec![
            vec![Token::Lit("1".to_string())],
            vec![Token::Lit("2".to_string())],
            vec![Token::Lit("3".to_string())],
        ]
    );
}

#[test]
fn enum_without_discriminant_is_reported() {
    let variants = vec![unit_variant("A", Some("1")), unit_variant("B", None)];
    let mut errors = Vec::new();
    plan_enum(&"E".to_string(), &variants, &vec![ident("discriminant")], &mut errors);
    assert_eq!(errors, vec![Diagnostic::DiscriminantRequired]);
}

#[test]
fn enum_variant_fields_inherit_variant_names() {
    let variants = vec![
        VariantDecl {
            ident: "Bool".to_string(),
            attrs: vec![Attr {
                path: "faible".to_string(),
                tokens: vec![
                    Token::Open(Delim::Paren),
                    ident("_"),
                    p(','),
                    ident("names"),
                    p('='),
                    ident("index"),
                    Token::Close(Delim::Paren),
                ],
            }],
            fields: vec![FieldDecl { ident: None, attrs: vec![] }],
            discriminant: None,
        },
        VariantDecl {
            ident: "Structured".to_string(),
            attrs: vec![],
            fields: vec![field("scroll_x")],
            discriminant: None,
        },
    ];
    let mut errors = Vec::new();
    let plan = plan_enum(&"Value".to_string(), &variants, &vec![lit_str("lowerCamelCase")], &mut errors);
    assert!(errors.is_empty());
    assert!(plan.has_fields);
    assert_eq!(plan.variants[0].key, vec![lit_str("bool")]);
    assert_eq!(plan.variants[0].fields[0].member, "0");
    assert_eq!(plan.variants[0].fields[0].key, vec![Token::Lit("0".to_string())]);
    assert_eq!(plan.variants[1].key, vec![lit_str("structured")]);
    assert_eq!(plan.variants[1].fields[0].key, vec![lit_str("scrollX")]);
}

#[test]
fn descriptor_type_drops_constructor() {
    let mut errors = Vec::new();
    let d = vec![
        ident("ValueDescriptor"),
        p(':'),
        p(':'),
        ident("new"),
        Token::Open(Delim::Paren),
        Token::Close(Delim::Paren),
    ];
    assert_eq!(descriptor_type(&d, &mut errors), vec![ident("ValueDescriptor")]);
    let d = vec![ident("JsonObjectDescriptor"), Token::Open(Delim::Paren), lit_str("MapInfo"), Token::Close(Delim::Paren)];
    assert_eq!(descriptor_type(&d, &mut errors), vec![ident("JsonObjectDescriptor")]);
    let d = vec![p(':'), p(':'), ident("m"), p(':'), p(':'), ident("Desc")];
    assert_eq!(descriptor_type(&d, &mut errors), d);
    let d = vec![ident("new")];
    assert_eq!(descriptor_type(&d, &mut errors), vec![ident("new")]);
    assert!(errors.is_empty());
}

#[test]
fn descriptor_type_of_unit_is_unit() {
    let mut errors = Vec::new();
    let d = vec![Token::Open(Delim::Paren), Token::Close(Delim::Paren)];
    assert_eq!(descriptor_type(&d, &mut errors), d);
    assert!(errors.is_empty());
}

#[test]
fn descriptor_type_unknown_without_path() {
    let mut errors = Vec::new();
    let d = vec![p('|'), ident("x"), p('|'), ident("x")];
    assert_eq!(descriptor_type(&d, &mut errors), vec![ident("__faible__UnknownType")]);
    assert_eq!(errors, vec![Diagnostic::DescriptorTypeUnknown]);
}

#[test]
fn descriptor_type_keeps_generic_arguments() {
    let mut errors = Vec::new();
    let d = vec![
        ident("NullableDescriptor"),
        p(':'),
        p(':'),
        p('<'),
        ident("T"),
        p('>'),
        p(':'),
        p(':'),
        ident("new"),
        Token::Open(Delim::Paren),
        Token::Close(Delim::Paren),
    ];
    assert_eq!(descriptor_type(&d, &mut errors), d[..6].to_vec());
    assert!(errors.is_empty());
}

#[test]
fn casing_on_positional_field_is_reported() {
    let fields = vec![FieldDecl { ident: None, attrs: vec![] }];
    let mut errors = Vec::new();
    let plans = plan_accessors(&fields, &vec![lit_str("lowerCamelCase")], &mut errors);
    assert_eq!(errors, vec![Diagnostic::UnnamedInterpolation]);
    assert_eq!(plans[0].get, "get_0");
    assert_eq!(plans[0].key, vec![lit_str("lowerCamelCase")]);
}

#[test]
fn default_descriptor_plans_without_problems() {
    let args = parse_args(&vec![], &mut Vec::new());
    let mut errors = Vec::new();
    let item = ItemDecl::Struct { ident: "S".to_string(), fields: vec![] };
    let plan = plan_item(&args, &item, &mut errors).unwrap();
    assert!(errors.is_empty());
    assert_eq!(plan.descriptor_type, vec![Token::Open(Delim::Paren), Token::Close(Delim::Paren)]);
}

#[test]
fn dispatch_sharing() {
    let mut errors = Vec::new();
    let shared = plan_enum(&"E".to_string(), &vec![unit_variant("A", None), unit_variant("B", None)], &vec![lit_str("snake_case")], &mut errors);
    assert!(shared.shared_dispatch);
    let mixed = plan_enum(&"E".to_string(), &vec![unit_variant("A", None), unit_variant("B", None)], &vec![ident("snake_case")], &mut errors);
    assert!(!mixed.shared_dispatch);
    let empty = plan_enum(&"E".to_string(), &vec![], &vec![lit_str("snake_case")], &mut errors);
    assert!(!empty.shared_dispatch);
    assert!(errors.is_empty());
}

#[test]
fn plan_of_struct_declaration() {
    let ts = vec![
        ident("JsonObjectDescriptor"),
        Token::Open(Delim::Paren),
        lit_str("MapInfo"),
        Token::Close(Delim::Paren),
        p(','),
        ident("names"),
        p('='),
        lit_str("lowerCamelCase"),
    ];
    let mut errors = Vec::new();
    let args = parse_args(&ts, &mut errors);
    let item = ItemDecl::Struct { ident: "MapInfo".to_string(), fields: vec![field("id"), field("parent_id")] };
    let plan = plan_item(&args, &item, &mut errors).unwrap();
    assert!(errors.is_empty());
    assert_eq!(plan.ident, "MapInfo");
    assert_eq!(plan.descriptor_type, vec![ident("JsonObjectDescriptor")]);
    assert!(plan.weak_conversions);
    match plan.body {
        ItemPlan::Struct(ps) => {
            assert_eq!(ps[0].get, "id");
            assert_eq!(ps[1].key, vec![lit_str("parentId")]);
        }
        _ => panic!("expected a struct plan"),
    }
}

#[test]
fn plan_of_union_declaration() {
    let args = parse_args(&vec![ident("D"), p(','), ident("no_weak_conversions"), p(','), ident("names"), p('='), ident("snake_case")], &mut Vec::new());
    let item = ItemDecl::Union { ident: "U".to_string(), fields: vec![field("someField")] };
    let mut errors = Vec::new();
    let plan = plan_item(&args, &item, &mut errors).unwrap();
    assert!(errors.is_empty());
    assert!(!plan.weak_conversions);
    match plan.body {
        ItemPlan::Union(ps) => assert_eq!(ps[0].key, vec![ident("some_field")]),
        _ => panic!("expected a union plan"),
    }
}

#[test]
fn plan_of_other_item_is_refused() {
    let args = parse_args(&vec![], &mut Vec::new());
    let mut errors = Vec::new();
    assert!(plan_item(&args, &ItemDecl::Other, &mut errors).is_none());
    assert_eq!(errors, vec![Diagnostic::UnsupportedItem]);
}

#[test]
fn empty_declarations() {
    let mut errors = Vec::new();
    let plans = plan_accessors(&vec![], &vec![lit_str("kebab-case")], &mut errors);
    assert!(plans.is_empty());
    let plan = plan_enum(&"Empty".to_string(), &vec![], &vec![ident("index")], &mut errors);
    assert!(plan.variants.is_empty());
    assert!(!plan.has_fields);
    assert_eq!(plan.owned, "EmptyVariantOwned");
    assert!(errors.is_empty());
}

#[test]
fn enum_variant_positions_by_index() {
    let variants = vec![unit_variant("A", None), unit_variant("B", None), unit_variant("C", None)];
    let mut errors = Vec::new();
    let plan = plan_enum(&"E".to_string(), &variants, &vec![ident("index")], &mut errors);
    assert!(errors.is_empty());
    assert_eq!(plan.variants[2].key, vec![Token::Lit("2".to_string())]);
    assert_eq!(plan.variants[2].ident, "C");
}
