use faible::object::{Loose, ObjectDescriptor, ObjectError, ObjectMap};
use faible::decl::FieldDecl;
use faible::plan::plan_accessors;
use faible::runtime::{
    field_get, field_get_mut, field_insert, field_set, select_variant, variant_of_weak, Descriptor, Error,
    FieldAccess, TransparentView, VariantFilter,
};
use faible::tokens::Token;

fn map(entries: &[(&str, i64)]) -> ObjectMap<i64> {
    ObjectMap { entries: entries.iter().map(|(k, v)| (k.to_string(), *v)).collect() }
}

#[test]
fn field_present_is_returned() {
    let d = ObjectDescriptor::<i64>::new();
    let weak = Loose::Object(map(&[("id", 7), ("parentId", 3)]));
    let strong = d.strong(&weak).unwrap();
    assert_eq!(FieldAccess::get(&d, strong, "id"), Ok(&7));
    assert_eq!(FieldAccess::get(&d, strong, "parentId"), Ok(&3));
}

#[test]
fn field_missing_is_reported_by_descriptor() {
    let d = ObjectDescriptor::<i64>::new();
    let weak = Loose::Object(map(&[("id", 7)]));
    let strong = d.strong(&weak).unwrap();
    assert_eq!(
        FieldAccess::get(&d, strong, "parentId"),
        Err(ObjectError::MissingField("parentId".to_string()))
    );
}

#[test]
fn non_object_is_refused() {
    let d = ObjectDescriptor::<i64>::new();
    assert_eq!(d.strong(&Loose::Null).err(), Some(ObjectError::ExpectedObject));
    assert_eq!(d.try_weak_into_strong(Loose::Scalar(1)), Err(ObjectError::ExpectedObject));
}

#[test]
fn strong_round_trip() {
    let d = ObjectDescriptor::<i64>::new();
    let weak = d.strong_into_weak(map(&[("a", 1)]));
    assert_eq!(weak, Loose::Object(map(&[("a", 1)])));
    assert_eq!(d.try_weak_into_strong(weak), Ok(map(&[("a", 1)])));
}

#[test]
fn insert_reports_previous_value() {
    let d = ObjectDescriptor::<i64>::new();
    let mut m = map(&[("id", 7)]);
    {
        let (slot, prev) = FieldAccess::insert(&d, &mut m, "id", 8).unwrap();
        assert_eq!(*slot, 8);
        assert_eq!(prev, Some(7));
        *slot = 9;
    }
    {
        let (slot, prev) = FieldAccess::insert(&d, &mut m, "name", 1).unwrap();
        assert_eq!(*slot, 1);
        assert_eq!(prev, None);
    }
    assert_eq!(m, map(&[("id", 9), ("name", 1)]));
}

#[test]
fn set_and_get_mut() {
    let d = ObjectDescriptor::<i64>::new();
    let mut weak = Loose::Object(map(&[]));
    {
        let strong = d.strong_mut(&mut weak).unwrap();
        FieldAccess::set(&d, strong, "x", 1).unwrap();
        FieldAccess::set(&d, strong, "x", 2).unwrap();
        *FieldAccess::get_mut(&d, strong, "x").unwrap() += 5;
        assert!(FieldAccess::<ObjectMap<i64>, ObjectError, i64, &str>::get_mut(&d, strong, "y").is_err());
    }
    assert_eq!(weak, Loose::Object(map(&[("x", 7)])));
}

#[test]
fn variants_are_tested_in_order() {
    let d = ObjectDescriptor::<i64>::new();
    let m = map(&[("b", 0), ("c", 0)]);
    assert_eq!(select_variant(&d, &m, &["a", "b", "c"]), Ok(1));
    assert_eq!(select_variant(&d, &m, &["c", "b"]), Ok(0));
    assert_eq!(d.predicate(&m, "a"), Ok(false));
}

#[test]
fn no_variant_recognised() {
    let d = ObjectDescriptor::<i64>::new();
    let m = map(&[("z", 0)]);
    assert_eq!(select_variant(&d, &m, &["a", "b"]), Err(ObjectError::NoVariantRecognized));
    assert_eq!(select_variant::<_, ObjectError, &str, _>(&d, &m, &[]), Err(ObjectError::no_variant_recognized()));
}

#[test]
fn identity_view() {
    let x: i64 = 5;
    let y: i64 = TransparentView::<i64>::from_inner(x);
    assert_eq!(*TransparentView::<i64>::as_inner(&y), 5);
    assert_eq!(TransparentView::<i64>::into_inner(y), 5);
}

fn key_text(key: &[Token]) -> String {
    match key {
        [Token::Str(s)] => s.clone(),
        _ => panic!("expected a string key"),
    }
}

#[test]
fn struct_accessor_end_to_end() {
    let fields = vec![
        FieldDecl { ident: Some("id".to_string()), attrs: vec![] },
        FieldDecl { ident: Some("parent_id".to_string()), attrs: vec![] },
    ];
    let mut errors = Vec::new();
    let plans = plan_accessors(&fields, &vec![Token::Str("lowerCamelCase".to_string())], &mut errors);
    assert!(errors.is_empty());
    let id_key = key_text(&plans[0].key);
    let parent_key = key_text(&plans[1].key);
    assert_eq!(plans[0].get, "id");
    let d = ObjectDescriptor::<i64>::new();
    let weak = Loose::Object(map(&[("id", 11)]));
    assert_eq!(field_get(&d, &weak, id_key.as_str()), Ok(&11));
    assert_eq!(
        field_get::<_, i64, &str>(&d, &weak, parent_key.as_str()),
        Err(ObjectError::MissingField("parentId".to_string()))
    );
    assert_eq!(field_get::<_, i64, &str>(&d, &Loose::Scalar(1), "id"), Err(ObjectError::ExpectedObject));
}

#[test]
fn routed_insert_and_set() {
    let d = ObjectDescriptor::<i64>::new();
    let mut weak = Loose::Object(map(&[("a", 1)]));
    {
        let (slot, prev) = field_insert(&d, &mut weak, "a", 2).unwrap();
        assert_eq!((*slot, prev), (2, Some(1)));
    }
    field_set(&d, &mut weak, "b", 3).unwrap();
    *field_get_mut::<_, i64, &str>(&d, &mut weak, "b").unwrap() += 1;
    assert_eq!(weak, Loose::Object(map(&[("a", 2), ("b", 4)])));
    let mut null: Loose<i64> = Loose::Null;
    assert_eq!(field_set(&d, &mut null, "a", 1), Err(ObjectError::ExpectedObject));
    assert_eq!(null, Loose::Null);
}

#[test]
fn weak_value_dispatch() {
    let d = ObjectDescriptor::<i64>::new();
    let weak = Loose::Object(map(&[("Structured", 0)]));
    assert_eq!(variant_of_weak(&d, &weak, &["Null", "Structured"]), Ok(1));
    assert_eq!(variant_of_weak(&d, &weak, &["Null"]), Err(ObjectError::NoVariantRecognized));
    assert_eq!(variant_of_weak(&d, &Loose::Null, &["Null"]), Err(ObjectError::ExpectedObject));
}
