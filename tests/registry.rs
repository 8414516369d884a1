use uniffi_python_gen::{ComponentInterface, Type};

fn boxed(t: Type) -> Box<Type> {
    Box::new(t)
}

#[test]
fn helper_names_once_each_inner_first() {
    let ci = ComponentInterface::new(vec![
        Type::Int32,
        Type::Optional(boxed(Type::String)),
        Type::Sequence(boxed(Type::Optional(boxed(Type::String)))),
        Type::Record("Point".to_string()),
        Type::Optional(boxed(Type::String)),
        Type::Dictionary(boxed(Type::Record("Point".to_string()))),
        Type::Object("Thing".to_string()),
    ]);
    let names = ci.helper_type_names();
    assert_eq!(
        names,
        vec![
            "Optionalstring".to_string(),
            "SequenceOptionalstring".to_string(),
            "RecordPoint".to_string(),
            "MapRecordPoint".to_string(),
        ]
    );
}

#[test]
fn helper_names_empty_without_composites() {
    let ci = ComponentInterface::new(vec![
        Type::Int8,
        Type::String,
        Type::Enum("Color".to_string()),
        Type::Object("Thing".to_string()),
        Type::Error("Failure".to_string()),
    ]);
    assert!(ci.helper_type_names().is_empty());
    assert!(ComponentInterface::new(vec![]).helper_type_names().is_empty());
}

#[test]
fn deep_nesting_numbers_every_level() {
    let mut t = Type::Int8;
    for _ in 0..12 {
        t = Type::Sequence(boxed(t));
    }
    let text = uniffi_python_gen::coerce_py("a", &t);
    assert!(text.contains("int(x11) for x11 in x10"));
    assert!(text.ends_with("for x0 in a)"));
}
