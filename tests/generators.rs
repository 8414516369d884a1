use uniffi_python_gen::{
    calculate_write_size, class_name_py, coerce_py, enum_name_py, fn_name_py, lift_py, lower_py,
    type_ffi, var_name_py, ComponentInterface, Config, FFIType, GenError, Operation,
    PythonWrapper, Type,
};

fn opt(t: Type) -> Type {
    Type::Optional(Box::new(t))
}

fn seq(t: Type) -> Type {
    Type::Sequence(Box::new(t))
}

fn dict(t: Type) -> Type {
    Type::Dictionary(Box::new(t))
}

fn scalars() -> Vec<Type> {
    vec![
        Type::Int8,
        Type::UInt8,
        Type::Int16,
        Type::UInt16,
        Type::Int32,
        Type::UInt32,
        Type::Int64,
        Type::UInt64,
        Type::Float32,
        Type::Float64,
        Type::Boolean,
        Type::String,
    ]
}

fn every_kind() -> Vec<Type> {
    let mut all = scalars();
    all.push(Type::Enum("my_enum".to_string()));
    all.push(Type::Object("thing".to_string()));
    all.push(Type::Error("oops".to_string()));
    all.push(Type::Record("point".to_string()));
    all.push(opt(Type::Int32));
    all.push(seq(Type::String));
    all.push(dict(Type::Boolean));
    all
}

#[test]
fn class_name_is_idempotent() {
    let once = class_name_py("my_cool_enum");
    assert_eq!(once, "MyCoolEnum");
    assert_eq!(class_name_py(&once), once);
    assert_eq!(class_name_py("MyCoolEnum"), "MyCoolEnum");
}

#[test]
fn other_casings() {
    assert_eq!(fn_name_py("DoTheThing"), "do_the_thing");
    assert_eq!(var_name_py("someValue"), "some_value");
    assert_eq!(enum_name_py("first_case"), "FIRST_CASE");
    assert_eq!(enum_name_py("SecondCase"), "SECOND_CASE");
}

#[test]
fn wire_tokens() {
    let cases = [
        (FFIType::Int8, "ctypes.c_int8"),
        (FFIType::UInt8, "ctypes.c_uint8"),
        (FFIType::Int16, "ctypes.c_int16"),
        (FFIType::UInt16, "ctypes.c_uint16"),
        (FFIType::Int32, "ctypes.c_int32"),
        (FFIType::UInt32, "ctypes.c_uint32"),
        (FFIType::Int64, "ctypes.c_int64"),
        (FFIType::UInt64, "ctypes.c_uint64"),
        (FFIType::Float32, "ctypes.c_float"),
        (FFIType::Float64, "ctypes.c_double"),
        (FFIType::RustBuffer, "RustBuffer"),
        (FFIType::RustError, "POINTER(RustError)"),
        (FFIType::RustString, "RustString"),
        (FFIType::ForeignStringRef, "ctypes.c_char_p"),
    ];
    for (t, token) in cases.iter() {
        assert_eq!(type_ffi(t), *token);
    }
}

#[test]
fn canonical_names() {
    assert_eq!(Type::Int32.canonical_name(), "i32");
    assert_eq!(Type::String.canonical_name(), "string");
    assert_eq!(opt(Type::String).canonical_name(), "Optionalstring");
    assert_eq!(seq(Type::Record("Foo".to_string())).canonical_name(), "SequenceRecordFoo");
    assert_eq!(dict(opt(Type::Boolean)).canonical_name(), "MapOptionalbool");
}

#[test]
fn coerce_scalars() {
    assert_eq!(coerce_py("a", &Type::Int8), "int(a)");
    assert_eq!(coerce_py("a", &Type::UInt64), "int(a)");
    assert_eq!(coerce_py("a", &Type::Float32), "float(a)");
    assert_eq!(coerce_py("a", &Type::Boolean), "bool(a)");
    assert_eq!(coerce_py("a", &Type::String), "a");
    assert_eq!(coerce_py("a", &Type::Object("thing".to_string())), "a");
    assert_eq!(coerce_py("a", &Type::Error("oops".to_string())), "a");
    assert_eq!(coerce_py("a", &Type::Record("point".to_string())), "a");
    assert_eq!(coerce_py("a", &Type::Enum("my_enum".to_string())), "MyEnum(a)");
}

#[test]
fn coerce_containers() {
    assert_eq!(coerce_py("a", &opt(Type::Int32)), "(None if a is None else int(a))");
    assert_eq!(coerce_py("a", &seq(Type::String)), "list(x0 for x0 in a)");
    assert_eq!(
        coerce_py("a", &dict(Type::Boolean)),
        "dict((k0,bool(v0)) for (k0, v0) in a.items())"
    );
}

#[test]
fn coerce_nested_names_do_not_shadow() {
    assert_eq!(
        coerce_py("a", &seq(seq(Type::Int32))),
        "list(list(int(x1) for x1 in x0) for x0 in a)"
    );
    assert_eq!(
        coerce_py("a", &dict(seq(Type::Float64))),
        "dict((k0,list(float(x1) for x1 in v0)) for (k0, v0) in a.items())"
    );
}

#[test]
fn lower_each_kind() {
    assert_eq!(lower_py("a", &Type::Int16), Ok("a".to_string()));
    assert_eq!(lower_py("a", &Type::Float64), Ok("a".to_string()));
    assert_eq!(lower_py("a", &Type::Boolean), Ok("(1 if a else 0)".to_string()));
    assert_eq!(lower_py("a", &Type::String), Ok("RustString.allocFromString(a)".to_string()));
    assert_eq!(lower_py("a", &Type::Enum("e".to_string())), Ok("(a.value)".to_string()));
    assert_eq!(
        lower_py("a", &Type::Object("thing".to_string())),
        Ok("(a._uniffi_handle)".to_string())
    );
    assert_eq!(
        lower_py("a", &Type::Record("Point".to_string())),
        Ok("RustBuffer.allocFromRecordPoint(a)".to_string())
    );
    assert_eq!(
        lower_py("a", &opt(Type::Int32)),
        Ok("RustBuffer.allocFromOptionali32(a)".to_string())
    );
}

#[test]
fn lift_each_kind() {
    assert_eq!(lift_py("w", &Type::UInt32), Ok("int(w)".to_string()));
    assert_eq!(lift_py("w", &Type::Float32), Ok("float(w)".to_string()));
    assert_eq!(lift_py("w", &Type::Boolean), Ok("(True if w else False)".to_string()));
    assert_eq!(lift_py("w", &Type::String), Ok("w.consumeIntoString()".to_string()));
    assert_eq!(lift_py("w", &Type::Enum("my_enum".to_string())), Ok("MyEnum(w)".to_string()));
    assert_eq!(
        lift_py("w", &seq(Type::String)),
        Ok("w.consumeIntoSequencestring()".to_string())
    );
    assert_eq!(
        lift_py("w", &dict(Type::Boolean)),
        Ok("w.consumeIntoMapbool()".to_string())
    );
}

#[test]
fn write_size_each_kind() {
    let sz = |t: Type| calculate_write_size("v", &t);
    assert_eq!(sz(Type::Int8), Ok("1".to_string()));
    assert_eq!(sz(Type::UInt8), Ok("1".to_string()));
    assert_eq!(sz(Type::Boolean), Ok("1".to_string()));
    assert_eq!(sz(Type::Int16), Ok("2".to_string()));
    assert_eq!(sz(Type::UInt16), Ok("2".to_string()));
    assert_eq!(sz(Type::Int32), Ok("4".to_string()));
    assert_eq!(sz(Type::UInt32), Ok("4".to_string()));
    assert_eq!(sz(Type::Float32), Ok("4".to_string()));
    assert_eq!(sz(Type::Enum("e".to_string())), Ok("4".to_string()));
    assert_eq!(sz(Type::Int64), Ok("8".to_string()));
    assert_eq!(sz(Type::UInt64), Ok("8".to_string()));
    assert_eq!(sz(Type::Float64), Ok("8".to_string()));
    assert_eq!(sz(Type::String), Ok("4 + len(v.encode('utf-8'))".to_string()));
    assert_eq!(
        sz(seq(opt(Type::Int32))),
        Ok("RustBuffer.calculateWriteSizeOfSequenceOptionali32(v)".to_string())
    );
}

#[test]
fn fatal_paths_are_reported() {
    let err = Type::Error("oops".to_string());
    let obj = Type::Object("thing".to_string());
    assert_eq!(lower_py("a", &err), Err(GenError::UnsupportedOperation(Operation::Lower)));
    assert_eq!(lift_py("a", &err), Err(GenError::UnsupportedOperation(Operation::Lift)));
    assert_eq!(lift_py("a", &obj), Err(GenError::UnsupportedOperation(Operation::Lift)));
    assert_eq!(
        calculate_write_size("a", &obj),
        Err(GenError::UnsupportedOperation(Operation::WriteSize))
    );
    assert_eq!(
        calculate_write_size("a", &err),
        Err(GenError::UnsupportedOperation(Operation::WriteSize))
    );
}

#[test]
fn every_kind_gets_a_fragment_or_an_error() {
    for t in every_kind().iter() {
        let unsupported_lower = matches!(t, Type::Error(_));
        let unsupported_lift = matches!(t, Type::Error(_) | Type::Object(_));
        assert!(!coerce_py("a", t).is_empty());
        assert_eq!(lower_py("a", t).is_err(), unsupported_lower);
        assert_eq!(lift_py("a", t).is_err(), unsupported_lift);
        assert_eq!(calculate_write_size("a", t).is_err(), unsupported_lift);
    }
}

#[test]
fn helper_names_are_shared_and_distinct() {
    let in_first_record = opt(Type::String);
    let in_second_record = opt(Type::String);
    let other = opt(Type::Int32);
    let a = lower_py("x", &in_first_record).unwrap();
    let b = lower_py("x", &in_second_record).unwrap();
    let c = lower_py("x", &other).unwrap();
    assert_eq!(a, "RustBuffer.allocFromOptionalstring(x)");
    assert_eq!(a, b);
    assert_ne!(a, c);
    assert_eq!(
        lift_py("x", &in_first_record).unwrap(),
        lift_py("x", &in_second_record).unwrap()
    );
    assert_ne!(in_first_record.canonical_name(), other.canonical_name());
}

#[test]
fn round_trip_helpers_pair_up() {
    for t in [opt(Type::Int32), seq(Type::String), dict(Type::Boolean)] {
        let suffix = class_name_py(&t.canonical_name());
        assert_eq!(lower_py("v", &t).unwrap(), format!("RustBuffer.allocFrom{}(v)", suffix));
        assert_eq!(lift_py("w", &t).unwrap(), format!("w.consumeInto{}()", suffix));
        assert_eq!(
            calculate_write_size("v", &t).unwrap(),
            format!("RustBuffer.calculateWriteSizeOf{}(v)", suffix)
        );
    }
    assert_eq!(lower_py("v", &Type::Boolean).unwrap(), "(1 if v else 0)");
    assert_eq!(lift_py("w", &Type::Boolean).unwrap(), "(True if w else False)");
}

#[test]
fn wrapper_holds_config_and_interface() {
    let ci = ComponentInterface::new(vec![Type::Int32, opt(Type::String)]);
    let config = Config::from(&ci);
    let w = PythonWrapper::new(config, &ci);
    assert_eq!(w.config, Config {});
    assert_eq!(w.ci.types.len(), 2);
}
