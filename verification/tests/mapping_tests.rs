use stubgen::mapping::AnyType;
use stubgen::mapping::Borrowed;
use stubgen::mapping::ByteArrayType;
use stubgen::mapping::BytesType;
use stubgen::mapping::ComparisonType;
use stubgen::mapping::DateTimeType;
use stubgen::mapping::DateType;
use stubgen::mapping::DictType;
use stubgen::mapping::DurationType;
use stubgen::mapping::Exclusive;
use stubgen::mapping::FloatType;
use stubgen::mapping::IntType;
use stubgen::mapping::IteratorType;
use stubgen::mapping::ListType;
use stubgen::mapping::Owned;
use stubgen::mapping::SetType;
use stubgen::mapping::Shared;
use stubgen::mapping::SliceType;
use stubgen::mapping::StrType;
use stubgen::mapping::StubType;
use stubgen::mapping::TimeType;
use stubgen::mapping::TupleType;
use stubgen::mapping::TypeObjectType;
use stubgen::mapping::TzInfoType;

#[test]
fn builtin_output_mappings_without_imports() {
    let cases: Vec<(stubgen::type_info::TypeInfo, &str)> = vec![
        (IntType::type_output(), "int"),
        (FloatType::type_output(), "float"),
        (ListType::type_output(), "list"),
        (TupleType::type_output(), "tuple"),
        (SliceType::type_output(), "slice"),
        (DictType::type_output(), "dict"),
        (SetType::type_output(), "set"),
        (StrType::type_output(), "str"),
        (ByteArrayType::type_output(), "bytearray"),
        (BytesType::type_output(), "bytes"),
        (TypeObjectType::type_output(), "type"),
        (ComparisonType::type_output(), "int"),
    ];
    for (info, expected) in cases {
        assert_eq!(info.name, expected);
        assert!(info.imports.is_empty());
    }
}

#[test]
fn builtin_output_mappings_with_imports() {
    let any = AnyType::type_output();
    assert_eq!(any.name, "typing.Any");
    assert_eq!(any.imports, vec!["typing".to_string()]);

    let it = IteratorType::type_output();
    assert_eq!(it.name, "collections.abc.Iterator");
    assert_eq!(it.imports, vec!["collections.abc".to_string()]);

    let date = DateType::type_output();
    assert_eq!(date.name, "datetime.date");
    assert_eq!(date.imports, vec!["datetime".to_string()]);

    let dt = DateTimeType::type_output();
    assert_eq!(dt.name, "datetime.datetime");
    assert_eq!(dt.imports, vec!["datetime".to_string()]);

    let dur = DurationType::type_output();
    assert_eq!(dur.name, "datetime.timedelta");
    assert_eq!(dur.imports, vec!["datetime".to_string()]);

    let time = TimeType::type_output();
    assert_eq!(time.name, "datetime.time");
    assert_eq!(time.imports, vec!["datetime".to_string()]);

    let tz = TzInfoType::type_output();
    assert_eq!(tz.name, "datetime.tzinfo");
    assert_eq!(tz.imports, vec!["datetime".to_string()]);
}

#[test]
fn input_defaults_to_output() {
    let out = AnyType::type_output();
    let inp = AnyType::type_input();
    assert_eq!(inp.name, out.name);
    assert_eq!(inp.imports, out.imports);

    let out = IntType::type_output();
    let inp = IntType::type_input();
    assert_eq!(inp.name, out.name);
    assert_eq!(inp.imports, out.imports);

    let out = IteratorType::type_output();
    let inp = IteratorType::type_input();
    assert_eq!(inp.name, out.name);
    assert_eq!(inp.imports, out.imports);

    let out = DateTimeType::type_output();
    let inp = DateTimeType::type_input();
    assert_eq!(inp.name, out.name);
    assert_eq!(inp.imports, out.imports);
}

#[test]
fn reference_wrappers_are_transparent() {
    let base_out = DateTimeType::type_output();
    let base_in = DateTimeType::type_input();

    let o = Owned::<DateTimeType>::type_output();
    assert_eq!(o.name, base_out.name);
    assert_eq!(o.imports, base_out.imports);
    let o = Owned::<DateTimeType>::type_input();
    assert_eq!(o.name, base_in.name);
    assert_eq!(o.imports, base_in.imports);

    let s = Shared::<DateTimeType>::type_output();
    assert_eq!(s.name, base_out.name);
    assert_eq!(s.imports, base_out.imports);
    let s = Shared::<DateTimeType>::type_input();
    assert_eq!(s.name, base_in.name);
    assert_eq!(s.imports, base_in.imports);

    let e = Exclusive::<DateTimeType>::type_output();
    assert_eq!(e.name, base_out.name);
    assert_eq!(e.imports, base_out.imports);
    let e = Exclusive::<DateTimeType>::type_input();
    assert_eq!(e.name, base_in.name);
    assert_eq!(e.imports, base_in.imports);

    let b = Borrowed::<DateTimeType>::type_output();
    assert_eq!(b.name, base_out.name);
    assert_eq!(b.imports, base_out.imports);
    let b = Borrowed::<DateTimeType>::type_input();
    assert_eq!(b.name, base_in.name);
    assert_eq!(b.imports, base_in.imports);
}

#[test]
fn nested_wrappers_stay_transparent() {
    let base = IntType::type_output();
    let nested = Owned::<Shared<IntType>>::type_output();
    assert_eq!(nested.name, base.name);
    assert_eq!(nested.imports, base.imports);

    let nested = Borrowed::<Exclusive<AnyType>>::type_input();
    let base = AnyType::type_input();
    assert_eq!(nested.name, base.name);
    assert_eq!(nested.imports, base.imports);
}
