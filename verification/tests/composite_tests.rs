use stubgen::composite::class_ref;
use stubgen::composite::iterator_of;
use stubgen::composite::mapping_of;
use stubgen::composite::optional;
use stubgen::composite::sequence_of;
use stubgen::composite::tuple_of;
use stubgen::composite::union_of;
use stubgen::composite::TypePosition;
use stubgen::mapping::AnyType;
use stubgen::mapping::DateTimeType;
use stubgen::mapping::DateType;
use stubgen::mapping::IntType;
use stubgen::mapping::StrType;
use stubgen::mapping::StubType;
use stubgen::order::str_eq;
use stubgen::order::str_lt;
use stubgen::type_info::insert_import;
use stubgen::type_info::merge_imports;
use stubgen::type_info::TypeInfo;

#[test]
fn optional_int_round_trip() {
    let t = optional(&IntType::type_output());
    assert_eq!(t.name, "int | None");
    assert!(t.imports.is_empty());
}

#[test]
fn list_str_round_trip() {
    let t = sequence_of(&StrType::type_output(), TypePosition::Output);
    assert_eq!(t.name, "list[str]");
    assert!(t.imports.is_empty());
}

#[test]
fn sequence_input_position_is_abstract() {
    let t = sequence_of(&StrType::type_output(), TypePosition::Input);
    assert_eq!(t.name, "collections.abc.Sequence[str]");
    assert_eq!(t.imports, vec!["collections.abc".to_string()]);
}

#[test]
fn dict_str_optional_datetime_round_trip() {
    let value = optional(&DateTimeType::type_output());
    let t = mapping_of(&StrType::type_output(), &value);
    assert_eq!(t.name, "dict[str, datetime.datetime | None]");
    assert_eq!(t.imports, vec!["datetime".to_string()]);
}

#[test]
fn union_merges_imports_sorted() {
    let t = union_of(&AnyType::type_output(), &DateType::type_output());
    assert_eq!(t.name, "typing.Any | datetime.date");
    assert_eq!(t.imports, vec!["datetime".to_string(), "typing".to_string()]);
}

#[test]
fn tuple_of_components() {
    let items = vec![
        IntType::type_output(),
        StrType::type_output(),
        DateType::type_output(),
    ];
    let t = tuple_of(&items);
    assert_eq!(t.name, "tuple[int, str, datetime.date]");
    assert_eq!(t.imports, vec!["datetime".to_string()]);
}

#[test]
fn tuple_of_nothing() {
    let items: Vec<TypeInfo> = Vec::new();
    let t = tuple_of(&items);
    assert_eq!(t.name, "tuple[()]");
    assert!(t.imports.is_empty());
}

#[test]
fn iterator_of_int() {
    let t = iterator_of(&IntType::type_output());
    assert_eq!(t.name, "collections.abc.Iterator[int]");
    assert_eq!(t.imports, vec!["collections.abc".to_string()]);
}

#[test]
fn class_ref_is_bare_name() {
    let t = class_ref("Point");
    assert_eq!(t.name, "Point");
    assert!(t.imports.is_empty());
}

#[test]
fn recursive_class_resolves_by_name() {
    let node = class_ref("Node");
    let next = optional(&node);
    assert_eq!(next.name, "Node | None");
    assert!(next.imports.is_empty());
}

#[test]
fn insert_import_sorts_and_deduplicates() {
    let mut v: Vec<String> = Vec::new();
    insert_import(&mut v, "typing".to_string());
    insert_import(&mut v, "datetime".to_string());
    insert_import(&mut v, "typing".to_string());
    insert_import(&mut v, "collections.abc".to_string());
    assert_eq!(
        v,
        vec![
            "collections.abc".to_string(),
            "datetime".to_string(),
            "typing".to_string()
        ]
    );
}

#[test]
fn merging_imports_into_themselves_changes_nothing() {
    let mut v: Vec<String> = Vec::new();
    insert_import(&mut v, "typing".to_string());
    insert_import(&mut v, "datetime".to_string());
    let before = v.clone();
    let other = v.clone();
    merge_imports(&mut v, &other);
    assert_eq!(v, before);
    merge_imports(&mut v, &other);
    merge_imports(&mut v, &other);
    assert_eq!(v, before);
}

#[test]
fn duplicate_copies_exactly() {
    let t = mapping_of(&AnyType::type_output(), &DateType::type_output());
    let d = t.duplicate();
    assert_eq!(d.name, t.name);
    assert_eq!(d.imports, t.imports);
}

#[test]
fn lexicographic_comparison() {
    assert!(str_lt("abc", "abd"));
    assert!(str_lt("ab", "abc"));
    assert!(!str_lt("abc", "abc"));
    assert!(!str_lt("b", "ab"));
    assert!(str_lt("collections.abc", "datetime"));
    assert!(str_lt("datetime", "typing"));
    assert!(str_eq("datetime", "datetime"));
    assert!(!str_eq("datetime", "datetime "));
}
