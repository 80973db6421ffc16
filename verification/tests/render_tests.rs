use stubgen::composite::class_ref;
use stubgen::composite::iterator_of;
use stubgen::description::ClassDef;
use stubgen::description::EnumDef;
use stubgen::description::Field;
use stubgen::description::FunctionDef;
use stubgen::description::ModuleDef;
use stubgen::description::Param;
use stubgen::mapping::AnyType;
use stubgen::mapping::DateType;
use stubgen::mapping::FloatType;
use stubgen::mapping::IntType;
use stubgen::mapping::StubType;
use stubgen::render::render_module;
use stubgen::render::RenderError;
use stubgen::type_info::TypeInfo;

#[test]
fn point_class_end_to_end() {
    let m = ModuleDef {
        classes: vec![ClassDef {
            name: "Point".to_string(),
            bases: Vec::new(),
            fields: vec![
                Field {
                    name: "x".to_string(),
                    ty: FloatType::type_output(),
                },
                Field {
                    name: "y".to_string(),
                    ty: FloatType::type_output(),
                },
            ],
            methods: vec![FunctionDef {
                name: "distance".to_string(),
                params: vec![Param {
                    name: "other".to_string(),
                    ty: class_ref("Point"),
                    default_value: None,
                }],
                ret: FloatType::type_output(),
            }],
        }],
        functions: Vec::new(),
        enums: Vec::new(),
    };
    let text = render_module(&m).unwrap();
    assert_eq!(
        text,
        "__all__ = [\"Point\"]\n\nclass Point:\n    x: float\n    y: float\n    def distance(self, other: Point) -> float: ...\n"
    );
    assert!(!text.contains("import"));
}

#[test]
fn rendering_twice_is_byte_identical() {
    let build = vec![
        FunctionDef {
            name: "now".to_string(),
            params: Vec::new(),
            ret: DateType::type_output(),
        },
        FunctionDef {
            name: "parse".to_string(),
            params: vec![Param {
                name: "value".to_string(),
                ty: AnyType::type_input(),
                default_value: None,
            }],
            ret: DateType::type_output(),
        },
    ];
    let m1 = ModuleDef {
        classes: Vec::new(),
        functions: build,
        enums: Vec::new(),
    };
    let first = render_module(&m1).unwrap();
    let second = render_module(&m1).unwrap();
    assert_eq!(first, second);
}

#[test]
fn import_block_is_sorted_lexicographically() {
    let m = ModuleDef {
        classes: Vec::new(),
        functions: vec![FunctionDef {
            name: "f".to_string(),
            params: vec![
                Param {
                    name: "a".to_string(),
                    ty: AnyType::type_input(),
                    default_value: None,
                },
                Param {
                    name: "b".to_string(),
                    ty: DateType::type_input(),
                    default_value: None,
                },
            ],
            ret: iterator_of(&IntType::type_output()),
        }],
        enums: Vec::new(),
    };
    let text = render_module(&m).unwrap();
    assert_eq!(
        text,
        "import collections.abc\nimport datetime\nimport typing\n\n__all__ = [\"f\"]\n\ndef f(a: typing.Any, b: datetime.date) -> collections.abc.Iterator[int]: ...\n"
    );
}

#[test]
fn duplicate_imports_appear_once() {
    let m = ModuleDef {
        classes: Vec::new(),
        functions: vec![FunctionDef {
            name: "span".to_string(),
            params: vec![Param {
                name: "start".to_string(),
                ty: DateType::type_input(),
                default_value: None,
            }],
            ret: DateType::type_output(),
        }],
        enums: Vec::new(),
    };
    let text = render_module(&m).unwrap();
    assert_eq!(
        text,
        "import datetime\n\n__all__ = [\"span\"]\n\ndef span(start: datetime.date) -> datetime.date: ...\n"
    );
}

#[test]
fn field_order_mirrors_declaration_order() {
    let m = ModuleDef {
        classes: vec![ClassDef {
            name: "Pair".to_string(),
            bases: Vec::new(),
            fields: vec![
                Field {
                    name: "second".to_string(),
                    ty: IntType::type_output(),
                },
                Field {
                    name: "first".to_string(),
                    ty: IntType::type_output(),
                },
            ],
            methods: Vec::new(),
        }],
        functions: Vec::new(),
        enums: Vec::new(),
    };
    let text = render_module(&m).unwrap();
    assert_eq!(
        text,
        "__all__ = [\"Pair\"]\n\nclass Pair:\n    second: int\n    first: int\n"
    );
}

#[test]
fn class_with_bases_and_default_parameter() {
    let m = ModuleDef {
        classes: vec![ClassDef {
            name: "Child".to_string(),
            bases: vec!["Base".to_string(), "Mixin".to_string()],
            fields: Vec::new(),
            methods: vec![FunctionDef {
                name: "scale".to_string(),
                params: vec![Param {
                    name: "factor".to_string(),
                    ty: IntType::type_input(),
                    default_value: Some("1".to_string()),
                }],
                ret: class_ref("Child"),
            }],
        }],
        functions: Vec::new(),
        enums: Vec::new(),
    };
    let text = render_module(&m).unwrap();
    assert_eq!(
        text,
        "__all__ = [\"Child\"]\n\nclass Child(Base, Mixin):\n    def scale(self, factor: int = 1) -> Child: ...\n"
    );
}

#[test]
fn enum_members_have_no_values() {
    let m = ModuleDef {
        classes: Vec::new(),
        functions: Vec::new(),
        enums: vec![EnumDef {
            name: "Color".to_string(),
            members: vec!["RED".to_string(), "GREEN".to_string(), "BLUE".to_string()],
        }],
    };
    let text = render_module(&m).unwrap();
    assert_eq!(
        text,
        "__all__ = [\"Color\"]\n\nclass Color:\n    RED = ...\n    GREEN = ...\n    BLUE = ...\n"
    );
}

#[test]
fn empty_module_renders_empty_all() {
    let m = ModuleDef {
        classes: Vec::new(),
        functions: Vec::new(),
        enums: Vec::new(),
    };
    let text = render_module(&m).unwrap();
    assert_eq!(text, "__all__ = []\n");
}

#[test]
fn empty_class_gets_ellipsis_body() {
    let m = ModuleDef {
        classes: vec![ClassDef {
            name: "Marker".to_string(),
            bases: Vec::new(),
            fields: Vec::new(),
            methods: Vec::new(),
        }],
        functions: Vec::new(),
        enums: Vec::new(),
    };
    let text = render_module(&m).unwrap();
    assert_eq!(text, "__all__ = [\"Marker\"]\n\nclass Marker:\n    ...\n");
}

#[test]
fn classes_functions_and_enums_in_order() {
    let m = ModuleDef {
        classes: vec![ClassDef {
            name: "Counter".to_string(),
            bases: Vec::new(),
            fields: Vec::new(),
            methods: vec![FunctionDef {
                name: "value".to_string(),
                params: Vec::new(),
                ret: IntType::type_output(),
            }],
        }],
        functions: vec![FunctionDef {
            name: "label".to_string(),
            params: vec![
                Param {
                    name: "count".to_string(),
                    ty: IntType::type_input(),
                    default_value: None,
                },
                Param {
                    name: "unit".to_string(),
                    ty: stubgen::mapping::StrType::type_input(),
                    default_value: Some("\"items\"".to_string()),
                },
            ],
            ret: stubgen::mapping::StrType::type_output(),
        }],
        enums: vec![EnumDef {
            name: "Mode".to_string(),
            members: vec!["FAST".to_string()],
        }],
    };
    let text = render_module(&m).unwrap();
    assert_eq!(
        text,
        "__all__ = [\"Counter\", \"label\", \"Mode\"]\n\nclass Counter:\n    def value(self) -> int: ...\n\ndef label(count: int, unit: str = \"items\") -> str: ...\n\nclass Mode:\n    FAST = ...\n"
    );
}

#[test]
fn empty_annotation_is_a_rendering_error() {
    let m = ModuleDef {
        classes: Vec::new(),
        functions: vec![FunctionDef {
            name: "broken".to_string(),
            params: Vec::new(),
            ret: TypeInfo {
                name: String::new(),
                imports: Vec::new(),
            },
        }],
        enums: Vec::new(),
    };
    match render_module(&m) {
        Err(RenderError::EmptyTypeName) => {}
        _ => panic!("an empty annotation must be reported"),
    }
}

#[test]
fn empty_parameter_annotation_is_a_rendering_error() {
    let m = ModuleDef {
        classes: vec![ClassDef {
            name: "C".to_string(),
            bases: Vec::new(),
            fields: Vec::new(),
            methods: vec![FunctionDef {
                name: "m".to_string(),
                params: vec![Param {
                    name: "value".to_string(),
                    ty: TypeInfo {
                        name: String::new(),
                        imports: Vec::new(),
                    },
                    default_value: None,
                }],
                ret: IntType::type_output(),
            }],
        }],
        functions: Vec::new(),
        enums: Vec::new(),
    };
    match render_module(&m) {
        Err(RenderError::EmptyTypeName) => {}
        _ => panic!("an empty annotation must be reported"),
    }
}
