use jtd_codegen::compile;
use jtd_codegen::CompileError;
use jtd_codegen::Json;
use jtd_codegen::Node;
use jtd_codegen::TypeKeyword;

fn jstr(x: &str) -> Json {
    Json::Str(x.to_string())
}

fn jobj(pairs: Vec<(&str, Json)>) -> Json {
    Json::Object(pairs.into_iter().map(|(k, v)| (k.to_string(), v)).collect())
}

fn jarr(items: Vec<Json>) -> Json {
    Json::Array(items)
}

#[test]
fn test_compile_empty() {
    let schema = jobj(vec![]);
    let compiled = compile(&schema).unwrap();
    assert_eq!(compiled.root, Node::Empty);
    assert!(compiled.definitions.is_empty());
}

#[test]
fn test_compile_type_string() {
    let schema = jobj(vec![("type", jstr("string"))]);
    let compiled = compile(&schema).unwrap();
    assert_eq!(
        compiled.root,
        Node::Type {
            type_kw: TypeKeyword::String
        }
    );
}

#[test]
fn test_compile_enum() {
    let schema = jobj(vec![("enum", jarr(vec![jstr("a"), jstr("b"), jstr("c")]))]);
    let compiled = compile(&schema).unwrap();
    assert_eq!(
        compiled.root,
        Node::Enum {
            values: vec!["a".into(), "b".into(), "c".into()]
        }
    );
}

#[test]
fn test_compile_nullable() {
    let schema = jobj(vec![("nullable", Json::Bool(true)), ("type", jstr("string"))]);
    let compiled = compile(&schema).unwrap();
    assert_eq!(
        compiled.root,
        Node::Nullable {
            inner: Box::new(Node::Type {
                type_kw: TypeKeyword::String
            })
        }
    );
}

#[test]
fn test_compile_properties() {
    let schema = jobj(vec![
        (
            "optionalProperties",
            jobj(vec![("age", jobj(vec![("type", jstr("uint8"))]))]),
        ),
        (
            "properties",
            jobj(vec![("name", jobj(vec![("type", jstr("string"))]))]),
        ),
    ]);
    let compiled = compile(&schema).unwrap();
    let req = vec![(
        "name".to_string(),
        Node::Type {
            type_kw: TypeKeyword::String,
        },
    )];
    let opt = vec![(
        "age".to_string(),
        Node::Type {
            type_kw: TypeKeyword::Uint8,
        },
    )];
    assert_eq!(
        compiled.root,
        Node::Properties {
            required: req,
            optional: opt,
            additional: false,
        }
    );
}

#[test]
fn test_compile_definitions_and_ref() {
    let schema = jobj(vec![
        (
            "definitions",
            jobj(vec![("addr", jobj(vec![("type", jstr("string"))]))]),
        ),
        ("ref", jstr("addr")),
    ]);
    let compiled = compile(&schema).unwrap();
    assert_eq!(
        compiled.root,
        Node::Ref {
            name: "addr".into()
        }
    );
    let def = compiled.definition(&"addr".to_string());
    assert!(def.is_some());
    assert_eq!(
        *def.unwrap(),
        Node::Type {
            type_kw: TypeKeyword::String
        }
    );
}

#[test]
fn test_compile_elements() {
    let schema = jobj(vec![("elements", jobj(vec![("type", jstr("string"))]))]);
    let compiled = compile(&schema).unwrap();
    assert_eq!(
        compiled.root,
        Node::Elements {
            schema: Box::new(Node::Type {
                type_kw: TypeKeyword::String
            })
        }
    );
}

#[test]
fn test_compile_values() {
    let schema = jobj(vec![("values", jobj(vec![("type", jstr("string"))]))]);
    let compiled = compile(&schema).unwrap();
    assert_eq!(
        compiled.root,
        Node::Values {
            schema: Box::new(Node::Type {
                type_kw: TypeKeyword::String
            })
        }
    );
}

#[test]
fn test_compile_discriminator() {
    let schema = jobj(vec![
        ("discriminator", jstr("type")),
        (
            "mapping",
            jobj(vec![
                (
                    "cat",
                    jobj(vec![(
                        "properties",
                        jobj(vec![("meow", jobj(vec![("type", jstr("boolean"))]))]),
                    )]),
                ),
                (
                    "dog",
                    jobj(vec![(
                        "properties",
                        jobj(vec![("bark", jobj(vec![("type", jstr("boolean"))]))]),
                    )]),
                ),
            ]),
        ),
    ]);
    let compiled = compile(&schema).unwrap();
    match &compiled.root {
        Node::Discriminator { tag, mapping } => {
            assert_eq!(tag, "type");
            assert_eq!(mapping.len(), 2);
            assert!(mapping.iter().any(|(k, _)| k == "cat"));
            assert!(mapping.iter().any(|(k, _)| k == "dog"));
        }
        _ => panic!("expected Discriminator node"),
    }
}

#[test]
fn test_reject_multiple_forms() {
    let schema = jobj(vec![
        ("enum", jarr(vec![jstr("a")])),
        ("type", jstr("string")),
    ]);
    assert!(compile(&schema).is_err());
}

#[test]
fn test_reject_duplicate_enum() {
    let schema = jobj(vec![("enum", jarr(vec![jstr("a"), jstr("a")]))]);
    assert!(compile(&schema).is_err());
}

#[test]
fn test_reject_overlapping_properties() {
    let schema = jobj(vec![
        ("optionalProperties", jobj(vec![("x", jobj(vec![]))])),
        ("properties", jobj(vec![("x", jobj(vec![]))])),
    ]);
    assert!(compile(&schema).is_err());
}

// ── Error taxonomy: one input per variant ──────────────────────────────

#[test]
fn test_error_not_an_object() {
    assert!(matches!(compile(&Json::Null), Err(CompileError::NotAnObject)));
    assert!(matches!(
        compile(&jarr(vec![])),
        Err(CompileError::NotAnObject)
    ));
}

#[test]
fn test_error_definitions_not_object() {
    let schema = jobj(vec![("definitions", Json::Number)]);
    assert!(matches!(
        compile(&schema),
        Err(CompileError::DefinitionsNotObject)
    ));
}

#[test]
fn test_error_definitions_in_non_root() {
    let schema = jobj(vec![(
        "elements",
        jobj(vec![("definitions", jobj(vec![]))]),
    )]);
    assert!(matches!(
        compile(&schema),
        Err(CompileError::DefinitionsInNonRoot)
    ));
}

#[test]
fn test_error_multiple_forms_payload() {
    let schema = jobj(vec![
        ("enum", jarr(vec![jstr("a")])),
        ("type", jstr("string")),
    ]);
    match compile(&schema) {
        Err(CompileError::MultipleForms(forms)) => {
            assert_eq!(forms, vec!["type".to_string(), "enum".to_string()]);
        }
        other => panic!("expected MultipleForms, got {:?}", other),
    }
}

#[test]
fn test_error_ref_not_string() {
    let schema = jobj(vec![("ref", Json::Number)]);
    assert!(matches!(compile(&schema), Err(CompileError::RefNotString)));
}

#[test]
fn test_error_ref_not_found() {
    let schema = jobj(vec![("ref", jstr("ghost_name"))]);
    match compile(&schema) {
        Err(CompileError::RefNotFound(name)) => assert_eq!(name, "ghost_name"),
        other => panic!("expected RefNotFound, got {:?}", other),
    }
}

#[test]
fn test_error_type_not_string() {
    let schema = jobj(vec![("type", Json::Bool(true))]);
    assert!(matches!(compile(&schema), Err(CompileError::TypeNotString)));
}

#[test]
fn test_error_unknown_type() {
    let schema = jobj(vec![("type", jstr("int64"))]);
    match compile(&schema) {
        Err(CompileError::UnknownType(name)) => assert_eq!(name, "int64"),
        other => panic!("expected UnknownType, got {:?}", other),
    }
}

#[test]
fn test_error_invalid_enum() {
    assert!(matches!(
        compile(&jobj(vec![("enum", jstr("a"))])),
        Err(CompileError::InvalidEnum)
    ));
    assert!(matches!(
        compile(&jobj(vec![("enum", jarr(vec![]))])),
        Err(CompileError::InvalidEnum)
    ));
    assert!(matches!(
        compile(&jobj(vec![("enum", jarr(vec![Json::Number]))])),
        Err(CompileError::InvalidEnum)
    ));
}

#[test]
fn test_error_enum_duplicates() {
    let schema = jobj(vec![("enum", jarr(vec![jstr("a"), jstr("b"), jstr("a")]))]);
    assert!(matches!(
        compile(&schema),
        Err(CompileError::EnumDuplicates)
    ));
}

#[test]
fn test_error_overlapping_properties_payload() {
    let schema = jobj(vec![
        ("optionalProperties", jobj(vec![("x", jobj(vec![]))])),
        ("properties", jobj(vec![("x", jobj(vec![]))])),
    ]);
    match compile(&schema) {
        Err(CompileError::OverlappingProperties(key)) => assert_eq!(key, "x"),
        other => panic!("expected OverlappingProperties, got {:?}", other),
    }
}

#[test]
fn test_error_discriminator_not_string() {
    let schema = jobj(vec![
        ("discriminator", Json::Number),
        ("mapping", jobj(vec![])),
    ]);
    assert!(matches!(
        compile(&schema),
        Err(CompileError::DiscriminatorNotString)
    ));
}

#[test]
fn test_error_missing_mapping() {
    let schema = jobj(vec![("discriminator", jstr("kind"))]);
    assert!(matches!(
        compile(&schema),
        Err(CompileError::MissingMapping)
    ));
}

#[test]
fn test_error_mapping_not_properties() {
    let schema = jobj(vec![
        ("discriminator", jstr("kind")),
        (
            "mapping",
            jobj(vec![("a", jobj(vec![("type", jstr("string"))]))]),
        ),
    ]);
    assert!(matches!(
        compile(&schema),
        Err(CompileError::MappingNotProperties)
    ));
}

#[test]
fn test_error_mapping_nullable_properties_rejected() {
    let schema = jobj(vec![
        ("discriminator", jstr("kind")),
        (
            "mapping",
            jobj(vec![(
                "a",
                jobj(vec![
                    ("nullable", Json::Bool(true)),
                    ("properties", jobj(vec![])),
                ]),
            )]),
        ),
    ]);
    assert!(matches!(
        compile(&schema),
        Err(CompileError::MappingNotProperties)
    ));
}

#[test]
fn test_error_tag_in_variant() {
    let schema = jobj(vec![
        ("discriminator", jstr("kind")),
        (
            "mapping",
            jobj(vec![(
                "a",
                jobj(vec![(
                    "properties",
                    jobj(vec![("kind", jobj(vec![("type", jstr("string"))]))]),
                )]),
            )]),
        ),
    ]);
    match compile(&schema) {
        Err(CompileError::TagInVariant(tag)) => assert_eq!(tag, "kind"),
        other => panic!("expected TagInVariant, got {:?}", other),
    }
}

// ── Error messages ─────────────────────────────────────────────────────

#[test]
fn test_error_messages() {
    assert_eq!(
        CompileError::NotAnObject.message(),
        "schema must be a JSON object"
    );
    assert_eq!(
        CompileError::RefNotFound("addr".to_string()).message(),
        "ref 'addr' not found in definitions"
    );
    assert_eq!(
        CompileError::UnknownType("int64".to_string()).message(),
        "unknown type keyword: 'int64'"
    );
    assert_eq!(
        CompileError::MultipleForms(vec!["type".to_string(), "enum".to_string()]).message(),
        "schema has multiple forms: [\"type\", \"enum\"]"
    );
    assert_eq!(
        CompileError::TagInVariant("kind".to_string()).message(),
        "discriminator tag 'kind' must not appear in mapping variant properties"
    );
}

// ── Keyword parsing ────────────────────────────────────────────────────

#[test]
fn test_keyword_parse_round_trip() {
    let all = [
        "boolean",
        "string",
        "timestamp",
        "int8",
        "uint8",
        "int16",
        "uint16",
        "int32",
        "uint32",
        "float32",
        "float64",
    ];
    for name in all {
        let kw = TypeKeyword::parse(name).unwrap();
        assert_eq!(kw.as_str(), name);
    }
    assert!(TypeKeyword::parse("int64").is_none());
    assert!(TypeKeyword::parse("").is_none());
}

// ── Further structural rules ───────────────────────────────────────────

#[test]
fn test_unknown_keywords_ignored() {
    let schema = jobj(vec![
        ("metadata", jobj(vec![])),
        ("type", jstr("string")),
    ]);
    let compiled = compile(&schema).unwrap();
    assert_eq!(
        compiled.root,
        Node::Type {
            type_kw: TypeKeyword::String
        }
    );
}

#[test]
fn test_ref_across_definitions() {
    // A ref inside a definition can name a definition declared later.
    let schema = jobj(vec![
        (
            "definitions",
            jobj(vec![
                ("first", jobj(vec![("ref", jstr("second"))])),
                ("second", jobj(vec![("type", jstr("string"))])),
            ]),
        ),
        ("ref", jstr("first")),
    ]);
    let compiled = compile(&schema).unwrap();
    assert_eq!(compiled.definitions.len(), 2);
    assert_eq!(
        *compiled.definition(&"first".to_string()).unwrap(),
        Node::Ref {
            name: "second".into()
        }
    );
}

#[test]
fn test_additional_properties_flag() {
    let schema = jobj(vec![
        ("additionalProperties", Json::Bool(true)),
        ("properties", jobj(vec![("a", jobj(vec![]))])),
    ]);
    let compiled = compile(&schema).unwrap();
    match compiled.root {
        Node::Properties { additional, .. } => assert!(additional),
        _ => panic!("expected Properties node"),
    }
}

#[test]
fn test_enum_order_preserved() {
    let schema = jobj(vec![("enum", jarr(vec![jstr("z"), jstr("a"), jstr("m")]))]);
    let compiled = compile(&schema).unwrap();
    assert_eq!(
        compiled.root,
        Node::Enum {
            values: vec!["z".into(), "a".into(), "m".into()]
        }
    );
}

#[test]
fn test_nullable_false_not_wrapped() {
    let schema = jobj(vec![("nullable", Json::Bool(false)), ("type", jstr("string"))]);
    let compiled = compile(&schema).unwrap();
    assert_eq!(
        compiled.root,
        Node::Type {
            type_kw: TypeKeyword::String
        }
    );
}

#[test]
fn test_node_predicates() {
    assert!(Node::Empty.is_leaf());
    assert!(Node::Type {
        type_kw: TypeKeyword::Boolean
    }
    .is_leaf());
    assert!(!Node::Empty.is_complex());
    assert!(Node::Ref {
        name: "x".to_string()
    }
    .is_complex());
    assert!(Node::Values {
        schema: Box::new(Node::Empty)
    }
    .is_complex());
}
