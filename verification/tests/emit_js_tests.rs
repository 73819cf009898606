use jtd_codegen::compile;
use jtd_codegen::emit_js::emit;
use jtd_codegen::emit_js::emit_discriminator;
use jtd_codegen::emit_js::emit_elements;
use jtd_codegen::emit_js::emit_empty;
use jtd_codegen::emit_js::emit_enum;
use jtd_codegen::emit_js::emit_nullable;
use jtd_codegen::emit_js::emit_properties;
use jtd_codegen::emit_js::emit_ref;
use jtd_codegen::emit_js::emit_type;
use jtd_codegen::emit_js::emit_values;
use jtd_codegen::emit_js::def_fn_name;
use jtd_codegen::emit_js::escape_js;
use jtd_codegen::emit_js::type_condition;
use jtd_codegen::emit_js::CodeWriter;
use jtd_codegen::emit_js::EmitContext;
use jtd_codegen::Json;
use jtd_codegen::Node;
use jtd_codegen::TypeKeyword;

fn jstr(x: &str) -> Json {
    Json::Str(x.to_string())
}

fn jobj(pairs: Vec<(&str, Json)>) -> Json {
    Json::Object(pairs.into_iter().map(|(k, v)| (k.to_string(), v)).collect())
}

fn string_type() -> Node {
    Node::Type {
        type_kw: TypeKeyword::String,
    }
}

// ── Context ────────────────────────────────────────────────────────────

#[test]
fn test_root_context() {
    let ctx = EmitContext::root();
    assert_eq!(ctx.val, "instance");
    assert_eq!(ctx.ip, "\"\"");
    assert_eq!(ctx.sp, "\"\"");
}

#[test]
fn test_definition_context() {
    let ctx = EmitContext::definition();
    assert_eq!(ctx.val, "v");
    assert_eq!(ctx.ip, "p");
    assert_eq!(ctx.sp, "sp");
}

#[test]
fn test_required_prop_descent() {
    let ctx = EmitContext::root();
    let child = ctx.required_prop("name");
    assert_eq!(child.val, "instance[\"name\"]");
    assert_eq!(child.ip, "\"\" + \"/name\"");
    assert_eq!(child.sp, "\"\" + \"/properties/name\"");
}

#[test]
fn test_optional_prop_descent() {
    let ctx = EmitContext::root();
    let child = ctx.optional_prop("age");
    assert_eq!(child.sp, "\"\" + \"/optionalProperties/age\"");
}

#[test]
fn test_element_descent() {
    let ctx = EmitContext::definition();
    let child = ctx.element("i");
    assert_eq!(child.val, "v[i]");
    assert_eq!(child.ip, "p + \"/\" + i");
    assert_eq!(child.sp, "sp + \"/elements\"");
}

#[test]
fn test_values_entry_descent() {
    let ctx = EmitContext::definition();
    let child = ctx.values_entry("k");
    assert_eq!(child.val, "v[k]");
    assert_eq!(child.ip, "p + \"/\" + k");
    assert_eq!(child.sp, "sp + \"/values\"");
}

#[test]
fn test_push_error_no_suffix() {
    let ctx = EmitContext::root();
    let stmt = ctx.push_error("");
    assert_eq!(stmt, "e.push({instancePath: \"\", schemaPath: \"\"});");
}

#[test]
fn test_push_error_with_suffix() {
    let ctx = EmitContext::root();
    let stmt = ctx.push_error("/type");
    assert_eq!(
        stmt,
        "e.push({instancePath: \"\", schemaPath: \"\" + \"/type\"});"
    );
}

#[test]
fn test_push_error_at() {
    let ctx = EmitContext::definition();
    let stmt = ctx.push_error_at("/name", "/properties/name");
    assert_eq!(
        stmt,
        "e.push({instancePath: p + \"/name\", schemaPath: sp + \"/properties/name\"});"
    );
}

#[test]
fn test_nested_descent() {
    // Simulate: root -> property "items" -> element [i]
    let root = EmitContext::root();
    let prop = root.required_prop("items");
    let elem = prop.element("i");
    assert_eq!(elem.val, "instance[\"items\"][i]");
    assert!(elem.sp.contains("/elements"));
}

#[test]
fn test_idx_and_key_vars() {
    let ctx = EmitContext::root();
    assert_eq!(ctx.idx_var(), "i");
    assert_eq!(ctx.key_var(), "k");
    let deeper = ctx.element("i");
    assert_eq!(deeper.idx_var(), "i1");
    assert_eq!(deeper.key_var(), "k1");
    let deepest = deeper.values_entry("k1");
    assert_eq!(deepest.idx_var(), "i2");
}

// ── Leaf emitters ──────────────────────────────────────────────────────

#[test]
fn test_emit_empty_produces_nothing() {
    let mut w = CodeWriter::new();
    let ctx = EmitContext::root();
    emit_empty(&mut w, &ctx);
    assert_eq!(w.finish(), "");
}

#[test]
fn test_emit_type_boolean() {
    let mut w = CodeWriter::new();
    let ctx = EmitContext::root();
    emit_type(&mut w, &ctx, TypeKeyword::Boolean);
    let code = w.finish();
    assert!(code.contains("typeof instance !== \"boolean\""));
    assert!(code.contains("/type"));
    assert!(code.contains("e.push("));
}

#[test]
fn test_emit_type_uint8() {
    let mut w = CodeWriter::new();
    let ctx = EmitContext::root();
    emit_type(&mut w, &ctx, TypeKeyword::Uint8);
    let code = w.finish();
    assert!(code.contains("Number.isInteger"));
    assert!(code.contains("< 0"));
    assert!(code.contains("> 255"));
}

#[test]
fn test_emit_type_with_definition_context() {
    let mut w = CodeWriter::new();
    let ctx = EmitContext::definition();
    emit_type(&mut w, &ctx, TypeKeyword::String);
    let code = w.finish();
    assert!(code.contains("typeof v !== \"string\""));
    assert!(code.contains("e.push("));
}

#[test]
fn test_emit_type_with_nested_context() {
    let root = EmitContext::root();
    let child = root.required_prop("name");
    let mut w = CodeWriter::new();
    emit_type(&mut w, &child, TypeKeyword::String);
    let code = w.finish();
    assert!(code.contains("instance[\"name\"]"));
}

#[test]
fn test_emit_enum() {
    let mut w = CodeWriter::new();
    let ctx = EmitContext::root();
    emit_enum(&mut w, &ctx, &vec!["a".into(), "b".into(), "c".into()]);
    let code = w.finish();
    assert!(code.contains("typeof instance !== \"string\""));
    assert!(code.contains("[\"a\",\"b\",\"c\"].includes(instance)"));
    assert!(code.contains("/enum"));
}

#[test]
fn test_emit_enum_with_special_chars() {
    let mut w = CodeWriter::new();
    let ctx = EmitContext::root();
    emit_enum(&mut w, &ctx, &vec!["a\"b".into(), "c\\d".into()]);
    let code = w.finish();
    assert!(code.contains("a\\\"b"));
    assert!(code.contains("c\\\\d"));
}

#[test]
fn test_emit_ref() {
    let mut w = CodeWriter::new();
    let ctx = EmitContext::root();
    emit_ref(&mut w, &ctx, "address");
    let code = w.finish();
    assert!(code.contains("validate_address(instance, e, \"\", \"/definitions/address\");"));
}

#[test]
fn test_emit_ref_sanitizes_name() {
    assert_eq!(def_fn_name("my-type"), "validate_my_type");
    assert_eq!(def_fn_name("foo.bar"), "validate_foo_bar");
}

// ── Composite emitters ─────────────────────────────────────────────────

#[test]
fn test_emit_nullable_wraps_inner() {
    let mut w = CodeWriter::new();
    let ctx = EmitContext::root();
    emit_nullable(&mut w, &ctx, &string_type());
    let code = w.finish();
    assert!(code.contains("if (instance !== null)"));
    assert!(code.contains("typeof instance !== \"string\""));
}

#[test]
fn test_emit_nullable_empty_produces_nothing() {
    let mut w = CodeWriter::new();
    let ctx = EmitContext::root();
    emit_nullable(&mut w, &ctx, &Node::Empty);
    assert_eq!(w.finish(), "");
}

#[test]
fn test_emit_elements_with_type_inner() {
    let mut w = CodeWriter::new();
    let ctx = EmitContext::root();
    emit_elements(&mut w, &ctx, &string_type());
    let code = w.finish();
    assert!(code.contains("Array.isArray(instance)"));
    assert!(code.contains("for (let i = 0;"));
    assert!(code.contains("instance[i]"));
    assert!(code.contains("/elements"));
}

#[test]
fn test_emit_elements_with_empty_inner() {
    let mut w = CodeWriter::new();
    let ctx = EmitContext::root();
    emit_elements(&mut w, &ctx, &Node::Empty);
    let code = w.finish();
    // Still emits the array guard and the loop, but the loop body is empty.
    assert!(code.contains("Array.isArray"));
    assert!(code.contains("for (let i"));
}

#[test]
fn test_emit_values_with_type_inner() {
    let mut w = CodeWriter::new();
    let ctx = EmitContext::root();
    emit_values(&mut w, &ctx, &string_type());
    let code = w.finish();
    assert!(code.contains("typeof instance !== \"object\""));
    assert!(code.contains("for (const k in instance)"));
    assert!(code.contains("instance[k]"));
    assert!(code.contains("/values"));
}

#[test]
fn test_emit_values_null_guard() {
    let mut w = CodeWriter::new();
    let ctx = EmitContext::root();
    emit_values(&mut w, &ctx, &Node::Empty);
    let code = w.finish();
    // Must reject null, arrays, and non-objects.
    assert!(code.contains("instance === null"));
    assert!(code.contains("Array.isArray(instance)"));
}

#[test]
fn test_emit_properties_required_only() {
    let mut w = CodeWriter::new();
    let ctx = EmitContext::root();
    let required = vec![("name".to_string(), string_type())];
    emit_properties(&mut w, &ctx, &required, &vec![], false, None);
    let code = w.finish();
    // Object guard
    assert!(code.contains("typeof instance !== \"object\""));
    // Missing key check
    assert!(code.contains("\"name\" in instance"));
    // Type check on the value
    assert!(code.contains("/properties/name"));
    // Additional-properties loop (additional=false)
    assert!(code.contains("for (const k in instance)"));
    assert!(code.contains("k !== \"name\""));
}

#[test]
fn test_emit_properties_optional_only() {
    let mut w = CodeWriter::new();
    let ctx = EmitContext::root();
    let optional = vec![(
        "age".to_string(),
        Node::Type {
            type_kw: TypeKeyword::Uint8,
        },
    )];
    emit_properties(&mut w, &ctx, &vec![], &optional, false, None);
    let code = w.finish();
    assert!(code.contains("\"age\" in instance"));
    assert!(code.contains("/optionalProperties/age"));
    assert!(code.contains("Number.isInteger"));
}

#[test]
fn test_emit_properties_additional_true_no_loop() {
    let mut w = CodeWriter::new();
    let ctx = EmitContext::root();
    let required = vec![("name".to_string(), string_type())];
    emit_properties(&mut w, &ctx, &required, &vec![], true, None);
    let code = w.finish();
    // With additional=true there is no for-in rejection loop.
    assert!(!code.contains("for (const k"));
}

#[test]
fn test_emit_properties_with_discrim_tag() {
    let mut w = CodeWriter::new();
    let ctx = EmitContext::root();
    let required = vec![(
        "bark".to_string(),
        Node::Type {
            type_kw: TypeKeyword::Boolean,
        },
    )];
    let tag = "type".to_string();
    emit_properties(&mut w, &ctx, &required, &vec![], false, Some(&tag));
    let code = w.finish();
    // The tag "type" is in the known-keys exclusion.
    assert!(code.contains("k !== \"type\""));
    assert!(code.contains("k !== \"bark\""));
}

#[test]
fn test_emit_properties_empty_value() {
    // A required property with an empty schema: the key check alone.
    let mut w = CodeWriter::new();
    let ctx = EmitContext::root();
    let required = vec![("data".to_string(), Node::Empty)];
    emit_properties(&mut w, &ctx, &required, &vec![], false, None);
    let code = w.finish();
    assert!(code.contains("\"data\" in instance"));
    // No type check inside the else branch.
    assert!(!code.contains("typeof instance[\"data\"]"));
}

#[test]
fn test_emit_discriminator_structure() {
    let mut w = CodeWriter::new();
    let ctx = EmitContext::root();
    let mapping = vec![
        (
            "cat".to_string(),
            Node::Properties {
                required: vec![(
                    "meow".to_string(),
                    Node::Type {
                        type_kw: TypeKeyword::Boolean,
                    },
                )],
                optional: vec![],
                additional: false,
            },
        ),
        (
            "dog".to_string(),
            Node::Properties {
                required: vec![(
                    "bark".to_string(),
                    Node::Type {
                        type_kw: TypeKeyword::Boolean,
                    },
                )],
                optional: vec![],
                additional: false,
            },
        ),
    ];
    emit_discriminator(&mut w, &ctx, "kind", &mapping);
    let code = w.finish();
    // Step 1: object guard
    assert!(code.contains("typeof instance !== \"object\""));
    // Step 2: tag missing
    assert!(code.contains("\"kind\" in instance"));
    // Step 3: tag not a string
    assert!(code.contains("typeof instance[\"kind\"] !== \"string\""));
    assert!(code.contains("/discriminator"));
    // Step 4: variant dispatch
    assert!(code.contains("instance[\"kind\"] === \"cat\""));
    assert!(code.contains("instance[\"kind\"] === \"dog\""));
    // Step 5: unknown tag -> /mapping error
    assert!(code.contains("/mapping"));
    // Variant contexts get scoped schema paths
    assert!(code.contains("/mapping/cat"));
    assert!(code.contains("/mapping/dog"));
}

#[test]
fn test_emit_discriminator_empty_mapping() {
    let mut w = CodeWriter::new();
    let ctx = EmitContext::root();
    emit_discriminator(&mut w, &ctx, "type", &vec![]);
    let code = w.finish();
    // With no variants, still the object guard, tag checks, unknown fallback.
    assert!(code.contains("\"type\" in instance"));
    assert!(code.contains("else"));
}

// ── Type conditions ────────────────────────────────────────────────────

#[test]
fn test_boolean() {
    let c = type_condition(TypeKeyword::Boolean, "v");
    assert_eq!(c, "typeof v !== \"boolean\"");
}

#[test]
fn test_string() {
    let c = type_condition(TypeKeyword::String, "v");
    assert_eq!(c, "typeof v !== \"string\"");
}

#[test]
fn test_float64() {
    let c = type_condition(TypeKeyword::Float64, "v");
    assert_eq!(c, "typeof v !== \"number\" || !Number.isFinite(v)");
}

#[test]
fn test_float32_same_as_float64() {
    // RFC 8927: both accept any finite JSON number.
    let c32 = type_condition(TypeKeyword::Float32, "v");
    let c64 = type_condition(TypeKeyword::Float64, "v");
    assert_eq!(c32, c64);
}

#[test]
fn test_uint8() {
    let c = type_condition(TypeKeyword::Uint8, "v");
    assert!(c.contains("Number.isInteger(v)"));
    assert!(c.contains("v < 0"));
    assert!(c.contains("v > 255"));
}

#[test]
fn test_int8() {
    let c = type_condition(TypeKeyword::Int8, "v");
    assert!(c.contains("v < -128"));
    assert!(c.contains("v > 127"));
}

#[test]
fn test_int32_range() {
    let c = type_condition(TypeKeyword::Int32, "v");
    assert!(c.contains("-2147483648"));
    assert!(c.contains("2147483647"));
}

#[test]
fn test_uint32_range() {
    let c = type_condition(TypeKeyword::Uint32, "v");
    assert!(c.contains("v < 0"));
    assert!(c.contains("4294967295"));
}

#[test]
fn test_timestamp_has_regex() {
    let c = type_condition(TypeKeyword::Timestamp, "v");
    assert!(c.contains("typeof v !== \"string\""));
    assert!(c.contains(".test(v)"));
    assert!(c.contains(":60"));
}

#[test]
fn test_arbitrary_val_expr() {
    // Complex expressions can stand for the value.
    let c = type_condition(TypeKeyword::Boolean, "obj[\"x\"]");
    assert_eq!(c, "typeof obj[\"x\"] !== \"boolean\"");
}

// ── Writer ─────────────────────────────────────────────────────────────

#[test]
fn test_line() {
    let mut w = CodeWriter::new();
    w.line("const x = 1;");
    assert_eq!(w.finish(), "const x = 1;\n");
}

#[test]
fn test_open_close() {
    let mut w = CodeWriter::new();
    w.open("if (true)");
    w.line("x();");
    w.close();
    assert_eq!(w.finish(), "if (true) {\n  x();\n}\n");
}

#[test]
fn test_close_open() {
    let mut w = CodeWriter::new();
    w.open("if (a)");
    w.line("x();");
    w.close_open("else");
    w.line("y();");
    w.close();
    assert_eq!(w.finish(), "if (a) {\n  x();\n} else {\n  y();\n}\n");
}

#[test]
fn test_nested() {
    let mut w = CodeWriter::new();
    w.open("function f()");
    w.open("if (true)");
    w.line("return;");
    w.close();
    w.close();
    assert_eq!(
        w.finish(),
        "function f() {\n  if (true) {\n    return;\n  }\n}\n"
    );
}

#[test]
fn test_escape_js() {
    assert_eq!(escape_js("hello"), "hello");
    assert_eq!(escape_js("a\"b"), "a\\\"b");
    assert_eq!(escape_js("a\\b"), "a\\\\b");
    assert_eq!(escape_js("a\nb"), "a\\nb");
}

// ── Whole-module emission ──────────────────────────────────────────────

#[test]
fn test_emit_empty_schema() {
    let schema = jobj(vec![]);
    let compiled = compile(&schema).unwrap();
    let code = emit(&compiled);
    // The validate function, with no checks.
    assert!(code.contains("export function validate(instance)"));
    assert!(code.contains("const e = [];"));
    assert!(code.contains("return e;"));
    // No type checks for an empty schema.
    assert!(!code.contains("typeof"));
}

#[test]
fn test_emit_type_string() {
    let schema = jobj(vec![("type", jstr("string"))]);
    let compiled = compile(&schema).unwrap();
    let code = emit(&compiled);
    assert!(code.contains("typeof instance !== \"string\""));
}

#[test]
fn test_emit_ref_generates_definition_function() {
    let schema = jobj(vec![
        (
            "definitions",
            jobj(vec![("addr", jobj(vec![("type", jstr("string"))]))]),
        ),
        ("ref", jstr("addr")),
    ]);
    let compiled = compile(&schema).unwrap();
    let code = emit(&compiled);
    // The definition function
    assert!(code.contains("function validate_addr(v, e, p, sp)"));
    assert!(code.contains("typeof v !== \"string\""));
    // The root calls it
    assert!(code.contains("validate_addr(instance, e, \"\", \"/definitions/addr\");"));
}

#[test]
fn test_emit_worked_example() {
    let schema = jobj(vec![
        (
            "optionalProperties",
            jobj(vec![("email", jobj(vec![("type", jstr("string"))]))]),
        ),
        (
            "properties",
            jobj(vec![
                ("age", jobj(vec![("type", jstr("uint8"))])),
                ("name", jobj(vec![("type", jstr("string"))])),
                (
                    "tags",
                    jobj(vec![("elements", jobj(vec![("type", jstr("string"))]))]),
                ),
            ]),
        ),
    ]);
    let compiled = compile(&schema).unwrap();
    let code = emit(&compiled);

    // Required property checks
    assert!(code.contains("\"name\" in instance"));
    assert!(code.contains("\"age\" in instance"));
    assert!(code.contains("\"tags\" in instance"));

    // Type checks
    assert!(code.contains("Number.isInteger")); // uint8
    assert!(code.contains("Array.isArray")); // elements guard

    // Optional
    assert!(code.contains("\"email\" in instance"));

    // Additional properties
    assert!(code.contains("for (const k in instance)"));

    // No definition functions (the schema has none)
    assert!(!code.contains("function validate_"));
}

// ── Emitted-text scenarios ─────────────────────────────────────────────

#[test]
fn test_emitted_type_string_module_exact() {
    // Schema {"type": "string"}: the whole emitted module, byte for byte.
    let schema = jobj(vec![("type", jstr("string"))]);
    let compiled = compile(&schema).unwrap();
    let code = emit(&compiled);
    assert_eq!(
        code,
        "export function validate(instance) {\n  const e = [];\n  if (typeof instance !== \"string\") e.push({instancePath: \"\", schemaPath: \"\" + \"/type\"});\n  return e;\n}\n"
    );
}

#[test]
fn test_emitted_elements_paths() {
    // Schema {"elements": {"type": "string"}}: a failing element reports
    // instancePath "/<index>" and schemaPath "/elements/type".
    let schema = jobj(vec![("elements", jobj(vec![("type", jstr("string"))]))]);
    let compiled = compile(&schema).unwrap();
    let code = emit(&compiled);
    assert!(code.contains("instancePath: \"\" + \"/\" + i"));
    assert!(code.contains("schemaPath: \"\" + \"/elements\" + \"/type\""));
}

#[test]
fn test_emitted_properties_paths() {
    // The worked property schema reports /properties/name/type,
    // /optionalProperties/age/type, and unknown keys at the node's path.
    let schema = jobj(vec![
        (
            "optionalProperties",
            jobj(vec![("age", jobj(vec![("type", jstr("uint8"))]))]),
        ),
        (
            "properties",
            jobj(vec![("name", jobj(vec![("type", jstr("string"))]))]),
        ),
    ]);
    let compiled = compile(&schema).unwrap();
    let code = emit(&compiled);
    assert!(code.contains("schemaPath: \"\" + \"/properties/name\" + \"/type\""));
    assert!(code.contains("schemaPath: \"\" + \"/optionalProperties/age\" + \"/type\""));
    // Unknown keys: instancePath "/<key>", schemaPath at the node itself.
    assert!(code
        .contains("if (k !== \"name\" && k !== \"age\") e.push({instancePath: \"\" + \"/\" + k, schemaPath: \"\"});"));
}

#[test]
fn test_emitted_discriminator_unknown_tag() {
    // Schema with tag "kind": an unknown tag value reports instancePath
    // "/kind" and schemaPath "/mapping".
    let schema = jobj(vec![
        ("discriminator", jstr("kind")),
        (
            "mapping",
            jobj(vec![(
                "cat",
                jobj(vec![(
                    "properties",
                    jobj(vec![("meow", jobj(vec![("type", jstr("boolean"))]))]),
                )]),
            )]),
        ),
    ]);
    let compiled = compile(&schema).unwrap();
    let code = emit(&compiled);
    assert!(code.contains(
        "e.push({instancePath: \"\" + \"/kind\", schemaPath: \"\" + \"/mapping\"});"
    ));
    assert!(code.contains("instance[\"kind\"] === \"cat\""));
}

#[test]
fn test_emitted_ref_anchors_at_definition() {
    // The callee's schema path is the absolute path to the definition, so
    // errors inside a reused definition anchor at /definitions/<name>.
    let schema = jobj(vec![
        (
            "definitions",
            jobj(vec![("addr", jobj(vec![("type", jstr("string"))]))]),
        ),
        ("ref", jstr("addr")),
    ]);
    let compiled = compile(&schema).unwrap();
    let code = emit(&compiled);
    assert!(code.contains("validate_addr(instance, e, \"\", \"/definitions/addr\");"));
    // Inside the definition the error uses the passed-in sp.
    assert!(code.contains("e.push({instancePath: p, schemaPath: sp + \"/type\"});"));
}

#[test]
fn test_emitted_timestamp_accepts_leap_second() {
    // The emitted timestamp check admits the :60 leap second and
    // normalizes it before parsing.
    let c = type_condition(TypeKeyword::Timestamp, "v");
    assert!(c.contains("(\\d{2}|60)"));
    assert!(c.contains(".replace(/:60/, \":59\")"));
}

#[test]
fn test_nullable_empty_emits_like_empty() {
    // Nullable(Empty) and Empty produce byte-identical modules.
    let plain = compile(&jobj(vec![])).unwrap();
    let nullable = compile(&jobj(vec![("nullable", Json::Bool(true))])).unwrap();
    assert_eq!(emit(&plain), emit(&nullable));
}

#[test]
fn test_emission_deterministic() {
    // Emitting the same schema twice gives byte-identical text.
    let schema = jobj(vec![
        (
            "definitions",
            jobj(vec![("addr", jobj(vec![("type", jstr("string"))]))]),
        ),
        ("elements", jobj(vec![("ref", jstr("addr"))])),
    ]);
    let a = emit(&compile(&schema).unwrap());
    let b = emit(&compile(&schema).unwrap());
    assert_eq!(a, b);
}

#[test]
fn test_emitted_nested_loops_use_fresh_variables() {
    // Nested elements loops get distinct index variables.
    let schema = jobj(vec![(
        "elements",
        jobj(vec![("elements", jobj(vec![("type", jstr("string"))]))]),
    )]);
    let compiled = compile(&schema).unwrap();
    let code = emit(&compiled);
    assert!(code.contains("for (let i = 0;"));
    assert!(code.contains("for (let i1 = 0;"));
}

#[test]
fn test_required_prop_escapes_key() {
    // Keys are escaped as they enter the generated expressions, so a quote
    // in a property name cannot break the emitted source.
    let ctx = EmitContext::root();
    let child = ctx.required_prop("a\"b");
    assert_eq!(child.val, "instance[\"a\\\"b\"]");
    assert_eq!(child.sp, "\"\" + \"/properties/a\\\"b\"");
}

#[test]
fn test_emitted_enum_module() {
    let schema = jobj(vec![("enum", Json::Array(vec![jstr("yes"), jstr("no")]))]);
    let compiled = compile(&schema).unwrap();
    let code = emit(&compiled);
    assert!(code.contains("![\"yes\",\"no\"].includes(instance)"));
    assert!(code.contains("schemaPath: \"\" + \"/enum\""));
}

#[test]
fn test_emitted_values_paths() {
    let schema = jobj(vec![("values", jobj(vec![("type", jstr("boolean"))]))]);
    let compiled = compile(&schema).unwrap();
    let code = emit(&compiled);
    assert!(code.contains("for (const k in instance)"));
    assert!(code.contains("schemaPath: \"\" + \"/values\" + \"/type\""));
    assert!(code.contains("instancePath: \"\" + \"/\" + k"));
}
