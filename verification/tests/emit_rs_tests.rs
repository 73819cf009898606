use jtd_codegen::emit_rs::needs_timestamp_helper;
use jtd_codegen::emit_rs::type_condition;
use jtd_codegen::emit_rs::RsCtx;
use jtd_codegen::TypeKeyword;

#[test]
fn test_root() {
    let c = RsCtx::root();
    assert_eq!(c.val, "instance");
}

#[test]
fn test_unique_vars() {
    let c = RsCtx::root();
    assert_eq!(c.idx_var(), "i");
    assert_eq!(c.key_var(), "k");
    let d = c.deeper();
    assert_eq!(d.idx_var(), "i1");
    assert_eq!(d.key_var(), "k1");
}

#[test]
fn types_test_boolean() {
    let c = type_condition(TypeKeyword::Boolean, "v");
    assert_eq!(c, "!v.is_boolean()");
}

#[test]
fn types_test_string() {
    let c = type_condition(TypeKeyword::String, "v");
    assert_eq!(c, "!v.is_string()");
}

#[test]
fn types_test_float64() {
    let c = type_condition(TypeKeyword::Float64, "v");
    assert!(c.contains("as_f64()"));
    assert!(c.contains("is_finite()"));
}

#[test]
fn types_test_float32_same_as_float64() {
    let c32 = type_condition(TypeKeyword::Float32, "v");
    let c64 = type_condition(TypeKeyword::Float64, "v");
    assert_eq!(c32, c64);
}

#[test]
fn types_test_uint8() {
    let c = type_condition(TypeKeyword::Uint8, "v");
    assert!(c.contains("fract() == 0.0"));
    assert!(c.contains(">= 0_f64"));
    assert!(c.contains("<= 255_f64"));
}

#[test]
fn types_test_int32_range() {
    let c = type_condition(TypeKeyword::Int32, "v");
    assert!(c.contains("-2147483648"));
    assert!(c.contains("2147483647"));
}

#[test]
fn test_timestamp() {
    let c = type_condition(TypeKeyword::Timestamp, "v");
    assert!(c.contains("is_rfc3339"));
}

#[test]
fn test_needs_timestamp_helper() {
    assert!(needs_timestamp_helper(TypeKeyword::Timestamp));
    assert!(!needs_timestamp_helper(TypeKeyword::String));
    assert!(!needs_timestamp_helper(TypeKeyword::Float64));
}
