use jtd_codegen::emit_lua::escape_lua;
use jtd_codegen::emit_lua::CodeWriter;
use jtd_codegen::emit_lua::EmitContext;

#[test]
fn writer_test_line() {
    let mut w = CodeWriter::new();
    w.line("local x = 1");
    assert_eq!(w.finish(), "local x = 1\n");
}

#[test]
fn writer_test_open_close() {
    let mut w = CodeWriter::new();
    w.open("if true then");
    w.line("x()");
    w.close("end");
    assert_eq!(w.finish(), "if true then\n  x()\nend\n");
}

#[test]
fn writer_test_close_open() {
    let mut w = CodeWriter::new();
    w.open("if a then");
    w.line("x()");
    w.close_open("else");
    w.line("y()");
    w.close("end");
    assert_eq!(w.finish(), "if a then\n  x()\nelse\n  y()\nend\n");
}

#[test]
fn test_escape_lua() {
    assert_eq!(escape_lua("hello"), "hello");
    assert_eq!(escape_lua("a\"b"), "a\\\"b");
    assert_eq!(escape_lua("a\\b"), "a\\\\b");
    assert_eq!(escape_lua("a\nb"), "a\\nb");
}

#[test]
fn test_lua_element_descent_is_zero_based() {
    // Lua arrays are one-based; the emitted instance path subtracts one.
    let ctx = EmitContext::definition();
    let child = ctx.element("i");
    assert_eq!(child.val, "v[i]");
    assert_eq!(child.ip, "p .. \"/\" .. (i - 1)");
    assert_eq!(child.sp, "sp .. \"/elements\"");
}

#[test]
fn test_lua_push_error() {
    let ctx = EmitContext::root();
    let stmt = ctx.push_error("/type");
    assert_eq!(
        stmt,
        "table.insert(e, {instancePath = \"\", schemaPath = \"\" .. \"/type\"})"
    );
}

#[test]
fn test_lua_push_error_dynamic() {
    let ctx = EmitContext::definition();
    let stmt = ctx.push_error_dynamic("k", "/values");
    assert_eq!(
        stmt,
        "table.insert(e, {instancePath = p .. k, schemaPath = sp .. \"/values\"})"
    );
}

#[test]
fn test_lua_required_prop_descent() {
    let ctx = EmitContext::root();
    let child = ctx.required_prop("name");
    assert_eq!(child.val, "instance[\"name\"]");
    assert_eq!(child.ip, "\"\" .. \"/name\"");
    assert_eq!(child.sp, "\"\" .. \"/properties/name\"");
}
