use jtd_codegen::emit_py::escape_py;
use jtd_codegen::emit_py::CodeWriter;

#[test]
fn py_writer_test_line() {
    let mut w = CodeWriter::new();
    w.line("x = 1");
    assert_eq!(w.finish(), "x = 1\n");
}

#[test]
fn test_open_dedent() {
    let mut w = CodeWriter::new();
    w.open("if True");
    w.line("x()");
    w.dedent();
    assert_eq!(w.finish(), "if True:\n    x()\n");
}

#[test]
fn py_writer_test_close_open() {
    let mut w = CodeWriter::new();
    w.open("if a");
    w.line("x()");
    w.close_open("else");
    w.line("y()");
    w.dedent();
    assert_eq!(w.finish(), "if a:\n    x()\nelse:\n    y()\n");
}

#[test]
fn writer_test_nested() {
    let mut w = CodeWriter::new();
    w.open("def f()");
    w.open("if True");
    w.line("return");
    w.dedent();
    w.dedent();
    assert_eq!(w.finish(), "def f():\n    if True:\n        return\n");
}

#[test]
fn test_elif() {
    let mut w = CodeWriter::new();
    w.open("if a");
    w.line("x()");
    w.close_open("elif b");
    w.line("y()");
    w.close_open("else");
    w.line("z()");
    w.dedent();
    assert_eq!(
        w.finish(),
        "if a:\n    x()\nelif b:\n    y()\nelse:\n    z()\n"
    );
}

#[test]
fn test_escape_py() {
    assert_eq!(escape_py("hello"), "hello");
    assert_eq!(escape_py("a\"b"), "a\\\"b");
    assert_eq!(escape_py("a\\b"), "a\\\\b");
    assert_eq!(escape_py("a\nb"), "a\\nb");
    assert_eq!(escape_py("a\tb"), "a\\tb");
}
