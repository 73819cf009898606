//! Indentation-aware string builder for emitting JS source code.

use vstd::prelude::*;
use vstd::string::StrSliceExecFns;
use vstd::string::StringExecFns;

verus! {

/// Two spaces for each indentation level.
pub open spec fn indent_text(d: nat) -> Seq<char>
    decreases d,
{
    if d == 0 {
        Seq::empty()
    } else {
        indent_text((d - 1) as nat) + "  "@
    }
}

/// The depth one level out, clamped at zero.
pub open spec fn dsub(d: nat) -> nat {
    if d == 0 {
        0
    } else {
        (d - 1) as nat
    }
}

/// What `line` appends: indentation, the text, a newline.
pub open spec fn line_text(d: nat, t: Seq<char>) -> Seq<char> {
    indent_text(d) + t + "\n"@
}

/// What `open` appends: indentation, the text, ` {` and a newline.
pub open spec fn open_text(d: nat, t: Seq<char>) -> Seq<char> {
    indent_text(d) + t + " {\n"@
}

/// What `close` appends at its decremented depth.
pub open spec fn close_text(d: nat) -> Seq<char> {
    indent_text(d) + "}\n"@
}

/// What `close_open` appends at its decremented depth.
pub open spec fn close_open_text(d: nat, t: Seq<char>) -> Seq<char> {
    indent_text(d) + "} "@ + t + " {\n"@
}

/// An indented line buffer for brace-block source text.
pub struct CodeWriter {
    pub buf: String,
    pub depth: usize,
}

impl CodeWriter {
    /// An empty writer at depth zero.
    pub fn new() -> (w: CodeWriter)
        ensures
            w.buf@ == Seq::<char>::empty(),
            w.depth == 0,
    {
        CodeWriter { buf: String::new(), depth: 0 }
    }

    /// Append the current indentation to the buffer.
    fn write_indent(&mut self)
        ensures
            final(self).buf@ == old(self).buf@ + indent_text(old(self).depth as nat),
            final(self).depth == old(self).depth,
    {
        let d = self.depth;
        let mut i: usize = 0;
        while i < d
            invariant
                d == self.depth,
                0 <= i <= d,
                self.buf@ == old(self).buf@ + indent_text(i as nat),
                self.depth == old(self).depth,
            decreases d - i,
        {
            self.buf.append("  ");
            i += 1;
        }
    }

    /// Write a line at the current indentation level.
    pub fn line(&mut self, text: &str)
        ensures
            final(self).buf@ == old(self).buf@ + line_text(old(self).depth as nat, text@),
            final(self).depth == old(self).depth,
    {
        self.write_indent();
        self.buf.append(text);
        self.buf.append("\n");
    }

    /// Open a block: write `text {` and increase the indentation.
    pub fn open(&mut self, text: &str)
        requires
            old(self).depth < usize::MAX,
        ensures
            final(self).buf@ == old(self).buf@ + open_text(old(self).depth as nat, text@),
            final(self).depth == old(self).depth + 1,
    {
        self.write_indent();
        self.buf.append(text);
        self.buf.append(" {\n");
        self.depth += 1;
    }

    /// Close a block: decrease the indentation (clamped at zero) and write `}`.
    pub fn close(&mut self)
        ensures
            final(self).depth == dsub(old(self).depth as nat),
            final(self).buf@ == old(self).buf@ + close_text(dsub(old(self).depth as nat)),
    {
        if self.depth > 0 {
            self.depth = self.depth - 1;
        }
        self.write_indent();
        self.buf.append("}\n");
    }

    /// Close with a continuation: `} else {`, `} else if (...) {`, and the like.
    pub fn close_open(&mut self, text: &str)
        ensures
            final(self).depth == dsub(old(self).depth as nat) + 1,
            final(self).buf@ == old(self).buf@ + close_open_text(
                dsub(old(self).depth as nat),
                text@,
            ),
    {
        if self.depth > 0 {
            self.depth = self.depth - 1;
        }
        self.write_indent();
        self.buf.append("} ");
        self.buf.append(text);
        self.buf.append(" {\n");
        self.depth += 1;
    }

    /// The current indentation depth.
    pub fn depth(&self) -> (d: usize)
        ensures
            d == self.depth,
    {
        self.depth
    }

    /// Consume the writer and return the built text.
    pub fn finish(self) -> (r: String)
        ensures
            r@ == self.buf@,
    {
        self.buf
    }
}

/// The escape of one character inside a JS double-quoted string literal.
pub open spec fn escape_js_char(c: char) -> Seq<char> {
    if c == '\\' {
        "\\\\"@
    } else if c == '"' {
        "\\\""@
    } else if c == '\n' {
        "\\n"@
    } else if c == '\r' {
        "\\r"@
    } else {
        seq![c]
    }
}

/// The escape of a whole string for a JS double-quoted literal.
pub open spec fn escape_js_chars(s: Seq<char>) -> Seq<char>
    decreases s.len(),
{
    if s.len() == 0 {
        Seq::empty()
    } else {
        escape_js_chars(s.drop_last()) + escape_js_char(s.last())
    }
}

/// Escape a string for embedding in a JS double-quoted string literal.
pub fn escape_js(s: &str) -> (r: String)
    ensures
        r@ == escape_js_chars(s@),
{
    let n = s.unicode_len();
    let mut out = String::new();
    let mut i: usize = 0;
    while i < n
        invariant
            n == s@.len(),
            0 <= i <= n,
            out@ == escape_js_chars(s@.take(i as int)),
        decreases n - i,
    {
        let c = s.get_char(i);
        if c == '\\' {
            out.append("\\\\");
        } else if c == '"' {
            out.append("\\\"");
        } else if c == '\n' {
            out.append("\\n");
        } else if c == '\r' {
            out.append("\\r");
        } else {
            let piece = s.substring_char(i, i + 1);
            out.append(piece);
            proof {
                assert(piece@ =~= seq![s@[i as int]]);
            }
        }
        proof {
            assert(s@.take(i as int + 1).drop_last() =~= s@.take(i as int));
            assert(s@.take(i as int + 1).last() == s@[i as int]);
        }
        i += 1;
    }
    proof {
        assert(s@.take(n as int) =~= s@);
    }
    out
}

} // verus!
