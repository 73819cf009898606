//! Indentation-aware string builder for emitting Python source code.
//!
//! Uses 4-space indentation; blocks end implicitly when the indentation
//! decreases, so `dedent` writes nothing.

use vstd::prelude::*;
use vstd::string::StrSliceExecFns;
use vstd::string::StringExecFns;

verus! {

/// Four spaces for each indentation level.
pub open spec fn indent_text(d: nat) -> Seq<char>
    decreases d,
{
    if d == 0 {
        Seq::empty()
    } else {
        indent_text((d - 1) as nat) + "    "@
    }
}

/// The depth one level out, clamped at zero.
pub open spec fn dsub(d: nat) -> nat {
    if d == 0 {
        0
    } else {
        (d - 1) as nat
    }
}

/// One indented line of text.
pub open spec fn line_text(d: nat, t: Seq<char>) -> Seq<char> {
    indent_text(d) + t + "\n"@
}

/// What `open` appends: the block head followed by a colon.
pub open spec fn open_text(d: nat, t: Seq<char>) -> Seq<char> {
    indent_text(d) + t + ":\n"@
}

/// An indented line buffer for colon-block source text.
pub struct CodeWriter {
    pub buf: String,
    pub depth: usize,
}

impl CodeWriter {
    /// An empty writer at depth zero.
    pub fn new() -> (w: CodeWriter)
        ensures
            w.buf@ == Seq::<char>::empty(),
            w.depth == 0,
    {
        CodeWriter { buf: String::new(), depth: 0 }
    }

    /// Append the current indentation to the buffer.
    fn write_indent(&mut self)
        ensures
            final(self).buf@ == old(self).buf@ + indent_text(old(self).depth as nat),
            final(self).depth == old(self).depth,
    {
        let d = self.depth;
        let mut i: usize = 0;
        while i < d
            invariant
                d == self.depth,
                0 <= i <= d,
                self.buf@ == old(self).buf@ + indent_text(i as nat),
                self.depth == old(self).depth,
            decreases d - i,
        {
            self.buf.append("    ");
            i += 1;
        }
    }

    /// Write a line at the current indentation level.
    pub fn line(&mut self, text: &str)
        ensures
            final(self).buf@ == old(self).buf@ + line_text(old(self).depth as nat, text@),
            final(self).depth == old(self).depth,
    {
        self.write_indent();
        self.buf.append(text);
        self.buf.append("\n");
    }

    /// Open a block: write `text:` and increase the indentation.  Text should
    /// be an `if`, `elif`, `else`, `for`, `def`, or similar head.
    pub fn open(&mut self, text: &str)
        requires
            old(self).depth < usize::MAX,
        ensures
            final(self).buf@ == old(self).buf@ + open_text(old(self).depth as nat, text@),
            final(self).depth == old(self).depth + 1,
    {
        self.write_indent();
        self.buf.append(text);
        self.buf.append(":\n");
        self.depth += 1;
    }

    /// Decrease the indentation: a Python block ends implicitly.
    pub fn dedent(&mut self)
        ensures
            final(self).buf@ == old(self).buf@,
            final(self).depth == dsub(old(self).depth as nat),
    {
        if self.depth > 0 {
            self.depth = self.depth - 1;
        }
    }

    /// Close with a continuation: dedent, write `text:`, indent.  Used for
    /// `elif`, `else`, `except`, and the like.
    pub fn close_open(&mut self, text: &str)
        ensures
            final(self).depth == dsub(old(self).depth as nat) + 1,
            final(self).buf@ == old(self).buf@ + open_text(dsub(old(self).depth as nat), text@),
    {
        if self.depth > 0 {
            self.depth = self.depth - 1;
        }
        self.write_indent();
        self.buf.append(text);
        self.buf.append(":\n");
        self.depth += 1;
    }

    /// Consume the writer and return the built text.
    pub fn finish(self) -> (r: String)
        ensures
            r@ == self.buf@,
    {
        self.buf
    }
}

/// The escape of one character inside a Python double-quoted string literal.
pub open spec fn escape_py_char(c: char) -> Seq<char> {
    if c == '\\' {
        "\\\\"@
    } else if c == '"' {
        "\\\""@
    } else if c == '\n' {
        "\\n"@
    } else if c == '\r' {
        "\\r"@
    } else if c == '\t' {
        "\\t"@
    } else {
        seq![c]
    }
}

/// The escape of a whole string for a Python double-quoted literal.
pub open spec fn escape_py_chars(s: Seq<char>) -> Seq<char>
    decreases s.len(),
{
    if s.len() == 0 {
        Seq::empty()
    } else {
        escape_py_chars(s.drop_last()) + escape_py_char(s.last())
    }
}

/// Escape a string for embedding in a Python double-quoted string literal.
pub fn escape_py(s: &str) -> (r: String)
    ensures
        r@ == escape_py_chars(s@),
{
    let n = s.unicode_len();
    let mut out = String::new();
    let mut i: usize = 0;
    while i < n
        invariant
            n == s@.len(),
            0 <= i <= n,
            out@ == escape_py_chars(s@.take(i as int)),
        decreases n - i,
    {
        let c = s.get_char(i);
        if c == '\\' {
            out.append("\\\\");
        } else if c == '"' {
            out.append("\\\"");
        } else if c == '\n' {
            out.append("\\n");
        } else if c == '\r' {
            out.append("\\r");
        } else if c == '\t' {
            out.append("\\t");
        } else {
            let piece = s.substring_char(i, i + 1);
            out.append(piece);
            proof {
                assert(piece@ =~= seq![s@[i as int]]);
            }
        }
        proof {
            assert(s@.take(i as int + 1).drop_last() =~= s@.take(i as int));
            assert(s@.take(i as int + 1).last() == s@[i as int]);
        }
        i += 1;
    }
    proof {
        assert(s@.take(n as int) =~= s@);
    }
    out
}

} // verus!
