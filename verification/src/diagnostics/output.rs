//! The diagnostics renderer: formats a diagnostic against the source
//! buffer as a three-line annotated snippet — the line excerpt with up to
//! eight characters of context on each side of the span, a caret line
//! aligned under the span, and the message with its `(line, column)`
//! position.

use vstd::prelude::*;
use vstd::string::StrSliceExecFns;
use vstd::string::StringExecFns;

use crate::code::source_code::{
    lemma_line_round_trip, spec_line_index, spec_line_start, spec_line_text, SourceCode,
};
use crate::diagnostics::{DiagModel, Diagnostic};
use crate::syntax_tree::{dec_digits, usize_to_string};

verus! {

/// How many characters of context appear on each side of the span, and the
/// widest caret-line indent.
pub const PREFIX_LENGTH: usize = 8;

/// `n` copies of one character.
pub open spec fn repeat_char(c: char, n: int) -> Seq<char>
    decreases n,
{
    if n <= 0 {
        Seq::empty()
    } else {
        repeat_char(c, n - 1).push(c)
    }
}

/// The annotated three-line rendering of one diagnostic.
pub open spec fn render_diagnostic(text: Seq<char>, d: DiagModel) -> Seq<char> {
    let line_idx = spec_line_index(text, d.span.start);
    let line = spec_line_text(text, line_idx);
    let column = d.span.start - spec_line_start(text, line_idx);
    let span_len = d.span.end - d.span.start;
    let prefix_start = if column > 8 {
        column - 8
    } else {
        0
    };
    let span_take = if span_len > line.len() - column {
        line.len() - column
    } else {
        span_len
    };
    let suffix_start = column + span_take;
    let suffix_end = if line.len() - suffix_start > 8 {
        suffix_start + 8
    } else {
        line.len() as int
    };
    let indent = if column > 8 {
        8
    } else {
        column
    };
    line.subrange(prefix_start, column) + line.subrange(column, suffix_start) + line.subrange(
        suffix_start,
        suffix_end,
    ) + "\n"@ + repeat_char(' ', indent) + repeat_char('^', span_len) + "\n"@ + repeat_char(
        ' ',
        indent,
    ) + d.message + " at ("@ + dec_digits(line_idx) + ","@ + dec_digits(column) + ")"@
}

/// Appends `n` spaces.
fn push_spaces(s: &mut String, n: usize)
    ensures
        final(s)@ == old(s)@ + repeat_char(' ', n as int),
{
    let mut i: usize = 0;
    proof {
        assert(s@ =~= old(s)@ + repeat_char(' ', 0));
    }
    while i < n
        invariant
            i <= n,
            s@ == old(s)@ + repeat_char(' ', i as int),
        decreases n - i,
    {
        s.append(" ");
        i = i + 1;
        proof {
            reveal_strlit(" ");
            assert(s@ =~= old(s)@ + repeat_char(' ', i as int));
        }
    }
}

/// Appends `n` carets.
fn push_carets(s: &mut String, n: usize)
    ensures
        final(s)@ == old(s)@ + repeat_char('^', n as int),
{
    let mut i: usize = 0;
    proof {
        assert(s@ =~= old(s)@ + repeat_char('^', 0));
    }
    while i < n
        invariant
            i <= n,
            s@ == old(s)@ + repeat_char('^', i as int),
        decreases n - i,
    {
        s.append("^");
        i = i + 1;
        proof {
            reveal_strlit("^");
            assert(s@ =~= old(s)@ + repeat_char('^', i as int));
        }
    }
}

/// Renders diagnostics against the source buffer they point into.
pub struct DiagnosticsPrinter<'a> {
    code: &'a SourceCode,
    diagnostics: &'a [Diagnostic],
}

impl<'a> DiagnosticsPrinter<'a> {
    /// The program text the diagnostics point into.
    pub closed spec fn code_text(&self) -> Seq<char> {
        self.code@
    }

    /// The diagnostics to render.
    pub closed spec fn spec_diagnostics(&self) -> Seq<Diagnostic> {
        self.diagnostics@
    }

    pub fn new(code: &'a SourceCode, diagnostics: &'a [Diagnostic]) -> (r: Self)
        ensures
            r.code_text() == code@,
            r.spec_diagnostics() == diagnostics@,
    {
        Self { code, diagnostics }
    }

    /// How many diagnostics there are to render.
    pub fn count(&self) -> (r: usize)
        ensures
            r == self.spec_diagnostics().len(),
    {
        self.diagnostics.len()
    }

    /// The diagnostic at `index`.
    pub fn diagnostic_at(&self, index: usize) -> (r: &Diagnostic)
        requires
            index < self.spec_diagnostics().len(),
        ensures
            *r == self.spec_diagnostics()[index as int],
    {
        &self.diagnostics[index]
    }

    /// The context excerpt around the span on its line: the text before the
    /// span, the span itself, and the text after it, each clipped to the
    /// line and to the fixed context width.
    pub fn get_text_spans(&self, diagnostic: &Diagnostic, line: &str, column: usize) -> (r: (
        String,
        String,
        String,
    ))
        requires
            column <= line@.len(),
            diagnostic@.span.start <= diagnostic@.span.end,
        ensures
            ({
                let span_len = diagnostic@.span.end - diagnostic@.span.start;
                let prefix_start = if column > 8 {
                    column - 8
                } else {
                    0
                };
                let span_take = if span_len > line@.len() - column {
                    line@.len() - column
                } else {
                    span_len
                };
                let suffix_start = column + span_take;
                let suffix_end = if line@.len() - suffix_start > 8 {
                    suffix_start + 8
                } else {
                    line@.len() as int
                };
                &&& r.0@ == line@.subrange(prefix_start as int, column as int)
                &&& r.1@ == line@.subrange(column as int, suffix_start)
                &&& r.2@ == line@.subrange(suffix_start, suffix_end)
            }),
    {
        let line_len = line.unicode_len();
        let span_length = diagnostic.span.length();
        let prefix_start = if column > PREFIX_LENGTH {
            column - PREFIX_LENGTH
        } else {
            0
        };
        let span_take = if span_length > line_len - column {
            line_len - column
        } else {
            span_length
        };
        let suffix_start = column + span_take;
        let suffix_end = if line_len - suffix_start > PREFIX_LENGTH {
            suffix_start + PREFIX_LENGTH
        } else {
            line_len
        };
        let prefix = String::from_str(line.substring_char(prefix_start, column));
        let span = String::from_str(line.substring_char(column, suffix_start));
        let suffix = String::from_str(line.substring_char(suffix_start, suffix_end));
        (prefix, span, suffix)
    }

    /// The caret line: the span's length in carets, indented under the
    /// span's start column.
    pub fn format_arrow(diagnostic: &Diagnostic, indent: usize) -> (r: String)
        requires
            diagnostic@.span.start <= diagnostic@.span.end,
        ensures
            r@ == repeat_char(' ', indent as int) + repeat_char(
                '^',
                diagnostic@.span.end - diagnostic@.span.start,
            ),
    {
        let mut arrow_pointers = String::new();
        push_spaces(&mut arrow_pointers, indent);
        push_carets(&mut arrow_pointers, diagnostic.span.length());
        proof {
            assert(arrow_pointers@ =~= repeat_char(' ', indent as int) + repeat_char(
                '^',
                diagnostic@.span.end - diagnostic@.span.start,
            ));
        }
        arrow_pointers
    }

    /// The message line: the message, indented, with its `(line, column)`
    /// position appended.
    pub fn format_error_message(diagnostic: &Diagnostic, indent: usize, column: usize, line: usize)
        -> (r: String)
        ensures
            r@ == repeat_char(' ', indent as int) + diagnostic@.message + " at ("@ + dec_digits(
                line as int,
            ) + ","@ + dec_digits(column as int) + ")"@,
    {
        let mut message = String::new();
        push_spaces(&mut message, indent);
        message.append(diagnostic.message.as_str());
        message.append(" at (");
        let line_text = usize_to_string(line);
        message.append(line_text.as_str());
        message.append(",");
        let column_text = usize_to_string(column);
        message.append(column_text.as_str());
        message.append(")");
        proof {
            assert(message@ =~= repeat_char(' ', indent as int) + diagnostic@.message + " at ("@
                + dec_digits(line as int) + ","@ + dec_digits(column as int) + ")"@);
        }
        message
    }

    /// Renders one diagnostic as its three-line annotated snippet.
    pub fn stringify_diagnostic(&self, diagnostic: &Diagnostic) -> (r: String)
        requires
            diagnostic@.span.start <= diagnostic@.span.end,
            diagnostic@.span.start <= self.code_text().len(),
        ensures
            r@ == render_diagnostic(self.code_text(), diagnostic@),
    {
        let ghost text = self.code_text();
        proof {
            lemma_line_round_trip(text, diagnostic@.span.start as int);
        }
        let line_index = self.code.line_index(diagnostic.span.start);
        let line = self.code.get_line(line_index);
        let line_start = self.code.line_start(line_index);
        let column = diagnostic.span.start - line_start;
        let (prefix, span, suffix) = self.get_text_spans(diagnostic, line, column);
        let indent = if column > PREFIX_LENGTH {
            PREFIX_LENGTH
        } else {
            column
        };
        let arrow_pointers = DiagnosticsPrinter::format_arrow(diagnostic, indent);
        let error_msg = DiagnosticsPrinter::format_error_message(
            diagnostic,
            indent,
            column,
            line_index,
        );
        let mut result = prefix;
        result.append(span.as_str());
        result.append(suffix.as_str());
        result.append("\n");
        result.append(arrow_pointers.as_str());
        result.append("\n");
        result.append(error_msg.as_str());
        proof {
            assert(result@ =~= render_diagnostic(text, diagnostic@));
        }
        result
    }
}

} // verus!
