//! Source-level error reports.
//!
//! An error is shown with the source range it is about, a label, and the path of the file.
use crate::text::{
    byte_offset, cat3, char_width, lemma_byte_offset_monotone, lemma_byte_offset_step, to_chars,
};
use crate::token::Span;
use vstd::prelude::*;

verus! {

/// Whether a byte offset is one where a character of the source starts, or its end.
pub open spec fn char_boundary(source: Seq<char>, at: nat) -> bool {
    exists|i: int| 0 <= i <= source.len() && #[trigger] byte_offset(source, i) == at
}

/// Whether a span is a range of whole characters of the source.
pub open spec fn span_in(source: Seq<char>, span: Span) -> bool {
    span.lo <= span.hi && char_boundary(source, span.lo as nat) && char_boundary(
        source,
        span.hi as nat,
    )
}

/// The number of line ends among the first `n` characters that start before the byte `at`.
pub open spec fn line_ends(source: Seq<char>, n: int, at: nat) -> nat
    decreases n,
{
    if n <= 0 {
        0
    } else if source[n - 1] == '\n' && byte_offset(source, n - 1) < at {
        line_ends(source, n - 1, at) + 1
    } else {
        line_ends(source, n - 1, at)
    }
}

/// The line that the byte `at` is in, counted from one as far as a `usize` reaches.
pub open spec fn line_of(source: Seq<char>, at: nat) -> usize {
    let n = line_ends(source, source.len() as int, at);
    if n < usize::MAX {
        (n + 1) as usize
    } else {
        usize::MAX
    }
}

proof fn lemma_no_more_lines(source: Seq<char>, n: int, m: int, at: nat)
    requires
        0 <= n <= m <= source.len(),
        byte_offset(source, n) >= at,
    ensures
        line_ends(source, m, at) == line_ends(source, n, at),
    decreases m - n,
{
    if n < m {
        lemma_no_more_lines(source, n, m - 1, at);
        lemma_byte_offset_monotone(source, n, m - 1);
    }
}

/// What the renderer makes of a report on a range of bytes of a source.
pub uninterp spec fn rendered(
    source: Seq<char>,
    path: Seq<char>,
    line_start: usize,
    lo: usize,
    hi: usize,
    title: Seq<char>,
    label: Seq<char>,
) -> Seq<char>;

/// Renders a report.
///
/// This calls `Renderer::render` of annotate-snippets, with terminal styles and Unicode decoration,
/// on one group: an error title, and a snippet of the whole source with one primary annotation.
/// The text depends on the arguments alone; it is not stated, it has a name. The renderer panics on
/// a range that is not one of whole characters of the source, which is left out.
#[verifier::external_body]
fn render_report(
    source: &str,
    path: &str,
    line_start: usize,
    lo: usize,
    hi: usize,
    title: &str,
    label: &str,
) -> (r: String)
    requires
        lo <= hi,
        char_boundary(source@, lo as nat),
        char_boundary(source@, hi as nat),
        line_start <= source@.len() + 1,
    ensures
        r@ == rendered(source@, path@, line_start, lo, hi, title@, label@),
{
    let note = annotate_snippets::AnnotationKind::Primary.span(lo..hi).label(label);
    let snippet = annotate_snippets::Snippet::source(source).line_start(line_start).fold(false).path(
        path,
    ).annotation(note);
    let report = annotate_snippets::Level::ERROR.primary_title(title).element(snippet);
    annotate_snippets::Renderer::styled().decor_style(
        annotate_snippets::renderer::DecorStyle::Unicode,
    ).render(&[report])
}

/// The line that the byte `at` is in, counted from one.
pub fn line_number(source: &str, at: usize) -> (r: usize)
    ensures
        r == line_of(source@, at as nat),
        r <= source@.len() + 1,
{
    let chars = to_chars(source);
    let n: usize = source.as_bytes().len();
    let mut i: usize = 0;
    let mut pos: usize = 0;
    let mut lines: usize = 0;
    proof {
        assert(source@.take(0) =~= Seq::empty());
        assert(byte_offset(source@, 0) == 0);
        assert(source@.take(source@.len() as int) =~= source@);
        assert(byte_offset(source@, source@.len() as int) == n);
    }
    while i < chars.len() && pos < at
        invariant
            i <= chars@.len(),
            chars@ == source@,
            pos == byte_offset(source@, i as int),
            byte_offset(source@, source@.len() as int) == n,
            lines == line_ends(source@, i as int, at as nat),
            lines <= i,
        decreases chars@.len() - i,
    {
        proof {
            lemma_byte_offset_step(source@, i as int);
            lemma_byte_offset_monotone(source@, i + 1, source@.len() as int);
        }
        if chars[i] == '\n' {
            lines += 1;
        }
        pos += char_width(chars[i]);
        i += 1;
    }
    proof {
        if i < chars@.len() {
            lemma_no_more_lines(source@, i as int, source@.len() as int, at as nat);
        }
    }
    if lines == usize::MAX {
        lines
    } else {
        lines + 1
    }
}

/// A source-level error with the highlighted span, as it is shown to the user. The lines of the source
/// are numbered from one, so that the span is shown in the line that [`line_number`] gives for it.
pub fn render_error(source: &str, path: &str, span: Span, title: &str, label: &str) -> (r: String)
    requires
        span_in(source@, span),
    ensures
        r@ == rendered(
            source@,
            path@,
            1,
            span.lo,
            span.hi,
            title@,
            label@,
        ),
{
    render_report(source, path, 1, span.lo, span.hi, title, label)
}

/// An error with an optional span, as it is shown to the user: without a span, the title and the
/// label are all there is.
pub fn render_error_opt(
    source: &str,
    path: &str,
    span: Option<Span>,
    title: &str,
    label: &str,
) -> (r: String)
    requires
        span matches Some(s) ==> span_in(source@, s),
    ensures
        match span {
            Some(s) => r@ == rendered(
                source@,
                path@,
                1,
                s.lo,
                s.hi,
                title@,
                label@,
            ),
            None => r@ == title@ + ": "@ + label@,
        },
{
    match span {
        Some(s) => render_error(source, path, s, title, label),
        None => cat3(title, ": ", label),
    }
}

} // verus!
