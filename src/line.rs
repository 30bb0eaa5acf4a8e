//! Rewriting one line of the diff tool's output into a `+`/`-` diff line.
use vstd::prelude::*;

use crate::ansi::{
    ansi_stripped, dim_code, green_code, lemma_code_views, red_code, strip_escapes, DIM, GREEN, RED,
};
use crate::text::{chars_of, is_white_space, is_white_space_char};

verus! {

/// The shape of a line, told by the color code right after its indentation.
#[derive(Clone, Copy, Debug, PartialEq, Eq, Structural)]
pub enum LineKind {
    /// A dim line number: an unchanged line shown for context.
    Context,
    /// A bright red line number: a removed line.
    Removed,
    /// A bright green line number: an added line.
    Added,
    /// Anything else: a header, a blank line, a line without a number.
    Plain,
}

/// The number of white-space characters that `s` starts with.
pub open spec fn indent_len(s: Seq<char>) -> nat
    decreases s.len(),
{
    if s.len() > 0 && is_white_space(s[0]) {
        1 + indent_len(s.drop_first())
    } else {
        0
    }
}

pub open spec fn has_prefix(s: Seq<char>, p: Seq<char>) -> bool {
    p.len() <= s.len() && s.take(p.len() as int) == p
}

/// `line` with its indentation taken off.
pub open spec fn trimmed(line: Seq<char>) -> Seq<char> {
    line.skip(indent_len(line) as int)
}

pub open spec fn kind_of(line: Seq<char>) -> LineKind {
    let t = trimmed(line);
    if has_prefix(t, dim_code()) {
        LineKind::Context
    } else if has_prefix(t, red_code()) {
        LineKind::Removed
    } else if has_prefix(t, green_code()) {
        LineKind::Added
    } else {
        LineKind::Plain
    }
}

/// The diff line that `line` becomes, before its line break.
pub open spec fn rendered(line: Seq<char>) -> Seq<char> {
    let indent = line.take(indent_len(line) as int);
    let t = trimmed(line);
    match kind_of(line) {
        LineKind::Context => seq![' '] + line,
        LineKind::Removed => indent + red_code() + seq!['-'] + t.skip(red_code().len() as int),
        LineKind::Added => green_code() + indent + seq!['+'] + t.skip(green_code().len() as int),
        LineKind::Plain => line,
    }
}

/// What is written for `line`: the rendered line and a line break, with the
/// escape sequences taken out of the whole when `strip_color` is set.
pub open spec fn emitted(line: Seq<char>, strip_color: bool) -> Seq<char> {
    let full = rendered(line) + seq!['\n'];
    if strip_color {
        ansi_stripped(full)
    } else {
        full
    }
}

proof fn lemma_indent_len(s: Seq<char>, k: int)
    requires
        0 <= k <= s.len(),
        forall|j: int| 0 <= j < k ==> is_white_space(#[trigger] s[j]),
        k == s.len() || !is_white_space(s[k]),
    ensures
        indent_len(s) == k,
    decreases k,
{
    if k > 0 {
        let d = s.drop_first();
        assert forall|j: int| 0 <= j < k - 1 implies is_white_space(#[trigger] d[j]) by {
            assert(d[j] == s[j + 1]);
        }
        if k < s.len() {
            assert(d[k - 1] == s[k]);
        }
        lemma_indent_len(d, k - 1);
    }
}

/// Where the indentation of `chars` ends.
fn indent_end(chars: &Vec<char>) -> (k: usize)
    ensures
        k == indent_len(chars@),
        k <= chars@.len(),
{
    let mut k: usize = 0;
    while k < chars.len() && is_white_space_char(chars[k])
        invariant
            k <= chars@.len(),
            forall|j: int| 0 <= j < k ==> is_white_space(#[trigger] chars@[j]),
        decreases chars@.len() - k,
    {
        k = k + 1;
    }
    proof {
        lemma_indent_len(chars@, k as int);
    }
    k
}

/// Whether the characters of `chars` from position `at` on begin with `p`.
fn has_prefix_at(chars: &Vec<char>, at: usize, p: &str) -> (r: bool)
    requires
        at <= chars@.len(),
    ensures
        r == has_prefix(chars@.skip(at as int), p@),
{
    let pc = chars_of(p);
    if pc.len() > chars.len() - at {
        return false;
    }
    let mut i: usize = 0;
    while i < pc.len()
        invariant
            i <= pc@.len(),
            pc@ == p@,
            at + pc@.len() <= chars@.len() <= usize::MAX,
            forall|j: int| 0 <= j < i ==> chars@[at + j] == pc@[j],
        decreases pc@.len() - i,
    {
        if chars[at + i] != pc[i] {
            assert(chars@.skip(at as int).take(pc@.len() as int)[i as int] != p@[i as int]);
            return false;
        }
        i = i + 1;
    }
    assert(chars@.skip(at as int).take(pc@.len() as int) =~= p@);
    true
}

/// The shape of the line whose characters are `chars`, and whose indentation
/// ends at `k`.
fn kind_at(chars: &Vec<char>, k: usize) -> (r: LineKind)
    requires
        k == indent_len(chars@),
        k <= chars@.len(),
    ensures
        r == kind_of(chars@),
{
    proof {
        lemma_code_views();
    }
    if has_prefix_at(chars, k, DIM) {
        LineKind::Context
    } else if has_prefix_at(chars, k, RED) {
        LineKind::Removed
    } else if has_prefix_at(chars, k, GREEN) {
        LineKind::Added
    } else {
        LineKind::Plain
    }
}

/// Tells a line of the diff tool's output by the color code after its
/// indentation.
pub fn classify_line(line: &str) -> (r: LineKind)
    ensures
        r == kind_of(line@),
{
    let chars = chars_of(line);
    let k = indent_end(&chars);
    kind_at(&chars, k)
}

/// Rewrites one line of the diff tool's output, without its line break.
///
/// A context line gets one leading space, so that its number lines up with
/// those of changed lines. A removed line gets a `-` right after its red code,
/// an added line has its green code moved before the indentation and a `+`
/// after it. Every other line is left as it is.
pub fn render_line(line: &str) -> (r: String)
    ensures
        r@ == rendered(line@),
        kind_of(line@) == LineKind::Context ==> r@ == seq![' '] + line@,
        kind_of(line@) == LineKind::Removed ==> r@ == line@.take(indent_len(line@) as int)
            + red_code() + seq!['-'] + trimmed(line@).skip(red_code().len() as int),
        kind_of(line@) == LineKind::Added ==> r@ == green_code() + line@.take(
            indent_len(line@) as int,
        ) + seq!['+'] + trimmed(line@).skip(green_code().len() as int),
        kind_of(line@) == LineKind::Plain ==> r@ == line@,
{
    proof {
        lemma_code_views();
        reveal_strlit(" ");
        reveal_strlit("-");
        reveal_strlit("+");
    }
    let chars = chars_of(line);
    let n = chars.len();
    let k = indent_end(&chars);
    let mut out = String::new();
    match kind_at(&chars, k) {
        LineKind::Context => {
            out.append(" ");
            out.append(line);
            assert(out@ =~= rendered(line@));
        },
        LineKind::Removed => {
            out.append(line.substring_char(0, k));
            out.append(RED);
            out.append("-");
            out.append(line.substring_char(k + 7, n));
            assert(trimmed(line@).skip(7) =~= line@.subrange(k + 7, n as int));
            assert(out@ =~= rendered(line@));
        },
        LineKind::Added => {
            out.append(GREEN);
            out.append(line.substring_char(0, k));
            out.append("+");
            out.append(line.substring_char(k + 7, n));
            assert(trimmed(line@).skip(7) =~= line@.subrange(k + 7, n as int));
            assert(out@ =~= rendered(line@));
        },
        LineKind::Plain => {
            out.append(line);
            assert(out@ =~= rendered(line@));
        },
    }
    out
}

/// The text written for one line of the diff tool's output: the rewritten
/// line and a line break. With `strip_color` set, the escape sequences are
/// taken out of that whole text, so the inserted markers stay.
pub fn process_line(line: &str, strip_color: bool) -> (r: String)
    ensures
        r@ == emitted(line@, strip_color),
        !strip_color ==> r@ == rendered(line@) + seq!['\n'],
        strip_color ==> r@ == ansi_stripped(rendered(line@) + seq!['\n']),
{
    proof {
        reveal_strlit("\n");
    }
    let mut out = render_line(line);
    out.append("\n");
    assert(out@ =~= rendered(line@) + seq!['\n']);
    if strip_color {
        strip_escapes(out.as_str())
    } else {
        out
    }
}

/// Colors are stripped from the finished line, markers included: what is
/// written with stripping is the stripped form of what is written without,
/// and that unstripped text carries the marker of its kind (a space in front
/// of a context line, `-` right after the red code, `+` right after the green
/// code and the indentation) and all of the line's text.
pub proof fn lemma_strip_keeps_marker(line: Seq<char>)
    ensures
        emitted(line, true) == ansi_stripped(emitted(line, false)),
        kind_of(line) == LineKind::Context ==> emitted(line, false) == seq![' '] + line + seq!['\n'],
        kind_of(line) == LineKind::Removed ==> emitted(line, false)[indent_len(line) + red_code().len() as int]
            == '-',
        kind_of(line) == LineKind::Added ==> emitted(line, false)[green_code().len() + indent_len(line) as int]
            == '+',
        kind_of(line) == LineKind::Plain ==> emitted(line, false) == line + seq!['\n'],
        kind_of(line) == LineKind::Removed || kind_of(line) == LineKind::Added
            ==> emitted(line, false).len() == line.len() + 2,
{
    let k = indent_len(line) as int;
    lemma_indent_bound(line);
    let t = trimmed(line);
    match kind_of(line) {
        LineKind::Removed => {
            assert((line.take(k) + red_code() + seq!['-'] + t.skip(7))[k + 7] == '-');
        },
        LineKind::Added => {
            assert((green_code() + line.take(k) + seq!['+'] + t.skip(7))[7 + k] == '+');
        },
        _ => {},
    }
}

proof fn lemma_indent_bound(s: Seq<char>)
    ensures
        indent_len(s) <= s.len(),
    decreases s.len(),
{
    if s.len() > 0 && is_white_space(s[0]) {
        lemma_indent_bound(s.drop_first());
    }
}

} // verus!
