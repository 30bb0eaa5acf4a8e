//! The three color codes that the diff tool puts at the start of a line
//! number, and removal of escape sequences.
use vstd::prelude::*;

verus! {

/// Dim: the line number of an unchanged context line.
pub const DIM: &'static str = "\u{1b}[2m";

/// Bright red: the line number of a removed line.
pub const RED: &'static str = "\u{1b}[91;1m";

/// Bright green: the line number of an added line.
pub const GREEN: &'static str = "\u{1b}[92;1m";

pub open spec fn dim_code() -> Seq<char> {
    seq!['\u{1b}', '[', '2', 'm']
}

pub open spec fn red_code() -> Seq<char> {
    seq!['\u{1b}', '[', '9', '1', ';', '1', 'm']
}

pub open spec fn green_code() -> Seq<char> {
    seq!['\u{1b}', '[', '9', '2', ';', '1', 'm']
}

pub proof fn lemma_code_views()
    ensures
        DIM@ == dim_code(),
        RED@ == red_code(),
        GREEN@ == green_code(),
{
    reveal_strlit("\u{1b}[2m");
    reveal_strlit("\u{1b}[91;1m");
    reveal_strlit("\u{1b}[92;1m");
    assert(DIM@ =~= dim_code());
    assert(RED@ =~= red_code());
    assert(GREEN@ =~= green_code());
}

/// What remains of `s` once every ANSI escape sequence is taken out.
pub uninterp spec fn ansi_stripped(s: Seq<char>) -> Seq<char>;

/// Relies on `strip_ansi_escapes::strip_str`: the text with its escape
/// sequences removed, which depends on the text alone.
#[verifier::external_body]
pub(crate) fn strip_escapes(s: &str) -> (r: String)
    ensures
        r@ == ansi_stripped(s@),
{
    strip_ansi_escapes::strip_str(s)
}

} // verus!
