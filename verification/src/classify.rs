//! The response classifier: what one line of the server means.

use crate::text::{
    chars_of, has_prefix, is_trimmed, is_whitespace, lemma_trim_end_takes, lemma_trim_of_trimmed,
    lemma_trim_start_skips, trim, trim_bounds,
};
use vstd::prelude::*;
use vstd::string::*;

verus! {

/// The kinds of response line, in the order in which their tokens are tried.
#[derive(Clone, Copy, Debug, PartialEq, Eq, Structural)]
pub enum LineKind {
    Okay,
    Error,
    Finished,
    Failed,
    Note,
    Unrecognized,
}

/// A classified response line. Each recognized kind carries the payload that
/// follows its token, `Unrecognized` the whole line; both trimmed.
#[derive(Clone, Debug, PartialEq, Eq)]
pub enum Classified {
    Okay(String),
    Error(String),
    Finished(String),
    Failed(String),
    Note(String),
    Unrecognized(String),
}

/// The token that opens a line of the given kind; empty for `Unrecognized`.
pub open spec fn token_of(kind: LineKind) -> Seq<char> {
    match kind {
        LineKind::Okay => seq!['O', 'K'],
        LineKind::Error => seq!['E', 'R', 'R', 'O', 'R'],
        LineKind::Finished => seq!['F', 'I', 'N', 'I', 'S', 'H', 'E', 'D'],
        LineKind::Failed => seq!['F', 'A', 'I', 'L', 'E', 'D'],
        LineKind::Note => seq!['N', 'O', 'T', 'E'],
        LineKind::Unrecognized => Seq::empty(),
    }
}

/// Whether the trimmed line begins with the token of `kind`.
pub open spec fn opens_with(line: Seq<char>, kind: LineKind) -> bool {
    token_of(kind).is_prefix_of(trim(line))
}

/// The kind of a line: the first kind, in the fixed order, whose token the
/// trimmed line begins with. Matching is case-sensitive.
pub open spec fn kind_of(line: Seq<char>) -> LineKind {
    if opens_with(line, LineKind::Okay) {
        LineKind::Okay
    } else if opens_with(line, LineKind::Error) {
        LineKind::Error
    } else if opens_with(line, LineKind::Finished) {
        LineKind::Finished
    } else if opens_with(line, LineKind::Failed) {
        LineKind::Failed
    } else if opens_with(line, LineKind::Note) {
        LineKind::Note
    } else {
        LineKind::Unrecognized
    }
}

/// The payload of a line: what follows the token of its kind in the trimmed
/// line, trimmed again. For an unrecognized line, the trimmed line.
pub open spec fn payload_of(line: Seq<char>) -> Seq<char> {
    trim(trim(line).skip(token_of(kind_of(line)).len() as int))
}

impl Classified {
    /// The kind of this classification.
    pub open spec fn kind(&self) -> LineKind {
        match self {
            Classified::Okay(_) => LineKind::Okay,
            Classified::Error(_) => LineKind::Error,
            Classified::Finished(_) => LineKind::Finished,
            Classified::Failed(_) => LineKind::Failed,
            Classified::Note(_) => LineKind::Note,
            Classified::Unrecognized(_) => LineKind::Unrecognized,
        }
    }

    /// The text that this classification carries.
    pub open spec fn text(&self) -> Seq<char> {
        match self {
            Classified::Okay(s) => s@,
            Classified::Error(s) => s@,
            Classified::Finished(s) => s@,
            Classified::Failed(s) => s@,
            Classified::Note(s) => s@,
            Classified::Unrecognized(s) => s@,
        }
    }

    /// Builds the classification of the given kind around `text`.
    pub fn of_kind(kind: LineKind, text: String) -> (c: Classified)
        ensures
            c.kind() == kind,
            c.text() == text@,
    {
        match kind {
            LineKind::Okay => Classified::Okay(text),
            LineKind::Error => Classified::Error(text),
            LineKind::Finished => Classified::Finished(text),
            LineKind::Failed => Classified::Failed(text),
            LineKind::Note => Classified::Note(text),
            LineKind::Unrecognized => Classified::Unrecognized(text),
        }
    }
}

impl LineKind {
    /// The token that opens a line of this kind; empty for `Unrecognized`.
    pub fn token(self) -> (t: &'static str)
        ensures
            t@ == token_of(self),
    {
        proof {
            reveal_strlit("OK");
            reveal_strlit("ERROR");
            reveal_strlit("FINISHED");
            reveal_strlit("FAILED");
            reveal_strlit("NOTE");
            reveal_strlit("");
        }
        let t = match self {
            LineKind::Okay => "OK",
            LineKind::Error => "ERROR",
            LineKind::Finished => "FINISHED",
            LineKind::Failed => "FAILED",
            LineKind::Note => "NOTE",
            LineKind::Unrecognized => "",
        };
        assert(t@ =~= token_of(self));
        t
    }
}

/// The kind of the trimmed line `v[a..b]`.
fn kind_in(v: &Vec<char>, a: usize, b: usize, Ghost(line): Ghost<Seq<char>>) -> (kind: LineKind)
    requires
        a <= b <= v.len(),
        v@.subrange(a as int, b as int) == trim(line),
    ensures
        kind == kind_of(line),
{
    if has_prefix(v, a, b, &chars_of(LineKind::Okay.token())) {
        LineKind::Okay
    } else if has_prefix(v, a, b, &chars_of(LineKind::Error.token())) {
        LineKind::Error
    } else if has_prefix(v, a, b, &chars_of(LineKind::Finished.token())) {
        LineKind::Finished
    } else if has_prefix(v, a, b, &chars_of(LineKind::Failed.token())) {
        LineKind::Failed
    } else if has_prefix(v, a, b, &chars_of(LineKind::Note.token())) {
        LineKind::Note
    } else {
        LineKind::Unrecognized
    }
}

/// Classifies one line of the server.
pub fn classify(line: &str) -> (c: Classified)
    ensures
        c.kind() == kind_of(line@),
        c.text() == payload_of(line@),
{
    let v = chars_of(line);
    assert(v@.subrange(0, v.len() as int) =~= line@);
    let (a, b) = trim_bounds(&v, 0, v.len());
    let kind = kind_in(&v, a, b, Ghost(line@));
    let n = chars_of(kind.token()).len();
    assert(n <= b - a);
    assert(v@.subrange(a + n, b as int) =~= trim(line@).skip(n as int));
    let (from, to) = trim_bounds(&v, a + n, b);
    let text = line.substring_char(from, to).to_owned();
    Classified::of_kind(kind, text)
}

/// The line of the given kind that carries `payload`: the token, one space,
/// and the payload.
pub open spec fn line_of(kind: LineKind, payload: Seq<char>) -> Seq<char> {
    token_of(kind) + seq![' '] + payload
}

/// A line made of a token, a space and a payload is classified as the kind of
/// the token, and gives the payload back as it is, where the payload is not
/// empty and neither begins nor ends with whitespace.
pub proof fn lemma_line_of_round_trip(kind: LineKind, payload: Seq<char>)
    requires
        kind != LineKind::Unrecognized,
        payload.len() > 0,
        is_trimmed(payload),
    ensures
        kind_of(line_of(kind, payload)) == kind,
        payload_of(line_of(kind, payload)) == payload,
{
    let token = token_of(kind);
    let line = line_of(kind, payload);
    assert(line.len() == token.len() + 1 + payload.len());
    assert(line.first() == token[0]);
    assert(line.last() == payload.last());
    assert(!is_whitespace(token[0]));
    lemma_trim_of_trimmed(line);
    assert(line.subrange(0, token.len() as int) =~= token);
    assert(line[0] == token[0]);
    assert(line[1] == token[1]);
    assert(kind_of(line) == kind);
    let rest = line.skip(token.len() as int);
    assert(rest =~= seq![' '] + payload);
    assert(rest[1] == payload[0]);
    lemma_trim_start_skips(rest, 1);
    assert(rest.skip(1) =~= payload);
    lemma_trim_end_takes(payload, payload.len() as int);
    assert(payload.take(payload.len() as int) =~= payload);
}

} // verus!
