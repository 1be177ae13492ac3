//! Texts for the operator: the progress message and the first lines of a
//! payload.

use vstd::prelude::*;
use crate::data::TestResult;
use crate::text::{
    append_str, chars_of, matches_at, occurs_at, pieces_view, same_text, slice_of, split,
    split_chars, string_of,
};

verus! {

/// Texts shown while a request is under way.
pub struct ProgressDisplay;

/// A piece that a line feed ended, as a line: without the carriage return
/// that may stand before the line feed.
pub open spec fn line_of(piece: Seq<char>) -> Seq<char> {
    if piece.len() > 0 && piece[piece.len() - 1] == '\r' {
        piece.subrange(0, piece.len() - 1)
    } else {
        piece
    }
}

/// The lines of `s`. A line ends at a line feed, or at a carriage return
/// and a line feed; what follows the last line feed is a line of its own
/// unless it is empty.
pub open spec fn lines_of(s: Seq<char>) -> Seq<Seq<char>> {
    let pieces = split(s, '\n');
    let ended = Seq::new((pieces.len() - 1) as nat, |i: int| line_of(pieces[i]));
    if pieces.len() > 0 && pieces[pieces.len() - 1].len() > 0 {
        ended.push(pieces[pieces.len() - 1])
    } else {
        ended
    }
}

/// The first `n` lines of `s`, or all of them where there are fewer.
pub open spec fn first_lines(s: Seq<char>, n: usize) -> Seq<Seq<char>> {
    if n < lines_of(s).len() {
        lines_of(s).subrange(0, n as int)
    } else {
        lines_of(s)
    }
}

/// The views of a list of strings.
pub open spec fn texts_view(v: Seq<String>) -> Seq<Seq<char>> {
    Seq::new(v.len(), |i: int| v[i]@)
}

/// The first `n` lines of `text`.
pub fn first_n_lines(text: &str, n: usize) -> (lines: Vec<String>)
    ensures
        texts_view(lines@) == first_lines(text@, n),
{
    let s = chars_of(text);
    let pieces = split_chars(&s, '\n');
    let ghost all = lines_of(text@);
    let last = pieces.len() - 1;
    let mut lines: Vec<String> = Vec::new();
    let mut i: usize = 0;
    assert(pieces_view(pieces@)[last as int] == pieces@[last as int]@);
    while i < last && i < n
        invariant
            i <= last,
            i <= n,
            last == pieces.len() - 1,
            pieces_view(pieces@) == split(text@, '\n'),
            all == lines_of(text@),
            lines@.len() == i,
            forall|j: int| 0 <= j < i ==> (#[trigger] lines@[j])@ == all[j],
        decreases last - i,
    {
        let piece = &pieces[i];
        assert(pieces_view(pieces@)[i as int] == piece@);
        let len = piece.len();
        let line = if len > 0 && piece[len - 1] == '\r' {
            slice_of(piece, 0, len - 1)
        } else {
            let r = slice_of(piece, 0, len);
            assert(piece@.subrange(0, len as int) =~= piece@);
            r
        };
        lines.push(string_of(&line));
        i += 1;
    }
    if i == last && i < n && pieces[last].len() > 0 {
        lines.push(string_of(&pieces[last]));
    }
    assert(texts_view(lines@) =~= first_lines(text@, n));
    lines
}

impl ProgressDisplay {
    /// The message shown while `url` is fetched.
    pub fn message(url: &str) -> (r: String)
        ensures
            r@ == "Fetching "@ + url@ + "..."@,
    {
        let mut out = chars_of("Fetching ");
        append_str(&mut out, url);
        append_str(&mut out, "...");
        string_of(&out)
    }
}

/// How a payload is shown to the operator.
#[derive(Clone, Copy, Debug, PartialEq, Eq, Structural)]
pub enum PayloadDisplay {
    /// As indented JSON.
    PrettyJson,
    /// As the members of a form.
    FormData,
    /// By its first lines.
    Lines,
    /// As raw data, cut into chunks.
    Chunks,
}

/// How a payload recorded under `content_type` is shown: JSON indented, a
/// form by its members, a multipart body and any text by its first lines,
/// and anything else as raw data.
pub open spec fn display_for(content_type: Seq<char>) -> PayloadDisplay {
    if content_type == "application/json"@ {
        PayloadDisplay::PrettyJson
    } else if content_type == "application/x-www-form-urlencoded"@ {
        PayloadDisplay::FormData
    } else if content_type == "multipart/form-data"@ || occurs_at(content_type, 0, "text/"@) {
        PayloadDisplay::Lines
    } else {
        PayloadDisplay::Chunks
    }
}

/// How a payload recorded under `content_type` is shown.
pub fn payload_display(content_type: &str) -> (d: PayloadDisplay)
    ensures
        d == display_for(content_type@),
{
    if same_text(content_type, "application/json") {
        PayloadDisplay::PrettyJson
    } else if same_text(content_type, "application/x-www-form-urlencoded") {
        PayloadDisplay::FormData
    } else if same_text(content_type, "multipart/form-data") {
        PayloadDisplay::Lines
    } else {
        let ct = chars_of(content_type);
        let text = chars_of("text/");
        if matches_at(&ct, 0, &text) {
            PayloadDisplay::Lines
        } else {
            PayloadDisplay::Chunks
        }
    }
}

/// The word that reports `result`; none for a case that has not run.
pub open spec fn label_for(result: TestResult) -> Option<Seq<char>> {
    match result {
        TestResult::Passed => Some("PASSED"@),
        TestResult::Failed => Some("FAILED"@),
        TestResult::Skipped => Some("SKIPPED"@),
        TestResult::NotYetTested => None,
    }
}

/// The word that reports `result`.
pub fn result_label(result: TestResult) -> (r: Option<&'static str>)
    ensures
        match r {
            Some(s) => label_for(result) == Some(s@),
            None => label_for(result) is None,
        },
{
    match result {
        TestResult::Passed => Some("PASSED"),
        TestResult::Failed => Some("FAILED"),
        TestResult::Skipped => Some("SKIPPED"),
        TestResult::NotYetTested => None,
    }
}

} // verus!
