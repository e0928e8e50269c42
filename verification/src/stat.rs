//! Diff summaries for the commit list.

use crate::text::{decimal, decimal_string};
use vstd::prelude::*;
use vstd::utf8::encode_utf8;

verus! {

/// How much two trees differ.
#[derive(Debug, Clone, Copy, PartialEq, Eq)]
pub struct DiffCounts {
    /// Files that differ.
    pub files: usize,
    /// Lines added, over all files.
    pub added: usize,
    /// Lines removed, over all files.
    pub removed: usize,
}

/// How two trees are compared to count what differs.
#[derive(Debug, Clone, Copy, PartialEq, Eq, Structural)]
pub struct StatOptions {
    /// Whether files at all paths are compared.
    pub all_paths: bool,
    /// Whether copies and renames are looked for.
    pub follow_copies: bool,
    /// Whether lines that differ in white space alone count as different.
    pub exact_lines: bool,
    /// Whether conflicts are written out with the sides in full, as snapshots.
    pub snapshot_conflict_markers: bool,
}

/// Everything is compared, line by line and to the letter, and a copied file is a new one.
pub fn stat_options() -> (r: StatOptions)
    ensures
        r == (StatOptions {
            all_paths: true,
            follow_copies: false,
            exact_lines: true,
            snapshot_conflict_markers: true,
        }),
{
    StatOptions {
        all_paths: true,
        follow_copies: false,
        exact_lines: true,
        snapshot_conflict_markers: true,
    }
}

/// How a diff is rendered.
#[derive(Debug, Clone, Copy, PartialEq, Eq, Structural)]
pub struct DiffOptions {
    /// Whether files at all paths are shown.
    pub all_paths: bool,
    /// Whether copies and renames are looked for.
    pub follow_copies: bool,
    /// Whether changed words are told apart by colour within their lines, by the user's settings
    /// for that format.
    pub color_words: bool,
    /// The width to render for, in cells.
    pub width: usize,
}

/// Everything is shown in coloured words, for a terminal of 80 cells.
pub fn diff_options() -> (r: DiffOptions)
    ensures
        r == (DiffOptions {
            all_paths: true,
            follow_copies: false,
            color_words: true,
            width: 80,
        }),
{
    DiffOptions { all_paths: true, follow_copies: false, color_words: true, width: 80 }
}

/// The summary `[N:+A-R]` of the files, the lines added and the lines removed.
///
/// A count of zero lines is left out; where both are zero, `~` stands in their place. Where
/// nothing differs, or the trees could not be compared, the summary is empty.
pub open spec fn stat_text(counts: Option<DiffCounts>) -> Seq<char> {
    match counts {
        Some(c) if c.files > 0 => "["@ + decimal(c.files as nat) + ":"@ + (if c.added > 0 {
            "+"@ + decimal(c.added as nat)
        } else {
            seq![]
        }) + (if c.removed > 0 {
            "-"@ + decimal(c.removed as nat)
        } else {
            seq![]
        }) + (if c.added == 0 && c.removed == 0 {
            "~"@
        } else {
            seq![]
        }) + "]"@,
        _ => seq![],
    }
}

/// Summarises a comparison of two trees by [`stat_options`]; `None` is a comparison that failed.
pub fn compute_stat(counts: Option<DiffCounts>) -> (s: String)
    ensures
        s@ == stat_text(counts),
{
    let c = match counts {
        Some(c) => c,
        None => return String::new(),
    };
    if c.files == 0 {
        return String::new();
    }
    let mut s = "[".to_owned();
    s.append(decimal_string(c.files as u64).as_str());
    s.append(":");
    let ghost head = s@;
    if c.added > 0 {
        s.append("+");
        s.append(decimal_string(c.added as u64).as_str());
    }
    let ghost plus = if c.added > 0 {
        "+"@ + decimal(c.added as nat)
    } else {
        seq![]
    };
    assert(s@ =~= head + plus);
    if c.removed > 0 {
        s.append("-");
        s.append(decimal_string(c.removed as u64).as_str());
    }
    let ghost minus = if c.removed > 0 {
        "-"@ + decimal(c.removed as nat)
    } else {
        seq![]
    };
    assert(s@ =~= head + plus + minus);
    if c.added == 0 && c.removed == 0 {
        s.append("~");
    }
    let ghost same = if c.added == 0 && c.removed == 0 {
        "~"@
    } else {
        seq![]
    };
    assert(s@ =~= head + plus + minus + same);
    s.append("]");
    s
}

/// The bytes to show as a commit's diff: the rendered diff, or a note of why there is none.
pub open spec fn diff_view(rendered: Result<Seq<u8>, Seq<char>>) -> Seq<u8> {
    match rendered {
        Ok(bytes) => bytes,
        Err(error) => encode_utf8("(error: "@ + error + ")"@),
    }
}

/// Puts together what is shown of a commit's changes: the diff and its summary.
///
/// `rendered` is the diff rendered by [`diff_options`], or the error that the renderer reported.
pub fn compute_diff(rendered: Result<Vec<u8>, String>, counts: Option<DiffCounts>) -> (r: (
    Vec<u8>,
    String,
))
    ensures
        r.0@ == diff_view(
            match rendered {
                Ok(bytes) => Ok(bytes@),
                Err(error) => Err(error@),
            },
        ),
        r.1@ == stat_text(counts),
{
    let bytes = match rendered {
        Ok(bytes) => bytes,
        Err(error) => {
            let mut s = "(error: ".to_owned();
            s.append(error.as_str());
            s.append(")");
            s.as_str().as_bytes_vec()
        },
    };
    (bytes, compute_stat(counts))
}

/// The summary is empty exactly where the comparison failed or found no file that differs.
pub proof fn stat_is_empty_without_changes(counts: Option<DiffCounts>)
    ensures
        stat_text(counts).len() == 0 <==> (counts is None || counts->0.files == 0),
{
    reveal_strlit("[");
}

/// A summary tells the files, and of the lines those added and those removed, if any are; where
/// files differ in no line, it says so.
pub proof fn stat_tells_the_counts(files: usize, added: usize, removed: usize)
    requires
        files > 0,
    ensures
        ({
            let text = stat_text(Some(DiffCounts { files, added, removed }));
            let head = "["@ + decimal(files as nat) + ":"@;
            &&& added > 0 && removed > 0 ==> text == head + "+"@ + decimal(added as nat) + "-"@
                + decimal(removed as nat) + "]"@
            &&& added > 0 && removed == 0 ==> text == head + "+"@ + decimal(added as nat) + "]"@
            &&& added == 0 && removed > 0 ==> text == head + "-"@ + decimal(removed as nat) + "]"@
            &&& added == 0 && removed == 0 ==> text == head + "~"@ + "]"@
        }),
{
    let text = stat_text(Some(DiffCounts { files, added, removed }));
    let head = "["@ + decimal(files as nat) + ":"@;
    if added > 0 && removed > 0 {
        assert(text =~= head + "+"@ + decimal(added as nat) + "-"@ + decimal(removed as nat)
            + "]"@);
    } else if added > 0 {
        assert(text =~= head + "+"@ + decimal(added as nat) + "]"@);
    } else if removed > 0 {
        assert(text =~= head + "-"@ + decimal(removed as nat) + "]"@);
    } else {
        assert(text =~= head + "~"@ + "]"@);
    }
}

/// What is shown of a diff is the diff itself, or the error in brackets.
pub proof fn diffs_are_shown_as_rendered(bytes: Seq<u8>, error: Seq<char>)
    ensures
        diff_view(Ok(bytes)) == bytes,
        diff_view(Err(error)) == encode_utf8("(error: "@ + error + ")"@),
{
}

} // verus!
