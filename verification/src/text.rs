//! Plain-text building blocks: decimal numbers, line splitting, lossy decoding.

use vstd::prelude::*;
use vstd::utf8::{decode_utf8, valid_utf8};

verus! {

/// The decimal digit that stands for `d`, for `d` below ten.
pub open spec fn digit(d: nat) -> char {
    ('0' as u32 + d) as char
}

/// The decimal notation of `n`, without leading zeros.
pub open spec fn decimal(n: nat) -> Seq<char>
    decreases n,
{
    if n < 10 {
        seq![digit(n)]
    } else {
        decimal(n / 10).push(digit(n % 10))
    }
}

fn digit_str(d: u64) -> (s: &'static str)
    requires
        d < 10,
    ensures
        s@ == seq![digit(d as nat)],
{
    proof {
        reveal_strlit("0");
        reveal_strlit("1");
        reveal_strlit("2");
        reveal_strlit("3");
        reveal_strlit("4");
        reveal_strlit("5");
        reveal_strlit("6");
        reveal_strlit("7");
        reveal_strlit("8");
        reveal_strlit("9");
    }
    match d {
        0 => "0",
        1 => "1",
        2 => "2",
        3 => "3",
        4 => "4",
        5 => "5",
        6 => "6",
        7 => "7",
        8 => "8",
        _ => "9",
    }
}

/// Writes `n` in decimal.
pub fn decimal_string(n: u64) -> (s: String)
    ensures
        s@ == decimal(n as nat),
    decreases n,
{
    if n < 10 {
        digit_str(n).to_owned()
    } else {
        let mut s = decimal_string(n / 10);
        s.append(digit_str(n % 10));
        s
    }
}

/// The number of characters before the first newline; all of them if there is none.
pub open spec fn line_end(s: Seq<char>) -> nat
    decreases s.len(),
{
    if s.len() == 0 || s[0] == '\n' {
        0
    } else {
        1 + line_end(s.drop_first())
    }
}

/// A line that a newline ended, without the carriage return before that newline.
pub open spec fn strip_cr(line: Seq<char>) -> Seq<char> {
    if line.len() > 0 && line.last() == '\r' {
        line.drop_last()
    } else {
        line
    }
}

/// The lines of a text, without their terminators (`\n` or `\r\n`).
///
/// The terminator of the last line is optional, and a carriage return that no newline follows
/// belongs to its line.
pub open spec fn text_lines(s: Seq<char>) -> Seq<Seq<char>>
    decreases s.len(),
{
    if s.len() == 0 {
        seq![]
    } else if line_end(s) >= s.len() {
        seq![s]
    } else {
        seq![strip_cr(s.take(line_end(s) as int))] + text_lines(
            s.skip((line_end(s) + 1) as int),
        )
    }
}

/// The first line of a text; the empty line if the text is empty.
pub open spec fn first_line_of(s: Seq<char>) -> Seq<char> {
    if text_lines(s).len() == 0 {
        seq![]
    } else {
        text_lines(s)[0]
    }
}

proof fn lemma_line_end(s: Seq<char>, n: int)
    requires
        0 <= n <= s.len(),
        forall|i: int| 0 <= i < n ==> s[i] != '\n',
        n < s.len() ==> s[n] == '\n',
    ensures
        line_end(s) == n,
    decreases n,
{
    if n > 0 {
        let rest = s.drop_first();
        assert forall|i: int| 0 <= i < n - 1 implies rest[i] != '\n' by {
            assert(rest[i] == s[i + 1]);
        }
        lemma_line_end(rest, n - 1);
    }
}

/// The text's characters, one by one.
fn chars_of(s: &str) -> (cs: Vec<char>)
    ensures
        cs@ == s@,
{
    let mut cs: Vec<char> = Vec::new();
    for c in it: s.chars()
        invariant
            it.seq() == s@,
            cs@ == s@.take(it.index() as int),
    {
        cs.push(c);
    }
    cs
}

/// Splits a text into its lines, as [`text_lines`] defines them.
pub fn lines(s: &str) -> (out: Vec<String>)
    ensures
        out@.map_values(|l: String| l@) == text_lines(s@),
{
    let cs = chars_of(s);
    let mut out: Vec<String> = Vec::new();
    let mut start: usize = 0;
    let mut i: usize = 0;
    proof {
        assert(s@.skip(0) =~= s@);
        assert(out@.map_values(|l: String| l@) + text_lines(s@.skip(0)) =~= text_lines(s@));
    }
    while i < cs.len()
        invariant
            cs@ == s@,
            start <= i <= cs.len(),
            forall|k: int| start <= k < i ==> s@[k] != '\n',
            out@.map_values(|l: String| l@) + text_lines(s@.skip(start as int)) == text_lines(s@),
        decreases cs.len() - i,
    {
        if cs[i] == '\n' {
            let ghost tail = s@.skip(start as int);
            let ghost before = out@;
            proof {
                lemma_line_end(tail, i - start);
                assert(tail.skip(i - start + 1) =~= s@.skip(i + 1));
            }
            let end: usize = if i > start && cs[i - 1] == '\r' {
                i - 1
            } else {
                i
            };
            let line = s.substring_char(start, end).to_owned();
            proof {
                assert(line@ =~= strip_cr(tail.take(i - start)));
            }
            out.push(line);
            proof {
                assert(out@.map_values(|l: String| l@) =~= before.map_values(|l: String| l@).push(
                    line@,
                ));
                assert(out@.map_values(|l: String| l@) + text_lines(s@.skip(i + 1))
                    =~= before.map_values(|l: String| l@) + text_lines(tail));
            }
            start = i + 1;
        }
        i = i + 1;
    }
    let ghost tail = s@.skip(start as int);
    proof {
        lemma_line_end(tail, tail.len() as int);
    }
    if start < i {
        let ghost before = out@;
        let line = s.substring_char(start, i).to_owned();
        out.push(line);
        proof {
            assert(line@ =~= tail);
            assert(out@.map_values(|l: String| l@) =~= before.map_values(|l: String| l@)
                + text_lines(tail));
        }
    } else {
        assert(out@.map_values(|l: String| l@) + text_lines(tail) =~= out@.map_values(
            |l: String| l@,
        ));
    }
    out
}

/// The first line of a text, or the empty string.
pub fn first_line(s: &str) -> (line: String)
    ensures
        line@ == first_line_of(s@),
{
    let all = lines(s);
    if all.len() == 0 {
        assert(all@.map_values(|l: String| l@).len() == 0);
        String::new()
    } else {
        let line = all[0].clone();
        assert(line@ == all@.map_values(|l: String| l@)[0]);
        line
    }
}

/// What `String::from_utf8_lossy` makes of a byte string.
pub uninterp spec fn lossy_utf8(bytes: Seq<u8>) -> Seq<char>;

/// Decodes bytes as UTF-8 by `String::from_utf8_lossy`.
///
/// Claimed of it: the result depends on the bytes alone, and bytes that are valid UTF-8 are
/// decoded as such. How invalid sequences are replaced is not said.
#[verifier::external_body]
pub(crate) fn decode_lossy(bytes: &Vec<u8>) -> (s: String)
    ensures
        s@ == lossy_utf8(bytes@),
        valid_utf8(bytes@) ==> s@ == decode_utf8(bytes@),
{
    String::from_utf8_lossy(bytes).into_owned()
}

/// The number that a text of decimal digits reads as.
pub open spec fn number_of(text: Seq<char>) -> int
    decreases text.len(),
{
    if text.len() == 0 {
        0
    } else {
        10 * number_of(text.drop_last()) + (text.last() as int - '0' as int)
    }
}

/// The decimal notation of a number reads back as that number. It has no leading zero.
pub proof fn decimal_reads_back(n: nat)
    ensures
        number_of(decimal(n)) == n,
        decimal(n).len() > 0,
        forall|i: int| 0 <= i < decimal(n).len() ==> '0' <= #[trigger] decimal(n)[i] <= '9',
        decimal(n).len() > 1 ==> decimal(n)[0] != '0',
    decreases n,
{
    if n >= 10 {
        decimal_reads_back(n / 10);
        let head = decimal(n / 10);
        assert(decimal(n).drop_last() =~= head);
        assert(decimal(n)[0] == head[0]);
        if head.len() == 1 {
            assert(head[0] != '0') by {
                assert(head.drop_last() =~= Seq::<char>::empty());
                assert(number_of(head.drop_last()) == 0);
                assert(head.last() == head[0]);
            }
        }
    } else {
        assert(decimal(n).drop_last() =~= Seq::<char>::empty());
        assert(number_of(decimal(n).drop_last()) == 0);
    }
}

/// A line ends at its line feed, and a carriage return before that belongs to the end; any other
/// character belongs to a line. What follows the last line feed is a line if it is not empty.
pub proof fn lines_are_split_at_line_feeds(line: Seq<char>, rest: Seq<char>)
    requires
        forall|i: int| 0 <= i < line.len() ==> line[i] != '\n',
    ensures
        text_lines(Seq::empty()) == Seq::<Seq<char>>::empty(),
        line.len() > 0 ==> text_lines(line) == seq![line],
        line.len() == 0 || line.last() != '\r' ==> text_lines(line + seq!['\n'] + rest) == seq![line]
            + text_lines(rest),
        text_lines(line + seq!['\r', '\n'] + rest) == seq![line] + text_lines(rest),
{
    lemma_line_end(line, line.len() as int);
    let lf = line + seq!['\n'] + rest;
    let n = line.len() as int;
    assert(lf[n] == '\n');
    lemma_line_end(lf, n);
    assert(lf.take(n) =~= line);
    assert(lf.skip(n + 1) =~= rest);
    let crlf = line + seq!['\r', '\n'] + rest;
    assert(crlf[n] == '\r' && crlf[n + 1] == '\n');
    lemma_line_end(crlf, n + 1);
    assert(crlf.take(n + 1) =~= line.push('\r'));
    assert(line.push('\r').drop_last() =~= line);
    assert(crlf.skip(n + 2) =~= rest);
}

/// The first line of a text is what stands before its first line end, or the whole text.
pub proof fn first_line_is_the_beginning(line: Seq<char>, rest: Seq<char>)
    requires
        forall|i: int| 0 <= i < line.len() ==> line[i] != '\n',
    ensures
        first_line_of(line) == line,
        line.len() == 0 || line.last() != '\r' ==> first_line_of(line + seq!['\n'] + rest) == line,
        first_line_of(line + seq!['\r', '\n'] + rest) == line,
{
    lines_are_split_at_line_feeds(line, rest);
    if line.len() == 0 {
        assert(line =~= Seq::empty());
    }
    assert((seq![line] + text_lines(rest))[0] == line);
}

} // verus!
