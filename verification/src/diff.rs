//! Preparing the output of `git diff` for analysis: a diff of fewer than
//! `MIN_DIFF_BYTES` bytes is no change worth analysing; a longer one is cut,
//! at whole lines, to about `DIFF_BYTE_LIMIT` bytes.
use vstd::prelude::*;
use vstd::utf8::{decode_utf8, valid_utf8};
use crate::text::{
    byte_len, bytes_within, chars_of, extend_with, extend_with_range, line_scan, lines, split_lines,
    strip_cr, string_of, views, lemma_byte_len_concat, lemma_byte_len_push,
};

verus! {

/// Bytes of diff text, counted before each line is added, that a prepared
/// diff may hold.
pub const DIFF_BYTE_LIMIT: usize = 4000;

/// A diff output shorter than this many bytes holds no change worth analysing.
pub const MIN_DIFF_BYTES: usize = 10;

/// What stands after the last kept line when lines were left out.
pub open spec fn truncation_marker() -> Seq<char> {
    "\n...[TRUNCATED]"@
}

/// The first `k` lines, each followed by a `'\n'`.
pub open spec fn joined(lines: Seq<Seq<char>>, k: int) -> Seq<char>
    decreases k,
{
    if k <= 0 {
        Seq::empty()
    } else {
        joined(lines, k - 1) + lines[k - 1] + seq!['\n']
    }
}

/// Line `j` still fits after the lines before it.
pub open spec fn line_fits(lines: Seq<Seq<char>>, j: int) -> bool {
    byte_len(joined(lines, j)) + byte_len(lines[j]) <= DIFF_BYTE_LIMIT
}

/// The first index at or after `j` whose line does not fit (or the number of
/// lines, when all of them do).
pub open spec fn kept_from(lines: Seq<Seq<char>>, j: int) -> int
    decreases lines.len() - j,
{
    if j < 0 || j >= lines.len() || !line_fits(lines, j) {
        j
    } else {
        kept_from(lines, j + 1)
    }
}

/// How many lines a prepared diff keeps.
pub open spec fn kept_lines(lines: Seq<Seq<char>>) -> int {
    kept_from(lines, 0)
}

/// The diff as prepared for analysis: its lines up to the first one that
/// would pass the limit, each followed by `'\n'`, then the marker when some
/// line was left out.
pub open spec fn truncated_diff(text: Seq<char>) -> Seq<char> {
    let ls = lines(text);
    let k = kept_lines(ls);
    if k < ls.len() {
        joined(ls, k) + truncation_marker()
    } else {
        joined(ls, k)
    }
}

/// The number of kept lines is the first index whose line does not fit.
pub proof fn lemma_kept_lines(lines: Seq<Seq<char>>)
    ensures
        0 <= kept_lines(lines) <= lines.len(),
        forall|j: int| 0 <= j < kept_lines(lines) ==> line_fits(lines, j),
        kept_lines(lines) < lines.len() ==> !line_fits(lines, kept_lines(lines)),
{
    lemma_kept_from(lines, 0);
}

proof fn lemma_kept_from(lines: Seq<Seq<char>>, i: int)
    requires
        0 <= i <= lines.len(),
    ensures
        i <= kept_from(lines, i) <= lines.len(),
        forall|j: int| i <= j < kept_from(lines, i) ==> line_fits(lines, j),
        kept_from(lines, i) < lines.len() ==> !line_fits(lines, kept_from(lines, i)),
    decreases lines.len() - i,
{
    if i < lines.len() && line_fits(lines, i) {
        lemma_kept_from(lines, i + 1);
    }
}

/// Adding line `k` and its `'\n'` adds their byte lengths.
pub proof fn lemma_joined_step(lines: Seq<Seq<char>>, k: int)
    requires
        0 <= k < lines.len(),
    ensures
        joined(lines, k + 1) == joined(lines, k) + lines[k] + seq!['\n'],
        byte_len(joined(lines, k + 1)) == byte_len(joined(lines, k)) + byte_len(lines[k]) + 1,
{
    lemma_byte_len_concat(joined(lines, k), lines[k]);
    lemma_byte_len_push(joined(lines, k) + lines[k], '\n');
    assert(joined(lines, k) + lines[k] + seq!['\n'] =~= (joined(lines, k) + lines[k]).push('\n'));
}

/// Joining more lines never takes fewer bytes.
pub proof fn lemma_joined_monotone(lines: Seq<Seq<char>>, j: int, m: int)
    requires
        0 <= j <= m <= lines.len(),
    ensures
        byte_len(joined(lines, j)) <= byte_len(joined(lines, m)),
    decreases m - j,
{
    if j < m {
        lemma_joined_monotone(lines, j, m - 1);
        lemma_joined_step(lines, m - 1);
    }
}

/// The first `k` lines joined do not depend on lines after them.
pub proof fn lemma_joined_push(lines: Seq<Seq<char>>, x: Seq<char>, k: int)
    requires
        0 <= k <= lines.len(),
    ensures
        joined(lines.push(x), k) == joined(lines, k),
    decreases k,
{
    if k > 0 {
        lemma_joined_push(lines, x, k - 1);
        assert(lines.push(x)[k - 1] == lines[k - 1]);
    }
}

/// Dropping the `'\r'` of a line ending never adds bytes.
proof fn lemma_strip_cr_bytes(line: Seq<char>)
    ensures
        byte_len(strip_cr(line)) <= byte_len(line),
{
    if line.len() > 0 && line.last() == '\r' {
        lemma_byte_len_push(line.drop_last(), '\r');
        assert(line.drop_last().push('\r') =~= line);
    }
}

/// Reading `s`, the lines ended so far and the open line together take no
/// more bytes than `s` itself.
proof fn lemma_scan_bytes(s: Seq<char>)
    ensures
        byte_len(joined(line_scan(s).0, line_scan(s).0.len() as int)) + byte_len(line_scan(s).1)
            <= byte_len(s),
    decreases s.len(),
{
    if s.len() == 0 {
        assert(byte_len(Seq::<char>::empty()) == 0);
    } else {
        let t = s.drop_last();
        let c = s.last();
        lemma_scan_bytes(t);
        let (done, cur) = line_scan(t);
        lemma_byte_len_push(t, c);
        assert(t.push(c) =~= s);
        if c == '\n' {
            let nd = done.push(strip_cr(cur));
            lemma_joined_push(done, strip_cr(cur), done.len() as int);
            lemma_joined_step(nd, done.len() as int);
            lemma_strip_cr_bytes(cur);
            assert(byte_len(Seq::<char>::empty()) == 0);
            assert(vstd::utf8::encode_scalar('\n' as u32).len() == 1);
        } else {
            lemma_byte_len_push(cur, c);
        }
    }
}

/// All the lines of `s`, each followed by `'\n'`, take at most one byte more
/// than `s`.
pub proof fn lemma_all_lines_bytes(s: Seq<char>)
    ensures
        byte_len(joined(lines(s), lines(s).len() as int)) <= byte_len(s) + 1,
{
    lemma_scan_bytes(s);
    let (done, cur) = line_scan(s);
    if cur.len() > 0 {
        lemma_joined_push(done, cur, done.len() as int);
        lemma_joined_step(done.push(cur), done.len() as int);
    }
}

/// A prepared diff never holds more than `DIFF_BYTE_LIMIT + 1` bytes of diff
/// text, plus the marker.
pub proof fn law_prepared_diff_is_bounded(text: Seq<char>)
    ensures
        byte_len(truncated_diff(text)) <= DIFF_BYTE_LIMIT + 1 + byte_len(truncation_marker()),
{
    let ls = lines(text);
    lemma_kept_lines(ls);
    let k = kept_lines(ls);
    if k > 0 {
        lemma_joined_step(ls, k - 1);
        assert(line_fits(ls, k - 1));
    } else {
        assert(byte_len(Seq::<char>::empty()) == 0);
    }
    if k < ls.len() {
        lemma_byte_len_concat(joined(ls, k), truncation_marker());
    }
}

/// A diff of at most `DIFF_BYTE_LIMIT` bytes is kept whole: every line of it,
/// each followed by `'\n'`, and no marker.
pub proof fn law_short_diff_is_kept_whole(text: Seq<char>)
    requires
        byte_len(text) <= DIFF_BYTE_LIMIT,
    ensures
        kept_lines(lines(text)) == lines(text).len(),
        truncated_diff(text) == joined(lines(text), lines(text).len() as int),
{
    let ls = lines(text);
    lemma_all_lines_bytes(text);
    lemma_kept_lines(ls);
    let k = kept_lines(ls);
    if k < ls.len() {
        lemma_joined_step(ls, k);
        lemma_joined_monotone(ls, k + 1, ls.len() as int);
        assert(false);
    }
}

/// The diff text cut at whole lines as described by `truncated_diff`.
pub fn truncate_diff(text: &str) -> (r: String)
    ensures
        r@ == truncated_diff(text@),
{
    let v = chars_of(text);
    let ls = split_lines(&v);
    let ghost all = lines(text@);
    let mut out: Vec<char> = Vec::new();
    let mut used: usize = 0;
    let mut k: usize = 0;
    assert(byte_len(Seq::<char>::empty()) == 0);
    while k < ls.len()
        invariant
            views(ls@) == all,
            all == lines(text@),
            k <= all.len(),
            out@ == joined(all, k as int),
            used == byte_len(out@),
            used <= DIFF_BYTE_LIMIT + 1,
            kept_lines(all) == kept_from(all, k as int),
        decreases all.len() - k,
    {
        let line = &ls[k];
        assert(line@ == all[k as int]);
        let fit = if used > DIFF_BYTE_LIMIT {
            None
        } else {
            bytes_within(used, line, DIFF_BYTE_LIMIT)
        };
        match fit {
            None => {
                assert(!line_fits(all, k as int));
                extend_with(&mut out, "\n...[TRUNCATED]");
                return string_of(&out);
            },
            Some(total) => {
                proof {
                    lemma_joined_step(all, k as int);
                }
                extend_with_range(&mut out, line, 0, line.len());
                assert(line@.subrange(0, line@.len() as int) =~= line@);
                out.push('\n');
                assert(out@ =~= joined(all, k as int + 1));
                used = total + 1;
                k = k + 1;
            },
        }
    }
    string_of(&out)
}

/// What to do with the text of a diff.
pub enum DiffPlan {
    /// Too short to hold a change worth analysing.
    NoChanges,
    /// Analyse this prepared diff.
    Analyze(String),
}

/// The plan for a diff text: no change below `MIN_DIFF_BYTES` bytes, else
/// the prepared diff.
pub fn plan_analysis(text: &str) -> (r: DiffPlan)
    ensures
        byte_len(text@) < MIN_DIFF_BYTES <==> r is NoChanges,
        r matches DiffPlan::Analyze(d) ==> d@ == truncated_diff(text@),
{
    let v = chars_of(text);
    if bytes_within(0, &v, MIN_DIFF_BYTES - 1).is_some() {
        DiffPlan::NoChanges
    } else {
        DiffPlan::Analyze(truncate_diff(text))
    }
}

/// The text that `String::from_utf8_lossy` makes of `bytes`.
pub uninterp spec fn lossy_text(bytes: Seq<u8>) -> Seq<char>;

/// `String::from_utf8_lossy`: the result is named `lossy_text`; for valid
/// UTF-8 input its documentation promises the input's own characters.
#[verifier::external_body]
fn decode_lossy(bytes: &[u8]) -> (s: String)
    ensures
        s@ == lossy_text(bytes@),
        valid_utf8(bytes@) ==> s@ == decode_utf8(bytes@),
{
    String::from_utf8_lossy(bytes).into_owned()
}

/// The plan for the raw standard output of `git diff`, read as UTF-8 with
/// invalid sequences replaced.
pub fn plan_from_output(stdout: &[u8]) -> (r: DiffPlan)
    ensures
        byte_len(lossy_text(stdout@)) < MIN_DIFF_BYTES <==> r is NoChanges,
        r matches DiffPlan::Analyze(d) ==> d@ == truncated_diff(lossy_text(stdout@)),
{
    let text = decode_lossy(stdout);
    plan_analysis(text.as_str())
}

} // verus!
