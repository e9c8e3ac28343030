//! Judging the model's answer: the answer is cleaned into a short title, and
//! the title is an achievement unless it says `FALSE` or is too short.
use vstd::prelude::*;
use crate::text::{
    byte_len, bytes_within, chars_of, contains, contains_chars, extend_with_range, find,
    find_from, first_line, first_line_of, is_white_space, lemma_find_from, lemma_first_line_chars,
    lemma_trim_chars, lemma_trim_edges, occurs_at, string_of, trim, trim_chars,
};

verus! {

/// A title shorter than this many bytes is not an achievement.
pub const MIN_TITLE_BYTES: usize = 3;

/// The label that may precede the title in the model's answer.
pub open spec fn title_label() -> Seq<char> {
    "Conquista:"@
}

/// The word by which the model says that a commit adds no feature.
pub open spec fn refusal_word() -> Seq<char> {
    "FALSE"@
}

/// What `s.split(sep).nth(1)` gives when `sep` occurs in `s`: the text
/// between its first occurrence and the next one (or the end).
pub open spec fn second_piece(s: Seq<char>, sep: Seq<char>) -> Seq<char> {
    match find_from(s, sep, 0) {
        Some(i) => {
            let rest = s.subrange(i + sep.len(), s.len() as int);
            match find_from(rest, sep, 0) {
                Some(j) => rest.take(j),
                None => rest,
            }
        },
        None => Seq::empty(),
    }
}

/// Neither a double quote nor an asterisk.
pub open spec fn is_kept_char(c: char) -> bool {
    c != '"' && c != '*'
}

/// `s` without double quotes and asterisks.
pub open spec fn without_marks(s: Seq<char>) -> Seq<char> {
    s.filter(|c: char| is_kept_char(c))
}

/// The title drawn from the model's raw answer: trimmed; the text after the
/// label when the label occurs; without quotes and asterisks; only its first
/// line; trimmed again.
pub open spec fn clean_title(raw: Seq<char>) -> Seq<char> {
    let t = trim(raw);
    let u = if contains(t, title_label()) {
        trim(second_piece(t, title_label()))
    } else {
        t
    };
    trim(first_line_of(without_marks(u)))
}

/// A title that is no achievement: it says `FALSE` in any case, or is
/// shorter than `MIN_TITLE_BYTES` bytes. `upper` is the title in upper case.
pub open spec fn is_trivial_title(title: Seq<char>, upper: Seq<char>) -> bool {
    contains(upper, refusal_word()) || byte_len(title) < MIN_TITLE_BYTES
}

/// A cleaned title is one line without quotes or asterisks, and does not
/// start or end with white space.
pub proof fn law_clean_title_shape(raw: Seq<char>)
    ensures
        forall|j: int|
            0 <= j < clean_title(raw).len() ==> {
                &&& #[trigger] clean_title(raw)[j] != '\n'
                &&& is_kept_char(clean_title(raw)[j])
            },
        clean_title(raw).len() > 0 ==> !is_white_space(clean_title(raw)[0]),
        clean_title(raw).len() > 0 ==> !is_white_space(clean_title(raw).last()),
{
    broadcast use vstd::seq_lib::group_filter_ensures;

    let t = trim(raw);
    let u = if contains(t, title_label()) {
        trim(second_piece(t, title_label()))
    } else {
        t
    };
    let w = without_marks(u);
    let f = first_line_of(w);
    lemma_first_line_chars(w);
    lemma_trim_chars(f);
    lemma_trim_edges(f);
    assert forall|j: int| 0 <= j < clean_title(raw).len() implies {
        &&& #[trigger] clean_title(raw)[j] != '\n'
        &&& is_kept_char(clean_title(raw)[j])
    } by {
        let c = clean_title(raw)[j];
        assert(f.contains(c));
        let k = choose|k: int| 0 <= k < f.len() && f[k] == c;
        assert(w.contains(f[k]));
        let m = choose|m: int| 0 <= m < w.len() && w[m] == c;
        assert(is_kept_char(w[m]));
    }
}

/// A title is trivial exactly when its upper-case form contains `FALSE`
/// anywhere, or the title has fewer than three bytes.
pub proof fn law_false_anywhere_is_trivial(title: Seq<char>, upper: Seq<char>)
    ensures
        is_trivial_title(title, upper) <==> ((exists|i: int| occurs_at(upper, "FALSE"@, i))
            || byte_len(title) < 3),
{
    lemma_find_from(upper, "FALSE"@, 0);
    if contains(upper, refusal_word()) {
        let k = find_from(upper, "FALSE"@, 0)->0;
        assert(occurs_at(upper, "FALSE"@, k));
    }
}

/// When the trimmed answer holds the label on any line, the title is drawn
/// from the text after the label's first occurrence; otherwise from the whole
/// trimmed answer. Marks are dropped before the first line is taken.
pub proof fn law_title_follows_label(raw: Seq<char>)
    ensures
        contains(trim(raw), "Conquista:"@) ==> clean_title(raw) == trim(
            first_line_of(without_marks(trim(second_piece(trim(raw), "Conquista:"@)))),
        ),
        !contains(trim(raw), "Conquista:"@) ==> clean_title(raw) == trim(
            first_line_of(without_marks(trim(raw))),
        ),
{
}

/// The text after the first occurrence of `sep` in `s`, up to the next one.
fn second_piece_exec(s: &Vec<char>, sep: &Vec<char>) -> (r: Vec<char>)
    requires
        contains(s@, sep@),
    ensures
        r@ == second_piece(s@, sep@),
{
    proof {
        lemma_find_from(s@, sep@, 0);
    }
    match find(s, sep, 0) {
        Some(i) => {
            assert(crate::text::occurs_at(s@, sep@, i as int));
            let n = s.len();
            let mut rest: Vec<char> = Vec::new();
            extend_with_range(&mut rest, s, i + sep.len(), n);
            match find(&rest, sep, 0) {
                Some(j) => {
                    proof {
                        lemma_find_from(rest@, sep@, 0);
                    }
                    let mut piece: Vec<char> = Vec::new();
                    extend_with_range(&mut piece, &rest, 0, j);
                    assert(piece@ =~= rest@.take(j as int));
                    piece
                },
                None => {
                    assert(rest@ =~= s@.subrange(i + sep@.len(), s@.len() as int));
                    rest
                },
            }
        },
        None => Vec::new(),
    }
}

/// `v` without double quotes and asterisks.
fn without_marks_exec(v: &Vec<char>) -> (r: Vec<char>)
    ensures
        r@ == without_marks(v@),
{
    let mut r: Vec<char> = Vec::new();
    let mut i: usize = 0;
    proof {
        reveal(Seq::filter);
        assert(v@.take(0) =~= Seq::<char>::empty());
    }
    while i < v.len()
        invariant
            i <= v@.len(),
            r@ == without_marks(v@.take(i as int)),
        decreases v@.len() - i,
    {
        let c = v[i];
        proof {
            reveal(Seq::filter);
            assert(v@.take(i + 1).drop_last() =~= v@.take(i as int));
        }
        if c != '"' && c != '*' {
            r.push(c);
        }
        i = i + 1;
    }
    proof {
        assert(v@.take(v@.len() as int) =~= v@);
    }
    r
}

/// The title drawn from the model's raw answer, as `clean_title` describes.
pub fn clean_answer(raw: &str) -> (r: String)
    ensures
        r@ == clean_title(raw@),
{
    let v = chars_of(raw);
    let t = trim_chars(&v);
    let label = chars_of("Conquista:");
    let u = if contains_chars(&t, &label) {
        let piece = second_piece_exec(&t, &label);
        trim_chars(&piece)
    } else {
        t
    };
    let w = without_marks_exec(&u);
    let f = first_line(&w);
    let title = trim_chars(&f);
    string_of(&title)
}

/// Whether a title is no achievement, given the title and its upper-case
/// form.
pub fn title_is_trivial(title: &str, upper: &str) -> (b: bool)
    ensures
        b == is_trivial_title(title@, upper@),
{
    let up = chars_of(upper);
    let word = chars_of("FALSE");
    if contains_chars(&up, &word) {
        return true;
    }
    let t = chars_of(title);
    bytes_within(0, &t, MIN_TITLE_BYTES - 1).is_some()
}

/// The upper-case form that `str::to_uppercase` gives of `s`.
pub uninterp spec fn upper_case(s: Seq<char>) -> Seq<char>;

/// `str::to_uppercase`: the result is named `upper_case` of the argument.
#[verifier::external_body]
fn to_upper(s: &str) -> (r: String)
    ensures
        r@ == upper_case(s@),
{
    s.to_uppercase()
}

/// The judgement of an answer: its cleaned title, and whether that title is
/// an achievement.
pub enum Verdict {
    /// The commit adds no feature; the cleaned title is kept for the log.
    Trivial(String),
    /// The commit adds a feature with this title.
    Achievement(String),
}

impl Verdict {
    /// The cleaned title, whatever the judgement.
    pub fn title(&self) -> (t: &String)
        ensures
            t == (match self {
                Verdict::Trivial(t) => t,
                Verdict::Achievement(t) => t,
            }),
    {
        match self {
            Verdict::Trivial(t) => t,
            Verdict::Achievement(t) => t,
        }
    }
}

/// `v` is the judgement of the raw answer `raw`, as `judge_answer` gives it.
pub open spec fn judged(v: Verdict, raw: Seq<char>) -> bool {
    match v {
        Verdict::Trivial(t) => t@ == clean_title(raw) && is_trivial_title(t@, upper_case(t@)),
        Verdict::Achievement(t) => t@ == clean_title(raw) && !is_trivial_title(t@, upper_case(t@)),
    }
}

/// Judges the model's raw answer: an achievement exactly when its cleaned
/// title neither says `FALSE` (in any case) nor is shorter than
/// `MIN_TITLE_BYTES` bytes.
pub fn judge_answer(raw: &str) -> (v: Verdict)
    ensures
        judged(v, raw@),
{
    let title = clean_answer(raw);
    let upper = to_upper(title.as_str());
    if title_is_trivial(title.as_str(), upper.as_str()) {
        Verdict::Trivial(title)
    } else {
        Verdict::Achievement(title)
    }
}

} // verus!
