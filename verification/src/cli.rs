use vstd::prelude::*;
use vstd::string::{StrSliceExecFns, StringExecFns};

use crate::types::{AskAnswer, Chapter, Summary};

verus! {

/// The command line: global options and a subcommand.
#[derive(Debug, Clone)]
pub struct Cli {
    /// Override the Gemini model (default: gemini-3.5-flash)
    pub model: Option<String>,
    /// Override the API key (otherwise GEMINI_API_KEY or config file)
    pub api_key: Option<String>,
    /// Emit machine-readable JSON instead of formatted text
    pub json: bool,
    pub command: Command,
}

/// What a run does.
#[derive(Debug, Clone)]
pub enum Command {
    /// Ask a free-form question about a video
    Ask { url: String, question: String },
    /// Summarize a video
    Summarize { url: String },
    /// Get timestamped chapters for a video
    Chapters { url: String },
    /// Run as an MCP server over stdio
    Serve,
}

/// The bulleted lines of a list of key points.
pub open spec fn bullet_lines(points: Seq<String>) -> Seq<char>
    decreases points.len(),
{
    if points.len() == 0 {
        Seq::empty()
    } else {
        bullet_lines(points.drop_last()) + "  - "@ + points.last()@ + "\n"@
    }
}

/// The items of a list, with `sep` between each two.
pub open spec fn joined(items: Seq<String>, sep: Seq<char>) -> Seq<char>
    decreases items.len(),
{
    if items.len() == 0 {
        Seq::empty()
    } else if items.len() == 1 {
        items[0]@
    } else {
        joined(items.drop_last(), sep) + sep + items.last()@
    }
}

/// A summary as text: the overview, the key points as a bulleted list, and the topics
/// on one line.
pub open spec fn summary_text(s: Summary) -> Seq<char> {
    s.overview@ + "\n\nKey points:\n"@ + bullet_lines(s.key_points@) + "\nTopics: "@ + joined(
        s.topics@,
        ", "@,
    )
}

/// The decimal digit `d`.
pub open spec fn digit_char(d: nat) -> char {
    "0123456789"@[d as int]
}

/// The decimal notation of `n`, without leading zeros.
pub open spec fn decimal(n: nat) -> Seq<char>
    decreases n,
{
    if n < 10 {
        seq![digit_char(n)]
    } else {
        decimal(n / 10).push(digit_char(n % 10))
    }
}

/// The decimal notation of `n`, padded with a zero to two digits.
pub open spec fn two_digits(n: nat) -> Seq<char> {
    if n < 10 {
        seq!['0'] + decimal(n)
    } else {
        decimal(n)
    }
}

/// A chapter's start as minutes and seconds, `mm:ss`.
pub open spec fn timestamp(start_seconds: nat) -> Seq<char> {
    two_digits(start_seconds / 60) + ":"@ + two_digits(start_seconds % 60)
}

/// A chapter as text: its start and title on one line, its summary indented on the next.
pub open spec fn chapter_text(c: Chapter) -> Seq<char> {
    timestamp(c.start_seconds as nat) + "  "@ + c.title@ + "\n    "@ + c.summary@ + "\n"@
}

/// Chapters as text, one after the other.
pub open spec fn chapters_text(cs: Seq<Chapter>) -> Seq<char>
    decreases cs.len(),
{
    if cs.len() == 0 {
        Seq::empty()
    } else {
        chapters_text(cs.drop_last()) + chapter_text(cs.last())
    }
}

/// Appends the digit `d`.
fn push_digit(out: &mut String, d: u32)
    requires
        d < 10,
    ensures
        final(out)@ == old(out)@.push(digit_char(d as nat)),
{
    let digits = "0123456789";
    proof {
        reveal_strlit("0123456789");
    }
    let piece = digits.substring_char(d as usize, d as usize + 1);
    out.append(piece);
    assert(piece@ =~= seq![digit_char(d as nat)]);
}

/// Appends the decimal notation of `n`.
fn push_decimal(out: &mut String, n: u32)
    ensures
        final(out)@ == old(out)@ + decimal(n as nat),
    decreases n,
{
    if n >= 10 {
        push_decimal(out, n / 10);
    }
    push_digit(out, n % 10);
    assert(out@ =~= old(out)@ + decimal(n as nat));
}

/// Appends the decimal notation of `n`, padded with a zero to two digits.
fn push_two_digits(out: &mut String, n: u32)
    ensures
        final(out)@ == old(out)@ + two_digits(n as nat),
{
    if n < 10 {
        out.append("0");
        proof {
            reveal_strlit("0");
        }
    }
    push_decimal(out, n);
    assert(out@ =~= old(out)@ + two_digits(n as nat));
}

/// The text shown for an answer: `json`, the answer's JSON form, when JSON output is
/// wanted; else the answer itself.
pub fn format_ask(a: &AskAnswer, json: Option<&str>) -> (r: String)
    ensures
        r@ == match json {
            Some(t) => t@,
            None => a.answer@,
        },
{
    match json {
        Some(t) => String::from_str(t),
        None => a.answer.clone(),
    }
}

/// The text shown for a summary: `json`, the summary's JSON form, when JSON output is
/// wanted; else the overview, the key points as a bulleted list, and the topics.
pub fn format_summary(s: &Summary, json: Option<&str>) -> (r: String)
    ensures
        r@ == match json {
            Some(t) => t@,
            None => summary_text(*s),
        },
{
    if let Some(t) = json {
        return String::from_str(t);
    }
    let mut out = s.overview.clone();
    out.append("\n\nKey points:\n");
    let ghost head = out@;
    let points = &s.key_points;
    let n: usize = points.len();
    for i in 0..n
        invariant
            n == points@.len(),
            out@ == head + bullet_lines(points@.take(i as int)),
    {
        out.append("  - ");
        out.append(points[i].as_str());
        out.append("\n");
        assert(points@.take(i + 1).drop_last() =~= points@.take(i as int));
    }
    assert(points@.take(n as int) =~= points@);
    out.append("\nTopics: ");
    let ghost head2 = out@;
    let topics = &s.topics;
    let m: usize = topics.len();
    for i in 0..m
        invariant
            m == topics@.len(),
            out@ == head2 + joined(topics@.take(i as int), ", "@),
    {
        if i > 0 {
            out.append(", ");
        }
        out.append(topics[i].as_str());
        assert(topics@.take(i + 1).drop_last() =~= topics@.take(i as int));
        assert(i == 0 ==> topics@.take(i + 1) =~= seq![topics@[0]]);
    }
    assert(topics@.take(m as int) =~= topics@);
    out
}

/// The text shown for chapters: `json`, their JSON form, when JSON output is wanted;
/// else, for each chapter, its start as `mm:ss` and its title, then its summary on an
/// indented line.
pub fn format_chapters(c: &[Chapter], json: Option<&str>) -> (r: String)
    ensures
        r@ == match json {
            Some(t) => t@,
            None => chapters_text(c@),
        },
{
    if let Some(t) = json {
        return String::from_str(t);
    }
    let mut out = String::new();
    let n: usize = c.len();
    for i in 0..n
        invariant
            n == c@.len(),
            out@ == chapters_text(c@.take(i as int)),
    {
        let ch = &c[i];
        let ghost before = out@;
        push_two_digits(&mut out, ch.start_seconds / 60);
        out.append(":");
        push_two_digits(&mut out, ch.start_seconds % 60);
        out.append("  ");
        out.append(ch.title.as_str());
        out.append("\n    ");
        out.append(ch.summary.as_str());
        out.append("\n");
        assert(out@ =~= before + chapter_text(*ch));
        assert(c@.take(i + 1).drop_last() =~= c@.take(i as int));
    }
    assert(c@.take(n as int) =~= c@);
    out
}

} // verus!

verus! {

/// The number that a string of decimal digits denotes.
pub open spec fn digits_value(s: Seq<char>) -> int
    decreases s.len(),
{
    if s.len() == 0 {
        0
    } else {
        digits_value(s.drop_last()) * 10 + (s.last() as int - '0' as int)
    }
}

proof fn lemma_digit_char_value(d: nat)
    requires
        d < 10,
    ensures
        digit_char(d) as int - '0' as int == d,
{
    reveal_strlit("0123456789");
    if d == 0 {
    } else if d == 1 {
    } else if d == 2 {
    } else if d == 3 {
    } else if d == 4 {
    } else if d == 5 {
    } else if d == 6 {
    } else if d == 7 {
    } else if d == 8 {
    } else {
    }
}

proof fn lemma_decimal_value(n: nat)
    ensures
        digits_value(decimal(n)) == n,
        1 <= decimal(n).len(),
        n < 10 ==> decimal(n).len() == 1,
        10 <= n < 100 ==> decimal(n).len() == 2,
    decreases n,
{
    if n < 10 {
        lemma_digit_char_value(n);
        assert(seq![digit_char(n)].drop_last() =~= Seq::<char>::empty());
        assert(digits_value(Seq::<char>::empty()) == 0);
    } else {
        lemma_decimal_value(n / 10);
        lemma_digit_char_value(n % 10);
        assert(decimal(n).drop_last() =~= decimal(n / 10));
        assert(decimal(n).last() == digit_char(n % 10));
        assert(n == (n / 10) * 10 + n % 10);
    }
}

proof fn lemma_two_digits_value(n: nat)
    ensures
        digits_value(two_digits(n)) == n,
        n < 100 ==> two_digits(n).len() == 2,
{
    lemma_decimal_value(n);
    if n < 10 {
        let s = seq!['0'] + decimal(n);
        assert(s.drop_last() =~= seq!['0']);
        assert(seq!['0'].drop_last() =~= Seq::<char>::empty());
        assert(digits_value(Seq::<char>::empty()) == 0);
        assert(digits_value(seq!['0']) == 0);
        assert(s.last() == decimal(n).last());
        assert(decimal(n).drop_last() =~= Seq::<char>::empty());
    }
}

/// The timestamp shown for a chapter reads back as its start: the minutes times sixty
/// plus the seconds is the start, and the seconds always take two digits.
pub proof fn lemma_timestamp_reads_back(start_seconds: nat)
    ensures
        timestamp(start_seconds) == two_digits(start_seconds / 60) + ":"@ + two_digits(
            start_seconds % 60,
        ),
        two_digits(start_seconds % 60).len() == 2,
        digits_value(two_digits(start_seconds / 60)) * 60 + digits_value(
            two_digits(start_seconds % 60),
        ) == start_seconds,
{
    lemma_two_digits_value(start_seconds / 60);
    lemma_two_digits_value(start_seconds % 60);
}

} // verus!

verus! {

/// `c` is one of the decimal digits `0` to `9`.
pub open spec fn is_decimal_digit(c: char) -> bool {
    '0' <= c && c <= '9'
}

proof fn lemma_decimal_digits(n: nat)
    ensures
        forall|i: int| 0 <= i < decimal(n).len() ==> is_decimal_digit(#[trigger] decimal(n)[i]),
        n >= 1 ==> decimal(n)[0] != '0',
    decreases n,
{
    lemma_decimal_value(n);
    lemma_digit_char_value(n % 10);
    if n >= 10 {
        lemma_decimal_digits(n / 10);
        let d = decimal(n);
        assert forall|i: int| 0 <= i < d.len() implies is_decimal_digit(#[trigger] d[i]) by {
            if i < d.len() - 1 {
                assert(d[i] == decimal(n / 10)[i]);
            } else {
                assert(d[i] == digit_char(n % 10));
            }
        }
        assert(d[0] == decimal(n / 10)[0]);
    } else {
        assert(decimal(n)[0] == digit_char(n));
    }
}

/// The two-digit notation of `n` is its decimal notation, padded with one zero below ten:
/// it holds only the digits `0` to `9`, reads back as `n`, takes exactly two characters
/// below one hundred, and starts with a zero only when padded.
pub proof fn lemma_two_digits_notation(n: nat)
    ensures
        forall|i: int|
            0 <= i < two_digits(n).len() ==> is_decimal_digit(#[trigger] two_digits(n)[i]),
        digits_value(two_digits(n)) == n,
        n < 100 ==> two_digits(n).len() == 2,
        n >= 100 ==> two_digits(n).len() > 2,
        two_digits(n).len() > 2 ==> two_digits(n)[0] != '0',
{
    lemma_two_digits_value(n);
    lemma_decimal_digits(n);
    lemma_decimal_value(n);
    let t = two_digits(n);
    if n < 10 {
        assert forall|i: int| 0 <= i < t.len() implies is_decimal_digit(#[trigger] t[i]) by {
            if i == 0 {
                assert(t[0] == '0');
            } else {
                assert(t[i] == decimal(n)[i - 1]);
            }
        }
    } else if n >= 100 {
        lemma_decimal_len(n);
    }
}

proof fn lemma_decimal_len(n: nat)
    requires
        n >= 10,
    ensures
        decimal(n).len() >= 2,
        n >= 100 ==> decimal(n).len() > 2,
    decreases n,
{
    lemma_decimal_value(n / 10);
    if n >= 100 {
        lemma_decimal_len(n / 10);
    }
}

} // verus!

verus! {

/// The timestamp shown for a chapter is minutes, a colon, and two-digit seconds, all in
/// decimal digits: minutes times sixty plus seconds gives back the start, the seconds are
/// below sixty, the minutes take two digits below a hundred, and start with a zero only
/// when padded.
pub proof fn lemma_timestamp_layout(start_seconds: nat)
    ensures
        ({
            let t = timestamp(start_seconds);
            let minutes = t.take(t.len() - 3);
            let seconds = t.skip(t.len() - 2);
            &&& t.len() >= 5
            &&& t[t.len() - 3] == ':'
            &&& forall|i: int| 0 <= i < t.len() && i != t.len() - 3 ==> is_decimal_digit(#[trigger] t[i])
            &&& digits_value(minutes) * 60 + digits_value(seconds) == start_seconds
            &&& digits_value(seconds) < 60
            &&& start_seconds < 6000 ==> t.len() == 5
            &&& t.len() > 5 ==> t[0] != '0'
        }),
{
    reveal_strlit(":");
    let m = two_digits(start_seconds / 60);
    let s = two_digits(start_seconds % 60);
    lemma_two_digits_notation(start_seconds / 60);
    lemma_two_digits_notation(start_seconds % 60);
    let t = timestamp(start_seconds);
    assert(t == m + ":"@ + s);
    assert(t.take(t.len() - 3) =~= m);
    assert(t.skip(t.len() - 2) =~= s);
    assert forall|i: int| 0 <= i < t.len() && i != t.len() - 3 implies is_decimal_digit(#[trigger] t[i]) by {
        if i < m.len() {
            assert(t[i] == m[i]);
        } else {
            assert(t[i] == s[i - m.len() - 1]);
        }
    }
}

} // verus!

verus! {

/// Chapters are shown one after another: the text of two lists of chapters put together
/// is the text of the first followed by the text of the second.
pub proof fn lemma_chapters_text_concat(a: Seq<Chapter>, b: Seq<Chapter>)
    ensures
        chapters_text(a + b) == chapters_text(a) + chapters_text(b),
        chapters_text(Seq::empty()) == Seq::<char>::empty(),
    decreases b.len(),
{
    if b.len() == 0 {
        assert(a + b =~= a);
    } else {
        lemma_chapters_text_concat(a, b.drop_last());
        assert((a + b).drop_last() =~= a + b.drop_last());
        assert((a + b).last() == b.last());
    }
}

/// Key points are listed one after another, each on a line of its own that begins with
/// `  - `.
pub proof fn lemma_bullet_lines_concat(a: Seq<String>, b: Seq<String>, p: String)
    ensures
        bullet_lines(a + b) == bullet_lines(a) + bullet_lines(b),
        bullet_lines(seq![p]) == "  - "@ + p@ + "\n"@,
    decreases b.len(),
{
    assert(seq![p].drop_last() =~= Seq::<String>::empty());
    assert(bullet_lines(Seq::<String>::empty()) == Seq::<char>::empty());
    assert(Seq::<char>::empty() + "  - "@ =~= "  - "@);
    if b.len() == 0 {
        assert(a + b =~= a);
    } else {
        lemma_bullet_lines_concat(a, b.drop_last(), p);
        assert((a + b).drop_last() =~= a + b.drop_last());
        assert((a + b).last() == b.last());
    }
}

/// Topics are joined in order with the separator between each two: a single topic is
/// itself, and two non-empty lists joined together have the separator once between them.
pub proof fn lemma_joined_concat(a: Seq<String>, b: Seq<String>, sep: Seq<char>, x: String)
    requires
        a.len() > 0,
        b.len() > 0,
    ensures
        joined(a + b, sep) == joined(a, sep) + sep + joined(b, sep),
        joined(seq![x], sep) == x@,
    decreases b.len(),
{
    if b.len() == 1 {
        assert((a + b).drop_last() =~= a);
        assert(joined(b, sep) == b[0]@);
    } else {
        lemma_joined_concat(a, b.drop_last(), sep, x);
        assert((a + b).drop_last() =~= a + b.drop_last());
        assert((a + b).last() == b.last());
    }
}

} // verus!
