//! The weekly Rust newsletter: which issues to fetch, and the issues of its archive.
use vstd::prelude::*;

use crate::error::Error;
use crate::calendar::{iso_date, iso_date_of};
use crate::text::{chars_of, decimal, decimal_of, push_all, push_str, string_of};

verus! {

/// A blank that may stand around the numbers of an issue selection.
pub open spec fn is_blank(c: char) -> bool {
    c == ' ' || c == '\t' || c == '\n' || c == '\r' || c == '\x0B' || c == '\x0C'
}

/// An ASCII decimal digit.
pub open spec fn is_digit(c: char) -> bool {
    '0' <= c && c <= '9'
}

/// The value of a digit.
pub open spec fn digit_value(c: char) -> nat {
    (c as u32 - '0' as u32) as nat
}

/// The value of a string of digits.
pub open spec fn digits_value(s: Seq<char>) -> nat
    decreases s.len(),
{
    if s.len() == 0 {
        0
    } else {
        digits_value(s.drop_last()) * 10 + digit_value(s.last())
    }
}

/// `s` without the blanks at its start.
pub open spec fn skip_blanks(s: Seq<char>) -> Seq<char>
    decreases s.len(),
{
    if s.len() > 0 && is_blank(s[0]) {
        skip_blanks(s.drop_first())
    } else {
        s
    }
}

/// `s` without the blanks at its end.
pub open spec fn drop_blanks(s: Seq<char>) -> Seq<char>
    decreases s.len(),
{
    if s.len() > 0 && is_blank(s.last()) {
        drop_blanks(s.drop_last())
    } else {
        s
    }
}

/// The digits at the start of `s`.
pub open spec fn leading_digits(s: Seq<char>) -> Seq<char>
    decreases s.len(),
{
    if s.len() > 0 && is_digit(s[0]) {
        seq![s[0]] + leading_digits(s.drop_first())
    } else {
        Seq::empty()
    }
}

/// The issue number written by `s`: digits, the first not `0`, with a value that fits in `u32`.
pub open spec fn number_of(s: Seq<char>) -> Option<u32> {
    if s.len() > 0 && s[0] != '0' && (forall|i: int| 0 <= i < s.len() ==> is_digit(#[trigger] s[i]))
        && digits_value(s) <= u32::MAX {
        Some(digits_value(s) as u32)
    } else {
        None
    }
}

/// The newsletter issues to fetch.
#[derive(Debug, Clone, Copy, PartialEq, Eq, Structural)]
pub enum Issues {
    /// The issues from the first number to the second, both included.
    Range(u32, u32),
    /// One issue.
    Single(u32),
}

/// The selection that `s` writes: a number, or two numbers with `..` between them
/// (in either order), with blanks allowed around each part.
pub open spec fn issues_of(s: Seq<char>) -> Option<Issues> {
    let t = drop_blanks(skip_blanks(s));
    let a = leading_digits(t);
    let rest = skip_blanks(t.skip(a.len() as int));
    match number_of(a) {
        None => None,
        Some(x) => if rest.len() == 0 {
            Some(Issues::Single(x))
        } else if rest.len() >= 2 && rest[0] == '.' && rest[1] == '.' {
            match number_of(skip_blanks(rest.skip(2))) {
                Some(y) => if x <= y {
                    Some(Issues::Range(x, y))
                } else {
                    Some(Issues::Range(y, x))
                },
                None => None,
            }
        } else {
            None
        },
    }
}

/// The position of the first non-blank at or after `i`.
fn skip_blanks_from(s: &Vec<char>, i: usize) -> (r: usize)
    requires
        i <= s.len(),
    ensures
        i <= r <= s.len(),
        s@.subrange(r as int, s.len() as int) == skip_blanks(s@.subrange(i as int, s.len() as int)),
{
    let mut j = i;
    while j < s.len() && (s[j] == ' ' || s[j] == '\t' || s[j] == '\n' || s[j] == '\r' || s[j]
        == '\x0B' || s[j] == '\x0C')
        invariant
            i <= j <= s.len(),
            skip_blanks(s@.subrange(i as int, s.len() as int)) == skip_blanks(
                s@.subrange(j as int, s.len() as int),
            ),
        decreases s.len() - j,
    {
        assert(s@.subrange(j as int, s.len() as int).drop_first() == s@.subrange(
            j + 1,
            s.len() as int,
        ));
        j = j + 1;
    }
    j
}

/// The issue number written by `s[a..b]`.
fn parse_number(s: &Vec<char>, a: usize, b: usize) -> (r: Option<u32>)
    requires
        a <= b <= s.len(),
    ensures
        r == number_of(s@.subrange(a as int, b as int)),
{
    let ghost t = s@.subrange(a as int, b as int);
    if a == b || s[a] == '0' {
        return None;
    }
    let mut acc: u64 = 0;
    let mut i = a;
    while i < b
        invariant
            a <= i <= b <= s.len(),
            t == s@.subrange(a as int, b as int),
            acc as nat == digits_value(t.take(i - a)),
            acc <= u32::MAX,
            forall|k: int| 0 <= k < i - a ==> is_digit(#[trigger] t[k]),
        decreases b - i,
    {
        let c = s[i];
        assert(t.take(i - a + 1).drop_last() == t.take(i - a));
        if !('0' <= c && c <= '9') {
            assert(!is_digit(t[i - a]));
            return None;
        }
        let d = (c as u32 - '0' as u32) as u64;
        acc = acc * 10 + d;
        if acc > 0xFFFF_FFFF {
            proof {
                lemma_digits_value_grows(t, (i - a + 1) as int);
            }
            return None;
        }
        i = i + 1;
    }
    assert(t.take(b - a) == t);
    Some(acc as u32)
}

/// The value of a string of digits is at least the value of any of its prefixes.
proof fn lemma_digits_value_grows(t: Seq<char>, k: int)
    requires
        0 <= k <= t.len(),
    ensures
        digits_value(t.take(k)) <= digits_value(t),
    decreases t.len() - k,
{
    if k < t.len() {
        lemma_digits_value_grows(t, k + 1);
        assert(t.take(k + 1).drop_last() == t.take(k));
    } else {
        assert(t.take(k) == t);
    }
}

impl Issues {
    /// Reads an issue selection; fails with `IllegalIssue` where `s` writes none.
    pub fn from_str(s: &str) -> (r: Result<Issues, Error>)
        ensures
            match issues_of(s@) {
                Some(x) => r == Ok::<Issues, Error>(x),
                None => r is Err && r->Err_0 is IllegalIssue && r->Err_0->IllegalIssue_0@ == s@,
            },
    {
        let v = chars_of(s);
        match Issues::read(&v) {
            Some(x) => Ok(x),
            None => Err(Error::IllegalIssue(String::from_str(s))),
        }
    }

    /// The selection that `v` writes.
    #[verifier::loop_isolation(false)]
    #[verifier::spinoff_prover]
    #[verifier::rlimit(40)]
    fn read(v: &Vec<char>) -> (r: Option<Issues>)
        ensures
            r == issues_of(v@),
    {
        assert(v@.subrange(0, v.len() as int) == v@);
        let start = skip_blanks_from(v, 0);
        let mut end = v.len();
        while end > start && (v[end - 1] == ' ' || v[end - 1] == '\t' || v[end - 1] == '\n' || v[end
            - 1] == '\r' || v[end - 1] == '\x0B' || v[end - 1] == '\x0C')
            invariant
                start <= end <= v.len(),
                drop_blanks(skip_blanks(v@)) == drop_blanks(v@.subrange(start as int, end as int)),
            decreases end - start,
        {
            assert(v@.subrange(start as int, end as int).drop_last() == v@.subrange(
                start as int,
                end - 1,
            ));
            end = end - 1;
        }
        let ghost t = v@.subrange(start as int, end as int);
        assert(drop_blanks(t) == t);
        let mut a_end = start;
        while a_end < end && '0' <= v[a_end] && v[a_end] <= '9'
            invariant
                start <= a_end <= end <= v.len(),
                leading_digits(t) == v@.subrange(start as int, a_end as int) + leading_digits(
                    v@.subrange(a_end as int, end as int),
                ),
            decreases end - a_end,
        {
            assert(v@.subrange(a_end as int, end as int).drop_first() == v@.subrange(
                a_end + 1,
                end as int,
            ));
            assert(v@.subrange(start as int, a_end + 1) == v@.subrange(start as int, a_end as int)
                + seq![v[a_end as int]]);
            a_end = a_end + 1;
        }
        let x = match parse_number(v, start, a_end) {
            Some(x) => x,
            None => return None,
        };
        // positions past the first number, within the trimmed text
        let ghost a = v@.subrange(start as int, a_end as int);
        assert(t.skip(a.len() as int) == v@.subrange(a_end as int, end as int));
        let tv = crate::text::slice_of(v, 0, end);
        assert(tv@.subrange(a_end as int, end as int) == v@.subrange(a_end as int, end as int));
        let m = skip_blanks_from(&tv, a_end);
        if m == end {
            return Some(Issues::Single(x));
        }
        if end - m >= 2 && v[m] == '.' && v[m + 1] == '.' {
            let n = skip_blanks_from(&tv, m + 2);
            assert(tv@.subrange(m as int, end as int).skip(2) == tv@.subrange(m + 2, end as int));
            assert(tv@.subrange(n as int, end as int) == v@.subrange(n as int, end as int));
            match parse_number(v, n, end) {
                Some(y) => if x <= y {
                    Some(Issues::Range(x, y))
                } else {
                    Some(Issues::Range(y, x))
                },
                None => None,
            }
        } else {
            None
        }
    }
}


/// One newsletter issue of the archive.
#[derive(Debug)]
pub struct Note {
    /// When it was published, in seconds since the Unix epoch.
    pub instant: i64,
    /// The year of publication, where it was published.
    pub year: u32,
    /// The month of publication.
    pub month: u32,
    /// The day of publication.
    pub day: u32,
    /// The title.
    pub title: String,
    /// The address of the issue.
    pub url: String,
}

impl Note {
    /// When the issue was published, in seconds since the Unix epoch.
    pub fn datetime(&self) -> (r: i64)
        ensures
            r == self.instant,
    {
        self.instant
    }

    /// The title.
    pub fn title(&self) -> (r: &str)
        ensures
            r@ == self.title@,
    {
        self.title.as_str()
    }

    /// The address of the issue.
    pub fn url(&self) -> (r: &str)
        ensures
            r@ == self.url@,
    {
        self.url.as_str()
    }
}

/// Each note is no older than the ones after it.
pub open spec fn newest_first(s: Seq<Note>) -> bool {
    forall|i: int, j: int| 0 <= i < j < s.len() ==> s[i].instant >= s[j].instant
}

/// `out` holds the notes of `all` at the positions `pos`, each at most once, and
/// notes published at the same instant stand in the order they had in `all`.
pub open spec fn placed_stably(out: Seq<Note>, all: Seq<Note>, pos: Seq<int>) -> bool {
    &&& pos.len() == out.len()
    &&& forall|k: int| 0 <= k < out.len() ==> 0 <= #[trigger] pos[k] < all.len() && out[k] == all[pos[k]]
    &&& forall|a: int, b: int| 0 <= a < b < out.len() ==> pos[a] != pos[b]
    &&& forall|a: int, b: int|
        0 <= a < b < out.len() && out[a].instant == out[b].instant ==> pos[a] < pos[b]
}

/// `t` ends with `p`.
pub open spec fn ends_with(t: Seq<char>, p: Seq<char>) -> bool {
    p.len() <= t.len() && t.skip(t.len() - p.len()) == p
}

/// The issues of the newsletter archive, newest first.
pub struct Notes {
    notes: Vec<Note>,
}

impl View for Notes {
    type V = Seq<Note>;

    closed spec fn view(&self) -> Seq<Note> {
        self.notes@
    }
}

impl Notes {
    /// The issues, ordered newest first; issues published at the same instant keep
    /// their order.
    #[verifier::spinoff_prover]
    #[verifier::rlimit(40)]
    pub fn from_notes(notes: Vec<Note>) -> (r: Notes)
        ensures
            newest_first(r@),
            r@.to_multiset() == notes@.to_multiset(),
            exists|pos: Seq<int>| placed_stably(r@, notes@, pos),
    {
        let ghost all = notes@;
        let mut out: Vec<Note> = Vec::new();
        let ghost mut pos: Seq<int> = Seq::empty();
        assert(all.take(0) =~= out@);
        for x in it: notes
            invariant
                it.seq() == all,
                newest_first(out@),
                out@.to_multiset() == all.take(it.index() as int).to_multiset(),
                placed_stably(out@, all, pos),
                forall|k: int| 0 <= k < pos.len() ==> #[trigger] pos[k] < it.index(),
        {
            let ghost k = it.index();
            let mut p: usize = 0;
            while p < out.len() && out[p].instant >= x.instant
                invariant
                    p <= out.len(),
                    forall|j: int| 0 <= j < p ==> out@[j].instant >= x.instant,
                decreases out.len() - p,
            {
                p = p + 1;
            }
            let ghost before = out@;
            let ghost before_pos = pos;
            out.insert(p, x);
            proof {
                vstd::seq_lib::to_multiset_insert(before, p as int, all[k]);
                vstd::seq_lib::to_multiset_build(all.take(k), all[k]);
                pos = before_pos.insert(p as int, k as int);
                assert forall|j: int| 0 <= j < out@.len() implies 0 <= #[trigger] pos[j] < all.len()
                    && out@[j] == all[pos[j]] by {
                    if j < p {
                        assert(pos[j] == before_pos[j]);
                    } else if j > p {
                        assert(pos[j] == before_pos[j - 1]);
                        assert(out@[j] == before[j - 1]);
                    }
                }
                assert forall|a: int, b: int| 0 <= a < b < out@.len() implies pos[a] != pos[b] by {
                    if a != p && b != p {
                        let a0 = if a < p { a } else { a - 1 };
                        let b0 = if b < p { b } else { b - 1 };
                        assert(pos[a] == before_pos[a0] && pos[b] == before_pos[b0]);
                    } else if a == p {
                        assert(pos[b] == before_pos[b - 1]);
                    } else {
                        assert(pos[a] == before_pos[a]);
                    }
                }
                assert forall|a: int, b: int|
                    0 <= a < b < out@.len() && out@[a].instant == out@[b].instant implies pos[a]
                    < pos[b] by {
                    if a != p && b != p {
                        let a0 = if a < p { a } else { a - 1 };
                        let b0 = if b < p { b } else { b - 1 };
                        assert(pos[a] == before_pos[a0] && pos[b] == before_pos[b0]);
                        assert(out@[a] == before[a0] && out@[b] == before[b0]);
                    } else if a == p {
                        assert(out@[b] == before[b - 1]);
                        assert(before[p as int].instant < all[k].instant);
                        assert(before[p as int].instant >= before[b - 1].instant || p == b - 1);
                    } else {
                        assert(pos[a] == before_pos[a]);
                    }
                }
                assert forall|j: int| 0 <= j < pos.len() implies #[trigger] pos[j] < k + 1 by {
                    if j < p {
                        assert(pos[j] == before_pos[j]);
                    } else if j > p {
                        assert(pos[j] == before_pos[j - 1]);
                    }
                }
                assert(all.take(k + 1) =~= all.take(k).push(all[k]));
                assert forall|i: int, j: int| 0 <= i < j < out@.len() implies out@[i].instant
                    >= out@[j].instant by {
                    if j < p {
                    } else if j == p {
                    } else if i < p {
                        assert(out@[j] == before[j - 1]);
                        if p < before.len() {
                            assert(before[p as int].instant < all[k].instant);
                        }
                        assert(before[i].instant >= before[j - 1].instant || i == j - 1);
                    } else if i == p {
                        assert(before[p as int].instant < all[k].instant);
                        assert(out@[j] == before[j - 1]);
                        if p < j - 1 {
                            assert(before[p as int].instant >= before[j - 1].instant);
                        }
                    } else {
                        assert(out@[i] == before[i - 1]);
                        assert(out@[j] == before[j - 1]);
                    }
                }
            }
        }
        assert(all.take(all.len() as int) == all);
        assert(placed_stably(out@, notes@, pos));
        Notes { notes: out }
    }

    /// Only the newest issue, where there is one.
    pub fn first(self) -> (r: Notes)
        ensures
            r@ == self@.take(if self@.len() > 0 {
                1int
            } else {
                0int
            }),
    {
        let mut notes = self.notes;
        notes.truncate(1);
        Notes { notes }
    }

    /// The issues, newest first.
    pub fn iter(&self) -> (r: &Vec<Note>)
        ensures
            r@ == self@,
    {
        &self.notes
    }

    /// The newest issue whose title ends with the decimal form of `number`; fails with
    /// `IllegalIssue` where there is none.
    pub fn find(&self, number: u32) -> (r: Result<&Note, Error>)
        ensures
            match r {
                Ok(n) => exists|i: int|
                    0 <= i < self@.len() && self@[i] == *n && ends_with(
                        self@[i].title@,
                        decimal(number as nat),
                    ) && forall|j: int|
                        0 <= j < i ==> !ends_with(
                            #[trigger] self@[j].title@,
                            decimal(number as nat),
                        ),
                Err(e) => e is IllegalIssue && e->IllegalIssue_0@ == decimal(number as nat) && forall|
                    j: int,
                | 0 <= j < self@.len() ==> !ends_with(
                    #[trigger] self@[j].title@,
                    decimal(number as nat),
                ),
            },
    {
        let issue = decimal_of(number as u64);
        let mut i: usize = 0;
        while i < self.notes.len()
            invariant
                i <= self.notes.len(),
                issue@ == decimal(number as nat),
                forall|j: int|
                    0 <= j < i ==> !ends_with(#[trigger] self@[j].title@, decimal(number as nat)),
            decreases self.notes.len() - i,
        {
            let t = chars_of(self.notes[i].title.as_str());
            if t.len() >= issue.len() && crate::text::match_at(&t, &issue, t.len() - issue.len()) {
                assert(t@.skip(t.len() - issue.len()) =~= t@.subrange(
                    t.len() - issue.len(),
                    t.len() as int,
                ));
                assert(self@[i as int] == self.notes@[i as int]);
                assert(ends_with(self@[i as int].title@, decimal(number as nat)));
                return Ok(&self.notes[i]);
            }
            proof {
                if ends_with(t@, issue@) {
                    assert(t@.subrange(t.len() - issue.len(), t.len() as int) =~= t@.skip(
                        t.len() - issue.len(),
                    ));
                }
            }
            i = i + 1;
        }
        Err(Error::IllegalIssue(string_of(issue.as_slice())))
    }
}


/// The selector of the article of a newsletter page.
pub const ARTICLE_SELECTOR: &'static str = "article.post-content";

/// The inner HTML of the first element of `page` that `selector` selects: `None`
/// where the selector does not parse, `Some(None)` where it selects nothing.
pub uninterp spec fn first_inner_html(page: Seq<char>, selector: Seq<char>) -> Option<
    Option<Seq<char>>,
>;

/// The article of a newsletter page, as HTML.
pub open spec fn article_of(page: Seq<char>) -> Option<Seq<char>> {
    match first_inner_html(page, ARTICLE_SELECTOR@) {
        Some(Some(a)) => Some(a),
        _ => None,
    }
}

/// The Markdown form of an HTML text.
pub uninterp spec fn markdown_of(html: Seq<char>) -> Seq<char>;

/// Relies on `Selector::parse`, which reports a selector that does not parse,
/// `Html::parse_document`, `Html::select` and `ElementRef::inner_html`. With
/// scraper's `deterministic` feature an element keeps its attributes in source
/// order, so the HTML written depends on the page alone.
#[verifier::external_body]
fn select_first_inner_html(page: &str, selector: &str) -> (r: Option<Option<String>>)
    ensures
        match first_inner_html(page@, selector@) {
            None => r is None,
            Some(None) => r is Some && r->Some_0 is None,
            Some(Some(h)) => r is Some && r->Some_0 is Some && r->Some_0->Some_0@ == h,
        },
{
    let selector = scraper::Selector::parse(selector).ok()?;
    let document = scraper::Html::parse_document(page);
    Some(document.select(&selector).next().map(|element| element.inner_html()))
}

/// Relies on `html2md::parse_html`: the Markdown form of the HTML text.
#[verifier::external_body]
fn html_to_markdown(html: &str) -> (r: String)
    ensures
        r@ == markdown_of(html@),
{
    html2md::parse_html(html)
}

/// The publication date of a note, written `YYYY-MM-DD`.
pub open spec fn note_date(n: Note) -> Seq<char> {
    iso_date(n.year as nat, n.month as nat, n.day as nat)
}

/// The links to the issues before and after the issue `number`.
pub open spec fn issue_links(number: nat) -> Seq<char> {
    if number > 1 {
        "<< [[TWiR "@ + decimal((number - 1) as nat) + "|"@ + decimal((number - 1) as nat)
            + "]] | [[TWiR "@ + decimal(number + 1) + "|"@ + decimal(number + 1) + "]] >>\n"@
    } else {
        "| [[TWiR "@ + decimal(number + 1) + "|"@ + decimal(number + 1) + "]] >>\n"@
    }
}

/// The text of the note of the issue `number`: its metadata block, the links to
/// the issues around it, a heading (linking the daily note where `daily` holds),
/// and the Markdown of the issue.
pub open spec fn issue_note(number: nat, n: Note, daily: bool, markdown: Seq<char>) -> Seq<char> {
    let date = note_date(n);
    "---\ntype: news\nissue: "@ + decimal(number) + "\ndate: "@ + date
        + "\ntags:\n- rust\n- news/twir\naliases:\n- \""@ + n.title@ + "\"\n- \"TWiR "@ + date
        + " This Week in Rust "@ + decimal(number) + "\"\nurl: "@ + n.url@ + "\n---\n\n"@
        + issue_links(number) + "\n"@ + (if daily {
        "# [["@ + date + "]]: This Week in Rust "@ + decimal(number) + "\n"@
    } else {
        "# "@ + date + ": This Week in Rust "@ + decimal(number) + "\n"@
    }) + "\n"@ + markdown
}

/// The text of the note of the issue `number`.
#[verifier::spinoff_prover]
#[verifier::rlimit(40)]
pub fn issue_note_of(number: u32, note: &Note, daily: bool, markdown: &str) -> (r: String)
    ensures
        r@ == issue_note(number as nat, *note, daily, markdown@),
{
    let n = decimal_of(number as u64);
    let date = iso_date_of(note.year, note.month, note.day);
    let title = chars_of(note.title.as_str());
    let url = chars_of(note.url.as_str());
    let next = decimal_of(number as u64 + 1);
    let mut out: Vec<char> = Vec::new();
    push_str(&mut out, "---\ntype: news\nissue: ");
    push_all(&mut out, &n);
    push_str(&mut out, "\ndate: ");
    push_all(&mut out, &date);
    push_str(&mut out, "\ntags:\n- rust\n- news/twir\naliases:\n- \"");
    push_all(&mut out, &title);
    push_str(&mut out, "\"\n- \"TWiR ");
    push_all(&mut out, &date);
    push_str(&mut out, " This Week in Rust ");
    push_all(&mut out, &n);
    push_str(&mut out, "\"\nurl: ");
    push_all(&mut out, &url);
    push_str(&mut out, "\n---\n\n");
    let ghost head = out@;
    if number > 1 {
        let prev = decimal_of(number as u64 - 1);
        push_str(&mut out, "<< [[TWiR ");
        push_all(&mut out, &prev);
        push_str(&mut out, "|");
        push_all(&mut out, &prev);
        push_str(&mut out, "]] | [[TWiR ");
        push_all(&mut out, &next);
        push_str(&mut out, "|");
        push_all(&mut out, &next);
        push_str(&mut out, "]] >>\n");
    } else {
        push_str(&mut out, "| [[TWiR ");
        push_all(&mut out, &next);
        push_str(&mut out, "|");
        push_all(&mut out, &next);
        push_str(&mut out, "]] >>\n");
    }
    assert(out@ =~= head + issue_links(number as nat));
    push_str(&mut out, "\n");
    let ghost mid = out@;
    if daily {
        push_str(&mut out, "# [[");
        push_all(&mut out, &date);
        push_str(&mut out, "]]: This Week in Rust ");
        push_all(&mut out, &n);
        push_str(&mut out, "\n");
    } else {
        push_str(&mut out, "# ");
        push_all(&mut out, &date);
        push_str(&mut out, ": This Week in Rust ");
        push_all(&mut out, &n);
        push_str(&mut out, "\n");
    }
    push_str(&mut out, "\n");
    push_str(&mut out, markdown);
    assert(out@ =~= issue_note(number as nat, *note, daily, markdown@));
    string_of(out.as_slice())
}

/// The text of the note of the issue `number` from the page of the issue; fails with
/// `IllegalHTMLContent` where the page has no article.
pub fn issue_note_from_page(number: u32, note: &Note, daily: bool, page: &str) -> (r: Result<
    String,
    Error,
>)
    ensures
        match article_of(page@) {
            Some(a) => r is Ok && r->Ok_0@ == issue_note(
                number as nat,
                *note,
                daily,
                markdown_of(a),
            ),
            None => r is Err && r->Err_0 is IllegalHTMLContent,
        },
{
    match select_first_inner_html(page, ARTICLE_SELECTOR) {
        Some(Some(article)) => {
            let md = html_to_markdown(article.as_str());
            Ok(issue_note_of(number, note, daily, md.as_str()))
        },
        _ => Err(Error::IllegalHTMLContent),
    }
}

/// The line that links the daily note to the note of the issue `number`.
pub open spec fn issue_daily_line(number: nat) -> Seq<char> {
    "\n\n`rir:Newspaper` [[Twir "@ + decimal(number) + "|This Week in Rust "@ + decimal(number)
        + "]]\n"@
}

/// The line that links the daily note to the note of the issue `number`.
pub fn issue_daily_line_of(number: u32) -> (r: String)
    ensures
        r@ == issue_daily_line(number as nat),
{
    let n = decimal_of(number as u64);
    let mut out: Vec<char> = Vec::new();
    push_str(&mut out, "\n\n`rir:Newspaper` [[Twir ");
    push_all(&mut out, &n);
    push_str(&mut out, "|This Week in Rust ");
    push_all(&mut out, &n);
    push_str(&mut out, "]]\n");
    assert(out@ =~= issue_daily_line(number as nat));
    string_of(out.as_slice())
}

} // verus!
