//! Locating the delimited metadata block at the head of a note.
//!
//! A note is a sequence of lines; a line ends after its `'\n'`, or at the end
//! of the text. A delimiter line is `---` followed by `"\n"`, `"\r\n"` or the
//! end of the text. The block opens at the first delimiter line and closes at
//! the next one; the metadata is the text strictly between the two.
//! Positions are character offsets into the note.
use vstd::prelude::*;

use crate::error::Error;

verus! {

/// The position just past the line that starts at `i`.
pub open spec fn line_end(s: Seq<char>, i: int) -> int
    decreases s.len() - i,
{
    if i < 0 || i >= s.len() {
        s.len() as int
    } else if s[i] == '\n' {
        i + 1
    } else {
        line_end(s, i + 1)
    }
}

/// The line that starts at `i` is a delimiter line.
pub open spec fn is_delimiter_at(s: Seq<char>, i: int) -> bool {
    &&& 0 <= i
    &&& i + 3 <= s.len()
    &&& s[i] == '-' && s[i + 1] == '-' && s[i + 2] == '-'
    &&& (i + 3 == s.len() || s[i + 3] == '\n' || (i + 4 < s.len() && s[i + 3] == '\r' && s[i + 4]
        == '\n'))
}

/// The start of the first delimiter line among the lines from the one that starts at `i` on.
pub open spec fn next_delimiter(s: Seq<char>, i: int) -> Option<int>
    decreases s.len() - i,
    via next_delimiter_decreases
{
    if i < 0 || i >= s.len() {
        None
    } else if is_delimiter_at(s, i) {
        Some(i)
    } else {
        next_delimiter(s, line_end(s, i))
    }
}

#[via_fn]
proof fn next_delimiter_decreases(s: Seq<char>, i: int) {
    if 0 <= i < s.len() {
        lemma_line_end_bounds(s, i);
    }
}

/// A line that starts inside the text ends after it starts and no later than the text.
pub proof fn lemma_line_end_bounds(s: Seq<char>, i: int)
    requires
        0 <= i < s.len(),
    ensures
        i < line_end(s, i) <= s.len(),
    decreases s.len() - i,
{
    if s[i] != '\n' {
        if i + 1 < s.len() {
            lemma_line_end_bounds(s, i + 1);
        } else {
            assert(line_end(s, i + 1) == s.len());
        }
    }
}

/// A delimiter found from `i` on starts a delimiter line at or after `i`.
pub proof fn lemma_next_delimiter_found(s: Seq<char>, i: int)
    requires
        next_delimiter(s, i) is Some,
    ensures
        i <= next_delimiter(s, i)->0 < s.len(),
        is_delimiter_at(s, next_delimiter(s, i)->0),
    decreases s.len() - i,
{
    if !is_delimiter_at(s, i) {
        lemma_line_end_bounds(s, i);
        lemma_next_delimiter_found(s, line_end(s, i));
    }
}

/// Where the metadata block of a note stands.
pub struct FrontMatterSpan {
    /// The start of the opening delimiter line.
    pub open: usize,
    /// The start of the metadata text: the line after the opening delimiter.
    pub first: usize,
    /// The start of the closing delimiter line, just past the metadata text.
    pub close: usize,
}

/// The span of the metadata block of `s`: `None` where `s` has no delimiter line;
/// `Some(None)` where it has an opening delimiter and no closing one.
pub open spec fn span_of(s: Seq<char>) -> Option<Option<(int, int, int)>> {
    match next_delimiter(s, 0) {
        None => None,
        Some(o) => match next_delimiter(s, line_end(s, o)) {
            None => Some(None),
            Some(c) => Some(Some((o, line_end(s, o), c))),
        },
    }
}

/// The span of a closed block is ordered and lies inside the text.
pub proof fn lemma_span_bounds(s: Seq<char>)
    requires
        span_of(s) matches Some(Some(_)),
    ensures
        span_of(s) matches Some(Some((o, f, c))) && 0 <= o < f <= c < s.len(),
{
    lemma_next_delimiter_found(s, 0);
    let o = next_delimiter(s, 0)->0;
    lemma_line_end_bounds(s, o);
    lemma_next_delimiter_found(s, line_end(s, o));
}

/// The end of the line that starts at `i`.
fn find_line_end(s: &Vec<char>, i: usize) -> (r: usize)
    requires
        i <= s.len(),
    ensures
        r == line_end(s@, i as int),
{
    let mut j = i;
    while j < s.len() && s[j] != '\n'
        invariant
            i <= j <= s.len(),
            line_end(s@, i as int) == line_end(s@, j as int),
        decreases s.len() - j,
    {
        j = j + 1;
    }
    if j < s.len() {
        j + 1
    } else {
        j
    }
}

/// Whether the line that starts at `i` is a delimiter line.
fn delimiter_at(s: &Vec<char>, i: usize) -> (r: bool)
    ensures
        r == is_delimiter_at(s@, i as int),
{
    let n = s.len();
    if i > n || n - i < 3 {
        return false;
    }
    if !(s[i] == '-' && s[i + 1] == '-' && s[i + 2] == '-') {
        return false;
    }
    i + 3 == n || s[i + 3] == '\n' || (i + 4 < n && s[i + 3] == '\r' && s[i + 4] == '\n')
}

/// The start of the first delimiter line from the line that starts at `i` on.
fn find_delimiter(s: &Vec<char>, i: usize) -> (r: Option<usize>)
    requires
        i <= s.len(),
    ensures
        match next_delimiter(s@, i as int) {
            None => r is None,
            Some(k) => r == Some(k as usize),
        },
{
    let mut j = i;
    while j < s.len()
        invariant
            i <= j <= s.len(),
            next_delimiter(s@, i as int) == next_delimiter(s@, j as int),
        decreases s.len() - j,
    {
        if delimiter_at(s, j) {
            return Some(j);
        }
        proof {
            lemma_line_end_bounds(s@, j as int);
        }
        j = find_line_end(s, j);
    }
    None
}

/// Locates the metadata block of a note.
///
/// Fails with `NoteMetadataNotFound` where the note has no delimiter line, and
/// with `IllegalNoteMetadata` where it has an opening delimiter and no closing one.
pub fn locate(s: &Vec<char>) -> (r: Result<FrontMatterSpan, Error>)
    ensures
        match span_of(s@) {
            None => r is Err && r->Err_0 is NoteMetadataNotFound,
            Some(None) => r is Err && r->Err_0 is IllegalNoteMetadata,
            Some(Some((o, f, c))) => r is Ok && r->Ok_0.open == o && r->Ok_0.first == f
                && r->Ok_0.close == c,
        },
        r is Ok ==> r->Ok_0.open < r->Ok_0.first <= r->Ok_0.close < s.len(),
{
    match find_delimiter(s, 0) {
        None => Err(Error::NoteMetadataNotFound),
        Some(open) => {
            proof {
                lemma_next_delimiter_found(s@, 0);
                lemma_line_end_bounds(s@, open as int);
            }
            let first = find_line_end(s, open);
            match find_delimiter(s, first) {
                None => Err(Error::IllegalNoteMetadata),
                Some(close) => {
                    proof {
                        lemma_next_delimiter_found(s@, first as int);
                        lemma_span_bounds(s@);
                    }
                    Ok(FrontMatterSpan { open, first, close })
                },
            }
        },
    }
}


/// `next_delimiter` moved `d` positions on.
pub open spec fn shifted(o: Option<int>, d: int) -> Option<int> {
    match o {
        Some(k) => Some(k + d),
        None => None,
    }
}

/// A line that starts in `a` and that `a` ends is the same line in `a + b`.
proof fn lemma_line_end_append(a: Seq<char>, b: Seq<char>, i: int)
    requires
        a.len() > 0 && a.last() == '\n',
        0 <= i < a.len(),
    ensures
        line_end(a + b, i) == line_end(a, i),
        line_end(a, i) <= a.len(),
    decreases a.len() - i,
{
    assert((a + b)[i] == a[i]);
    if a[i] != '\n' {
        lemma_line_end_append(a, b, i + 1);
    }
}

/// The lines of `b` are the lines of `a + b` after `a`.
proof fn lemma_line_end_shift(a: Seq<char>, b: Seq<char>, j: int)
    requires
        0 <= j <= b.len(),
    ensures
        line_end(a + b, a.len() + j) == a.len() + line_end(b, j),
    decreases b.len() - j,
{
    if j < b.len() {
        assert((a + b)[a.len() + j] == b[j]);
        if b[j] != '\n' {
            lemma_line_end_shift(a, b, j + 1);
        }
    }
}

/// Delimiter lines of `b` are delimiter lines of `a + b` after `a`, and no others are.
proof fn lemma_next_delimiter_shift(a: Seq<char>, b: Seq<char>, j: int)
    requires
        0 <= j <= b.len(),
    ensures
        next_delimiter(a + b, a.len() + j) == shifted(next_delimiter(b, j), a.len() as int),
        is_delimiter_at(a + b, a.len() + j) == is_delimiter_at(b, j),
    decreases b.len() - j,
{
    let s = a + b;
    let k = a.len() + j;
    if j + 3 <= b.len() {
        assert(s[k] == b[j] && s[k + 1] == b[j + 1] && s[k + 2] == b[j + 2]);
    }
    if j + 3 < b.len() {
        assert(s[k + 3] == b[j + 3]);
    }
    if j + 4 < b.len() {
        assert(s[k + 4] == b[j + 4]);
    }
    if j < b.len() && !is_delimiter_at(b, j) {
        lemma_line_end_bounds(b, j);
        lemma_line_end_shift(a, b, j);
        lemma_next_delimiter_shift(a, b, line_end(b, j));
    }
}

/// Where `a` ends a line, the delimiter lines of `a + b` from a position in `a` are
/// those of `a`, then those of `b`.
proof fn lemma_next_delimiter_append(a: Seq<char>, b: Seq<char>, i: int)
    requires
        a.len() == 0 || a.last() == '\n',
        0 <= i <= a.len(),
    ensures
        next_delimiter(a + b, i) == match next_delimiter(a, i) {
            Some(k) => Some(k),
            None => shifted(next_delimiter(b, 0), a.len() as int),
        },
    decreases a.len() - i,
{
    let s = a + b;
    if i == a.len() {
        lemma_next_delimiter_shift(a, b, 0);
    } else {
        assert(s[i] == a[i]);
        if i + 1 < a.len() {
            assert(s[i + 1] == a[i + 1]);
        }
        if i + 2 < a.len() {
            assert(s[i + 2] == a[i + 2]);
        }
        if i + 3 < a.len() {
            assert(s[i + 3] == a[i + 3]);
        }
        if i + 4 < a.len() {
            assert(s[i + 4] == a[i + 4]);
        }
        assert(is_delimiter_at(s, i) == is_delimiter_at(a, i));
        if !is_delimiter_at(a, i) {
            lemma_line_end_append(a, b, i);
            lemma_line_end_bounds(a, i);
            lemma_next_delimiter_append(a, b, line_end(a, i));
        }
    }
}

/// A line end inside the text follows a line break.
proof fn lemma_line_end_break(s: Seq<char>, i: int)
    requires
        0 <= i < s.len(),
        line_end(s, i) < s.len(),
    ensures
        s[line_end(s, i) - 1] == '\n',
    decreases s.len() - i,
{
    if s[i] != '\n' {
        if i + 1 < s.len() {
            lemma_line_end_break(s, i + 1);
        } else {
            assert(line_end(s, i + 1) == s.len());
        }
    }
}

/// A delimiter found from the start of a line starts a line.
proof fn lemma_next_delimiter_line_start(s: Seq<char>, i: int)
    requires
        0 <= i <= s.len(),
        i == 0 || s[i - 1] == '\n',
        next_delimiter(s, i) is Some,
    ensures
        next_delimiter(s, i)->0 == 0 || s[next_delimiter(s, i)->0 - 1] == '\n',
    decreases s.len() - i,
{
    if !is_delimiter_at(s, i) {
        lemma_line_end_bounds(s, i);
        let e = line_end(s, i);
        if e < s.len() {
            lemma_line_end_break(s, i);
        }
        lemma_next_delimiter_line_start(s, e);
    }
}

/// Before the opening delimiter of a note there is no delimiter line, and the
/// opening delimiter starts a line.
proof fn lemma_before_open(note: Seq<char>)
    requires
        next_delimiter(note, 0) is Some,
    ensures
        ({
            let o = next_delimiter(note, 0)->0;
            &&& next_delimiter(note.take(o), 0) is None
            &&& o == 0 || note.take(o).last() == '\n'
        }),
{
    let o = next_delimiter(note, 0)->0;
    let p = note.take(o);
    lemma_next_delimiter_found(note, 0);
    lemma_next_delimiter_line_start(note, 0);
    assert(note =~= p + note.skip(o));
    lemma_next_delimiter_append(p, note.skip(o), 0);
    if next_delimiter(p, 0) is Some {
        lemma_next_delimiter_found(p, 0);
    }
}

/// The closing delimiter of a note starts the text from it on.
proof fn lemma_at_close(note: Seq<char>)
    requires
        span_of(note) is Some,
        span_of(note)->0 is Some,
    ensures
        ({
            let (o, f, c) = span_of(note)->0->0;
            is_delimiter_at(note.skip(c), 0)
        }),
{
    lemma_span_bounds(note);
    let (o, f, c) = span_of(note)->0->0;
    assert(note =~= note.take(c) + note.skip(c));
    lemma_next_delimiter_found(note, f);
    lemma_next_delimiter_shift(note.take(c), note.skip(c), 0);
}

/// The opening line `---` and its line break is a delimiter line of four characters.
proof fn lemma_opening_line(rest: Seq<char>)
    requires
        rest.len() >= 4,
        rest[0] == '-' && rest[1] == '-' && rest[2] == '-' && rest[3] == '\n',
    ensures
        is_delimiter_at(rest, 0),
        next_delimiter(rest, 0) == Some(0int),
        line_end(rest, 0) == 4,
{
    assert(line_end(rest, 3) == 4);
    assert(line_end(rest, 2) == line_end(rest, 3));
    assert(line_end(rest, 1) == line_end(rest, 2));
}

/// A block written as `---`, a line break and `body` in place of the block of a note
/// is found again where it was written: the note opens at the same place, its
/// metadata text is `body` with a line break after it, and it closes at the note's
/// old closing delimiter. `body` must hold no delimiter line.
#[verifier::spinoff_prover]
pub proof fn lemma_block_round_trip(body: Seq<char>, note: Seq<char>)
    requires
        span_of(note) is Some,
        span_of(note)->0 is Some,
        next_delimiter(body + seq!['\n'], 0) is None,
    ensures
        ({
            let (o, f, c) = span_of(note)->0->0;
            let r = note.take(o) + (seq!['-', '-', '-', '\n'] + body) + seq!['\n'] + note.skip(c);
            let e = o + 4 + body.len() + 1;
            &&& span_of(r) == Some(Some((o, o + 4, e)))
            &&& r.subrange(o + 4, e) == body + seq!['\n']
        }),
{
    lemma_span_bounds(note);
    let (o, f, c) = span_of(note)->0->0;
    let p = note.take(o);
    let x = seq!['-', '-', '-', '\n'];
    let bl = body + seq!['\n'];
    let s = note.skip(c);
    lemma_before_open(note);
    lemma_at_close(note);
    let r = note.take(o) + (x + body) + seq!['\n'] + note.skip(c);
    let rest = x + bl + s;
    assert(r =~= p + rest);
    lemma_next_delimiter_append(p, rest, 0);
    lemma_opening_line(rest);
    assert(next_delimiter(r, 0) == Some(o));
    lemma_line_end_shift(p, rest, 0);
    assert(line_end(r, o) == o + 4);
    let px = p + x;
    assert(r =~= px + (bl + s));
    lemma_next_delimiter_shift(px, bl + s, 0);
    lemma_next_delimiter_append(bl, s, 0);
    lemma_next_delimiter_shift(bl, s, 0);
    assert(next_delimiter(bl + s, 0) == Some(bl.len() as int));
    assert(next_delimiter(r, o + 4) == Some(o + 4 + bl.len()));
    assert(r.subrange(o + 4, o + 4 + bl.len()) =~= bl);
}

} // verus!
