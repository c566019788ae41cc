//! File paths as text, with `/` or `\` between components.
//!
//! The name of a path is the text after its last separator (`/`, or `\` as
//! Windows writes paths); a path names a file where
//! that text is neither empty, `.` nor `..`. The extension of a name is the text
//! after its last `.`, where that `.` is not its first character; the stem is the
//! name before that `.`, or the whole name where there is no extension.
use vstd::prelude::*;

use crate::text::{chars_of, slice_of};

verus! {

/// The position of the last `c` in `s`.
pub open spec fn last_index(s: Seq<char>, c: char) -> Option<int>
    decreases s.len(),
{
    if s.len() == 0 {
        None
    } else if s.last() == c {
        Some(s.len() - 1)
    } else {
        last_index(s.drop_last(), c)
    }
}

/// A character that separates the components of a path.
pub open spec fn is_separator(c: char) -> bool {
    c == '/' || c == '\\'
}

/// The position of the last separator in `s`.
pub open spec fn last_separator(s: Seq<char>) -> Option<int>
    decreases s.len(),
{
    if s.len() == 0 {
        None
    } else if is_separator(s.last()) {
        Some(s.len() - 1)
    } else {
        last_separator(s.drop_last())
    }
}

/// A found separator lies inside the text.
pub proof fn lemma_last_separator(s: Seq<char>)
    ensures
        last_separator(s) is Some ==> 0 <= last_separator(s)->0 < s.len() && is_separator(
            s[last_separator(s)->0],
        ),
    decreases s.len(),
{
    if s.len() > 0 && !is_separator(s.last()) {
        lemma_last_separator(s.drop_last());
    }
}

/// The position of the last separator in `s`.
pub fn find_last_separator(s: &Vec<char>) -> (r: Option<usize>)
    ensures
        r is Some ==> last_separator(s@) == Some(r->Some_0 as int),
        r is None ==> last_separator(s@) is None,
{
    let mut j: usize = s.len();
    assert(s@.take(s.len() as int) == s@);
    while j > 0
        invariant
            j <= s.len(),
            last_separator(s@) == last_separator(s@.take(j as int)),
        decreases j,
    {
        if s[j - 1] == '/' || s[j - 1] == '\\' {
            return Some(j - 1);
        }
        assert(s@.take(j as int).drop_last() == s@.take(j - 1));
        j = j - 1;
    }
    None
}

/// The name of the path `p`.
pub open spec fn name_of(p: Seq<char>) -> Seq<char> {
    match last_separator(p) {
        Some(k) => p.skip(k + 1),
        None => p,
    }
}

/// The directory part of `p`: everything up to and including its last separator.
pub open spec fn dir_of(p: Seq<char>) -> Seq<char> {
    match last_separator(p) {
        Some(k) => p.take(k + 1),
        None => Seq::empty(),
    }
}

/// The path names a file.
pub open spec fn names_file(p: Seq<char>) -> bool {
    let n = name_of(p);
    n.len() > 0 && n != seq!['.'] && n != seq!['.', '.']
}

/// The extension of the name `n`, where it has one.
pub open spec fn extension_of(n: Seq<char>) -> Option<Seq<char>> {
    match last_index(n, '.') {
        Some(k) => if k > 0 {
            Some(n.skip(k + 1))
        } else {
            None
        },
        None => None,
    }
}

/// The stem of the name `n`.
pub open spec fn stem_of(n: Seq<char>) -> Seq<char> {
    match last_index(n, '.') {
        Some(k) => if k > 0 {
            n.take(k)
        } else {
            n
        },
        None => n,
    }
}

/// A found position lies inside the text and holds the character.
pub proof fn lemma_last_index(s: Seq<char>, c: char)
    ensures
        last_index(s, c) is Some ==> 0 <= last_index(s, c)->0 < s.len() && s[last_index(s, c)->0]
            == c,
        last_index(s, c) is None ==> forall|i: int| 0 <= i < s.len() ==> s[i] != c,
    decreases s.len(),
{
    if s.len() > 0 && s.last() != c {
        lemma_last_index(s.drop_last(), c);
        assert forall|i: int| 0 <= i < s.len() - 1 implies s[i] == s.drop_last()[i] by {}
    }
}

/// The position of the last `c` in `s`.
pub fn find_last(s: &Vec<char>, c: char) -> (r: Option<usize>)
    ensures
        r is Some ==> last_index(s@, c) == Some(r->Some_0 as int),
        r is None ==> last_index(s@, c) is None,
{
    let mut j: usize = s.len();
    assert(s@.take(s.len() as int) == s@);
    while j > 0
        invariant
            j <= s.len(),
            last_index(s@, c) == last_index(s@.take(j as int), c),
        decreases j,
    {
        if s[j - 1] == c {
            return Some(j - 1);
        }
        assert(s@.take(j as int).drop_last() == s@.take(j - 1));
        j = j - 1;
    }
    None
}

/// The name of the path `p`.
pub fn file_name(p: &str) -> (r: Vec<char>)
    ensures
        r@ == name_of(p@),
{
    let v = chars_of(p);
    proof {
        assert(v@.take(v.len() as int) == v@);
        lemma_last_separator(v@);
    }
    match find_last_separator(&v) {
        Some(k) => slice_of(&v, k + 1, v.len()),
        None => v,
    }
}

/// The extension of the name `n`, where it has one.
pub fn extension(n: &Vec<char>) -> (r: Option<Vec<char>>)
    ensures
        match extension_of(n@) {
            Some(e) => r is Some && r->Some_0@ == e,
            None => r is None,
        },
{
    proof {
        assert(n@.take(n.len() as int) == n@);
        lemma_last_index(n@, '.');
    }
    match find_last(n, '.') {
        Some(k) => if k > 0 {
            Some(slice_of(n, k + 1, n.len()))
        } else {
            None
        },
        None => None,
    }
}

/// The stem of the name `n`.
pub fn stem(n: &Vec<char>) -> (r: Vec<char>)
    ensures
        r@ == stem_of(n@),
{
    proof {
        assert(n@.take(n.len() as int) == n@);
        lemma_last_index(n@, '.');
    }
    match find_last(n, '.') {
        Some(k) => if k > 0 {
            slice_of(n, 0, k)
        } else {
            slice_of(n, 0, n.len())
        },
        None => slice_of(n, 0, n.len()),
    }
}

/// Whether the path `p` names a note: a file with the extension `md`.
pub fn is_note_path(p: &str) -> (r: bool)
    ensures
        r == (names_file(p@) && extension_of(name_of(p@)) == Some(seq!['m', 'd'])),
{
    let n = file_name(p);
    if n.len() == 0 || (n.len() == 1 && n[0] == '.') || (n.len() == 2 && n[0] == '.' && n[1]
        == '.') {
        assert(n.len() == 1 ==> n@ =~= seq!['.']);
        assert(n.len() == 2 ==> n@ =~= seq!['.', '.']);
        return false;
    }
    match extension(&n) {
        Some(e) => {
            let r = e.len() == 2 && e[0] == 'm' && e[1] == 'd';
            assert(r ==> e@ =~= seq!['m', 'd']);
            r
        },
        None => false,
    }
}

} // verus!
