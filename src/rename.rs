//! Renaming attachments to opaque identifiers, and rewriting the references to them.
//!
//! An opaque identifier has the shape of a hyphenated UUID: 36 characters, hex
//! digits in five groups of 8, 4, 4, 4 and 12, with `-` between the groups.
use vstd::prelude::*;

use crate::path::{
    dir_of, extension, extension_of, file_name, last_index, lemma_last_index, name_of,
    names_file, stem, stem_of,
};
use crate::text::{
    chars_of, contains, contains_chars, eq_chars, push_all, replace_all, string_of,
};

verus! {

/// A hex digit, in either case.
pub open spec fn is_hex(c: char) -> bool {
    ('0' <= c && c <= '9') || ('a' <= c && c <= 'f') || ('A' <= c && c <= 'F')
}

/// `s` has the shape of an opaque identifier.
pub open spec fn is_opaque_stem(s: Seq<char>) -> bool {
    &&& s.len() == 36
    &&& forall|i: int|
        0 <= i < 36 ==> if i == 8 || i == 13 || i == 18 || i == 23 {
            s[i] == '-'
        } else {
            is_hex(#[trigger] s[i])
        }
}

/// Whether `s` has the shape of an opaque identifier.
pub fn is_opaque(s: &Vec<char>) -> (r: bool)
    ensures
        r == is_opaque_stem(s@),
{
    if s.len() != 36 {
        return false;
    }
    let mut i: usize = 0;
    while i < 36
        invariant
            s.len() == 36,
            i <= 36,
            forall|k: int|
                0 <= k < i ==> if k == 8 || k == 13 || k == 18 || k == 23 {
                    s[k] == '-'
                } else {
                    is_hex(#[trigger] s[k])
                },
        decreases 36 - i,
    {
        let c = s[i];
        let ok = if i == 8 || i == 13 || i == 18 || i == 23 {
            c == '-'
        } else {
            ('0' <= c && c <= '9') || ('a' <= c && c <= 'f') || ('A' <= c && c <= 'F')
        };
        if !ok {
            return false;
        }
        i = i + 1;
    }
    true
}

/// One attachment to rename, as text.
pub struct RenameRecord {
    /// The path of the file now.
    pub old_path: Seq<char>,
    /// The name of the file now, as notes refer to it.
    pub old_name: Seq<char>,
    /// The path of the file after renaming.
    pub new_path: Seq<char>,
    /// The name of the file after renaming.
    pub new_name: Seq<char>,
}

/// The new name of a file named `name`: the identifier, followed by `.` and the
/// extension where the name has a non-empty one.
pub open spec fn new_name_for(name: Seq<char>, id: Seq<char>) -> Seq<char> {
    match extension_of(name) {
        Some(e) => if e.len() > 0 {
            id + seq!['.'] + e
        } else {
            id
        },
        None => id,
    }
}

/// The record that renames the file at `path` to the identifier `id`; `None` where
/// the path names no file.
pub open spec fn record_for(path: Seq<char>, id: Seq<char>) -> Option<RenameRecord> {
    if names_file(path) {
        let n = name_of(path);
        Some(
            RenameRecord {
                old_path: path,
                old_name: n,
                new_path: dir_of(path) + new_name_for(n, id),
                new_name: new_name_for(n, id),
            },
        )
    } else {
        None
    }
}

/// The new name of a file named `name`, for the identifier `id`.
pub fn file_name_for(name: &str, id: &str) -> (r: String)
    ensures
        r@ == new_name_for(name@, id@),
{
    let n = chars_of(name);
    let mut out = chars_of(id);
    match extension(&n) {
        Some(e) => if e.len() > 0 {
            out.push('.');
            push_all(&mut out, &e);
        },
        None => {},
    }
    assert(out@ =~= new_name_for(name@, id@));
    string_of(out.as_slice())
}

/// The file entry: one attachment and the name it is renamed to.
#[derive(Debug)]
pub struct FileEntry {
    old_path: String,
    old_name: String,
    new_path: String,
    new_name: String,
}

impl View for FileEntry {
    type V = RenameRecord;

    closed spec fn view(&self) -> RenameRecord {
        RenameRecord {
            old_path: self.old_path@,
            old_name: self.old_name@,
            new_path: self.new_path@,
            new_name: self.new_name@,
        }
    }
}

impl FileEntry {
    /// The entry that renames the file at `path` to the identifier `id`, keeping its
    /// extension; `None` where the path names no file.
    pub fn new(path: &str, id: &str) -> (r: Option<FileEntry>)
        ensures
            match record_for(path@, id@) {
                Some(rec) => r is Some && r->Some_0@ == rec,
                None => r is None,
            },
    {
        let p = chars_of(path);
        let name = file_name(path);
        if name.len() == 0 || (name.len() == 1 && name[0] == '.') || (name.len() == 2 && name[0]
            == '.' && name[1] == '.') {
            assert(name.len() == 1 ==> name@ =~= seq!['.']);
            assert(name.len() == 2 ==> name@ =~= seq!['.', '.']);
            return None;
        }
        let mut new_name = chars_of(id);
        match extension(&name) {
            Some(e) => if e.len() > 0 {
                new_name.push('.');
                push_all(&mut new_name, &e);
            },
            None => {},
        }
        proof {
            crate::path::lemma_last_separator(p@);
        }
        let mut new_path = match crate::path::find_last_separator(&p) {
            Some(k) => {
                assert(crate::path::last_separator(p@) == Some(k as int));
                assert(k < p.len());
                let d = crate::text::slice_of(&p, 0, k + 1);
                assert(d@ =~= dir_of(p@));
                d
            },
            None => Vec::new(),
        };
        proof {
            assert(p@.take(p.len() as int) == p@);
            assert(p@.subrange(0, 0) =~= Seq::<char>::empty());
        }
        assert(new_path@ == dir_of(p@));
        assert(new_name@ == new_name_for(name@, id@));
        push_all(&mut new_path, &new_name);
        Some(
            FileEntry {
                old_path: string_of(p.as_slice()),
                old_name: string_of(name.as_slice()),
                new_path: string_of(new_path.as_slice()),
                new_name: string_of(new_name.as_slice()),
            },
        )
    }

    /// The path of the file now.
    pub fn old_path(&self) -> (r: &str)
        ensures
            r@ == self@.old_path,
    {
        self.old_path.as_str()
    }

    /// The name of the file now.
    pub fn old_name(&self) -> (r: &str)
        ensures
            r@ == self@.old_name,
    {
        self.old_name.as_str()
    }

    /// The path of the file after renaming.
    pub fn new_path(&self) -> (r: &str)
        ensures
            r@ == self@.new_path,
    {
        self.new_path.as_str()
    }

    /// The name of the file after renaming.
    pub fn new_name(&self) -> (r: &str)
        ensures
            r@ == self@.new_name,
    {
        self.new_name.as_str()
    }
}


/// Relies on `Uuid::new_v4` and the `Display` of `Uuid`, which writes the hyphenated
/// form in lower case: a fresh random identifier.
#[verifier::external_body]
fn fresh_identifier() -> (r: String)
    ensures
        is_opaque_stem(r@),
{
    uuid::Uuid::new_v4().to_string()
}

/// What became of a file offered to a rename map.
#[derive(Debug, PartialEq, Eq, Structural)]
pub enum Insertion {
    /// The file gets a new name.
    Added,
    /// The file keeps its name: it names no file, is already opaque, or a file of
    /// that name is already in the map.
    Skipped,
    /// The identifier cannot be used: it is not opaque, or the new name is taken.
    Collision,
}

/// The names of `v`, as text.
pub open spec fn texts(v: Seq<String>) -> Seq<Seq<char>> {
    v.map_values(|s: String| s@)
}

/// The map from attachment names to their new names, built once and then only read.
pub struct RenameMap {
    entries: Vec<FileEntry>,
}

impl View for RenameMap {
    type V = Seq<RenameRecord>;

    closed spec fn view(&self) -> Seq<RenameRecord> {
        self.entries@.map_values(|e: FileEntry| e@)
    }
}

/// The record is one that renaming a file to an opaque identifier gives.
pub open spec fn is_renaming(rec: RenameRecord) -> bool {
    &&& exists|id: Seq<char>| is_opaque_stem(id) && record_for(rec.old_path, id) == Some(rec)
    &&& !is_opaque_stem(stem_of(rec.old_name))
}

impl RenameMap {
    /// Each record renames a file that is not yet opaque to an opaque identifier;
    /// no two records share an old name, nor a new name.
    pub open spec fn wf(&self) -> bool {
        &&& forall|i: int| 0 <= i < self@.len() ==> is_renaming(#[trigger] self@[i])
        &&& forall|i: int, j: int|
            0 <= i < j < self@.len() ==> self@[i].old_name != self@[j].old_name
                && self@[i].new_name != self@[j].new_name
    }

    /// An empty map.
    pub fn new() -> (r: RenameMap)
        ensures
            r.wf(),
            r@.len() == 0,
    {
        RenameMap { entries: Vec::new() }
    }

    /// The number of records.
    pub fn len(&self) -> (r: usize)
        ensures
            r == self@.len(),
    {
        self.entries.len()
    }

    /// The record at `i`.
    pub fn get(&self, i: usize) -> (r: &FileEntry)
        requires
            i < self@.len(),
        ensures
            r@ == self@[i as int],
    {
        &self.entries[i]
    }

    /// Offers the file at `path`, to be renamed to the identifier `id`; `taken` holds the
    /// names that already stand in the attachments directory.
    #[verifier::loop_isolation(false)]
    pub fn insert(&mut self, path: &str, id: &str, taken: &Vec<String>) -> (r: Insertion)
        requires
            old(self).wf(),
        ensures
            final(self).wf(),
            r == outcome_of(old(self)@, path@, id@, texts(taken@)),
            r == Insertion::Added ==> final(self)@ == old(self)@.push(record_for(path@, id@)->0),
            r != Insertion::Added ==> final(self)@ == old(self)@,
    {
        let entry = match FileEntry::new(path, id) {
            Some(e) => e,
            None => return Insertion::Skipped,
        };
        let old_name = chars_of(entry.old_name());
        let old_stem = stem(&old_name);
        if is_opaque(&old_stem) {
            return Insertion::Skipped;
        }
        let new_name = chars_of(entry.new_name());
        let mut i: usize = 0;
        while i < self.entries.len()
            invariant
                i <= self.entries.len(),
                self@ == old(self)@,
                forall|k: int| 0 <= k < i ==> self@[k].old_name != old_name@,
            decreases self.entries.len() - i,
        {
            let other = chars_of(self.entries[i].old_name());
            assert(self@[i as int] == self.entries@[i as int]@);
            if eq_chars(&other, &old_name) {
                return Insertion::Skipped;
            }
            i = i + 1;
        }
        let id_chars = chars_of(id);
        if !is_opaque(&id_chars) {
            return Insertion::Collision;
        }
        let mut i: usize = 0;
        while i < taken.len()
            invariant
                i <= taken.len(),
                forall|k: int| 0 <= k < i ==> taken@[k]@ != new_name@,
            decreases taken.len() - i,
        {
            let other = chars_of(taken[i].as_str());
            if eq_chars(&other, &new_name) {
                assert(texts(taken@)[i as int] == new_name@);
                return Insertion::Collision;
            }
            i = i + 1;
        }
        let mut i: usize = 0;
        while i < self.entries.len()
            invariant
                i <= self.entries.len(),
                self@ == old(self)@,
                forall|k: int| 0 <= k < i ==> self@[k].new_name != new_name@,
            decreases self.entries.len() - i,
        {
            let other = chars_of(self.entries[i].new_name());
            assert(self@[i as int] == self.entries@[i as int]@);
            if eq_chars(&other, &new_name) {
                return Insertion::Collision;
            }
            i = i + 1;
        }
        proof {
            assert(is_renaming(entry@));
        }
        self.entries.push(entry);
        assert(self@ =~= old(self)@.push(entry@));
        Insertion::Added
    }

    /// The map for the attachment files at `paths`, where `ids[i]` holds the
    /// identifiers to offer the file at `paths[i]`, in turn: the file gets the first
    /// one that is not refused as colliding, unless it is skipped (it names no file,
    /// is already opaque, or an earlier file of that name has a record); where every
    /// identifier collides, or there are none, the file keeps its name.
    #[verifier::loop_isolation(false)]
    pub fn build_with(paths: &Vec<String>, ids: &Vec<Vec<String>>) -> (r: RenameMap)
        ensures
            r.wf(),
            r@ == built(texts(paths@), candidates(ids@), names_of(texts(paths@)), paths.len() as int),
            forall|i: int|
                0 <= i < r@.len() ==> texts(paths@).contains(#[trigger] r@[i].old_path),
            forall|i: int, j: int|
                0 <= i < r@.len() && 0 <= j < paths.len() ==> #[trigger] r@[i].new_name
                    != name_of(#[trigger] paths@[j]@),
    {
        let ghost ps = texts(paths@);
        let ghost cs = candidates(ids@);
        let mut taken: Vec<String> = Vec::new();
        let mut i: usize = 0;
        while i < paths.len()
            invariant
                i <= paths.len(),
                taken.len() == i,
                forall|j: int| 0 <= j < i ==> #[trigger] taken@[j]@ == name_of(paths@[j]@),
            decreases paths.len() - i,
        {
            let n = file_name(paths[i].as_str());
            taken.push(string_of(n.as_slice()));
            i = i + 1;
        }
        let ghost tk = texts(taken@);
        assert(tk =~= names_of(ps));
        let mut map = RenameMap::new();
        let mut i: usize = 0;
        while i < paths.len()
            invariant
                i <= paths.len(),
                map.wf(),
                map@ == built(ps, cs, tk, i as int),
                forall|k: int|
                    0 <= k < map@.len() ==> texts(paths@).contains(#[trigger] map@[k].old_path),
                forall|k: int, j: int|
                    0 <= k < map@.len() && 0 <= j < paths.len() ==> #[trigger] map@[k].new_name
                        != name_of(#[trigger] paths@[j]@),
            decreases paths.len() - i,
        {
            let ghost target = built(ps, cs, tk, i + 1);
            let ghost cands = if i < cs.len() {
                cs[i as int]
            } else {
                Seq::<Seq<char>>::empty()
            };
            assert(target == offer(map@, ps[i as int], cands, tk));
            if i < ids.len() {
                let mut j: usize = 0;
                let mut stop = false;
                assert(cands.skip(0) == cands);
                while j < ids[i].len() && !stop
                    invariant
                        i < ids.len(),
                        j <= ids[i as int].len(),
                        cands == texts(ids@[i as int]@),
                        map.wf(),
                        target == if stop {
                            map@
                        } else {
                            offer(map@, ps[i as int], cands.skip(j as int), tk)
                        },
                        forall|k: int|
                            0 <= k < map@.len() ==> texts(paths@).contains(
                                #[trigger] map@[k].old_path,
                            ),
                        forall|k: int, jj: int|
                            0 <= k < map@.len() && 0 <= jj < paths.len()
                                ==> #[trigger] map@[k].new_name != name_of(#[trigger] paths@[jj]@),
                    decreases ids[i as int].len() - j,
                {
                    let ghost before = map@;
                    let outcome = map.insert(paths[i].as_str(), ids[i][j].as_str(), &taken);
                    proof {
                        assert(cands.skip(j as int)[0] == ids@[i as int]@[j as int]@);
                        assert(cands.skip(j as int).drop_first() =~= cands.skip(j + 1));
                        assert(ps[i as int] == paths@[i as int]@);
                        assert(texts(taken@) == tk);
                        let c = cands.skip(j as int);
                        assert(outcome == outcome_of(before, ps[i as int], c[0], tk));
                        if outcome == Insertion::Collision {
                            assert(offer(before, ps[i as int], c, tk) == offer(
                                before,
                                ps[i as int],
                                c.drop_first(),
                                tk,
                            ));
                        } else if outcome == Insertion::Added {
                            assert(offer(before, ps[i as int], c, tk) == map@);
                        } else {
                            assert(offer(before, ps[i as int], c, tk) == map@);
                        }
                        if outcome == Insertion::Added {
                            assert(texts(paths@)[i as int] == paths@[i as int]@);
                            assert forall|k: int|
                                0 <= k < map@.len() implies texts(paths@).contains(
                                #[trigger] map@[k].old_path,
                            ) by {
                                if k < before.len() {
                                    assert(map@[k] == before[k]);
                                }
                            }
                            assert forall|k: int, jj: int|
                                0 <= k < map@.len() && 0 <= jj < paths.len()
                                    implies #[trigger] map@[k].new_name != name_of(
                                #[trigger] paths@[jj]@,
                            ) by {
                                if k < before.len() {
                                    assert(map@[k] == before[k]);
                                } else {
                                    assert(texts(taken@)[jj] == taken@[jj]@);
                                }
                            }
                        }
                    }
                    if outcome != Insertion::Collision {
                        stop = true;
                    }
                    j = j + 1;
                }
                assert(!stop ==> cands.skip(j as int) =~= Seq::<Seq<char>>::empty());
            }
            i = i + 1;
        }
        map
    }

    /// The map for the attachment files at `paths`: each file is offered a few fresh
    /// identifiers, as [`RenameMap::build_with`] describes, so that a drawn identifier
    /// that collides is drawn again.
    pub fn build(paths: &Vec<String>) -> (r: RenameMap)
        ensures
            r.wf(),
            forall|i: int|
                0 <= i < r@.len() ==> texts(paths@).contains(#[trigger] r@[i].old_path),
            forall|i: int, j: int|
                0 <= i < r@.len() && 0 <= j < paths.len() ==> #[trigger] r@[i].new_name
                    != name_of(#[trigger] paths@[j]@),
    {
        let mut ids: Vec<Vec<String>> = Vec::new();
        let mut i: usize = 0;
        while i < paths.len()
            invariant
                i <= paths.len(),
            decreases paths.len() - i,
        {
            let mut draws: Vec<String> = Vec::new();
            let mut k: usize = 0;
            while k < 4
                invariant
                    k <= 4,
                decreases 4 - k,
            {
                draws.push(fresh_identifier());
                k = k + 1;
            }
            ids.push(draws);
            i = i + 1;
        }
        RenameMap::build_with(paths, &ids)
    }

    /// Rewrites `text` in one pass from the left: where the old name of a record
    /// occurs, the first such record in the map, its new name is written in place
    /// of the old one, and the pass goes on after it; what the pass writes is never
    /// read again. Returns the text and whether the old name of any record occurs
    /// in `text`.
    #[verifier::loop_isolation(false)]
    pub fn apply_to_text(&self, text: &str) -> (r: (String, bool))
        ensures
            r.0@ == renamed(text@, self@),
            r.1 == exists|k: int|
                0 <= k < self@.len() && self@[k].old_name.len() > 0 && contains(
                    text@,
                    #[trigger] self@[k].old_name,
                ),
    {
        let t = chars_of(text);
        let mut olds: Vec<Vec<char>> = Vec::new();
        let mut news: Vec<Vec<char>> = Vec::new();
        let mut changed = false;
        let mut k: usize = 0;
        while k < self.entries.len()
            invariant
                k <= self.entries.len(),
                olds.len() == k && news.len() == k,
                forall|j: int| 0 <= j < k ==> #[trigger] olds@[j]@ == self@[j].old_name,
                forall|j: int| 0 <= j < k ==> #[trigger] news@[j]@ == self@[j].new_name,
                changed == exists|j: int|
                    0 <= j < k && self@[j].old_name.len() > 0 && contains(
                        t@,
                        #[trigger] self@[j].old_name,
                    ),
            decreases self.entries.len() - k,
        {
            assert(self@[k as int] == self.entries@[k as int]@);
            let o = chars_of(self.entries[k].old_name());
            let n = chars_of(self.entries[k].new_name());
            if o.len() > 0 && contains_chars(&t, &o) {
                changed = true;
            }
            olds.push(o);
            news.push(n);
            k = k + 1;
        }
        let ghost recs = self@;
        let mut out: Vec<char> = Vec::new();
        let mut i: usize = 0;
        while i < t.len()
            invariant
                i <= t.len(),
                olds.len() == recs.len() && news.len() == recs.len(),
                forall|j: int| 0 <= j < recs.len() ==> #[trigger] olds@[j]@ == recs[j].old_name,
                forall|j: int| 0 <= j < recs.len() ==> #[trigger] news@[j]@ == recs[j].new_name,
                out@ + renamed_from(t@, recs, i as int) == renamed(t@, recs),
            decreases t.len() - i,
        {
            let mut k: usize = 0;
            while k < olds.len() && !(olds[k].len() > 0 && crate::text::match_at(&t, &olds[k], i))
                invariant
                    k <= olds.len(),
                    first_match_from(t@, recs, i as int, 0) == first_match_from(
                        t@,
                        recs,
                        i as int,
                        k as int,
                    ),
                decreases olds.len() - k,
            {
                k = k + 1;
            }
            if k < olds.len() {
                assert(first_match_from(t@, recs, i as int, 0) == Some(k as int));
                let ghost before = out@;
                push_all(&mut out, &news[k]);
                assert(out@ + renamed_from(t@, recs, i + olds[k as int]@.len()) =~= before
                    + renamed_from(t@, recs, i as int));
                i = i + olds[k].len();
            } else {
                assert(first_match_from(t@, recs, i as int, olds.len() as int) is None);
                let ghost before = out@;
                out.push(t[i]);
                assert(out@ + renamed_from(t@, recs, i + 1) =~= before + renamed_from(
                    t@,
                    recs,
                    i as int,
                ));
                i = i + 1;
            }
        }
        assert(renamed_from(t@, recs, i as int) =~= Seq::<char>::empty());
        assert(out@ =~= renamed(t@, recs));
        (string_of(out.as_slice()), changed)
    }
}

/// What offering the file at `path` with the identifier `id` does to the records
/// `recs`, where `taken` holds the names that stand in the attachments directory.
pub open spec fn outcome_of(
    recs: Seq<RenameRecord>,
    path: Seq<char>,
    id: Seq<char>,
    taken: Seq<Seq<char>>,
) -> Insertion {
    match record_for(path, id) {
        None => Insertion::Skipped,
        Some(rec) => if is_opaque_stem(stem_of(rec.old_name)) || exists|i: int|
            0 <= i < recs.len() && recs[i].old_name == rec.old_name {
            Insertion::Skipped
        } else if !is_opaque_stem(id) || taken.contains(rec.new_name) || exists|i: int|
            0 <= i < recs.len() && recs[i].new_name == rec.new_name {
            Insertion::Collision
        } else {
            Insertion::Added
        },
    }
}

/// The records after the file at `path` is offered the identifiers `ids` in turn,
/// until one is not refused as colliding.
pub open spec fn offer(
    recs: Seq<RenameRecord>,
    path: Seq<char>,
    ids: Seq<Seq<char>>,
    taken: Seq<Seq<char>>,
) -> Seq<RenameRecord>
    decreases ids.len(),
{
    if ids.len() == 0 {
        recs
    } else {
        match outcome_of(recs, path, ids[0], taken) {
            Insertion::Added => recs.push(record_for(path, ids[0])->0),
            Insertion::Skipped => recs,
            Insertion::Collision => offer(recs, path, ids.drop_first(), taken),
        }
    }
}

/// The records after the first `n` files of `paths` are offered their identifiers.
pub open spec fn built(
    paths: Seq<Seq<char>>,
    ids: Seq<Seq<Seq<char>>>,
    taken: Seq<Seq<char>>,
    n: int,
) -> Seq<RenameRecord>
    decreases n,
{
    if n <= 0 {
        Seq::empty()
    } else {
        offer(
            built(paths, ids, taken, n - 1),
            paths[n - 1],
            if n - 1 < ids.len() {
                ids[n - 1]
            } else {
                Seq::empty()
            },
            taken,
        )
    }
}

/// The identifiers of each file, as text.
pub open spec fn candidates(ids: Seq<Vec<String>>) -> Seq<Seq<Seq<char>>> {
    ids.map_values(|v: Vec<String>| texts(v@))
}

/// The names of the paths.
pub open spec fn names_of(paths: Seq<Seq<char>>) -> Seq<Seq<char>> {
    paths.map_values(|p: Seq<char>| name_of(p))
}

/// The first record, from the record `k` on, whose old name is not empty and occurs
/// in `t` at `i`.
pub open spec fn first_match_from(t: Seq<char>, recs: Seq<RenameRecord>, i: int, k: int) -> Option<
    int,
>
    decreases recs.len() - k,
{
    if k < 0 || k >= recs.len() {
        None
    } else if recs[k].old_name.len() > 0 && crate::text::matches_at(t, recs[k].old_name, i) {
        Some(k)
    } else {
        first_match_from(t, recs, i, k + 1)
    }
}

/// `t[i..]` rewritten in one pass: at each position where the old name of a record
/// occurs (the first such record), its new name, and the pass goes on after the
/// old name; elsewhere the character itself.
pub open spec fn renamed_from(t: Seq<char>, recs: Seq<RenameRecord>, i: int) -> Seq<char>
    decreases t.len() - i,
{
    if i < 0 || i >= t.len() {
        Seq::empty()
    } else {
        match first_match_from(t, recs, i, 0) {
            Some(k) => if 0 <= k < recs.len() && 0 < recs[k].old_name.len() <= t.len() - i {
                recs[k].new_name + renamed_from(t, recs, i + recs[k].old_name.len())
            } else {
                seq![t[i]] + renamed_from(t, recs, i + 1)
            },
            None => seq![t[i]] + renamed_from(t, recs, i + 1),
        }
    }
}

/// `t` rewritten by the records `recs` in one pass.
pub open spec fn renamed(t: Seq<char>, recs: Seq<RenameRecord>) -> Seq<char> {
    renamed_from(t, recs, 0)
}

/// A record found from `k` on is in range, has a non-empty old name and occurs.
proof fn lemma_first_match_found(t: Seq<char>, recs: Seq<RenameRecord>, i: int, k: int)
    requires
        first_match_from(t, recs, i, k) is Some,
    ensures
        ({
            let j = first_match_from(t, recs, i, k)->0;
            k <= j < recs.len() && recs[j].old_name.len() > 0 && crate::text::matches_at(
                t,
                recs[j].old_name,
                i,
            )
        }),
    decreases recs.len() - k,
{
    if !(recs[k].old_name.len() > 0 && crate::text::matches_at(t, recs[k].old_name, i)) {
        lemma_first_match_found(t, recs, i, k + 1);
    }
}

proof fn lemma_last_index_absent(s: Seq<char>, c: char)
    requires
        forall|i: int| 0 <= i < s.len() ==> s[i] != c,
    ensures
        last_index(s, c) is None,
    decreases s.len(),
{
    if s.len() > 0 {
        lemma_last_index_absent(s.drop_last(), c);
    }
}

proof fn lemma_last_index_after(s: Seq<char>, c: char)
    requires
        last_index(s, c) is Some,
    ensures
        forall|j: int| last_index(s, c)->0 < j < s.len() ==> s[j] != c,
    decreases s.len(),
{
    if s.len() > 0 && s.last() != c {
        lemma_last_index_after(s.drop_last(), c);
        lemma_last_index(s.drop_last(), c);
        assert forall|j: int| last_index(s, c)->0 < j < s.len() implies s[j] != c by {
            if j < s.len() - 1 {
                assert(s[j] == s.drop_last()[j]);
            }
        }
    }
}

proof fn lemma_last_index_append(a: Seq<char>, b: Seq<char>, c: char)
    requires
        forall|i: int| 0 <= i < b.len() ==> b[i] != c,
    ensures
        last_index(a + b, c) == last_index(a, c),
    decreases b.len(),
{
    if b.len() > 0 {
        assert((a + b).drop_last() =~= a + b.drop_last());
        lemma_last_index_append(a, b.drop_last(), c);
    } else {
        assert(a + b =~= a);
    }
}

/// The stem of a new name is the identifier it was made from.
pub proof fn lemma_new_name_stem(name: Seq<char>, id: Seq<char>)
    requires
        is_opaque_stem(id),
    ensures
        stem_of(new_name_for(name, id)) == id,
{
    assert forall|i: int| 0 <= i < id.len() implies id[i] != '.' by {
        if !(i == 8 || i == 13 || i == 18 || i == 23) {
            assert(is_hex(id[i]));
        }
    }
    lemma_last_index_absent(id, '.');
    match extension_of(name) {
        Some(e) => if e.len() > 0 {
            let k = last_index(name, '.')->0;
            lemma_last_index(name, '.');
            lemma_last_index_after(name, '.');
            assert(e == name.skip(k + 1));
            assert forall|i: int| 0 <= i < e.len() implies e[i] != '.' by {
                assert(e[i] == name[k + 1 + i]);
            }
            lemma_last_index_append(id + seq!['.'], e, '.');
            assert((id + seq!['.']).drop_last() =~= id);
            assert(last_index(id + seq!['.'], '.') == Some(36int));
            assert((id + seq!['.'] + e).take(36) =~= id);
        },
        None => {},
    }
}

/// Renamed attachments are not renamed again: where every path names a file whose
/// stem is already opaque, or names no file, a map built over those paths is empty,
/// and it leaves every text as it is.
pub proof fn lemma_rename_settles(paths: Seq<Seq<char>>, m: RenameMap)
    requires
        forall|i: int|
            0 <= i < paths.len() && names_file(#[trigger] paths[i]) ==> is_opaque_stem(
                stem_of(name_of(paths[i])),
            ),
        m.wf(),
        forall|i: int| 0 <= i < m@.len() ==> paths.contains(#[trigger] m@[i].old_path),
    ensures
        m@.len() == 0,
        forall|t: Seq<char>| #[trigger] renamed(t, m@) == t,
{
    assert forall|t: Seq<char>| #[trigger] renamed(t, m@) == t by {
        if m@.len() == 0 {
            lemma_renamed_by_none(t, m@, 0);
            assert(t.skip(0) == t);
        }
    }
    if m@.len() > 0 {
        let rec = m@[0];
        assert(is_renaming(rec));
        let id = choose|id: Seq<char>| is_opaque_stem(id) && record_for(rec.old_path, id) == Some(rec);
        assert(paths.contains(rec.old_path));
        let j = choose|j: int| 0 <= j < paths.len() && paths[j] == rec.old_path;
        assert(names_file(paths[j]));
    }
}

/// A record of a map names the file by an opaque identifier afterwards.
pub proof fn lemma_renamed_is_opaque(m: RenameMap, i: int)
    requires
        m.wf(),
        0 <= i < m@.len(),
    ensures
        is_opaque_stem(stem_of(m@[i].new_name)),
{
    let rec = m@[i];
    assert(is_renaming(rec));
    let id = choose|id: Seq<char>| is_opaque_stem(id) && record_for(rec.old_path, id) == Some(rec);
    lemma_new_name_stem(name_of(rec.old_path), id);
}

proof fn lemma_replace_from_contains(s: Seq<char>, p: Seq<char>, q: Seq<char>, i: int, j: int)
    requires
        p.len() > 0,
        0 <= i <= j,
        crate::text::matches_at(s, p, j),
    ensures
        contains(crate::text::replace_from(s, p, q, i), q),
    decreases j - i,
{
    let r = crate::text::replace_from(s, p, q, i);
    if crate::text::matches_at(s, p, i) {
        assert(r.subrange(0, q.len() as int) =~= q);
        assert(crate::text::matches_at(r, q, 0));
    } else {
        lemma_replace_from_contains(s, p, q, i + 1, j);
        let rest = crate::text::replace_from(s, p, q, i + 1);
        let m = choose|m: int| crate::text::matches_at(rest, q, m);
        assert(r.subrange(m + 1, m + 1 + q.len()) =~= rest.subrange(m, m + q.len()));
        assert(crate::text::matches_at(r, q, m + 1));
    }
}

proof fn lemma_renamed_by_none(t: Seq<char>, recs: Seq<RenameRecord>, i: int)
    requires
        recs.len() == 0,
        0 <= i <= t.len(),
    ensures
        renamed_from(t, recs, i) == t.skip(i),
    decreases t.len() - i,
{
    if i < t.len() {
        lemma_renamed_by_none(t, recs, i + 1);
        assert(seq![t[i]] + t.skip(i + 1) =~= t.skip(i));
    } else {
        assert(t.skip(i) =~= Seq::<char>::empty());
    }
}

/// With one record, the one-pass rewrite replaces every occurrence of its old name.
proof fn lemma_renamed_by_one(t: Seq<char>, rec: RenameRecord, i: int)
    requires
        rec.old_name.len() > 0,
        0 <= i,
    ensures
        renamed_from(t, seq![rec], i) == crate::text::replace_from(t, rec.old_name, rec.new_name, i),
    decreases t.len() - i,
{
    let recs = seq![rec];
    if i < t.len() {
        if crate::text::matches_at(t, rec.old_name, i) {
            assert(first_match_from(t, recs, i, 0) == Some(0int));
            lemma_renamed_by_one(t, rec, i + rec.old_name.len());
        } else {
            assert(first_match_from(t, recs, i, 1) is None);
            lemma_renamed_by_one(t, rec, i + 1);
        }
    }
}

/// A note that refers to an attachment by its old name refers to it by its new name
/// once the record is applied.
pub proof fn lemma_reference_renamed(t: Seq<char>, rec: RenameRecord)
    requires
        rec.old_name.len() > 0,
        contains(t, rec.old_name),
    ensures
        contains(renamed(t, seq![rec]), rec.new_name),
{
    let j = choose|j: int| crate::text::matches_at(t, rec.old_name, j);
    lemma_replace_from_contains(t, rec.old_name, rec.new_name, 0, j);
    lemma_renamed_by_one(t, rec, 0);
}

} // verus!
