//! The metadata of a note: read from its delimited block, changed by key, and
//! written back into the note with the rest of the note kept as it was.
use vstd::prelude::*;
use yaml_rust::{ScanError, Yaml};

use crate::error::Error;
use crate::front_matter::{locate, span_of};
use crate::text::{chars_of, starts_with, push_all, push_range, push_str, slice_of, string_of};
use crate::yaml::{
    emit, empty_mapping, has_key, insert_text, items_at, load_first, remove_key, text_at,
    yaml_emitted, yaml_fields, yaml_loaded, yaml_scans, Field,
};

verus! {

/// The string under `key`, where the fields are a mapping and hold one there.
pub open spec fn text_field(fields: Option<Map<Seq<char>, Field>>, key: Seq<char>) -> Option<
    Seq<char>,
> {
    match fields {
        Some(m) => if m.contains_key(key) && m[key] is Text {
            Some(m[key]->Text_0)
        } else {
            None
        },
        None => None,
    }
}

/// The strings among `items`, in order.
pub open spec fn texts_of(items: Seq<Field>) -> Seq<Seq<char>>
    decreases items.len(),
{
    if items.len() == 0 {
        Seq::empty()
    } else {
        let rest = texts_of(items.drop_last());
        match items.last() {
            Field::Text(t) => rest.push(t),
            _ => rest,
        }
    }
}

/// The strings of the sequence under `key`, where there is one.
pub open spec fn text_list_field(fields: Option<Map<Seq<char>, Field>>, key: Seq<char>) -> Option<
    Seq<Seq<char>>,
> {
    match fields {
        Some(m) => if m.contains_key(key) && m[key] is Items {
            Some(texts_of(m[key]->Items_0))
        } else {
            None
        },
        None => None,
    }
}

/// `s` without the marks `!`, `[` and `]` at its start.
pub open spec fn trim_marks_start(s: Seq<char>) -> Seq<char>
    decreases s.len(),
{
    if s.len() > 0 && (s[0] == '!' || s[0] == '[' || s[0] == ']') {
        trim_marks_start(s.drop_first())
    } else {
        s
    }
}

/// `s` without the marks `!`, `[` and `]` at its end.
pub open spec fn trim_marks_end(s: Seq<char>) -> Seq<char>
    decreases s.len(),
{
    if s.len() > 0 && (s.last() == '!' || s.last() == '[' || s.last() == ']') {
        trim_marks_end(s.drop_last())
    } else {
        s
    }
}

/// A file name written as an embedded wiki link (`![[name]]`) reduced to the bare name.
pub open spec fn trim_marks(s: Seq<char>) -> Seq<char> {
    trim_marks_end(trim_marks_start(s))
}

/// The directory that banner images live in, as banner values name it.
pub open spec fn banners_dir() -> Seq<char> {
    seq!['B', 'a', 'n', 'n', 'e', 'r', 's', '/']
}

/// The banner value stands in the banners directory.
pub open spec fn in_banners_dir(t: Seq<char>) -> bool {
    t.len() >= 8 && t.take(8) == banners_dir()
}

/// The banner value needs fixing: it is a string outside the banners directory.
pub open spec fn banner_needs_fix(m: Map<Seq<char>, Field>) -> bool {
    m.contains_key("banner"@) && m["banner"@] is Text && !in_banners_dir(m["banner"@]->Text_0)
}

/// The fields after fixing the banner: a banner string outside the banners directory
/// is moved into it, without link marks, and the banner icon entry is dropped.
pub open spec fn fixed_banner(m: Map<Seq<char>, Field>) -> Map<Seq<char>, Field> {
    let m1 = if banner_needs_fix(m) {
        m.insert("banner"@, Field::Text(banners_dir() + trim_marks(m["banner"@]->Text_0)))
    } else {
        m
    };
    m1.remove("banner_icon"@)
}

/// The note that results from writing the metadata text `block` into `note`: in place
/// of the opening delimiter line and the metadata where the note has a closed block;
/// before the note, closed by a new delimiter line, where it has no delimiter line;
/// none where it opens a block and never closes it.
pub open spec fn embedded(block: Seq<char>, note: Seq<char>) -> Option<Seq<char>> {
    match span_of(note) {
        None => Some(block + seq!['\n', '-', '-', '-', '\n'] + note),
        Some(None) => None,
        Some(Some((o, f, c))) => Some(note.take(o) + block + seq!['\n'] + note.skip(c)),
    }
}

/// The metadata of one note.
pub struct Metadata {
    tree: Yaml,
}

impl Metadata {
    /// The entries of the metadata by string key; `None` where it is not a mapping.
    pub closed spec fn fields(&self) -> Option<Map<Seq<char>, Field>> {
        yaml_fields(self.tree)
    }

    /// The text that the metadata is written as, opening delimiter included.
    pub closed spec fn emitted(&self) -> Seq<char> {
        yaml_emitted(self.tree)
    }

    /// Reads the metadata of a note.
    ///
    /// Fails with `NoteMetadataNotFound` where the note has no delimiter line, with
    /// `IllegalNoteMetadata` where its block is never closed, and with
    /// `YamlScanError` where the text of the block cannot be read.
    pub fn from_str(s: &str) -> (r: Result<Metadata, Error>)
        ensures
            match span_of(s@) {
                None => r is Err && r->Err_0 is NoteMetadataNotFound,
                Some(None) => r is Err && r->Err_0 is IllegalNoteMetadata,
                Some(Some((o, f, c))) => {
                    &&& r is Ok <==> yaml_scans(s@.subrange(f, c))
                    &&& r is Ok ==> r->Ok_0.fields() == loaded_fields(s@.subrange(f, c))
                    &&& r is Err ==> r->Err_0 is YamlScanError
                },
            },
    {
        let doc = chars_of(s);
        let span = locate(&doc)?;
        let block = string_of(slice_of(&doc, span.first, span.close).as_slice());
        Metadata::from_loaded(load_first(block.as_str()))
    }

    /// The metadata from what the reader made of a block: its first document, or an
    /// empty mapping where there is none; a reading error becomes `YamlScanError`.
    pub fn from_loaded(loaded: Result<Option<Yaml>, ScanError>) -> (r: Result<Metadata, Error>)
        ensures
            match loaded {
                Ok(Some(y)) => r is Ok && r->Ok_0.fields() == yaml_fields(y),
                Ok(None) => r is Ok && r->Ok_0.fields() == Some(Map::<Seq<char>, Field>::empty()),
                Err(_) => r is Err && r->Err_0 is YamlScanError,
            },
    {
        match loaded {
            Ok(Some(tree)) => Ok(Metadata { tree }),
            Ok(None) => Ok(Metadata { tree: empty_mapping() }),
            Err(e) => Err(Error::YamlScanError(e)),
        }
    }

    /// The tree that the metadata was read as.
    pub fn tree(&self) -> (r: &Yaml)
        ensures
            yaml_fields(*r) == self.fields(),
            yaml_emitted(*r) == self.emitted(),
    {
        &self.tree
    }

    /// The string under `key`; `None` where there is none, or the value is no string.
    pub fn get_string(&self, key: &str) -> (r: Option<&str>)
        ensures
            match text_field(self.fields(), key@) {
                Some(t) => r is Some && r->Some_0@ == t,
                None => r is None,
            },
    {
        text_at(&self.tree, key)
    }

    /// The strings of the sequence under `key`, in order, other items left out; `None`
    /// where there is no sequence there.
    pub fn get_string_list(&self, key: &str) -> (r: Option<Vec<String>>)
        ensures
            match text_list_field(self.fields(), key@) {
                Some(l) => r is Some && r->Some_0@.map_values(|v: String| v@) == l,
                None => r is None,
            },
    {
        match items_at(&self.tree, key) {
            None => None,
            Some(items) => {
                let ghost fs = self.fields()->0[key@]->Items_0;
                let mut out: Vec<String> = Vec::new();
                let mut i: usize = 0;
                while i < items.len()
                    invariant
                        i <= items.len() == fs.len(),
                        forall|k: int|
                            0 <= k < items.len() ==> match #[trigger] fs[k] {
                                Field::Text(t) => items[k] is Some && items[k]->Some_0@ == t,
                                _ => items[k] is None,
                            },
                        out@.map_values(|v: String| v@) == texts_of(fs.take(i as int)),
                    decreases items.len() - i,
                {
                    assert(fs.take(i + 1).drop_last() == fs.take(i as int));
                    match &items[i] {
                        Some(t) => {
                            out.push(t.clone());
                        },
                        None => {},
                    }
                    assert(out@.map_values(|v: String| v@) == texts_of(fs.take(i + 1)));
                    i = i + 1;
                }
                assert(fs.take(fs.len() as int) == fs);
                Some(out)
            },
        }
    }

    /// Whether there is an entry under `key`, of any kind.
    pub fn has(&self, key: &str) -> (r: bool)
        ensures
            r == (self.fields() is Some && self.fields()->0.contains_key(key@)),
    {
        has_key(&self.tree, key)
    }

    /// Stores the string `value` under `key`; fails with `NoteMetadataNotMapping`,
    /// changing nothing, where the metadata is not a mapping.
    pub fn set_string(&mut self, key: &str, value: &str) -> (r: Result<(), Error>)
        ensures
            match old(self).fields() {
                Some(m) => r is Ok && final(self).fields() == Some(
                    m.insert(key@, Field::Text(value@)),
                ),
                None => r is Err && r->Err_0 is NoteMetadataNotMapping && final(self).fields()
                    == old(self).fields(),
            },
    {
        if insert_text(&mut self.tree, key, value) {
            Ok(())
        } else {
            Err(Error::NoteMetadataNotMapping)
        }
    }

    /// Removes the entry under `key`, if any; fails with `NoteMetadataNotMapping`,
    /// changing nothing, where the metadata is not a mapping.
    pub fn remove(&mut self, key: &str) -> (r: Result<(), Error>)
        ensures
            match old(self).fields() {
                Some(m) => r is Ok && final(self).fields() == Some(m.remove(key@)),
                None => r is Err && r->Err_0 is NoteMetadataNotMapping && final(self).fields()
                    == old(self).fields(),
            },
    {
        match remove_key(&mut self.tree, key) {
            Some(_) => Ok(()),
            None => Err(Error::NoteMetadataNotMapping),
        }
    }

    /// The note type.
    pub fn get_type(&self) -> (r: Option<&str>)
        ensures
            match text_field(self.fields(), "type"@) {
                Some(t) => r is Some && r->Some_0@ == t,
                None => r is None,
            },
    {
        self.get_string("type")
    }

    /// The note tags.
    pub fn get_tags(&self) -> (r: Option<Vec<String>>)
        ensures
            match text_list_field(self.fields(), "tags"@) {
                Some(l) => r is Some && r->Some_0@.map_values(|v: String| v@) == l,
                None => r is None,
            },
    {
        self.get_string_list("tags")
    }

    /// The banner file name, without the marks of an embedded link around it.
    pub fn get_banner(&self) -> (r: Option<String>)
        ensures
            match text_field(self.fields(), "banner"@) {
                Some(t) => r is Some && r->Some_0@ == trim_marks(t),
                None => r is None,
            },
    {
        match self.get_string("banner") {
            Some(b) => {
                let v = chars_of(b);
                let t = trim_marks_of(&v);
                Some(string_of(t.as_slice()))
            },
            None => None,
        }
    }

    /// Sets the banner file name.
    pub fn set_banner(&mut self, file_name: &str) -> (r: Result<(), Error>)
        ensures
            match old(self).fields() {
                Some(m) => r is Ok && final(self).fields() == Some(
                    m.insert("banner"@, Field::Text(file_name@)),
                ),
                None => r is Err && r->Err_0 is NoteMetadataNotMapping && final(self).fields()
                    == old(self).fields(),
            },
    {
        self.set_string("banner", file_name)
    }

    /// Moves a banner outside the banners directory into it, without link marks, and
    /// drops the banner icon. Returns whether anything changed; a metadata that is
    /// not a mapping is left as it is.
    pub fn fix_banner(&mut self) -> (r: bool)
        ensures
            match old(self).fields() {
                Some(m) => final(self).fields() == Some(fixed_banner(m)) && r == (
                banner_needs_fix(m) || m.contains_key("banner_icon"@)),
                None => !r && final(self).fields() == old(self).fields(),
            },
    {
        let mut flag = false;
        let banner = match self.get_string("banner") {
            Some(b) => {
                let v = chars_of(b);
                let prefix = vec!['B', 'a', 'n', 'n', 'e', 'r', 's', '/'];
                let inside = starts_with(&v, &prefix);
                if inside {
                    None
                } else {
                    let mut fixed = prefix;
                    let name = trim_marks_of(&v);
                    push_all(&mut fixed, &name);
                    Some(string_of(fixed.as_slice()))
                }
            },
            None => None,
        };
        match banner {
            Some(b) => {
                let _ = self.set_string("banner", b.as_str());
                flag = true;
            },
            None => {},
        }
        match remove_key(&mut self.tree, "banner_icon") {
            Some(present) => {
                if present {
                    flag = true;
                }
            },
            None => {},
        }
        flag
    }

    /// Whether a creation timestamp string is present.
    pub fn has_created(&self) -> (r: bool)
        ensures
            r == (text_field(self.fields(), "created"@) is Some),
    {
        self.get_string("created").is_some()
    }

    /// Sets the creation timestamp, already written as text.
    pub fn set_created(&mut self, stamp: &str) -> (r: Result<(), Error>)
        ensures
            match old(self).fields() {
                Some(m) => r is Ok && final(self).fields() == Some(
                    m.insert("created"@, Field::Text(stamp@)),
                ),
                None => r is Err && r->Err_0 is NoteMetadataNotMapping && final(self).fields()
                    == old(self).fields(),
            },
    {
        self.set_string("created", stamp)
    }

    /// Removes the creation timestamp.
    pub fn remove_created(&mut self) -> (r: Result<(), Error>)
        ensures
            match old(self).fields() {
                Some(m) => r is Ok && final(self).fields() == Some(m.remove("created"@)),
                None => r is Err && r->Err_0 is NoteMetadataNotMapping && final(self).fields()
                    == old(self).fields(),
            },
    {
        self.remove("created")
    }

    /// Writes the metadata into `note`, as [`embedded`] describes: the text before
    /// the block and from its closing delimiter on is kept as it is.
    ///
    /// Fails with `IllegalNoteMetadata` where the note opens a block and never
    /// closes it.
    pub fn embed(&self, note: &str) -> (r: Result<String, Error>)
        ensures
            match embedded(self.emitted(), note@) {
                Some(t) => r is Ok && r->Ok_0@ == t,
                None => r is Err && r->Err_0 is IllegalNoteMetadata,
            },
    {
        let doc = chars_of(note);
        if let Err(Error::IllegalNoteMetadata) = locate(&doc) {
            return Err(Error::IllegalNoteMetadata);
        }
        match emit(&self.tree) {
            Ok(block) => splice(block.as_str(), note),
            Err(e) => Err(Error::YamlEmitError(e)),
        }
    }
}

/// Writes the metadata text `block` into `note`, as [`embedded`] describes; fails
/// with `IllegalNoteMetadata` where the note opens a block and never closes it.
pub fn splice(block: &str, note: &str) -> (r: Result<String, Error>)
    ensures
        match embedded(block@, note@) {
            Some(t) => r is Ok && r->Ok_0@ == t,
            None => r is Err && r->Err_0 is IllegalNoteMetadata,
        },
{
    let doc = chars_of(note);
    let block = chars_of(block);
    let span = locate(&doc);
    let mut out: Vec<char> = Vec::new();
    match span {
        Ok(span) => {
            push_range(&mut out, &doc, 0, span.open);
            push_all(&mut out, &block);
            out.push('\n');
            push_range(&mut out, &doc, span.close, doc.len());
            assert(doc@.subrange(0, span.open as int) == doc@.take(span.open as int));
            assert(doc@.subrange(span.close as int, doc@.len() as int) == doc@.skip(
                span.close as int,
            ));
        },
        Err(Error::IllegalNoteMetadata) => {
            return Err(Error::IllegalNoteMetadata);
        },
        Err(_) => {
            push_all(&mut out, &block);
            push_str(&mut out, "\n---\n");
            proof {
                reveal_strlit("\n---\n");
            }
            push_all(&mut out, &doc);
        },
    }
    Ok(string_of(out.as_slice()))
}

/// The name in `s` without the link marks around it.
fn trim_marks_of(s: &Vec<char>) -> (r: Vec<char>)
    ensures
        r@ == trim_marks(s@),
{
    let mut i: usize = 0;
    assert(s@.skip(0) == s@);
    while i < s.len() && (s[i] == '!' || s[i] == '[' || s[i] == ']')
        invariant
            i <= s.len(),
            trim_marks_start(s@) == trim_marks_start(s@.skip(i as int)),
        decreases s.len() - i,
    {
        assert(s@.skip(i as int).drop_first() == s@.skip(i + 1));
        i = i + 1;
    }
    let t = slice_of(s, i, s.len());
    assert(t@ == s@.skip(i as int));
    let mut j: usize = t.len();
    assert(t@.take(t.len() as int) == t@);
    while j > 0 && (t[j - 1] == '!' || t[j - 1] == '[' || t[j - 1] == ']')
        invariant
            j <= t.len(),
            trim_marks_end(t@) == trim_marks_end(t@.take(j as int)),
        decreases j,
    {
        assert(t@.take(j as int).drop_last() == t@.take(j - 1));
        j = j - 1;
    }
    assert(t@.take(t.len() as int) == t@);
    slice_of(&t, 0, j)
}

/// The entries that the metadata read from the block text `t` has.
pub open spec fn loaded_fields(t: Seq<char>) -> Option<Map<Seq<char>, Field>> {
    match yaml_loaded(t) {
        None => Some(Map::empty()),
        Some(f) => f,
    }
}


/// Fixing the banner twice changes nothing more than fixing it once, and the second
/// fix reports no change.
pub proof fn lemma_fix_banner_idempotent(m: Map<Seq<char>, Field>)
    ensures
        fixed_banner(fixed_banner(m)) == fixed_banner(m),
        !banner_needs_fix(fixed_banner(m)),
        !fixed_banner(m).contains_key("banner_icon"@),
{
    reveal_strlit("banner");
    reveal_strlit("banner_icon");
    assert("banner"@.len() != "banner_icon"@.len());
    let f = fixed_banner(m);
    if banner_needs_fix(m) {
        let t = banners_dir() + trim_marks(m["banner"@]->Text_0);
        assert(t.take(8) == banners_dir());
        assert(f["banner"@] == Field::Text(t));
    }
    assert(fixed_banner(f) =~= f);
}

/// Removing an entry twice changes nothing more than removing it once.
pub proof fn lemma_remove_idempotent(m: Map<Seq<char>, Field>, key: Seq<char>)
    ensures
        m.remove(key).remove(key) == m.remove(key),
        !m.remove(key).contains_key(key),
{
    assert(m.remove(key).remove(key) =~= m.remove(key));
}

/// Setting an entry to the value it already has changes nothing.
pub proof fn lemma_set_idempotent(m: Map<Seq<char>, Field>, key: Seq<char>, v: Field)
    ensures
        m.insert(key, v).insert(key, v) == m.insert(key, v),
{
    assert(m.insert(key, v).insert(key, v) =~= m.insert(key, v));
}

/// Writing metadata into a note with a closed block keeps the text before the
/// opening delimiter and the text from the closing delimiter on, character for
/// character.
pub proof fn lemma_embed_keeps_body(block: Seq<char>, note: Seq<char>)
    requires
        span_of(note) is Some,
        span_of(note)->0 is Some,
    ensures
        ({
            let (o, f, c) = span_of(note)->0->0;
            let r = embedded(block, note)->0;
            &&& r.take(o) == note.take(o)
            &&& r.skip(r.len() - (note.len() - c)) == note.skip(c)
        }),
{
    crate::front_matter::lemma_span_bounds(note);
    let (o, f, c) = span_of(note)->0->0;
    let r = embedded(block, note)->0;
    assert(r.take(o) =~= note.take(o));
    assert(r.skip(r.len() - (note.len() - c)) =~= note.skip(c));
}

/// Reading a note after metadata was written into its closed block finds the block
/// where it was written, and its metadata text is what the writer made of the tree
/// after its document start, with a line break. The written text must hold no
/// delimiter line after its first.
pub proof fn lemma_embed_then_read(block: Seq<char>, note: Seq<char>)
    requires
        span_of(note) is Some,
        span_of(note)->0 is Some,
        block.len() >= 4,
        block.take(4) == seq!['-', '-', '-', '\n'],
        crate::front_matter::next_delimiter(block.skip(4) + seq!['\n'], 0) is None,
    ensures
        ({
            let (o, f, c) = span_of(note)->0->0;
            let r = embedded(block, note)->0;
            let e = o + block.len() + 1;
            &&& span_of(r) == Some(Some((o, o + 4, e)))
            &&& r.subrange(o + 4, e) == block.skip(4) + seq!['\n']
        }),
{
    let body = block.skip(4);
    assert(block =~= seq!['-', '-', '-', '\n'] + body);
    crate::front_matter::lemma_block_round_trip(body, note);
}

/// Writing metadata into a note without any delimiter line puts a closed block before
/// it and keeps the whole note after that block.
pub proof fn lemma_embed_prepends(block: Seq<char>, note: Seq<char>)
    requires
        span_of(note) is None,
    ensures
        embedded(block, note) == Some(block + seq!['\n', '-', '-', '-', '\n'] + note),
        embedded(block, note)->0.skip(block.len() + 5int) == note,
{
    let r = embedded(block, note)->0;
    assert(r.skip(block.len() + 5int) =~= note);
}

} // verus!
