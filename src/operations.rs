//! The named operations on the text of one note; a batch runs one of them on
//! every note of the vault.
use vstd::prelude::*;

use crate::error::Error;
use crate::front_matter::span_of;
use crate::metadata::{banner_needs_fix, embedded, fixed_banner, loaded_fields, Metadata};
use crate::text::{chars_of, eq_chars};
use crate::yaml::{yaml_scans, Field};

verus! {

/// A described wiki reference `[[ file | description ]]`, with blanks around its
/// parts, as a regular expression with the groups `file` and `descr`.
pub const WIKI_REF_PATTERN: &'static str =
    r"\[\[\s*(?P<file>[A-Za-z\d\-\.]+(?:\s+[\w\d\-_\.\(\)]+)*)\s*\|\s+(?P<descr>.[^\[\]]+)\s*?\]\]";

/// A wiki reference written without blanks around its parts.
pub const WIKI_REF_TEMPLATE: &'static str = "[[$file|$descr]]";

/// The text with every match of the regular expression `pattern` replaced by
/// `template`, whose `$name` parts stand for the groups of the match; `None` where
/// the pattern does not compile.
pub uninterp spec fn regex_replaced(pattern: Seq<char>, text: Seq<char>, template: Seq<char>) -> Option<
    Seq<char>,
>;

/// Relies on `Regex::new`, which reports a pattern that does not compile, and
/// `Regex::replace_all`, which replaces every match by the expanded template.
#[verifier::external_body]
fn replace_matches(pattern: &str, text: &str, template: &str) -> (r: Option<String>)
    ensures
        match regex_replaced(pattern@, text@, template@) {
            Some(t) => r is Some && r->Some_0@ == t,
            None => r is None,
        },
{
    regex::Regex::new(pattern).ok().map(|re| re.replace_all(text, template).into_owned())
}

/// The note with its described wiki references written without blanks, where the
/// reference pattern compiles.
pub open spec fn wiki_refs_repaired(note: Seq<char>) -> Option<Seq<char>> {
    regex_replaced(WIKI_REF_PATTERN@, note, WIKI_REF_TEMPLATE@)
}

/// The new text of a note where it differs from the old one; `None` where the
/// note can stay as it is.
pub fn rewrite_if_changed(old: &str, new: String) -> (r: Option<String>)
    ensures
        old@ == new@ ==> r is None,
        old@ != new@ ==> r is Some && r->Some_0@ == new@,
{
    let a = chars_of(old);
    let b = chars_of(new.as_str());
    if eq_chars(&a, &b) {
        None
    } else {
        Some(new)
    }
}

/// Repairs the described wiki references of a note; `None` where there is nothing
/// to repair.
pub fn repair_wiki_refs(note: &str) -> (r: Option<String>)
    ensures
        match wiki_refs_repaired(note@) {
            Some(t) => if t == note@ {
                r is None
            } else {
                r is Some && r->Some_0@ == t
            },
            None => r is None,
        },
{
    match replace_matches(WIKI_REF_PATTERN, note, WIKI_REF_TEMPLATE) {
        Some(t) => rewrite_if_changed(note, t),
        None => None,
    }
}

/// The metadata entries of a note with a closed block, as the reader gives them.
pub open spec fn note_fields(note: Seq<char>) -> Option<Map<Seq<char>, Field>> {
    match span_of(note) {
        Some(Some((o, f, c))) => loaded_fields(note.subrange(f, c)),
        _ => None,
    }
}

/// The note has a closed block whose text reads as YAML.
pub open spec fn note_reads(note: Seq<char>) -> bool {
    match span_of(note) {
        Some(Some((o, f, c))) => yaml_scans(note.subrange(f, c)),
        _ => false,
    }
}

/// The errors that reading the metadata of a note gives where its block is missing
/// or never closed, and success exactly where its block reads.
pub open spec fn block_errors(note: Seq<char>, r: Result<Option<String>, Error>) -> bool {
    &&& r is Ok <==> note_reads(note)
    &&& span_of(note) is None ==> r is Err && r->Err_0 is NoteMetadataNotFound
    &&& span_of(note) == Some(None::<(int, int, int)>) ==> r is Err && r->Err_0 is IllegalNoteMetadata
}

/// The note carries the metadata entries `m`, written into the text of `note`.
pub open spec fn rewritten_with(note: Seq<char>, m: Map<Seq<char>, Field>, t: Seq<char>) -> bool {
    exists|meta: Metadata| meta.fields() == Some(m) && embedded(meta.emitted(), note) == Some(t)
}

/// The banner of the note needs fixing.
pub open spec fn banner_fix_needed(m: Map<Seq<char>, Field>) -> bool {
    banner_needs_fix(m) || m.contains_key("banner_icon"@)
}

/// Fixes the banner of a note, as [`Metadata::fix_banner`] does; `None` where there
/// is nothing to fix.
pub fn fix_note_banner(note: &str) -> (r: Result<Option<String>, Error>)
    ensures
        block_errors(note@, r),
        r is Ok && r->Ok_0 is None ==> note_fields(note@) is None || !banner_fix_needed(
            note_fields(note@)->0,
        ),
        r is Ok && r->Ok_0 is Some ==> note_fields(note@) is Some && banner_fix_needed(
            note_fields(note@)->0,
        ) && rewritten_with(note@, fixed_banner(note_fields(note@)->0), r->Ok_0->Some_0@),
{
    let mut meta = Metadata::from_str(note)?;
    if meta.fix_banner() {
        let t = meta.embed(note)?;
        Ok(Some(t))
    } else {
        Ok(None)
    }
}

/// Removes the creation timestamp of a note; `None` where it has none.
pub fn remove_note_created(note: &str) -> (r: Result<Option<String>, Error>)
    ensures
        block_errors(note@, r),
        r is Ok && r->Ok_0 is None ==> note_fields(note@) is None || !note_fields(
            note@,
        )->0.contains_key("created"@),
        r is Ok && r->Ok_0 is Some ==> note_fields(note@) is Some && note_fields(
            note@,
        )->0.contains_key("created"@) && rewritten_with(
            note@,
            note_fields(note@)->0.remove("created"@),
            r->Ok_0->Some_0@,
        ),
{
    let mut meta = Metadata::from_str(note)?;
    if meta.has("created") {
        meta.remove_created()?;
        let t = meta.embed(note)?;
        Ok(Some(t))
    } else {
        Ok(None)
    }
}

/// Sets the creation timestamp of a note that has none; `None` where it has one, or
/// its metadata is not a mapping.
pub fn add_note_created(note: &str, stamp: &str) -> (r: Result<Option<String>, Error>)
    ensures
        block_errors(note@, r),
        r is Ok && r->Ok_0 is None ==> note_fields(note@) is None || note_fields(
            note@,
        )->0.contains_key("created"@),
        r is Ok && r->Ok_0 is Some ==> note_fields(note@) is Some && !note_fields(
            note@,
        )->0.contains_key("created"@) && rewritten_with(
            note@,
            note_fields(note@)->0.insert("created"@, Field::Text(stamp@)),
            r->Ok_0->Some_0@,
        ),
{
    let mut meta = Metadata::from_str(note)?;
    if meta.has("created") {
        return Ok(None);
    }
    if meta.set_created(stamp).is_err() {
        return Ok(None);
    }
    let t = meta.embed(note)?;
    Ok(Some(t))
}

} // verus!
