//! What the per-file transformations of a batch add up to, and the transformations
//! themselves, on the text of one note.
use vstd::prelude::*;

use crate::error::Error;
use crate::text::{chars_of, contains, contains_chars};

verus! {

/// The failures among `results`, in order.
pub open spec fn errors_of(results: Seq<Result<(), Error>>) -> Seq<Error>
    decreases results.len(),
{
    if results.len() == 0 {
        Seq::empty()
    } else {
        let rest = errors_of(results.drop_last());
        match results.last() {
            Err(e) => rest.push(e),
            Ok(_) => rest,
        }
    }
}

/// How many of `results` are failures.
pub open spec fn failure_count(results: Seq<Result<(), Error>>) -> nat
    decreases results.len(),
{
    if results.len() == 0 {
        0
    } else {
        failure_count(results.drop_last()) + if results.last() is Err {
            1nat
        } else {
            0nat
        }
    }
}

/// The outcome of a batch whose units of work gave `results`, in the order they
/// completed: success where none failed, else every failure, in that order.
pub fn collect_failures(results: Vec<Result<(), Error>>) -> (r: Result<(), Error>)
    ensures
        errors_of(results@).len() == 0 ==> r is Ok,
        errors_of(results@).len() > 0 ==> r is Err && r->Err_0 is MultipleExecutorsError
            && r->Err_0->MultipleExecutorsError_0@ == errors_of(results@),
{
    let ghost all = results@;
    let mut errors: Vec<Error> = Vec::new();
    let mut i: usize = 0;
    for res in it: results
        invariant
            it.seq() == all,
            errors@ == errors_of(all.take(it.index() as int)),
    {
        let ghost k = it.index();
        assert(all.take(k + 1).drop_last() == all.take(k));
        match res {
            Err(e) => errors.push(e),
            Ok(_) => {},
        }
    }
    assert(all.take(all.len() as int) == all);
    if errors.len() == 0 {
        Ok(())
    } else {
        Err(Error::MultipleExecutorsError(errors))
    }
}

/// A batch reports exactly as many errors as units of work failed, and succeeds
/// exactly where none failed.
pub proof fn lemma_failures_isolated(results: Seq<Result<(), Error>>)
    ensures
        errors_of(results).len() == failure_count(results),
        failure_count(results) <= results.len(),
    decreases results.len(),
{
    if results.len() > 0 {
        lemma_failures_isolated(results.drop_last());
    }
}

/// The name is referred to by one of the notes.
pub open spec fn is_referenced(name: Seq<char>, notes: Seq<String>) -> bool {
    exists|j: int| 0 <= j < notes.len() && contains(#[trigger] notes[j]@, name)
}

/// The names among `names` that none of the notes refers to, in order.
pub open spec fn unreferenced(names: Seq<String>, notes: Seq<String>) -> Seq<Seq<char>>
    decreases names.len(),
{
    if names.len() == 0 {
        Seq::empty()
    } else {
        let rest = unreferenced(names.drop_last(), notes);
        if is_referenced(names.last()@, notes) {
            rest
        } else {
            rest.push(names.last()@)
        }
    }
}

/// The attachment names that no note refers to: those that occur in none of the texts.
pub fn unused_files(names: &Vec<String>, notes: &Vec<String>) -> (r: Vec<String>)
    ensures
        r@.map_values(|s: String| s@) == unreferenced(names@, notes@),
{
    let mut texts: Vec<Vec<char>> = Vec::new();
    let mut j: usize = 0;
    while j < notes.len()
        invariant
            j <= notes.len(),
            texts.len() == j,
            forall|k: int| 0 <= k < j ==> #[trigger] texts[k]@ == notes[k]@,
        decreases notes.len() - j,
    {
        texts.push(chars_of(notes[j].as_str()));
        j = j + 1;
    }
    let mut out: Vec<String> = Vec::new();
    let mut i: usize = 0;
    while i < names.len()
        invariant
            i <= names.len(),
            texts.len() == notes.len(),
            forall|k: int| 0 <= k < notes.len() ==> #[trigger] texts[k]@ == notes[k]@,
            out@.map_values(|s: String| s@) == unreferenced(names@.take(i as int), notes@),
        decreases names.len() - i,
    {
        let name = chars_of(names[i].as_str());
        let mut used = false;
        let mut j: usize = 0;
        while j < texts.len()
            invariant
                j <= texts.len() == notes.len(),
                forall|k: int| 0 <= k < notes.len() ==> #[trigger] texts[k]@ == notes[k]@,
                used == exists|k: int| 0 <= k < j && contains(#[trigger] notes[k]@, name@),
            decreases texts.len() - j,
        {
            if contains_chars(&texts[j], &name) {
                used = true;
            }
            j = j + 1;
        }
        assert(names@.take(i + 1).drop_last() == names@.take(i as int));
        if !used {
            out.push(names[i].clone());
        }
        assert(out@.map_values(|s: String| s@) =~= unreferenced(names@.take(i + 1), notes@));
        i = i + 1;
    }
    assert(names@.take(names.len() as int) == names@);
    out
}

} // verus!
