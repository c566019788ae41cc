//! The values that a note template is rendered with.
use vstd::prelude::*;

verus! {

/// A value for a template: one optional string, or a list of strings.
#[derive(Debug)]
pub enum TemplateEntry {
    /// One string, or none.
    Single(Option<String>),
    /// A list of strings.
    Multiple(Vec<String>),
}

/// The strings of an entry, in order.
pub open spec fn entry_items(e: TemplateEntry) -> Seq<String> {
    match e {
        TemplateEntry::Single(Some(s)) => seq![s],
        TemplateEntry::Single(None) => Seq::empty(),
        TemplateEntry::Multiple(v) => v@,
    }
}

impl TemplateEntry {
    /// A walk over the strings of the entry.
    pub fn into_iter(&self) -> (r: TemplateEntryIterator<'_>)
        ensures
            r.remaining() == entry_items(*self),
    {
        TemplateEntryIterator { entry: self, index: 0 }
    }
}

/// A walk over the strings of a template entry.
#[derive(Debug)]
pub struct TemplateEntryIterator<'a> {
    entry: &'a TemplateEntry,
    index: usize,
}

impl<'a> TemplateEntryIterator<'a> {
    /// The strings not yet handed out.
    pub closed spec fn remaining(&self) -> Seq<String> {
        let items = entry_items(*self.entry);
        if self.index < items.len() {
            items.skip(self.index as int)
        } else {
            Seq::empty()
        }
    }

    /// The next string, where there is one.
    pub fn next(&mut self) -> (r: Option<&'a String>)
        ensures
            old(self).remaining().len() == 0 ==> r is None && final(self).remaining() == old(
                self,
            ).remaining(),
            old(self).remaining().len() > 0 ==> r is Some && *r->Some_0 == old(self).remaining()[0]
                && final(self).remaining() == old(self).remaining().drop_first(),
    {
        match self.entry {
            TemplateEntry::Single(e) => {
                if let Some(s) = e {
                    if self.index == 0 {
                        self.index = 1;
                        assert(entry_items(*self.entry).skip(1) =~= seq![*s].skip(0).drop_first());
                        return Some(s);
                    }
                }
            },
            TemplateEntry::Multiple(e) => {
                if self.index < e.len() {
                    let s = &e[self.index];
                    self.index = self.index + 1;
                    assert(e@.skip(self.index as int) =~= e@.skip(self.index - 1).drop_first());
                    return Some(s);
                }
            },
        }
        None
    }
}

} // verus!
