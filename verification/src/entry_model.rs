use vstd::prelude::*;

verus! {

/// A single tracked record: a store-assigned identifier, absent until the
/// record is persisted, and a timestamp string supplied by the caller.
#[derive(Debug)]
pub struct Entry {
    pub id: Option<u128>,
    pub timestamp: String,
}

/// The mathematical value of an `Entry`.
pub struct EntryView {
    pub id: Option<u128>,
    pub timestamp: Seq<char>,
}

impl View for Entry {
    type V = EntryView;

    open spec fn view(&self) -> EntryView {
        EntryView { id: self.id, timestamp: self.timestamp@ }
    }
}

impl Entry {
    /// Every persisted entry carries an identifier and a non-empty timestamp.
    pub open spec fn persisted(self) -> bool {
        self@.id is Some && self@.timestamp.len() > 0
    }

    /// Field-wise copy that keeps the entry's value.
    pub fn duplicate(&self) -> (r: Entry)
        ensures
            r@ == self@,
    {
        Entry { id: self.id, timestamp: self.timestamp.clone() }
    }
}

/// The values of a sequence of entries.
pub open spec fn views_of(s: Seq<Entry>) -> Seq<EntryView> {
    s.map_values(|e: Entry| e@)
}

} // verus!
