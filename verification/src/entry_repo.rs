use vstd::prelude::*;

use vstd::utf8::is_ascii_chars;

use crate::entry_model::{Entry, EntryView, views_of};

verus! {

/// The store's error taxonomy: a failure to reach the endpoint at start-up,
/// and request-scoped write and read failures.
#[derive(Clone, Copy, Debug, PartialEq, Eq, Structural)]
pub enum StoreError {
    ConnectionError,
    WriteError,
    ReadError,
}

impl StoreError {
    /// The human-readable message a handler puts in an error response body.
    pub open spec fn message_view(self) -> Seq<char> {
        match self {
            StoreError::ConnectionError => "failed to connect to database"@,
            StoreError::WriteError => "error adding new entry"@,
            StoreError::ReadError => "error getting list of entries"@,
        }
    }

    /// Renders the error as text for a response body or a log line.
    pub fn message(&self) -> (r: &'static str)
        ensures
            r@ == self.message_view(),
    {
        match self {
            StoreError::ConnectionError => "failed to connect to database",
            StoreError::WriteError => "error adding new entry",
            StoreError::ReadError => "error getting list of entries",
        }
    }
}

/// The verdict of the driver's connection-string parser on a URI: whether
/// the text is a well-formed connection string. What exactly the parser
/// accepts takes pages to state, but it is decided by the string alone, so
/// the verdict only carries a name here.
pub uninterp spec fn uri_well_formed(uri: Seq<char>) -> bool;

/// Relies on `mongodb::options::ConnectionString::parse`: it accepts or
/// rejects a connection URI by its text alone — deterministically, before
/// any I/O — so its verdict is a function of the string. The parser indexes
/// the text by bytes when it validates percent-escapes, so it is only ever
/// called on ASCII text, where every byte stands on a character boundary
/// and the parse returns instead of panicking.
#[verifier::external_body]
fn uri_accepted(uri: &str) -> (r: bool)
    requires
        is_ascii_chars(uri@),
    ensures
        r == uri_well_formed(uri@),
{
    mongodb::options::ConnectionString::parse(uri).is_ok()
}

/// Repository state the contracts promise: every held entry is persisted,
/// its identifier is its position in insertion order (so identifiers are
/// unique and assigned by the store), and its timestamp is non-empty.
pub open spec fn repo_inv(s: Seq<EntryView>) -> bool {
    forall|i: int|
        0 <= i < s.len() ==> (#[trigger] s[i]).id == Some(i as u128) && s[i].timestamp.len() > 0
}

/// Repository for `Entry` records: the sole owner of the persisted state,
/// offering `create_entry` and `get_entries`. It keeps the records in memory
/// in insertion order, together with a reachability flag, so that it can
/// stand in for the service's store wherever an injected, substitutable
/// store is wanted.
#[derive(Debug)]
pub struct EntryRepo {
    entries: Vec<Entry>,
    connected: bool,
}

impl EntryRepo {
    /// The persisted records, in insertion order.
    pub closed spec fn entries(&self) -> Seq<EntryView> {
        views_of(self.entries@)
    }

    /// Whether the endpoint behind the store is still reachable.
    pub closed spec fn connected(&self) -> bool {
        self.connected
    }

    /// Well-formedness: the persisted records satisfy the store invariant.
    pub closed spec fn wf(&self) -> bool {
        repo_inv(self.entries())
    }

    /// The fixed database name every store binds to.
    pub fn database_name(&self) -> (r: &'static str)
        ensures
            r@ == "tracker_mongo"@,
    {
        "tracker_mongo"
    }

    /// The fixed collection name every store binds to.
    pub fn collection_name(&self) -> (r: &'static str)
        ensures
            r@ == "Entry"@,
    {
        "Entry"
    }

    /// Opens a store on the given connection URI, bound to the fixed
    /// database and collection names. A URI that is not ASCII text, or
    /// that the driver's parser rejects, is malformed: the one fatal,
    /// start-up-only failure (connection URIs are ASCII, so nothing
    /// well-formed is turned away). A well-formed URI yields a reachable
    /// store that holds no records yet: this store keeps its records in
    /// memory for the life of the process, so — unlike a store bound to a
    /// collection that already holds documents — a fresh one starts empty,
    /// and every URI it accepts reaches it; binding to pre-existing data,
    /// and an endpoint that cannot be reached at start-up, are the
    /// deployment's concern.
    pub fn init(uri: String) -> (r: Result<EntryRepo, StoreError>)
        ensures
            is_ascii_chars(uri@) && uri_well_formed(uri@) ==> (r matches Ok(repo) && repo.wf()
                && repo.connected() && repo.entries() == Seq::<EntryView>::empty()),
            !(is_ascii_chars(uri@) && uri_well_formed(uri@)) ==> r == Err::<
                EntryRepo,
                StoreError,
            >(StoreError::ConnectionError),
    {
        if !uri.as_str().is_ascii() {
            return Err(StoreError::ConnectionError);
        }
        if !uri_accepted(uri.as_str()) {
            Err(StoreError::ConnectionError)
        } else {
            let repo = EntryRepo { entries: Vec::new(), connected: true };
            proof {
                assert(repo.entries() =~= Seq::<EntryView>::empty());
            }
            Ok(repo)
        }
    }

    /// Persists a new record carrying the given timestamp. On a reachable
    /// store this always succeeds: the record is appended, and comes back
    /// with a fresh identifier no earlier record carries and the timestamp
    /// unchanged. On an unreachable store it fails with the write error and
    /// leaves the records as they were.
    pub fn create_entry(&mut self, timestamp: String) -> (r: Result<Entry, StoreError>)
        requires
            old(self).wf(),
            timestamp@.len() > 0,
        ensures
            final(self).wf(),
            final(self).connected() == old(self).connected(),
            old(self).connected() ==> (r matches Ok(e)
                && e@.timestamp == timestamp@
                && e@.id == Some(old(self).entries().len() as u128)
                && e.persisted()
                && final(self).entries() == old(self).entries().push(e@)
                && (forall|i: int|
                    0 <= i < old(self).entries().len()
                        ==> (#[trigger] old(self).entries()[i]).id != e@.id)),
            !old(self).connected() ==> (r == Err::<Entry, StoreError>(StoreError::WriteError)
                && final(self).entries() == old(self).entries()),
    {
        if !self.connected {
            return Err(StoreError::WriteError);
        }
        let id: u128 = self.entries.len() as u128;
        let entry = Entry { id: Some(id), timestamp };
        let created = entry.duplicate();
        self.entries.push(entry);
        proof {
            assert(self.entries() =~= old(self).entries().push(created@));
        }
        Ok(created)
    }

    /// Returns every persisted record, most recently inserted first. On a
    /// reachable store the full list always comes back — empty when nothing
    /// was ever created, never truncated; on an unreachable store the call
    /// fails with the read error.
    pub fn get_entries(&self) -> (r: Result<Vec<Entry>, StoreError>)
        requires
            self.wf(),
        ensures
            self.connected() ==> (r matches Ok(v) && views_of(v@) == self.entries().reverse()),
            !self.connected() ==> r == Err::<Vec<Entry>, StoreError>(StoreError::ReadError),
    {
        if !self.connected {
            return Err(StoreError::ReadError);
        }
        let mut out: Vec<Entry> = Vec::new();
        let mut i: usize = self.entries.len();
        while i > 0
            invariant
                i <= self.entries@.len(),
                out@.len() == self.entries@.len() - i,
                forall|j: int|
                    0 <= j < out@.len()
                        ==> (#[trigger] out@[j])@ == self.entries@[self.entries@.len() - 1 - j]@,
            decreases i,
        {
            i = i - 1;
            let copy = self.entries[i].duplicate();
            out.push(copy);
        }
        proof {
            assert(views_of(out@) =~= self.entries().reverse());
        }
        Ok(out)
    }

    /// Marks the endpoint unreachable, as when the store goes away after a
    /// successful start-up: the records are kept, and every later operation
    /// reports its request-scoped error instead of panicking.
    pub fn disconnect(&mut self)
        ensures
            !final(self).connected(),
            final(self).entries() == old(self).entries(),
            final(self).wf() == old(self).wf(),
    {
        self.connected = false;
    }
}

/// Strict lexicographic order on strings, by character code point.
pub open spec fn lex_lt(a: Seq<char>, b: Seq<char>) -> bool
    decreases a.len(),
{
    if b.len() == 0 {
        false
    } else if a.len() == 0 {
        true
    } else if a[0] != b[0] {
        a[0] < b[0]
    } else {
        lex_lt(a.drop_first(), b.drop_first())
    }
}

/// The timestamps strictly increase in insertion order.
pub open spec fn timestamps_increasing(s: Seq<EntryView>) -> bool {
    forall|i: int, j: int|
        0 <= i < j < s.len()
            ==> lex_lt(#[trigger] s[i].timestamp, #[trigger] s[j].timestamp)
}

/// The timestamps strictly decrease along the sequence: newest first.
pub open spec fn timestamps_descending(s: Seq<EntryView>) -> bool {
    forall|i: int, j: int|
        0 <= i < j < s.len()
            ==> lex_lt(#[trigger] s[j].timestamp, #[trigger] s[i].timestamp)
}

/// Law: when a store's records carry strictly increasing timestamps — as
/// they do when each record is created later than the one before and the
/// clock never moves backward — the listing `get_entries` returns, the
/// reverse of the insertion order, holds exactly the same number of entries,
/// ordered by strictly descending timestamp.
pub proof fn lemma_listing_descending(s: Seq<EntryView>)
    requires
        timestamps_increasing(s),
    ensures
        s.reverse().len() == s.len(),
        timestamps_descending(s.reverse()),
{
    let r = s.reverse();
    let n = s.len() as int;
    assert forall|i: int, j: int|
        0 <= i < j < r.len() implies lex_lt(r[j].timestamp, r[i].timestamp) by {
        assert(r[i] == s[n - 1 - i]);
        assert(r[j] == s[n - 1 - j]);
        assert(lex_lt(s[n - 1 - j].timestamp, s[n - 1 - i].timestamp));
    }
}

/// Law: the listing puts the most recently inserted record first. Along
/// the reverse of a well-formed store's records the store-assigned
/// identifiers run strictly downward from the newest, so of two records
/// with equal timestamps the later-inserted one stands earlier in the
/// listing `get_entries` returns.
pub proof fn lemma_listing_newest_first(s: Seq<EntryView>)
    requires
        repo_inv(s),
    ensures
        s.reverse().len() == s.len(),
        forall|k: int|
            0 <= k < s.len() ==> (#[trigger] s.reverse()[k]).id == Some(
                (s.len() - 1 - k) as u128,
            ),
{
    assert forall|k: int| 0 <= k < s.len() implies (#[trigger] s.reverse()[k]).id == Some(
        (s.len() - 1 - k) as u128,
    ) by {
        assert(s.reverse()[k] == s[s.len() - 1 - k]);
    }
}

} // verus!
