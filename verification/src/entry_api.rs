use vstd::prelude::*;
use vstd::utf8::{encode_utf8, is_ascii_chars};

use crate::clock::now_rfc2822;
use crate::entry_model::{Entry, EntryView, views_of};
use crate::entry_repo::{EntryRepo, StoreError};
use crate::json::{entries_json, entry_json, json_of_entries, json_of_entry, write_str_bytes};

verus! {

/// What a handler hands back to the HTTP layer: a status code and a
/// response body. A successful request carries JSON, a failed one carries
/// the error's message as plain text.
pub struct HttpReply {
    pub status: u16,
    pub body: Vec<u8>,
}

/// The UTF-8 bytes of an error's message, as a failed request's body.
pub open spec fn message_bytes_of(err: StoreError) -> Seq<u8> {
    encode_utf8(err.message_view())
}

/// The record a create with the given timestamp persists when the store
/// already holds `count` records.
pub open spec fn created_view(count: int, timestamp: Seq<char>) -> EntryView {
    EntryView { id: Some(count as u128), timestamp }
}

/// The plain-text body of a failed request: the error's message bytes.
pub fn message_body(err: StoreError) -> (r: Vec<u8>)
    ensures
        r@ == message_bytes_of(err),
{
    let mut out: Vec<u8> = Vec::new();
    write_str_bytes(&mut out, err.message());
    proof {
        assert(out@ =~= message_bytes_of(err));
    }
    out
}

/// The handler's decision on the outcome of a create: HTTP 200 with the
/// persisted entry as JSON, or HTTP 500 with the error's message.
pub fn reply_created(result: Result<Entry, StoreError>) -> (r: HttpReply)
    ensures
        (result matches Ok(e) ==> r.status == 200 && r.body@ == json_of_entry(e@)),
        (result matches Err(err) ==> r.status == 500 && r.body@ == message_bytes_of(err)),
{
    match result {
        Ok(e) => HttpReply { status: 200, body: entry_json(&e) },
        Err(err) => HttpReply { status: 500, body: message_body(err) },
    }
}

/// The handler's decision on the outcome of a listing: HTTP 200 with the
/// entries as a JSON array, or HTTP 500 with the error's message.
pub fn reply_listed(result: Result<Vec<Entry>, StoreError>) -> (r: HttpReply)
    ensures
        (result matches Ok(v) ==> r.status == 200 && r.body@ == json_of_entries(views_of(v@))),
        (result matches Err(err) ==> r.status == 500 && r.body@ == message_bytes_of(err)),
{
    match result {
        Ok(v) => HttpReply { status: 200, body: entries_json(&v) },
        Err(err) => HttpReply { status: 500, body: message_body(err) },
    }
}

/// Persists one entry under a caller-supplied timestamp and decides the
/// response: on a reachable store the request succeeds, the new record goes
/// behind the existing ones, and the body is that record's JSON; on an
/// unreachable store the request fails with the write error's message.
pub fn add_entry_with(repo: &mut EntryRepo, timestamp: String) -> (r: HttpReply)
    requires
        old(repo).wf(),
        timestamp@.len() > 0,
    ensures
        final(repo).wf(),
        final(repo).connected() == old(repo).connected(),
        old(repo).connected() ==> (r.status == 200
            && final(repo).entries() == old(repo).entries().push(
            created_view(old(repo).entries().len() as int, timestamp@),
        )
            && r.body@ == json_of_entry(
            created_view(old(repo).entries().len() as int, timestamp@),
        )),
        !old(repo).connected() ==> (r.status == 500
            && final(repo).entries() == old(repo).entries()
            && r.body@ == message_bytes_of(StoreError::WriteError)),
{
    let result = repo.create_entry(timestamp);
    reply_created(result)
}

/// Handles the route that adds an entry: stamps the current instant in
/// RFC 2822 form and persists it. Whatever instant the clock reads, on a
/// reachable store the reply is HTTP 200 carrying the JSON of the one
/// record appended, whose timestamp is the clock's non-empty ASCII
/// rendering; on an unreachable store it is HTTP 500 with the write
/// error's message.
pub fn add_entry(repo: &mut EntryRepo) -> (r: HttpReply)
    requires
        old(repo).wf(),
    ensures
        final(repo).wf(),
        final(repo).connected() == old(repo).connected(),
        old(repo).connected() ==> (r.status == 200
            && final(repo).entries().len() == old(repo).entries().len() + 1
            && final(repo).entries() == old(repo).entries().push(final(repo).entries().last())
            && final(repo).entries().last().id == Some(old(repo).entries().len() as u128)
            && final(repo).entries().last().timestamp.len() > 0
            && is_ascii_chars(final(repo).entries().last().timestamp)
            && r.body@ == json_of_entry(final(repo).entries().last())),
        !old(repo).connected() ==> (r.status == 500
            && final(repo).entries() == old(repo).entries()
            && r.body@ == message_bytes_of(StoreError::WriteError)),
{
    let timestamp = now_rfc2822();
    add_entry_with(repo, timestamp)
}

/// Handles the route that lists the entries: on a reachable store the reply
/// is HTTP 200 carrying the JSON array of every record, most recently
/// inserted first — `[]` when nothing was ever created; on an unreachable
/// store it is HTTP 500 with the read error's message.
pub fn get_entries(repo: &EntryRepo) -> (r: HttpReply)
    requires
        repo.wf(),
    ensures
        repo.connected() ==> (r.status == 200
            && r.body@ == json_of_entries(repo.entries().reverse())),
        !repo.connected() ==> (r.status == 500
            && r.body@ == message_bytes_of(StoreError::ReadError)),
{
    let result = repo.get_entries();
    reply_listed(result)
}

} // verus!
