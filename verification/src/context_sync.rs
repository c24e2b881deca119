//! The request context that Cursor supplies on demand: which of its cached parts a request
//! references, and how Cursor's answer to a context request reads.
use vstd::prelude::*;

use crate::blob::BlobId;
use crate::error::{is_protocol, Error};

verus! {

/// The blob ids of a request's context parts; an empty id references nothing.
pub struct RequestContextPartReferences {
    pub rules_blob_id: Vec<u8>,
    pub skills_blob_id: Vec<u8>,
    pub subagents_blob_id: Vec<u8>,
    pub mcps_blob_id: Vec<u8>,
}

/// Cursor's answer to a context request.
pub enum ContextResult<T> {
    Success(Option<T>),
    Error(String),
    Rejected(String),
}

/// An id as a reference: itself, or nothing when it is empty.
pub open spec fn reference(id: Seq<u8>) -> Seq<Seq<u8>> {
    if id.len() > 0 {
        seq![id]
    } else {
        Seq::empty()
    }
}

/// The referenced part ids, in the order rules, skills, subagents, MCPs, leaving out the empty
/// ones.
pub open spec fn referenced(parts: RequestContextPartReferences) -> Seq<Seq<u8>> {
    reference(parts.rules_blob_id@) + reference(parts.skills_blob_id@) + reference(
        parts.subagents_blob_id@,
    ) + reference(parts.mcps_blob_id@)
}

/// Whether an entry stands for the id `raw`: its address, or nothing when `raw` is not one.
pub open spec fn stands_for(entry: Option<BlobId>, raw: Seq<u8>) -> bool {
    match entry {
        Some(id) => id@ == raw && raw.len() == 32,
        None => raw.len() != 32,
    }
}

/// Whether the entries stand for the ids, one each.
pub open spec fn entries_for(entries: Seq<Option<BlobId>>, ids: Seq<Seq<u8>>) -> bool {
    &&& entries.len() == ids.len()
    &&& forall|i: int| 0 <= i < ids.len() ==> stands_for(#[trigger] entries[i], ids[i])
}

/// Adds the entry of a referenced part.
fn push_part(ids: &mut Vec<Option<BlobId>>, raw: &Vec<u8>, Ghost(done): Ghost<Seq<Seq<u8>>>)
    requires
        entries_for(old(ids)@, done),
    ensures
        entries_for(final(ids)@, done + reference(raw@)),
{
    if raw.len() > 0 {
        ids.push(BlobId::from_bytes(raw.as_slice()));
    }
    assert(reference(raw@).len() == 0 ==> done + reference(raw@) =~= done);
}

/// The parts a request references (see [`referenced`]), each as its address or nothing when
/// the id is not an address. The store is asked for each address in turn; a part that it does
/// not hold makes the request fetch the whole context again.
pub fn part_ids(parts: &RequestContextPartReferences) -> (ids: Vec<Option<BlobId>>)
    ensures
        entries_for(ids@, referenced(*parts)),
{
    let mut ids: Vec<Option<BlobId>> = Vec::new();
    push_part(&mut ids, &parts.rules_blob_id, Ghost(Seq::empty()));
    assert(Seq::<Seq<u8>>::empty() + reference(parts.rules_blob_id@) =~= reference(parts.rules_blob_id@));
    push_part(&mut ids, &parts.skills_blob_id, Ghost(reference(parts.rules_blob_id@)));
    push_part(
        &mut ids,
        &parts.subagents_blob_id,
        Ghost(reference(parts.rules_blob_id@) + reference(parts.skills_blob_id@)),
    );
    push_part(
        &mut ids,
        &parts.mcps_blob_id,
        Ghost(
            reference(parts.rules_blob_id@) + reference(parts.skills_blob_id@) + reference(
                parts.subagents_blob_id@,
            ),
        ),
    );
    ids
}

/// How Cursor's answer to a context request reads: the context it returned; an empty success,
/// an error, a rejection or no answer at all are protocol errors.
pub fn context_result<T>(result: Option<ContextResult<T>>) -> (r: Result<T, Error>)
    ensures
        match result {
            Some(ContextResult::Success(Some(context))) => r == Ok::<T, Error>(context),
            Some(ContextResult::Success(None)) => r matches Err(e) && is_protocol(
                e,
                "Cursor returned empty request context"@,
            ),
            Some(ContextResult::Error(error)) => r matches Err(e) && is_protocol(
                e,
                "Cursor request context failed: "@ + error@,
            ),
            Some(ContextResult::Rejected(reason)) => r matches Err(e) && is_protocol(
                e,
                "Cursor rejected request context: "@ + reason@,
            ),
            None => r matches Err(e) && is_protocol(e, "Cursor returned no request context result"@),
        },
{
    match result {
        Some(ContextResult::Success(Some(context))) => Ok(context),
        Some(ContextResult::Success(None)) => Err(
            crate::error::protocol_message("Cursor returned empty request context"),
        ),
        Some(ContextResult::Error(error)) => Err(
            crate::error::protocol_error("Cursor request context failed: ", error.as_str()),
        ),
        Some(ContextResult::Rejected(reason)) => Err(
            crate::error::protocol_error("Cursor rejected request context: ", reason.as_str()),
        ),
        None => Err(crate::error::protocol_message("Cursor returned no request context result")),
    }
}

} // verus!
