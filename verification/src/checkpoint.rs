//! Restoring and building conversation checkpoints: how stored state entries and prefetched
//! blobs are classified, how inline conversation bytes split into messages, and the context
//! window a checkpoint records.
use vstd::prelude::*;

use crate::blob::{base64_standard, BlobId};
use crate::digest::sha256;
use crate::error::{is_protocol, Error};

verus! {

/// The context window of conversations that never selected one.
pub const DEFAULT_CONTEXT_WINDOW_TOKENS: u64 = 200_000;

/// The context window a checkpoint records: the selected window, else a nonzero previous
/// one, else the default.
pub open spec fn context_limit_of(selected: Option<u64>, previous: Option<u64>) -> Option<u64> {
    match selected {
        Some(s) => Some(s),
        None => match previous {
            Some(p) => if p != 0 {
                Some(p)
            } else {
                Some(200_000)
            },
            None => Some(200_000),
        },
    }
}

/// The context window a checkpoint records (see [`context_limit_of`]).
pub fn context_limit(selected: Option<u64>, previous: Option<u64>) -> (r: Option<u64>)
    ensures
        r == context_limit_of(selected, previous),
{
    match selected {
        Some(s) => Some(s),
        None => match previous {
            Some(p) => if p != 0 {
                Some(p)
            } else {
                Some(DEFAULT_CONTEXT_WINDOW_TOKENS)
            },
            None => Some(DEFAULT_CONTEXT_WINDOW_TOKENS),
        },
    }
}

/// One `repeated bytes` conversation-state entry: a 32-byte blob reference on server-built
/// checkpoints, or the encoded content inline on states the client assembled itself.
pub enum StateEntry {
    Reference(BlobId),
    Inline,
}

/// Classifies a state entry: exactly 32 bytes are a reference to the blob they name.
pub fn classify_state_entry(raw: &[u8]) -> (r: Result<StateEntry, Error>)
    ensures
        match r {
            Ok(StateEntry::Reference(id)) => raw@.len() == 32 && id@ == raw@,
            Ok(StateEntry::Inline) => raw@.len() != 32,
            Err(_) => false,
        },
{
    match BlobId::from_bytes(raw) {
        Some(id) => Ok(StateEntry::Reference(id)),
        None => Ok(StateEntry::Inline),
    }
}

/// A blob the client prefetched: two byte fields, one of which may hold the digest.
pub struct PreFetchedBlob {
    pub id: Vec<u8>,
    pub value: Vec<u8>,
}

/// One prefetched blob, split by which side carries the digest.
pub enum Prefetched<'a> {
    /// The 32-byte digest side and the payload side.
    Verified(BlobId, &'a [u8]),
    /// No digest side at all: only the payload.
    Raw(&'a [u8]),
}

/// Classifies a prefetched blob. The captured schema names field 1 `id` and field 2
/// `value`, but current clients send the payload in field 1 and the digest in field 2:
/// either order is accepted, a 32-byte `id` first. Without a digest side the non-empty
/// field is the payload (`value` when both are); two empty fields are nothing.
pub fn classify_prefetched(blob: &PreFetchedBlob) -> (r: Result<Option<Prefetched<'_>>, Error>)
    ensures
        match r {
            Ok(Some(Prefetched::Verified(id, value))) => if blob.id@.len() == 32 {
                id@ == blob.id@ && value@ == blob.value@
            } else {
                blob.value@.len() == 32 && id@ == blob.value@ && value@ == blob.id@
            },
            Ok(Some(Prefetched::Raw(payload))) => blob.id@.len() != 32 && blob.value@.len() != 32
                && !(blob.id@.len() == 0 && blob.value@.len() == 0) && payload@ == (if blob.value@.len()
                == 0 {
                blob.id@
            } else {
                blob.value@
            }),
            Ok(None) => blob.id@.len() == 0 && blob.value@.len() == 0,
            Err(_) => false,
        },
{
    match BlobId::from_bytes(blob.id.as_slice()) {
        Some(id) => {
            return Ok(Some(Prefetched::Verified(id, blob.value.as_slice())));
        },
        None => {},
    }
    match BlobId::from_bytes(blob.value.as_slice()) {
        Some(id) => {
            return Ok(Some(Prefetched::Verified(id, blob.id.as_slice())));
        },
        None => {},
    }
    if blob.id.len() == 0 && blob.value.len() == 0 {
        Ok(None)
    } else if blob.value.len() == 0 {
        Ok(Some(Prefetched::Raw(blob.id.as_slice())))
    } else {
        Ok(Some(Prefetched::Raw(blob.value.as_slice())))
    }
}

/// The payload of a prefetched blob and the digest it came with, if any (see
/// [`classify_prefetched`]); nothing for a blob with two empty fields.
pub open spec fn prefetched_item(id: Seq<u8>, value: Seq<u8>) -> Option<(Seq<u8>, Option<Seq<u8>>)> {
    if id.len() == 32 {
        Some((value, Some(id)))
    } else if value.len() == 32 {
        Some((id, Some(value)))
    } else if id.len() == 0 && value.len() == 0 {
        None
    } else if value.len() == 0 {
        Some((id, None))
    } else {
        Some((value, None))
    }
}

/// The error for a prefetched payload that does not hash to its digest.
pub open spec fn mismatch_message(digest: Seq<u8>) -> Seq<char> {
    "prefetched Blob hash mismatch: "@ + base64_standard(digest)
}

/// What importing prefetched blobs does, in order: each payload is stored (by its content
/// address); a payload that does not hash to the digest it came with is stored and then
/// refused, which ends the import.
pub open spec fn prefetch_plan(blobs: Seq<(Seq<u8>, Seq<u8>)>) -> (Seq<Seq<u8>>, Option<Seq<char>>)
    decreases blobs.len(),
{
    if blobs.len() == 0 {
        (Seq::empty(), None)
    } else {
        let rest = prefetch_plan(blobs.drop_first());
        match prefetched_item(blobs[0].0, blobs[0].1) {
            None => rest,
            Some((payload, None)) => (seq![payload] + rest.0, rest.1),
            Some((payload, Some(digest))) => if sha256(payload) == digest {
                (seq![payload] + rest.0, rest.1)
            } else {
                (seq![payload], Some(mismatch_message(digest)))
            },
        }
    }
}

/// The (id, value) views of prefetched blobs.
pub open spec fn blob_views(blobs: Seq<PreFetchedBlob>) -> Seq<(Seq<u8>, Seq<u8>)> {
    blobs.map_values(|b: PreFetchedBlob| (b.id@, b.value@))
}

/// The byte views of some byte vectors.
pub open spec fn byte_views(v: Seq<Vec<u8>>) -> Seq<Seq<u8>> {
    v.map_values(|b: Vec<u8>| b@)
}

/// Plans the import of prefetched blobs (see [`prefetch_plan`]): the payloads to store, in
/// order, and the error that ends the import, if any.
pub fn prefetched_payloads(blobs: &[PreFetchedBlob]) -> (r: (Vec<Vec<u8>>, Option<Error>))
    ensures
        byte_views(r.0@) == prefetch_plan(blob_views(blobs@)).0,
        match (r.1, prefetch_plan(blob_views(blobs@)).1) {
            (None, None) => true,
            (Some(e), Some(m)) => is_protocol(e, m),
            _ => false,
        },
{
    let ghost all = blob_views(blobs@);
    let mut stored: Vec<Vec<u8>> = Vec::new();
    let mut i: usize = 0;
    assert(all.skip(0) =~= all);
    while i < blobs.len()
        invariant
            i <= blobs@.len(),
            all == blob_views(blobs@),
            prefetch_plan(all) == (byte_views(stored@) + prefetch_plan(all.skip(i as int)).0, prefetch_plan(
                all.skip(i as int),
            ).1),
        decreases blobs@.len() - i,
    {
        let ghost tail = all.skip(i as int);
        assert(tail[0] == (blobs@[i as int].id@, blobs@[i as int].value@));
        assert(tail.drop_first() =~= all.skip(i + 1));
        let ghost before = stored@;
        match classify_prefetched(&blobs[i]) {
            Ok(Some(Prefetched::Verified(digest, payload))) => {
                let actual = BlobId::digest(payload);
                stored.push(vstd::slice::slice_to_vec(payload));
                assert(byte_views(stored@) =~= byte_views(before).push(payload@));
                if !actual.same(&digest) {
                    let text = digest.to_base64();
                    let e = crate::error::protocol_error("prefetched Blob hash mismatch: ", text.as_str());
                    assert(byte_views(stored@) =~= byte_views(before) + seq![payload@]);
                    return (stored, Some(e));
                }
                assert(byte_views(before) + (seq![payload@] + prefetch_plan(all.skip(i + 1)).0) =~= byte_views(
                    stored@,
                ) + prefetch_plan(all.skip(i + 1)).0);
            },
            Ok(Some(Prefetched::Raw(payload))) => {
                stored.push(vstd::slice::slice_to_vec(payload));
                assert(byte_views(stored@) =~= byte_views(before).push(payload@));
                assert(byte_views(before) + (seq![payload@] + prefetch_plan(all.skip(i + 1)).0) =~= byte_views(
                    stored@,
                ) + prefetch_plan(all.skip(i + 1)).0);
            },
            _ => {},
        }
        i = i + 1;
    }
    assert(all.skip(i as int) =~= Seq::<(Seq<u8>, Seq<u8>)>::empty());
    assert(byte_views(stored@) + Seq::<Seq<u8>>::empty() =~= byte_views(stored@));
    (stored, None)
}

/// A client-built state entry as the checkpoint keeps it: a 32-byte reference or an empty
/// entry stays; inline content is replaced by its content address.
pub open spec fn normalized_entry(entry: Seq<u8>) -> Seq<u8> {
    if entry.len() == 32 || entry.len() == 0 {
        entry
    } else {
        sha256(entry)
    }
}

/// Each entry as the checkpoint keeps it (see [`normalized_entry`]), in order.
pub open spec fn normalized_entries(entries: Seq<Seq<u8>>) -> Seq<Seq<u8>>
    decreases entries.len(),
{
    if entries.len() == 0 {
        entries
    } else {
        normalized_entries(entries.drop_last()).push(normalized_entry(entries.last()))
    }
}

/// The inline contents among entries, in order: the blobs normalization stores.
pub open spec fn inline_entries(entries: Seq<Seq<u8>>) -> Seq<Seq<u8>>
    decreases entries.len(),
{
    if entries.len() == 0 {
        entries
    } else if entries.last().len() == 32 || entries.last().len() == 0 {
        inline_entries(entries.drop_last())
    } else {
        inline_entries(entries.drop_last()).push(entries.last())
    }
}

/// Normalizes client-built state entries (see [`normalized_entry`]): the entries as kept, in
/// order, and the inline contents to store, in order.
pub fn normalize_entries(entries: &Vec<Vec<u8>>) -> (r: (Vec<Vec<u8>>, Vec<Vec<u8>>))
    ensures
        byte_views(r.0@) == normalized_entries(byte_views(entries@)),
        byte_views(r.1@) == inline_entries(byte_views(entries@)),
{
    let ghost all = byte_views(entries@);
    let mut kept: Vec<Vec<u8>> = Vec::new();
    let mut blobs: Vec<Vec<u8>> = Vec::new();
    let mut i: usize = 0;
    while i < entries.len()
        invariant
            i <= entries@.len(),
            all == byte_views(entries@),
            byte_views(kept@) == normalized_entries(all.take(i as int)),
            byte_views(blobs@) == inline_entries(all.take(i as int)),
        decreases entries@.len() - i,
    {
        let entry = &entries[i];
        assert(all.take(i + 1).drop_last() =~= all.take(i as int));
        assert(all[i as int] == entry@);
        let ghost kept_before = kept@;
        let ghost blobs_before = blobs@;
        if entry.len() == 32 || entry.len() == 0 {
            kept.push(vstd::slice::slice_to_vec(entry.as_slice()));
            assert(byte_views(kept@) =~= byte_views(kept_before).push(entry@));
        } else {
            let id = BlobId::digest(entry.as_slice());
            kept.push(vstd::slice::slice_to_vec(id.as_bytes()));
            assert(byte_views(kept@) =~= byte_views(kept_before).push(sha256(entry@)));
            blobs.push(vstd::slice::slice_to_vec(entry.as_slice()));
            assert(byte_views(blobs@) =~= byte_views(blobs_before).push(entry@));
        }
        assert(byte_views(kept@) =~= normalized_entries(all.take(i + 1)));
        i = i + 1;
    }
    assert(all.take(entries@.len() as int) =~= all);
    (kept, blobs)
}

/// ASCII white space bytes (what `u8::is_ascii_whitespace` accepts).
pub open spec fn ascii_space(b: u8) -> bool {
    b == 0x20 || b == 0x09 || b == 0x0a || b == 0x0c || b == 0x0d
}

/// The bytes without leading and trailing ASCII white space.
pub open spec fn trim_bytes(s: Seq<u8>) -> Seq<u8>
    decreases s.len(),
{
    if s.len() > 0 && ascii_space(s[0]) {
        trim_bytes(s.drop_first())
    } else if s.len() > 0 && ascii_space(s.last()) {
        trim_bytes(s.drop_last())
    } else {
        s
    }
}

/// Trimming the prefix `[i, j)` of bytes.
proof fn lemma_trim_range(s: Seq<u8>, i: int, j: int)
    requires
        0 <= i <= j <= s.len(),
        forall|k: int| 0 <= k < i ==> ascii_space(#[trigger] s[k]),
        forall|k: int| j <= k < s.len() ==> ascii_space(#[trigger] s[k]),
        i < j ==> !ascii_space(s[i]) && !ascii_space(s[j - 1]),
    ensures
        trim_bytes(s) == s.subrange(i, j),
    decreases s.len(),
{
    if i > 0 {
        assert forall|k: int| 0 <= k < i - 1 implies ascii_space(#[trigger] s.drop_first()[k]) by {
            assert(s.drop_first()[k] == s[k + 1]);
        }
        assert forall|k: int| j - 1 <= k < s.len() - 1 implies ascii_space(
            #[trigger] s.drop_first()[k],
        ) by {
            assert(s.drop_first()[k] == s[k + 1]);
        }
        lemma_trim_range(s.drop_first(), i - 1, j - 1);
        assert(s.drop_first().subrange(i - 1, j - 1) == s.subrange(i, j));
    } else if j < s.len() {
        if s.len() > 0 && ascii_space(s[0]) {
            assert(i == j);
            assert forall|k: int| 0 <= k < 0 implies ascii_space(#[trigger] s.drop_first()[k]) by {}
            assert forall|k: int| 0 <= k < s.len() - 1 implies ascii_space(
                #[trigger] s.drop_first()[k],
            ) by {
                assert(s.drop_first()[k] == s[k + 1]);
            }
            lemma_trim_range(s.drop_first(), 0, 0);
        } else {
            assert forall|k: int| j <= k < s.len() - 1 implies ascii_space(
                #[trigger] s.drop_last()[k],
            ) by {
                assert(s.drop_last()[k] == s[k]);
            }
            assert(ascii_space(s.last()));
            if i < j {
                assert(s.drop_last()[i] == s[i]);
                assert(s.drop_last()[j - 1] == s[j - 1]);
            }
            lemma_trim_range(s.drop_last(), i, j);
            assert(s.drop_last().subrange(i, j) == s.subrange(i, j));
        }
    } else {
        if s.len() > 0 {
            assert(!ascii_space(s[0]) || i == j);
            if i == j {
                assert(s.len() == j && j == 0);
            }
        }
        assert(s.subrange(0, s.len() as int) == s);
        if s.len() > 0 {
            assert(!ascii_space(s.last()));
        }
    }
}

/// The bytes without leading and trailing ASCII white space.
pub fn trim_ascii_whitespace(data: &[u8]) -> (r: &[u8])
    ensures
        r@ == trim_bytes(data@),
{
    let mut start: usize = 0;
    while start < data.len() && is_space_byte(data[start])
        invariant
            start <= data.len(),
            forall|k: int| 0 <= k < start ==> ascii_space(#[trigger] data@[k]),
        decreases data.len() - start,
    {
        start = start + 1;
    }
    let mut end: usize = data.len();
    while end > start && is_space_byte(data[end - 1])
        invariant
            start <= end <= data.len(),
            forall|k: int| end <= k < data.len() ==> ascii_space(#[trigger] data@[k]),
        decreases end,
    {
        end = end - 1;
    }
    proof {
        if start == end && start < data.len() {
            assert(!ascii_space(data@[start as int]));
            assert(false);
        }
        if start == end {
            assert forall|k: int| 0 <= k < data@.len() implies ascii_space(#[trigger] data@[k]) by {
                if k >= start {
                    assert(k >= end);
                }
            }
            lemma_trim_range(data@, end as int, end as int);
        } else {
            lemma_trim_range(data@, start as int, end as int);
        }
    }
    vstd::slice::slice_subrange(data, start, end)
}

/// Whether a byte is ASCII white space.
fn is_space_byte(b: u8) -> (r: bool)
    ensures
        r == ascii_space(b),
{
    b == 0x20 || b == 0x09 || b == 0x0a || b == 0x0c || b == 0x0d
}

/// The position of the first newline byte.
pub open spec fn newline_index(s: Seq<u8>) -> Option<int>
    decreases s.len(),
{
    if s.len() == 0 {
        None
    } else if s[0] == 0x0a {
        Some(0)
    } else {
        match newline_index(s.drop_first()) {
            Some(i) => Some(i + 1),
            None => None,
        }
    }
}

/// The pieces of bytes between newlines (one piece when there is none).
pub open spec fn byte_lines(s: Seq<u8>) -> Seq<Seq<u8>>
    decreases s.len(),
{
    match newline_index(s) {
        None => seq![s],
        Some(p) => if 0 <= p < s.len() {
            seq![s.take(p)] + byte_lines(s.skip(p + 1))
        } else {
            seq![s]
        },
    }
}

/// The lines that are not blank, trimmed, in order.
pub open spec fn solid_lines(lines: Seq<Seq<u8>>) -> Seq<Seq<u8>>
    decreases lines.len(),
{
    if lines.len() == 0 {
        lines
    } else {
        let rest = solid_lines(lines.drop_last());
        if trim_bytes(lines.last()).len() > 0 {
            rest.push(trim_bytes(lines.last()))
        } else {
            rest
        }
    }
}

/// Splits inline conversation-state bytes into individual JSON messages: nothing when
/// blank; the trimmed bytes whole when they are one JSON value; otherwise the non-blank
/// lines, trimmed. JSON strings escape newlines, so a raw newline byte only separates
/// top-level values.
pub open spec fn json_lines(data: Seq<u8>) -> Seq<Seq<u8>> {
    let t = trim_bytes(data);
    if t.len() == 0 {
        Seq::empty()
    } else if crate::json::json_bytes_valid(t) {
        seq![t]
    } else {
        solid_lines(byte_lines(t))
    }
}

/// Keeping non-blank lines distributes over concatenation.
proof fn lemma_solid_concat(a: Seq<Seq<u8>>, b: Seq<Seq<u8>>)
    ensures
        solid_lines(a + b) == solid_lines(a) + solid_lines(b),
    decreases b.len(),
{
    if b.len() == 0 {
        assert(a + b == a);
    } else {
        lemma_solid_concat(a, b.drop_last());
        assert((a + b).drop_last() == a + b.drop_last());
        assert((a + b).last() == b.last());
    }
}

/// Where the first newline after `from` is at `i`, the lines from `from` are the piece up to
/// it and the lines after it.
proof fn lemma_byte_lines_step(s: Seq<u8>, from: int, i: int)
    requires
        0 <= from <= i < s.len(),
        s[i] == 0x0a,
        forall|k: int| from <= k < i ==> #[trigger] s[k] != 0x0a,
    ensures
        byte_lines(s.skip(from)) == seq![s.subrange(from, i)] + byte_lines(s.skip(i + 1)),
{
    let rest = s.skip(from);
    lemma_newline_index(rest, i - from);
    assert(rest.take(i - from) == s.subrange(from, i));
    assert(rest.skip(i - from + 1) == s.skip(i + 1));
}

/// Without a newline after `from`, the lines from `from` are the rest.
proof fn lemma_byte_lines_end(s: Seq<u8>, from: int)
    requires
        0 <= from <= s.len(),
        forall|k: int| from <= k < s.len() ==> #[trigger] s[k] != 0x0a,
    ensures
        byte_lines(s.skip(from)) == seq![s.subrange(from, s.len() as int)],
{
    let rest = s.skip(from);
    lemma_newline_index(rest, rest.len() as int);
    assert(rest == s.subrange(from, s.len() as int));
}

/// The first newline of `s` is at `i` when none precedes it.
proof fn lemma_newline_index(s: Seq<u8>, i: int)
    requires
        0 <= i <= s.len(),
        forall|k: int| 0 <= k < i ==> #[trigger] s[k] != 0x0a,
    ensures
        i < s.len() && s[i] == 0x0a ==> newline_index(s) == Some(i),
        i == s.len() ==> newline_index(s) is None,
    decreases i,
{
    if i > 0 {
        assert forall|k: int| 0 <= k < i - 1 implies #[trigger] s.drop_first()[k] != 0x0a by {
            assert(s.drop_first()[k] == s[k + 1]);
        }
        lemma_newline_index(s.drop_first(), i - 1);
    }
}

/// The bytes of a slice as a vector.
fn bytes_of(s: &[u8]) -> (r: Vec<u8>)
    ensures
        r@ == s@,
{
    vstd::slice::slice_to_vec(s)
}

/// Splits inline conversation-state bytes into JSON messages (see [`json_lines`]).
pub fn inline_json_lines(data: &[u8]) -> (r: Vec<Vec<u8>>)
    ensures
        r@.map_values(|v: Vec<u8>| v@) == json_lines(data@),
{
    let trimmed = trim_ascii_whitespace(data);
    let mut out: Vec<Vec<u8>> = Vec::new();
    if trimmed.len() == 0 {
        assert(out@.map_values(|v: Vec<u8>| v@) == Seq::<Seq<u8>>::empty());
        return out;
    }
    if crate::json::is_json_bytes(trimmed) {
        out.push(bytes_of(trimmed));
        assert(out@.map_values(|v: Vec<u8>| v@) == seq![trimmed@]);
        return out;
    }
    let t = trimmed;
    let mut start: usize = 0;
    let mut i: usize = 0;
    assert(t@.skip(0) == t@);
    assert(out@.map_values(|v: Vec<u8>| v@) + solid_lines(byte_lines(t@)) == solid_lines(
        byte_lines(t@),
    ));
    while i < t.len()
        invariant
            start <= i <= t.len(),
            forall|k: int| start <= k < i ==> #[trigger] t@[k] != 0x0a,
            out@.map_values(|v: Vec<u8>| v@) + solid_lines(byte_lines(t@.skip(start as int)))
                == solid_lines(byte_lines(t@)),
        decreases t.len() - i,
    {
        if t[i] == 0x0a {
            let piece = vstd::slice::slice_subrange(t, start, i);
            let ghost rest = byte_lines(t@.skip(i + 1));
            proof {
                lemma_byte_lines_step(t@, start as int, i as int);
                lemma_solid_concat(seq![piece@], rest);
                assert(seq![piece@].drop_last() == Seq::<Seq<u8>>::empty());
                assert(solid_lines(Seq::<Seq<u8>>::empty()) == Seq::<Seq<u8>>::empty());
                assert(seq![piece@].last() == piece@);
                assert(solid_lines(seq![piece@]) == if trim_bytes(piece@).len() > 0 {
                    seq![trim_bytes(piece@)]
                } else {
                    Seq::<Seq<u8>>::empty()
                });
            }
            let line = trim_ascii_whitespace(piece);
            let ghost before = out@.map_values(|v: Vec<u8>| v@);
            if line.len() > 0 {
                out.push(bytes_of(line));
                assert(out@.map_values(|v: Vec<u8>| v@) == before.push(line@));
                assert(before.push(line@) + solid_lines(rest) == before + (seq![line@] + solid_lines(
                    rest,
                )));
            } else {
                assert(before + (Seq::<Seq<u8>>::empty() + solid_lines(rest)) == before + solid_lines(
                    rest,
                ));
            }
            start = i + 1;
        }
        i = i + 1;
    }
    let piece = vstd::slice::slice_subrange(t, start, t.len());
    proof {
        lemma_byte_lines_end(t@, start as int);
        assert(seq![piece@].drop_last() == Seq::<Seq<u8>>::empty());
        assert(solid_lines(Seq::<Seq<u8>>::empty()) == Seq::<Seq<u8>>::empty());
        assert(seq![piece@].last() == piece@);
        assert(solid_lines(seq![piece@]) == if trim_bytes(piece@).len() > 0 {
            seq![trim_bytes(piece@)]
        } else {
            Seq::<Seq<u8>>::empty()
        });
    }
    let line = trim_ascii_whitespace(piece);
    let ghost before = out@.map_values(|v: Vec<u8>| v@);
    if line.len() > 0 {
        out.push(bytes_of(line));
        assert(out@.map_values(|v: Vec<u8>| v@) == before.push(line@));
        assert(before.push(line@) == before + seq![line@]);
    } else {
        assert(before + Seq::<Seq<u8>>::empty() == before);
    }
    out
}

} // verus!
