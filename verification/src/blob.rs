//! Content addresses of stored blobs, and their base64 text.
use vstd::prelude::*;

use crate::digest::sha256;

verus! {

/// The base64 digit of a 6-bit value (the standard alphabet).
pub open spec fn b64_digit(n: int) -> char {
    if n < 26 {
        ('A' as int + n) as char
    } else if n < 52 {
        ('a' as int + n - 26) as char
    } else if n < 62 {
        ('0' as int + n - 52) as char
    } else if n == 62 {
        '+'
    } else {
        '/'
    }
}

/// Standard base64 with padding: each 3 bytes become 4 digits; a final 1 or 2 bytes become
/// 2 or 3 digits followed by `=` padding.
pub open spec fn base64_standard(b: Seq<u8>) -> Seq<char>
    decreases b.len(),
{
    if b.len() == 0 {
        Seq::empty()
    } else if b.len() == 1 {
        seq![b64_digit(b[0] as int / 4), b64_digit((b[0] as int % 4) * 16), '=', '=']
    } else if b.len() == 2 {
        seq![
            b64_digit(b[0] as int / 4),
            b64_digit((b[0] as int % 4) * 16 + b[1] as int / 16),
            b64_digit((b[1] as int % 16) * 4),
            '=',
        ]
    } else {
        seq![
            b64_digit(b[0] as int / 4),
            b64_digit((b[0] as int % 4) * 16 + b[1] as int / 16),
            b64_digit((b[1] as int % 16) * 4 + b[2] as int / 64),
            b64_digit(b[2] as int % 64),
        ] + base64_standard(b.skip(3))
    }
}

/// `base64::engine::general_purpose::STANDARD.encode`: the standard alphabet with padding.
#[verifier::external_body]
pub(crate) fn base64_encode(data: &[u8]) -> (r: String)
    ensures
        r@ == base64_standard(data@),
{
    <base64::engine::GeneralPurpose as base64::Engine>::encode(
        &base64::engine::general_purpose::STANDARD,
        data,
    )
}

/// The content address of a blob: the SHA-256 digest of its bytes.
#[derive(Clone, Debug, PartialEq, Eq)]
pub struct BlobId {
    bytes: Vec<u8>,
}

impl View for BlobId {
    type V = Seq<u8>;

    closed spec fn view(&self) -> Seq<u8> {
        self.bytes@
    }
}

impl BlobId {
    /// A content address has 32 bytes.
    pub closed spec fn well_formed(&self) -> bool {
        self.bytes@.len() == 32
    }

    /// The content address of `data`.
    pub fn digest(data: &[u8]) -> (r: BlobId)
        ensures
            r@ == sha256(data@),
            r.well_formed(),
    {
        BlobId { bytes: crate::digest::sha256_digest(data) }
    }

    /// The content address whose bytes are `raw`, when there are 32 of them.
    pub fn from_bytes(raw: &[u8]) -> (r: Option<BlobId>)
        ensures
            match r {
                Some(id) => raw@.len() == 32 && id@ == raw@ && id.well_formed(),
                None => raw@.len() != 32,
            },
    {
        if raw.len() == 32 {
            Some(BlobId { bytes: vstd::slice::slice_to_vec(raw) })
        } else {
            None
        }
    }

    /// The bytes of the address.
    pub fn as_bytes(&self) -> (r: &[u8])
        ensures
            r@ == self@,
    {
        self.bytes.as_slice()
    }

    /// The address as standard base64 text.
    pub fn to_base64(&self) -> (r: String)
        ensures
            r@ == base64_standard(self@),
    {
        base64_encode(self.bytes.as_slice())
    }

    /// Whether two addresses are the same.
    pub fn same(&self, other: &BlobId) -> (r: bool)
        ensures
            r == (self@ == other@),
    {
        let a = self.bytes.as_slice();
        let b = other.bytes.as_slice();
        if a.len() != b.len() {
            return false;
        }
        let mut i: usize = 0;
        while i < a.len()
            invariant
                i <= a.len(),
                a.len() == b.len(),
                a@ == self@,
                b@ == other@,
                forall|j: int| 0 <= j < i ==> a@[j] == b@[j],
            decreases a.len() - i,
        {
            if a[i] != b[i] {
                return false;
            }
            i = i + 1;
        }
        assert(a@ == b@);
        true
    }
}

} // verus!
