//! The abbreviation name table: a NUL-delimited, NUL-terminated blob of UTF-8
//! text, split into its segments.

use vstd::prelude::*;
use vstd::utf8::{decode_utf8, valid_utf8};
use crate::error::TzError;

verus! {

/// The bytes of `b[0..n)` that follow its last NUL byte (all of `b[0..n)`
/// when it has none).
pub open spec fn nul_tail(b: Seq<u8>, n: int) -> Seq<u8>
    decreases n,
{
    if n <= 0 {
        Seq::empty()
    } else if b[n - 1] == 0 {
        Seq::empty()
    } else {
        nul_tail(b, n - 1).push(b[n - 1])
    }
}

/// The segments of `b[0..n)` completed by a NUL byte, in order: each element
/// is the run of bytes between the previous NUL (or the start) and the NUL
/// that ends it. Bytes after the last NUL belong to no segment.
pub open spec fn nul_pieces(b: Seq<u8>, n: int) -> Seq<Seq<u8>>
    decreases n,
{
    if n <= 0 {
        Seq::empty()
    } else if b[n - 1] == 0 {
        nul_pieces(b, n - 1).push(nul_tail(b, n - 1))
    } else {
        nul_pieces(b, n - 1)
    }
}

/// The number of completed segments never shrinks as the scanned prefix grows.
proof fn lemma_pieces_len_monotonic(b: Seq<u8>, p: int, q: int)
    requires
        p <= q,
    ensures
        nul_pieces(b, p).len() <= nul_pieces(b, q).len(),
    decreases q - p,
{
    if p < q {
        lemma_pieces_len_monotonic(b, p, q - 1);
    }
}

/// A NUL at position `q - 1` completes a segment, so the count of segments
/// strictly before it is strictly below the count including it.
pub proof fn lemma_pieces_len_strict(b: Seq<u8>, p: int, q: int)
    requires
        0 <= p < q,
        b[q - 1] == 0,
    ensures
        nul_pieces(b, p).len() < nul_pieces(b, q).len(),
{
    lemma_pieces_len_monotonic(b, p, q - 1);
}

/// The decoded abbreviation table of a blob, or why it cannot be decoded:
/// `BadUtf8String` when any segment, or the trailing run after the last NUL,
/// is not valid UTF-8; otherwise `EmptyString` when the blob does not end
/// with a NUL (the required trailing empty segment is missing); otherwise
/// each completed segment, decoded, in order.
pub open spec fn spec_abbreviations(blob: Seq<u8>) -> Result<Seq<Seq<char>>, TzError> {
    let pieces = nul_pieces(blob, blob.len() as int);
    let tail = nul_tail(blob, blob.len() as int);
    if !(forall|k: int| 0 <= k < pieces.len() ==> valid_utf8(#[trigger] pieces[k])) || !valid_utf8(
        tail,
    ) {
        Err(TzError::BadUtf8String)
    } else if tail.len() != 0 {
        Err(TzError::EmptyString)
    } else {
        Ok(Seq::new(pieces.len(), |k: int| decode_utf8(pieces[k])))
    }
}

/// Relies on `String::from_utf8`: it succeeds exactly on valid UTF-8 input,
/// and the characters of the resulting string are the decoded scalar values
/// of the bytes.
#[verifier::external_body]
fn utf8_to_string(bytes: Vec<u8>) -> (r: Option<String>)
    ensures
        r is Some <==> valid_utf8(bytes@),
        r is Some ==> r->0@ == decode_utf8(bytes@),
{
    String::from_utf8(bytes).ok()
}

/// Splits `buf[start..end)` on NUL bytes and decodes each completed segment,
/// discarding the required empty segment after the final NUL.
pub fn split_abbreviations(buf: &Vec<u8>, start: usize, end: usize) -> (r: Result<
    Vec<String>,
    TzError,
>)
    requires
        start <= end <= buf.len(),
    ensures
        ({
            let outcome = spec_abbreviations(buf@.subrange(start as int, end as int));
            match r {
                Ok(v) => {
                    &&& outcome is Ok
                    &&& v@.len() == outcome->Ok_0.len()
                    &&& forall|k: int|
                        0 <= k < v@.len() ==> #[trigger] v@[k]@ == outcome->Ok_0[k]
                },
                Err(e) => outcome == Err::<Seq<Seq<char>>, TzError>(e),
            }
        }),
{
    let ghost blob = buf@.subrange(start as int, end as int);
    let mut out: Vec<String> = Vec::new();
    let mut cur: Vec<u8> = Vec::new();
    let mut i: usize = start;
    while i < end
        invariant
            start <= i <= end <= buf.len(),
            blob == buf@.subrange(start as int, end as int),
            cur@ == nul_tail(blob, i - start),
            out@.len() == nul_pieces(blob, i - start).len(),
            forall|k: int|
                0 <= k < out@.len() ==> {
                    &&& valid_utf8(#[trigger] nul_pieces(blob, i - start)[k])
                    &&& out@[k]@ == decode_utf8(nul_pieces(blob, i - start)[k])
                },
        decreases end - i,
    {
        let b = buf[i];
        assert(blob[i - start] == b);
        if b == 0 {
            let ghost prev_pieces = nul_pieces(blob, i - start);
            match utf8_to_string(cur) {
                Some(s) => {
                    out.push(s);
                },
                None => {
                    assert(spec_abbreviations(blob) == Err::<Seq<Seq<char>>, TzError>(
                        TzError::BadUtf8String,
                    )) by {
                        let pieces = nul_pieces(blob, blob.len() as int);
                        let bad = nul_pieces(blob, i + 1 - start).len() - 1;
                        lemma_pieces_prefix(blob, i + 1 - start, blob.len() as int);
                        assert(pieces[bad] == nul_tail(blob, i - start));
                    }
                    return Err(TzError::BadUtf8String);
                },
            }
            cur = Vec::new();
            proof {
                assert(nul_pieces(blob, i + 1 - start) == prev_pieces.push(
                    nul_tail(blob, i - start),
                ));
            }
        } else {
            cur.push(b);
        }
        i = i + 1;
    }
    if cur.len() > 0 {
        match utf8_to_string(cur) {
            Some(_) => Err(TzError::EmptyString),
            None => Err(TzError::BadUtf8String),
        }
    } else {
        proof {
            lemma_pieces_prefix(blob, end - start, blob.len() as int);
        }
        Ok(out)
    }
}

/// Segments completed within a prefix stay, unchanged, as the scanned prefix
/// grows: `nul_pieces(b, p)` is a prefix of `nul_pieces(b, q)`.
proof fn lemma_pieces_prefix(b: Seq<u8>, p: int, q: int)
    requires
        p <= q,
    ensures
        nul_pieces(b, p).len() <= nul_pieces(b, q).len(),
        forall|k: int|
            0 <= k < nul_pieces(b, p).len() ==> #[trigger] nul_pieces(b, q)[k] == nul_pieces(
                b,
                p,
            )[k],
    decreases q - p,
{
    if p < q {
        lemma_pieces_prefix(b, p, q - 1);
    }
}

} // verus!
