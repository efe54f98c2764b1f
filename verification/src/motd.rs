//! The message of the day: the bytes of a file, cut into pieces of 80
//! bytes, each piece turned into text.
//!
//! The pieces are cut by bytes, not by characters, so a character of more
//! than one byte may be cut in two. A piece that is not UTF-8 on its own
//! is turned into text with replacement characters.

use crate::text::texts;
use vstd::prelude::*;
use vstd::slice::slice_subrange;
use vstd::utf8::{decode_utf8, valid_utf8};

verus! {

/// The length of a piece.
pub const CHUNK: usize = 80;

/// The number of pieces that `len` bytes are cut into.
pub open spec fn chunk_count(len: nat) -> nat {
    len / 80 + if len % 80 == 0 {
        0nat
    } else {
        1nat
    }
}

/// The `i`-th piece of `content`: 80 bytes, or what is left.
pub open spec fn chunk(content: Seq<u8>, i: int) -> Seq<u8> {
    content.subrange(
        80 * i,
        if 80 * i + 80 <= content.len() {
            80 * i + 80
        } else {
            content.len() as int
        },
    )
}

/// The text that `String::from_utf8_lossy` makes of `bytes`.
pub uninterp spec fn lossy_utf8(bytes: Seq<u8>) -> Seq<char>;

/// A piece as text: what the bytes encode where they are valid UTF-8,
/// and else what `String::from_utf8_lossy` makes of them.
pub open spec fn chunk_text(bytes: Seq<u8>) -> Seq<char> {
    if valid_utf8(bytes) {
        decode_utf8(bytes)
    } else {
        lossy_utf8(bytes)
    }
}

/// The pieces of `content`, each as text.
pub open spec fn chunk_texts(content: Seq<u8>) -> Seq<Seq<char>> {
    Seq::new(chunk_count(content.len()), |i: int| chunk_text(chunk(content, i)))
}

/// Calls `String::from_utf8_lossy` and takes the result as an owned
/// string. For bytes that are valid UTF-8 the result is the text that they
/// encode. For other bytes it is what the function makes of them, which
/// depends on the bytes alone and goes by the name `lossy_utf8`.
#[verifier::external_body]
fn text_of_bytes(bytes: &[u8]) -> (r: String)
    ensures
        valid_utf8(bytes@) ==> r@ == decode_utf8(bytes@),
        !valid_utf8(bytes@) ==> r@ == lossy_utf8(bytes@),
{
    String::from_utf8_lossy(bytes).into_owned()
}

/// Cuts `content` into pieces of 80 bytes and gives each piece as text.
pub fn motd_chunks(content: &[u8]) -> (r: Vec<String>)
    ensures
        texts(r@) == chunk_texts(content@),
{
    let n = content.len();
    let count = n / CHUNK + if n % CHUNK == 0 {
        0
    } else {
        1
    };
    let mut r: Vec<String> = Vec::new();
    let mut i: usize = 0;
    while i < count
        invariant
            n == content@.len(),
            count == chunk_count(n as nat),
            i <= count,
            r@.len() == i,
            forall|j: int| 0 <= j < i ==> (#[trigger] r@[j])@ == chunk_text(chunk(content@, j)),
        decreases count - i,
    {
        let start = CHUNK * i;
        let end = if n - start >= CHUNK {
            start + CHUNK
        } else {
            n
        };
        let piece = slice_subrange(content, start, end);
        assert(piece@ == chunk(content@, i as int));
        r.push(text_of_bytes(piece));
        i = i + 1;
    }
    assert(texts(r@) =~= chunk_texts(content@));
    r
}

} // verus!
