//! The chunked-reader contract's decoding logic. The reader yields
//! bounded-size, UTF-8-valid text chunks; a read that would split a
//! multi-byte character must retain the partial trailing bytes and prepend
//! them to the next read. The byte-level carving is verified here against
//! the UTF-8 encoding specification; the raw reads themselves are the
//! caller's.

use vstd::prelude::*;
use vstd::utf8::decode_utf8;
use vstd::utf8::is_continuation_byte;
use vstd::utf8::is_leading_byte_width_1;
use vstd::utf8::is_leading_byte_width_2;
use vstd::utf8::is_leading_byte_width_3;
use vstd::utf8::is_leading_byte_width_4;
use vstd::utf8::valid_utf8;

verus! {

/// How many bytes a scalar encoding starting with this leading byte has;
/// 0 when the byte can begin no encoding.
pub open spec fn leading_width(b: u8) -> int {
    if is_leading_byte_width_1(b) {
        1
    } else if is_leading_byte_width_2(b) {
        2
    } else if is_leading_byte_width_3(b) {
        3
    } else if is_leading_byte_width_4(b) {
        4
    } else {
        0
    }
}

/// True when `s` is the beginning of a multi-byte scalar encoding cut
/// short: a leading byte that announces more bytes than follow, every one
/// of which is a continuation byte.
pub open spec fn is_incomplete_scalar_start(s: Seq<u8>) -> bool {
    &&& 0 < s.len() <= 3
    &&& leading_width(s[0]) > s.len()
    &&& forall|i: int| 1 <= i < s.len() ==> is_continuation_byte(s[i])
}

/// True when the last `j` bytes of `s` form an incomplete scalar start.
pub open spec fn is_tail_candidate(s: Seq<u8>, j: int) -> bool {
    &&& 1 <= j <= 3
    &&& j <= s.len()
    &&& is_incomplete_scalar_start(s.subrange(s.len() - j, s.len() as int))
}

/// The number of trailing bytes of `s` that begin a scalar encoding cut
/// short by the buffer end — 0 when the buffer ends on a character
/// boundary or in bytes no extension could complete.
pub open spec fn incomplete_tail_len(s: Seq<u8>) -> int {
    if exists|j: int| is_tail_candidate(s, j) {
        choose|j: int| is_tail_candidate(s, j)
    } else {
        0
    }
}

/// At most one suffix length can be an incomplete scalar start: the deeper
/// candidate would make the shallower one's leading byte a continuation
/// byte, and no byte is both.
proof fn lemma_tail_candidate_unique(s: Seq<u8>, j1: int, j2: int)
    requires
        is_tail_candidate(s, j1),
        is_tail_candidate(s, j2),
    ensures
        j1 == j2,
{
    if j1 < j2 {
        let t2 = s.subrange(s.len() - j2, s.len() as int);
        assert(is_continuation_byte(t2[j2 - j1]));
        let t1 = s.subrange(s.len() - j1, s.len() as int);
        assert(t1[0] == t2[j2 - j1]);
    } else if j2 < j1 {
        let t1 = s.subrange(s.len() - j1, s.len() as int);
        assert(is_continuation_byte(t1[j1 - j2]));
        let t2 = s.subrange(s.len() - j2, s.len() as int);
        assert(t2[0] == t1[j1 - j2]);
    }
}

fn is_continuation(b: u8) -> (r: bool)
    ensures
        r == is_continuation_byte(b),
{
    0x80 <= b && b <= 0xbf
}

fn width_of(b: u8) -> (w: usize)
    ensures
        w == leading_width(b),
{
    if b <= 0x7f {
        1
    } else if 0xc0 <= b && b <= 0xdf {
        2
    } else if 0xe0 <= b && b <= 0xef {
        3
    } else if 0xf0 <= b && b <= 0xf7 {
        4
    } else {
        0
    }
}

/// The length of the incomplete trailing scalar start of the buffer: these
/// bytes must be retained and prepended to the next read rather than split
/// off a character.
pub fn incomplete_tail(buf: &Vec<u8>) -> (t: usize)
    ensures
        t == incomplete_tail_len(buf@),
        t <= 3,
        t <= buf@.len(),
{
    let len = buf.len();
    let mut j: usize = 1;
    while j <= 3 && j <= len
        invariant
            1 <= j <= 4,
            len == buf@.len(),
            forall|k: int|
                1 <= k < j ==> is_continuation_byte(#[trigger] buf@[buf@.len() - k]),
        decreases 4 - j,
    {
        let b = buf[len - j];
        if is_continuation(b) {
            j = j + 1;
        } else {
            let w = width_of(b);
            if w > j {
                proof {
                    let s = buf@;
                    let tail = s.subrange(s.len() - j, s.len() as int);
                    assert(tail[0] == s[s.len() - j]);
                    assert forall|i: int| 1 <= i < tail.len() implies is_continuation_byte(
                        tail[i],
                    ) by {
                        assert(tail[i] == s[s.len() - (j - i)]);
                    }
                    assert(is_tail_candidate(s, j as int));
                    let c = choose|k: int| is_tail_candidate(s, k);
                    lemma_tail_candidate_unique(s, c, j as int);
                }
                return j;
            } else {
                proof {
                    lemma_no_candidate(buf@, j as int);
                }
                return 0;
            }
        }
    }
    proof {
        lemma_no_candidate(buf@, j as int);
    }
    0
}

/// When the last `j - 1` bytes are continuation bytes and either the scan
/// ran out or stopped on a byte that is no truncated leading byte, no
/// suffix is an incomplete scalar start.
proof fn lemma_no_candidate(s: Seq<u8>, j: int)
    requires
        1 <= j <= 4,
        forall|k: int| 1 <= k < j ==> is_continuation_byte(#[trigger] s[s.len() - k]),
        j <= 3 && j <= s.len() ==> !is_continuation_byte(s[s.len() - j]) && leading_width(
            s[s.len() - j],
        ) <= j,
    ensures
        !exists|k: int| is_tail_candidate(s, k),
{
    assert forall|k: int| !(#[trigger] is_tail_candidate(s, k)) by {
        if is_tail_candidate(s, k) {
            let tail = s.subrange(s.len() - k, s.len() as int);
            assert(tail[0] == s[s.len() - k]);
            if k < j {
                assert(is_continuation_byte(tail[0]));
                assert(leading_width(tail[0]) == 0);
            } else if k == j {
                assert(leading_width(tail[0]) <= k);
            } else {
                assert(tail[k - j] == s[s.len() - j]);
                assert(is_continuation_byte(s[s.len() - j]));
            }
        }
    }
}

/// What one filled read buffer yields.
pub enum ChunkOutcome {
    /// The decoded text and the retained bytes of a character the buffer
    /// end cut short, to prepend to the next read.
    Chunk(String, Vec<u8>),
    /// The buffer holds an invalid byte sequence.
    Invalid,
}

/// Relies on `core::str::from_utf8`: the bytes decode exactly when they
/// are valid UTF-8, to exactly the character sequence of the UTF-8
/// encoding specification.
#[verifier::external_body]
fn decode_bytes(bytes: &[u8]) -> (r: Option<String>)
    ensures
        r is Some <==> valid_utf8(bytes@),
        r matches Some(s) ==> s@ == decode_utf8(bytes@),
{
    match core::str::from_utf8(bytes) {
        Ok(s) => Some(s.to_owned()),
        Err(_) => None,
    }
}

/// Carves one chunk out of a filled read buffer. Unless the stream is at
/// its end, the bytes of a character the buffer end cut short are carried
/// over rather than split; the rest must decode, or the buffer is invalid
/// (at the stream end an incomplete trailing character is invalid too).
pub fn carve_chunk(buf: &Vec<u8>, eof: bool) -> (r: ChunkOutcome)
    ensures
        ({
            let t = if eof {
                0
            } else {
                incomplete_tail_len(buf@)
            };
            let prefix = buf@.subrange(0, buf@.len() - t);
            match r {
                ChunkOutcome::Chunk(text, carry) => {
                    &&& valid_utf8(prefix)
                    &&& text@ == decode_utf8(prefix)
                    &&& carry@ == buf@.subrange(buf@.len() - t, buf@.len() as int)
                    &&& eof ==> carry@.len() == 0
                },
                ChunkOutcome::Invalid => !valid_utf8(prefix),
            }
        }),
{
    let len = buf.len();
    let t = if eof {
        0
    } else {
        incomplete_tail(buf)
    };
    let keep = len - t;
    let prefix = vstd::slice::slice_subrange(buf.as_slice(), 0, keep);
    match decode_bytes(prefix) {
        Some(text) => {
            let carry_slice = vstd::slice::slice_subrange(buf.as_slice(), keep, len);
            let carry = vstd::slice::slice_to_vec(carry_slice);
            ChunkOutcome::Chunk(text, carry)
        },
        None => ChunkOutcome::Invalid,
    }
}

} // verus!
