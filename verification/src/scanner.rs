//! Scanning a byte sequence for a fixed delimiter byte.
//!
//! The scan walks the sequence from the left and reports the zero-based
//! offset of the first delimiter, or the length of the sequence when no
//! delimiter occurs. The token of a sequence is the (possibly empty)
//! prefix that ends at that offset.

use vstd::prelude::*;
use vstd::slice::slice_subrange;
use vstd::string::StringSliceAdditionalSpecFns;
use vstd::utf8::encode_utf8;
use vstd::utf8::encode_utf8_valid_utf8;
use vstd::utf8::is_char_boundary_iff_not_is_continuation_byte;
use vstd::utf8::is_char_boundary_start_end_of_seq;
use vstd::utf8::is_continuation_byte;

verus! {

/// The token boundary: every scan looks for this single byte, an ASCII space.
pub const DELIMITER: u8 = 32;

/// The zero-based offset of the first delimiter byte in `s`, or `s.len()`
/// when `s` holds no delimiter.
pub open spec fn first_delimiter_offset(s: Seq<u8>) -> int
    decreases s.len(),
{
    if s.len() == 0 || s[0] == DELIMITER {
        0
    } else {
        1 + first_delimiter_offset(s.drop_first())
    }
}

/// The first token of `s`: the bytes before the first delimiter, or all of
/// `s` when no delimiter occurs.
pub open spec fn first_token(s: Seq<u8>) -> Seq<u8> {
    s.subrange(0, first_delimiter_offset(s))
}

/// The offset of the first delimiter is in bounds, no byte before it is the
/// delimiter, and the byte at the offset (when the offset is not the length)
/// is the delimiter.
pub proof fn lemma_first_delimiter_offset_bounds(s: Seq<u8>)
    ensures
        0 <= first_delimiter_offset(s) <= s.len(),
        forall|j: int| 0 <= j < first_delimiter_offset(s) ==> s[j] != DELIMITER,
        first_delimiter_offset(s) < s.len() ==> s[first_delimiter_offset(s)] == DELIMITER,
    decreases s.len(),
{
    if s.len() == 0 || s[0] == DELIMITER {
    } else {
        lemma_first_delimiter_offset_bounds(s.drop_first());
        assert forall|j: int| 0 <= j < first_delimiter_offset(s) implies s[j] != DELIMITER by {
            if j > 0 {
                assert(s.drop_first()[j - 1] == s[j]);
            }
        }
    }
}

/// An index up to which no delimiter occurs, and at which the delimiter
/// stands (or which is the length), is the first delimiter offset.
proof fn lemma_offset_of_scan(s: Seq<u8>, i: int)
    requires
        0 <= i <= s.len(),
        forall|j: int| 0 <= j < i ==> s[j] != DELIMITER,
        i < s.len() ==> s[i] == DELIMITER,
    ensures
        first_delimiter_offset(s) == i,
    decreases s.len(),
{
    if s.len() == 0 {
    } else if i == 0 {
    } else {
        assert(s[0] != DELIMITER);
        assert forall|j: int| 0 <= j < i - 1 implies s.drop_first()[j] != DELIMITER by {
            assert(s.drop_first()[j] == s[j + 1]);
        }
        lemma_offset_of_scan(s.drop_first(), i - 1);
    }
}

/// A sequence in which the delimiter never occurs scans to its full length.
pub proof fn lemma_no_delimiter_scans_to_length(s: Seq<u8>)
    requires
        forall|j: int| 0 <= j < s.len() ==> s[j] != DELIMITER,
    ensures
        first_delimiter_offset(s) == s.len(),
{
    lemma_offset_of_scan(s, s.len() as int);
}

/// A sequence made of a delimiter-free prefix, one delimiter, and any suffix
/// scans to exactly the prefix's length: the leftmost delimiter wins.
pub proof fn lemma_offset_after_clean_prefix(prefix: Seq<u8>, suffix: Seq<u8>)
    requires
        forall|j: int| 0 <= j < prefix.len() ==> prefix[j] != DELIMITER,
    ensures
        first_delimiter_offset(prefix + seq![DELIMITER] + suffix) == prefix.len(),
{
    let s = prefix + seq![DELIMITER] + suffix;
    assert forall|j: int| 0 <= j < prefix.len() implies s[j] != DELIMITER by {
        assert(s[j] == prefix[j]);
    }
    assert(s[prefix.len() as int] == DELIMITER);
    lemma_offset_of_scan(s, prefix.len() as int);
}

/// The empty sequence scans to offset zero.
pub proof fn lemma_empty_scans_to_zero()
    ensures
        first_delimiter_offset(Seq::<u8>::empty()) == 0,
{
}

/// Taking the first token is idempotent: the first token of a first token
/// is that token itself, since a token never holds a delimiter.
pub proof fn lemma_first_token_idempotent(s: Seq<u8>)
    ensures
        first_token(first_token(s)) == first_token(s),
{
    let t = first_token(s);
    lemma_first_delimiter_offset_bounds(s);
    assert forall|j: int| 0 <= j < t.len() implies t[j] != DELIMITER by {
        assert(t[j] == s[j]);
    }
    lemma_no_delimiter_scans_to_length(t);
    assert(first_token(t) =~= t);
}

/// Scans `bytes` from the left and returns the offset of the first
/// delimiter byte, or `bytes.len()` when none occurs.
pub fn find_first_delimiter_offset(bytes: &[u8]) -> (offset: usize)
    ensures
        offset == first_delimiter_offset(bytes@),
{
    let n: usize = bytes.len();
    let mut i: usize = 0;
    while i < n
        invariant
            n == bytes@.len(),
            0 <= i <= n,
            forall|j: int| 0 <= j < i ==> bytes@[j] != DELIMITER,
        decreases n - i,
    {
        if bytes[i] == DELIMITER {
            proof {
                lemma_offset_of_scan(bytes@, i as int);
            }
            return i;
        }
        i = i + 1;
    }
    proof {
        lemma_offset_of_scan(bytes@, n as int);
    }
    n
}

/// Returns a zero-copy view of the first token of `bytes`: the prefix that
/// ends at the first delimiter, or all of `bytes` when none occurs.
pub fn extract_first_token(bytes: &[u8]) -> (token: &[u8])
    ensures
        token@ == first_token(bytes@),
{
    let offset: usize = find_first_delimiter_offset(bytes);
    proof {
        lemma_first_delimiter_offset_bounds(bytes@);
    }
    slice_subrange(bytes, 0, offset)
}

/// Returns the byte offset of the first space in `s`, or the byte length of
/// `s` when it holds no space.
pub fn first_word(s: &String) -> (offset: usize)
    ensures
        offset == first_delimiter_offset(encode_utf8(s@)),
{
    find_first_delimiter_offset(s.as_str().as_bytes())
}

/// The first delimiter offset of a UTF-8 encoding falls on a character
/// boundary: the delimiter byte is ASCII, so it never sits inside a
/// character's multi-byte encoding.
proof fn lemma_offset_is_char_boundary(chars: Seq<char>)
    ensures
        vstd::utf8::is_char_boundary(
            encode_utf8(chars),
            first_delimiter_offset(encode_utf8(chars)),
        ),
{
    let bytes = encode_utf8(chars);
    let offset = first_delimiter_offset(bytes);
    encode_utf8_valid_utf8(chars);
    lemma_first_delimiter_offset_bounds(bytes);
    if offset < bytes.len() {
        assert(!is_continuation_byte(bytes[offset]));
        is_char_boundary_iff_not_is_continuation_byte(bytes, offset);
    } else {
        is_char_boundary_start_end_of_seq(bytes);
    }
}

/// Returns a zero-copy view of the first word of `s`: the characters whose
/// encoding precedes the first space, or all of `s` when it holds no space.
pub fn first_world_with_slice_str(s: &str) -> (word: &str)
    ensures
        word.spec_bytes() == first_token(s.spec_bytes()),
{
    let bytes = s.as_bytes();
    let offset: usize = find_first_delimiter_offset(bytes);
    proof {
        lemma_offset_is_char_boundary(s@);
        lemma_first_delimiter_offset_bounds(s.spec_bytes());
    }
    let pair = s.split_at(offset);
    proof {
        assert(pair.0.spec_bytes() =~= first_token(s.spec_bytes()));
    }
    pair.0
}

/// Returns a zero-copy view of the first word of `s`, exactly as
/// `first_world_with_slice_str` does on the borrowed form of `s`.
pub fn first_world_with_slice(s: &String) -> (word: &str)
    ensures
        word.spec_bytes() == first_token(encode_utf8(s@)),
{
    first_world_with_slice_str(s.as_str())
}

} // verus!
