//! The printable outer layer: a header, a colon, the base64 body and a closing bracket.
use vstd::prelude::*;
use crate::GqgError;
use crate::outside::{is_base64_char, base64_of, base64_decoded, base64_encode, base64_decode};
use crate::text::is_white_space;
use crate::seqs::{copy_range, has_prefix, append_all};
use crate::text::chars_of;

verus! {

/// Header of an envelope that holds a message.
pub const HEADER_MESSAGE: &'static str = "[GQG1-MESSAGE";

/// Header of an envelope that holds a file.
pub const HEADER_FILE: &'static str = "[GQG1-FILE";

/// The header for the given variant.
pub open spec fn header_of(is_file: bool) -> Seq<char> {
    if is_file {
        HEADER_FILE@
    } else {
        HEADER_MESSAGE@
    }
}

/// The envelope text of a variant and its raw bytes.
pub open spec fn frame_text(is_file: bool, raw: Seq<u8>) -> Seq<char> {
    header_of(is_file) + seq![':'] + base64_of(raw) + seq![']']
}

/// The variant and raw bytes that a text (already free of white space) carries, or
/// `InvalidOuterEncoding` where the text is not a well-formed envelope.
pub open spec fn unframe_text(s: Seq<char>) -> Result<(bool, Seq<u8>), GqgError> {
    if !HEADER_MESSAGE@.is_prefix_of(s) && !HEADER_FILE@.is_prefix_of(s) {
        Err(GqgError::InvalidOuterEncoding)
    } else {
        let is_file = !HEADER_MESSAGE@.is_prefix_of(s);
        let rest = s.skip(header_of(is_file).len() as int);
        if rest.len() == 0 || rest.last() != ']' {
            Err(GqgError::InvalidOuterEncoding)
        } else if rest.len() < 2 || rest[0] != ':' {
            Err(GqgError::InvalidOuterEncoding)
        } else {
            match base64_decoded(rest.subrange(1, rest.len() - 1)) {
                Some(raw) => Ok((is_file, raw)),
                None => Err(GqgError::InvalidOuterEncoding),
            }
        }
    }
}

/// Envelope text of the given variant whose body uses only the base64 alphabet, and which
/// therefore holds no white space.
pub open spec fn printable_envelope(s: Seq<char>, is_file: bool) -> bool {
    &&& s.len() >= header_of(is_file).len() + 2
    &&& forall|i: int| header_of(is_file).len() < i < s.len() - 1 ==> is_base64_char(#[trigger] s[i])
    &&& forall|i: int| 0 <= i < s.len() ==> !is_white_space(#[trigger] s[i])
}

/// Wraps raw bytes into envelope text.
pub fn frame(is_file: bool, raw: &[u8]) -> (r: Vec<char>)
    ensures
        r@ == frame_text(is_file, raw@),
        printable_envelope(r@, is_file),
{
    proof {
        reveal_strlit("[GQG1-MESSAGE");
        reveal_strlit("[GQG1-FILE");
    }
    let mut out = if is_file {
        chars_of(HEADER_FILE)
    } else {
        chars_of(HEADER_MESSAGE)
    };
    out.push(':');
    let body = base64_encode(raw);
    append_all(&mut out, body.as_slice());
    out.push(']');
    proof {
        let h = header_of(is_file);
        assert(out@ == frame_text(is_file, raw@));
        assert forall|i: int| 0 <= i < out@.len() implies !is_white_space(#[trigger] out@[i]) by {
            if h.len() < i < out@.len() - 1 {
                assert(out@[i] == body@[i - h.len() - 1]);
                assert(is_base64_char(body@[i - h.len() - 1]));
            } else if i < h.len() {
                assert(out@[i] == h[i]);
            }
        }
        assert forall|i: int| h.len() < i < out@.len() - 1 implies is_base64_char(#[trigger] out@[i]) by {
            assert(out@[i] == body@[i - h.len() - 1]);
        }
    }
    out
}

/// Reads the variant and raw bytes out of envelope text that holds no white space.
pub fn unframe(s: &[char]) -> (r: Result<(bool, Vec<u8>), GqgError>)
    ensures
        match r {
            Ok((is_file, raw)) => unframe_text(s@) == Ok::<(bool, Seq<u8>), GqgError>((is_file, raw@)),
            Err(e) => unframe_text(s@) == Err::<(bool, Seq<u8>), GqgError>(e),
        },
{
    let message = chars_of(HEADER_MESSAGE);
    let file = chars_of(HEADER_FILE);
    let is_file: bool;
    let start: usize;
    if has_prefix(s, message.as_slice()) {
        is_file = false;
        start = message.len();
    } else if has_prefix(s, file.as_slice()) {
        is_file = true;
        start = file.len();
    } else {
        return Err(GqgError::InvalidOuterEncoding);
    }
    let ghost rest = s@.skip(start as int);
    if s.len() == start || s[s.len() - 1] != ']' {
        return Err(GqgError::InvalidOuterEncoding);
    }
    if s.len() - start < 2 || s[start] != ':' {
        return Err(GqgError::InvalidOuterEncoding);
    }
    let body = copy_range(s, start + 1, s.len() - 1);
    assert(body@ == rest.subrange(1, rest.len() - 1));
    match base64_decode(body.as_slice()) {
        Some(raw) => Ok((is_file, raw)),
        None => Err(GqgError::InvalidOuterEncoding),
    }
}

} // verus!
