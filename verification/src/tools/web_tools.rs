//! Shaping what a fetch over HTTP gave into the text of a tool result.

use vstd::prelude::*;
use vstd::string::StringExecFns;
use vstd::utf8::{
    decode_utf8, encode_utf8, encode_utf8_decode_utf8, encode_utf8_valid_utf8, is_char_boundary,
    is_char_boundary_start_end_of_seq, valid_utf8,
};
use crate::text::{decimal, push_decimal};

verus! {

/// The number of bytes of a fetched body that a result holds at most.
pub const FETCH_LIMIT: usize = 8000;

/// The characters of `s` whose UTF-8 encoding is the first `n` bytes of
/// that of `s`.
pub open spec fn byte_prefix(s: Seq<char>, n: int) -> Seq<char> {
    decode_utf8(encode_utf8(s).subrange(0, n))
}

/// The last place at or before `at` where a character of `bytes` begins
/// or the text ends; 0 at the latest.
pub open spec fn last_boundary(bytes: Seq<u8>, at: int) -> int
    decreases at,
{
    if at <= 0 {
        0
    } else if is_char_boundary(bytes, at) {
        at
    } else {
        last_boundary(bytes, at - 1)
    }
}

/// What `last_boundary` finds in the encoding of a text: a boundary at or
/// before `at`, with none between it and `at`.
pub proof fn lemma_last_boundary(bytes: Seq<u8>, at: int)
    requires
        valid_utf8(bytes),
        0 <= at,
    ensures
        0 <= last_boundary(bytes, at) <= at,
        is_char_boundary(bytes, last_boundary(bytes, at)),
        forall|j: int| last_boundary(bytes, at) < j <= at ==> !is_char_boundary(bytes, j),
    decreases at,
{
    if at <= 0 {
        is_char_boundary_start_end_of_seq(bytes);
    } else if !is_char_boundary(bytes, at) {
        lemma_last_boundary(bytes, at - 1);
    }
}

/// Where a body longer than the limit is cut: at the limit, or where the
/// character that lies across the limit begins.
pub open spec fn cut_point(body: Seq<char>) -> int {
    last_boundary(encode_utf8(body), FETCH_LIMIT as int)
}

/// A body in which a character begins at the limit is cut there.
pub proof fn lemma_cut_at_limit(body: Seq<char>)
    requires
        is_char_boundary(encode_utf8(body), FETCH_LIMIT as int),
    ensures
        cut_point(body) == FETCH_LIMIT,
{
}

/// The body as a result holds it: whole if it has no more than the limit of
/// bytes, else cut at the cut point, with a mark that says how many bytes
/// were left out.
pub open spec fn truncated(body: Seq<char>) -> Seq<char> {
    let bytes = encode_utf8(body);
    if bytes.len() > FETCH_LIMIT {
        byte_prefix(body, cut_point(body)) + "...\n[truncated "@ + decimal(
            (bytes.len() - cut_point(body)) as nat,
        ) + " bytes]"@
    } else {
        body
    }
}

/// The text of the result of a fetch that came back with the status line
/// `status` and the body `body`.
pub open spec fn fetched(status: Seq<char>, body: Seq<char>) -> Seq<char> {
    "Status: "@ + status + "\n\n"@ + truncated(body)
}

/// The text of the result of a fetch: the status, an empty line and the
/// body. A body of more than 8000 bytes is cut at 8000 bytes, or before
/// the character that lies across that place, and the number of bytes
/// left out is added.
pub fn fetch_result(status: &str, body: &str) -> (r: String)
    ensures
        r@ == fetched(status@, body@),
{
    let mut r = "Status: ".to_string();
    r.append(status);
    r.append("\n\n");
    let size = body.as_bytes().len();
    if size > FETCH_LIMIT {
        let mut cut: usize = FETCH_LIMIT;
        while cut > 0 && !body.is_char_boundary(cut)
            invariant
                cut <= FETCH_LIMIT,
                cut_point(body@) == last_boundary(encode_utf8(body@), cut as int),
            decreases cut,
        {
            cut -= 1;
        }
        proof {
            encode_utf8_valid_utf8(body@);
            lemma_last_boundary(encode_utf8(body@), cut as int);
        }
        let (head, _) = body.split_at(cut);
        proof {
            encode_utf8_decode_utf8(head@);
        }
        r.append(head);
        r.append("...\n[truncated ");
        push_decimal(&mut r, (size - cut) as u64);
        r.append(" bytes]");
    } else {
        r.append(body);
    }
    r
}

} // verus!
