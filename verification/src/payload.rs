//! The payload decoder: the empty-payload rule of the wire format, and what
//! becomes of a decoder's answer.

use crate::error::ProtocolError;
use vstd::prelude::*;
use vstd::string::*;

verus! {

/// The text that is handed to a decoder for a payload: the payload itself,
/// or `null` where the payload is empty.
pub open spec fn payload_text_of(payload: Seq<char>) -> Seq<char> {
    if payload.len() == 0 {
        seq!['n', 'u', 'l', 'l']
    } else {
        payload
    }
}

/// Whether `r` is what the payload decoder makes of the decoder's answer
/// `answer` on `text`: the decoded value, or an error that carries the text
/// and the decoder's diagnostic.
pub open spec fn wraps<T>(
    answer: Result<T, String>,
    text: Seq<char>,
    r: Result<T, ProtocolError>,
) -> bool {
    match answer {
        Ok(value) => r == Ok::<T, ProtocolError>(value),
        Err(diagnostic) => r is Err && r->Err_0.text@ == text && r->Err_0.diagnostic@
            == diagnostic@,
    }
}

/// Whether `r` can come of decoding `payload` with `decode`: `decode` was
/// handed the text of the payload, and `r` wraps its answer.
pub open spec fn decoded_by<T, D: FnOnce(&str) -> Result<T, String>>(
    decode: D,
    payload: Seq<char>,
    r: Result<T, ProtocolError>,
) -> bool {
    exists|text: &str, answer: Result<T, String>|
        text@ == payload_text_of(payload) && #[trigger] call_ensures(decode, (text,), answer)
            && wraps(answer, text@, r)
}

/// Applies the empty-payload rule.
pub fn payload_text(payload: &str) -> (text: &str)
    ensures
        text@ == payload_text_of(payload@),
{
    proof {
        reveal_strlit("null");
    }
    if payload.is_empty() {
        let text = "null";
        assert(text@ =~= payload_text_of(payload@));
        text
    } else {
        payload
    }
}

/// Wraps the answer of a decoder on `text`.
pub fn decoded<T>(text: &str, answer: Result<T, String>) -> (r: Result<T, ProtocolError>)
    ensures
        wraps(answer, text@, r),
{
    match answer {
        Ok(value) => Ok(value),
        Err(diagnostic) => Err(ProtocolError { text: text.to_owned(), diagnostic }),
    }
}

/// Decodes a payload with `decode`. An empty payload is decoded as `null`;
/// a payload that `decode` rejects is an error that carries the text and the
/// diagnostic.
pub fn parse_response<T, D: FnOnce(&str) -> Result<T, String>>(payload: &str, decode: D) -> (r:
    Result<T, ProtocolError>)
    requires
        forall|text: &str| call_requires(decode, (text,)),
    ensures
        decoded_by(decode, payload@, r),
{
    let text = payload_text(payload);
    let answer = decode(text);
    decoded(text, answer)
}

/// An empty payload and the payload `null` are decoded alike: the decoder is
/// handed the same text, so whatever can come of the one can come of the
/// other.
pub proof fn lemma_empty_payload_is_null<T, D: FnOnce(&str) -> Result<T, String>>(
    decode: D,
    r: Result<T, ProtocolError>,
)
    ensures
        payload_text_of(Seq::empty()) == payload_text_of(seq!['n', 'u', 'l', 'l']),
        decoded_by(decode, Seq::empty(), r) <==> decoded_by(decode, seq!['n', 'u', 'l', 'l'], r),
{
}

} // verus!
