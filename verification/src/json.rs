//! The JSON codec for the payloads that are plain text or nothing.

use crate::text::lines_of;
use vstd::prelude::*;
use vstd::string::*;

verus! {

/// The JSON text that stands for the string `text`: what
/// `serde_json::to_string` returns for it.
pub uninterp spec fn json_of_text(text: Seq<char>) -> Seq<char>;

/// What `serde_json::from_str` makes of `json` when a string is expected: the
/// string, or the parser's diagnostic.
pub uninterp spec fn text_of_json(json: Seq<char>) -> Result<Seq<char>, Seq<char>>;

/// What `serde_json::from_str` makes of `json` when the unit value is
/// expected: nothing, or the parser's diagnostic.
pub uninterp spec fn unit_of_json(json: Seq<char>) -> Result<(), Seq<char>>;

/// A decoder's answer on a string payload, by its views.
pub open spec fn text_answer(answer: Result<String, String>) -> Result<Seq<char>, Seq<char>> {
    match answer {
        Ok(value) => Ok(value@),
        Err(diagnostic) => Err(diagnostic@),
    }
}

/// A decoder's answer on a unit payload, by its views.
pub open spec fn unit_answer(answer: Result<(), String>) -> Result<(), Seq<char>> {
    match answer {
        Ok(value) => Ok(value),
        Err(diagnostic) => Err(diagnostic@),
    }
}

/// Calls `serde_json::to_string` on a string. The contract names the text
/// that comes back. The serializer writes a string into memory without
/// failing; were it to fail, the empty string would come back.
#[verifier::external_body]
pub(crate) fn encode_text(text: &str) -> (json: String)
    ensures
        json@ == json_of_text(text@),
{
    serde_json::to_string(text).unwrap_or_default()
}

/// Calls `serde_json::from_str` for a `String`. The contract names the
/// answer: the decoded string, or the text of the parser's error.
#[verifier::external_body]
pub(crate) fn decode_text(json: &str) -> (answer: Result<String, String>)
    ensures
        text_answer(answer) == text_of_json(json@),
{
    serde_json::from_str::<String>(json).map_err(|e| e.to_string())
}

/// Calls `serde_json::from_str` for `()`. The contract names the answer:
/// nothing, or the text of the parser's error.
#[verifier::external_body]
pub(crate) fn decode_unit(json: &str) -> (answer: Result<(), String>)
    ensures
        unit_answer(answer) == unit_of_json(json@),
{
    serde_json::from_str::<()>(json).map_err(|e| e.to_string())
}

/// The texts `items`, with a comma between each two.
pub open spec fn joined(items: Seq<Seq<char>>) -> Seq<char>
    decreases items.len(),
{
    if items.len() == 0 {
        Seq::empty()
    } else if items.len() == 1 {
        items[0]
    } else {
        joined(items.drop_last()) + seq![','] + items.last()
    }
}

/// The JSON array of the given JSON texts.
pub open spec fn json_array(items: Seq<Seq<char>>) -> Seq<char> {
    seq!['['] + joined(items) + seq![']']
}

/// The JSON object of the given members.
pub open spec fn json_object(members: Seq<Seq<char>>) -> Seq<char> {
    seq!['{'] + joined(members) + seq!['}']
}

/// The member of a JSON object that gives `key` the JSON text `value`.
pub open spec fn json_member(key: Seq<char>, value: Seq<char>) -> Seq<char> {
    json_of_text(key) + seq![':'] + value
}

/// The JSON texts that stand for the strings `items`.
pub open spec fn json_texts(items: Seq<Seq<char>>) -> Seq<Seq<char>> {
    items.map_values(|text: Seq<char>| json_of_text(text))
}

/// Joins `items` with commas.
pub fn join(items: &Vec<String>) -> (text: String)
    ensures
        text@ == joined(lines_of(items@)),
{
    let ghost views = lines_of(items@);
    let mut text = String::new();
    let mut i: usize = 0;
    assert(views.take(0) =~= Seq::<Seq<char>>::empty());
    while i < items.len()
        invariant
            i <= items.len(),
            views == lines_of(items@),
            text@ == joined(views.take(i as int)),
        decreases items.len() - i,
    {
        if i > 0 {
            text.append(",");
        }
        text.append(items[i].as_str());
        proof {
            reveal_strlit(",");
            let next = views.take(i + 1);
            assert(next.drop_last() =~= views.take(i as int));
            assert(next.last() == items@[i as int]@);
            if i == 0 {
                assert(text@ =~= next[0]);
            } else {
                assert(text@ =~= joined(next.drop_last()) + seq![','] + next.last());
            }
        }
        i = i + 1;
    }
    assert(views.take(items.len() as int) =~= views);
    text
}

/// The JSON array of the JSON texts `items`.
pub fn array(items: &Vec<String>) -> (text: String)
    ensures
        text@ == json_array(lines_of(items@)),
{
    proof {
        reveal_strlit("[");
        reveal_strlit("]");
    }
    let mut text = "[".to_owned();
    text.append(join(items).as_str());
    text.append("]");
    assert(text@ =~= json_array(lines_of(items@)));
    text
}

/// The JSON object of the members `members`.
pub fn object(members: &Vec<String>) -> (text: String)
    ensures
        text@ == json_object(lines_of(members@)),
{
    proof {
        reveal_strlit("{");
        reveal_strlit("}");
    }
    let mut text = "{".to_owned();
    text.append(join(members).as_str());
    text.append("}");
    assert(text@ =~= json_object(lines_of(members@)));
    text
}

/// The member of a JSON object that gives `key` the JSON text `value`.
pub fn member(key: &str, value: &str) -> (text: String)
    ensures
        text@ == json_member(key@, value@),
{
    proof {
        reveal_strlit(":");
    }
    let mut text = encode_text(key);
    text.append(":");
    text.append(value);
    assert(text@ =~= json_member(key@, value@));
    text
}

/// The JSON array of the strings `items`.
pub fn text_array(items: &Vec<String>) -> (text: String)
    ensures
        text@ == json_array(json_texts(lines_of(items@))),
{
    let mut encoded: Vec<String> = Vec::new();
    let mut i: usize = 0;
    while i < items.len()
        invariant
            i <= items.len(),
            encoded.len() == i,
            forall|j: int| 0 <= j < i ==> (#[trigger] encoded@[j])@ == json_of_text(items@[j]@),
        decreases items.len() - i,
    {
        encoded.push(encode_text(items[i].as_str()));
        i = i + 1;
    }
    assert(lines_of(encoded@) =~= json_texts(lines_of(items@)));
    array(&encoded)
}

} // verus!
