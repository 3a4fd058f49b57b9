//! Starting the server: the arguments that it is run with, and what it says
//! of itself when it has started.

use crate::text::{chars_of, remove_char, trim, trim_bounds, without};
use vstd::prelude::*;
use vstd::string::*;

verus! {

/// What the server says of itself: where it listens and what it expects as
/// the secret.
#[derive(Clone, Debug, PartialEq, Eq)]
pub struct ServerInfo {
    pub port: u32,
    pub password: String,
}

/// The texts of the first and the second group of the leftmost match of the
/// regular expression `pattern` in `text`. Nothing where `pattern` is no
/// regular expression, where it matches nowhere, or where one of the two
/// groups took no part in the match.
pub uninterp spec fn regex_groups(pattern: Seq<char>, text: Seq<char>) -> Option<
    (Seq<char>, Seq<char>),
>;

/// Two groups, by their views.
pub open spec fn groups_view(groups: Option<(String, String)>) -> Option<(Seq<char>, Seq<char>)> {
    match groups {
        Some((first, second)) => Some((first@, second@)),
        None => None,
    }
}

/// Compiles `pattern` with `regex::Regex::new`, searches `text` with
/// `Regex::captures`, and takes the first two groups with `Captures::get`.
/// The contract names what comes back.
#[verifier::external_body]
fn two_groups(pattern: &str, text: &str) -> (groups: Option<(String, String)>)
    ensures
        groups_view(groups) == regex_groups(pattern@, text@),
{
    let captures = regex::Regex::new(pattern).ok()?.captures(text)?;
    Some((captures.get(1)?.as_str().to_owned(), captures.get(2)?.as_str().to_owned()))
}

/// Whether `c` is a decimal digit.
pub open spec fn is_digit(c: char) -> bool {
    '0' <= c <= '9'
}

/// The number that the decimal digits `digits` stand for.
pub open spec fn digits_value(digits: Seq<char>) -> nat
    decreases digits.len(),
{
    if digits.len() == 0 {
        0
    } else {
        (digits_value(digits.drop_last()) * 10 + (digits.last() as u32 - '0' as u32)) as nat
    }
}

/// Whether `digits` holds decimal digits only.
pub open spec fn all_digits(digits: Seq<char>) -> bool {
    forall|i: int| 0 <= i < digits.len() ==> is_digit(#[trigger] digits[i])
}

/// The number that `digits` stands for, where it holds decimal digits, at
/// least one, whose number fits 32 bits.
pub open spec fn number_of(digits: Seq<char>) -> Option<u32> {
    if digits.len() > 0 && all_digits(digits) && digits_value(digits) <= u32::MAX {
        Some(digits_value(digits) as u32)
    } else {
        None
    }
}

/// The port that `text` stands for: a number, after an optional plus sign.
pub open spec fn port_of(text: Seq<char>) -> Option<u32> {
    if text.len() > 0 && text[0] == '+' {
        number_of(text.skip(1))
    } else {
        number_of(text)
    }
}

/// The text in which the address and the secret are looked for: the output
/// without its backslashes, trimmed.
pub open spec fn cleaned_output(output: Seq<char>) -> Seq<char> {
    trim(without(output, '\\'))
}

/// What the server says of itself, given the two groups that were found in
/// its output: the port, which must be a number, and the secret.
pub open spec fn server_info_of(groups: Option<(Seq<char>, Seq<char>)>) -> Option<
    (u32, Seq<char>),
> {
    match groups {
        Some((port, password)) => match port_of(port) {
            Some(port) => Some((port, password)),
            None => None,
        },
        None => None,
    }
}

/// What was read of the server, by its views.
pub open spec fn info_view(info: Option<ServerInfo>) -> Option<(u32, Seq<char>)> {
    match info {
        Some(info) => Some((info.port, info.password@)),
        None => None,
    }
}

/// The values of the prefixes of a numeral do not exceed its own.
proof fn lemma_digits_value_grows(digits: Seq<char>, k: int)
    requires
        0 <= k <= digits.len(),
        forall|i: int| 0 <= i < digits.len() ==> is_digit(#[trigger] digits[i]),
    ensures
        digits_value(digits.take(k)) <= digits_value(digits),
    decreases digits.len() - k,
{
    if k == digits.len() {
        assert(digits.take(k) =~= digits);
    } else {
        let rest = digits.drop_last();
        assert forall|i: int| 0 <= i < rest.len() implies is_digit(#[trigger] rest[i]) by {
            assert(rest[i] == digits[i]);
        }
        lemma_digits_value_grows(rest, k);
        assert(rest.take(k) =~= digits.take(k));
        assert(is_digit(digits[digits.len() - 1]));
    }
}

/// Reads a port number.
pub fn parse_port(text: &str) -> (port: Option<u32>)
    ensures
        port == port_of(text@),
{
    let v = chars_of(text);
    let from: usize = if v.len() > 0 && v[0] == '+' {
        1
    } else {
        0
    };
    let ghost digits = v@.skip(from as int);
    if from == v.len() {
        return None;
    }
    let mut value: u64 = 0;
    let mut i: usize = from;
    assert(digits.take(0) =~= Seq::<char>::empty());
    assert(v@.skip(0) =~= v@);
    while i < v.len()
        invariant
            from <= i <= v.len(),
            from < v.len(),
            v@ == text@,
            from == (if v@.len() > 0 && v@[0] == '+' {
                1int
            } else {
                0int
            }),
            digits == v@.skip(from as int),
            value == digits_value(digits.take(i - from)),
            value <= u32::MAX,
            forall|j: int| 0 <= j < i - from ==> is_digit(#[trigger] digits[j]),
        decreases v.len() - i,
    {
        let c = v[i];
        assert(digits[i - from] == c);
        if !('0' <= c && c <= '9') {
            proof {
                assert(v@.skip(0) =~= v@);
                assert(!is_digit(digits[i - from]));
            }
            return None;
        }
        let digit: u64 = (c as u32 - '0' as u32) as u64;
        proof {
            let next = digits.take(i - from + 1);
            assert(next.drop_last() =~= digits.take(i - from));
            assert(next.last() == c);
        }
        value = value * 10 + digit;
        if value > 0xffff_ffff {
            proof {
                assert(v@.skip(0) =~= v@);
                if all_digits(digits) {
                    lemma_digits_value_grows(digits, i - from + 1);
                }
            }
            return None;
        }
        i = i + 1;
    }
    assert(digits.take(digits.len() as int) =~= digits);
    assert(v@.skip(0) =~= v@);
    Some(value as u32)
}

/// The regular expression that finds the port and the secret in what the
/// server says.
pub fn banner_pattern() -> (pattern: &'static str)
    ensures
        pattern@ == ".* = .*:(.*) \\(password \"(.*)\"\\)"@,
{
    ".* = .*:(.*) \\(password \"(.*)\"\\)"
}

/// The text in which the address and the secret are looked for.
pub fn clean_output(output: &str) -> (cleaned: String)
    ensures
        cleaned@ == cleaned_output(output@),
{
    let bare = remove_char(output, '\\');
    let v = chars_of(bare.as_str());
    assert(v@.subrange(0, v.len() as int) =~= v@);
    let (a, b) = trim_bounds(&v, 0, v.len());
    bare.as_str().substring_char(a, b).to_owned()
}

/// Reads what the server says of itself from the two groups that were found
/// in its output.
pub fn server_info_from(groups: Option<(String, String)>) -> (info: Option<ServerInfo>)
    ensures
        info_view(info) == server_info_of(groups_view(groups)),
{
    match groups {
        Some((port, password)) => match parse_port(port.as_str()) {
            Some(port) => Some(ServerInfo { port, password }),
            None => None,
        },
        None => None,
    }
}

/// Reads what the server says of itself from the first line of its output.
pub fn parse_server_output(output: &str) -> (info: Option<ServerInfo>)
    ensures
        info_view(info) == server_info_of(
            regex_groups(
                ".* = .*:(.*) \\(password \"(.*)\"\\)"@,
                cleaned_output(output@),
            ),
        ),
{
    let cleaned = clean_output(output);
    server_info_from(two_groups(banner_pattern(), cleaned.as_str()))
}

/// The name of the server where none is given.
pub open spec fn server_name_of(name: Option<Seq<char>>) -> Seq<char> {
    match name {
        Some(name) => name,
        None => "isabelle"@,
    }
}

/// The arguments that the `isabelle` program is given to start the server
/// of the given name, or to find it where it runs already.
pub fn server_arguments(name: Option<&str>) -> (arguments: Vec<String>)
    ensures
        arguments@.len() == 3,
        arguments@[0]@ == "server"@,
        arguments@[1]@ == "-n"@,
        arguments@[2]@ == server_name_of(
            match name {
                Some(name) => Some(name@),
                None => None,
            },
        ),
{
    let mut arguments: Vec<String> = Vec::new();
    arguments.push("server".to_owned());
    arguments.push("-n".to_owned());
    match name {
        Some(name) => arguments.push(name.to_owned()),
        None => arguments.push("isabelle".to_owned()),
    }
    arguments
}

/// The arguments that the `isabelle` program is given to end the server of
/// the given name.
pub fn exit_arguments(name: &str) -> (arguments: Vec<String>)
    ensures
        arguments@.len() == 4,
        arguments@[0]@ == "server"@,
        arguments@[1]@ == "-n"@,
        arguments@[2]@ == name@,
        arguments@[3]@ == "-x"@,
{
    let mut arguments: Vec<String> = Vec::new();
    arguments.push("server".to_owned());
    arguments.push("-n".to_owned());
    arguments.push(name.to_owned());
    arguments.push("-x".to_owned());
    arguments
}

} // verus!
