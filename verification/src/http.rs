use vstd::prelude::*;

use crate::strings::{decimal_string, decimal_text, push_char};

verus! {

/// The characters of `message` in reverse order.
pub fn reverse_message(message: &str) -> (r: String)
    ensures
        r@ == message@.reverse(),
{
    broadcast use vstd::string::group_string_axioms;
    let mut chars: Vec<char> = Vec::new();
    for c in it: message.chars()
        invariant
            it.seq() == message@,
            chars@ == message@.take(it.index()),
    {
        chars.push(c);
        assert(chars@ =~= message@.take(it.index() + 1));
    }
    assert(chars@ =~= message@);
    let mut out = String::new();
    let mut i: usize = chars.len();
    while i > 0
        invariant
            i <= chars@.len(),
            chars@ == message@,
            out@ == message@.reverse().take(chars@.len() - i),
        decreases i,
    {
        i = i - 1;
        push_char(&mut out, chars[i]);
        assert(out@ =~= message@.reverse().take(chars@.len() - i));
    }
    assert(out@ =~= message@.reverse());
    out
}

/// Whether a request body is answered with a message: an empty body is
/// answered with an empty body, any other body with the reversal of the
/// message that it carries.
pub fn body_needs_reply(body: &[u8]) -> (r: bool)
    ensures
        r == (body@.len() > 0),
{
    body.len() > 0
}

/// The views of a list of headers.
pub open spec fn header_views(headers: Seq<(String, Vec<String>)>) -> Seq<(Seq<char>, Seq<Seq<char>>)> {
    headers.map_values(|h: (String, Vec<String>)| (h.0@, h.1@.map_values(|v: String| v@)))
}

/// The headers of a JSON response whose body is `body_len` bytes long.
pub open spec fn response_headers_spec(body_len: nat) -> Seq<(Seq<char>, Seq<Seq<char>>)> {
    seq![
        ("Content-Type"@, seq!["application/json"@]),
        ("Access-Control-Allow-Origin"@, seq!["*"@]),
        ("Content-Length"@, seq![decimal_text(body_len)]),
    ]
}

fn header(name: &str, value: String) -> (r: (String, Vec<String>))
    ensures
        r.0@ == name@,
        r.1@.len() == 1,
        r.1@[0] == value,
{
    let mut values = Vec::new();
    values.push(value);
    (String::from_str(name), values)
}

/// The headers of a JSON response whose body is `body_len` bytes long: its
/// content type, an origin wildcard for cross-origin access, and its length.
pub fn response_headers(body_len: usize) -> (r: Vec<(String, Vec<String>)>)
    ensures
        header_views(r@) == response_headers_spec(body_len as nat),
        r@.len() == 3,
        r@[0].0@ == "Content-Type"@,
        r@[0].1@.len() == 1,
        r@[0].1@[0]@ == "application/json"@,
        r@[1].0@ == "Access-Control-Allow-Origin"@,
        r@[1].1@.len() == 1,
        r@[1].1@[0]@ == "*"@,
        r@[2].0@ == "Content-Length"@,
        r@[2].1@.len() == 1,
        r@[2].1@[0]@ == decimal_text(body_len as nat),
{
    let mut headers = Vec::new();
    headers.push(header("Content-Type", String::from_str("application/json")));
    headers.push(header("Access-Control-Allow-Origin", String::from_str("*")));
    headers.push(header("Content-Length", decimal_string(body_len as u64)));
    proof {
        let v = header_views(headers@);
        assert(headers@[0].1@.map_values(|v: String| v@) =~= seq!["application/json"@]);
        assert(headers@[1].1@.map_values(|v: String| v@) =~= seq!["*"@]);
        assert(headers@[2].1@.map_values(|v: String| v@) =~= seq![decimal_text(body_len as nat)]);
        assert(v =~= response_headers_spec(body_len as nat));
    }
    headers
}

/// The count argument of a list removal for a request to remove `num`
/// occurrences: `num` itself, or the largest `isize` where `num` does not fit.
pub fn list_remove_count(num: u32) -> (r: isize)
    ensures
        r == if num <= isize::MAX {
            num as isize
        } else {
            isize::MAX
        },
{
    if (num as u64) <= (isize::MAX as u64) {
        num as isize
    } else {
        isize::MAX
    }
}

} // verus!
