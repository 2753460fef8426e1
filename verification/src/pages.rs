//! A page with a counter: which requests count, and what is sent back.

use crate::identifier::{decimal_digits, row_text};
use crate::text::{chars_of, replace, replaced, text_of};
use vstd::prelude::*;
use vstd::string::StringExecFns;

verus! {

/// The place in a page that the counter is written to.
pub open spec fn placeholder() -> Seq<char> {
    "{{{ counter }}}"@
}

/// The first line of a request that counts.
pub open spec fn counting_request() -> Seq<char> {
    "POST /counter HTTP/1.1"@
}

/// What stands before the page in a reply: the status, the headers with
/// the length of the page, and an empty line.
pub open spec fn reply_head(length: u32) -> Seq<char> {
    "HTTP/1.1 200 OK\r\nContentType: text/html; charset=utf-8\r\nAccess-Control-Allow-Origin: *\r\nContent-Length: "@
        + decimal_digits(length as nat) + "\r\n\r\n"@
}

/// The counter after a request with the given first line: one more when
/// the request counts.
pub fn count_request(counter: u32, header: &str) -> (after: u32)
    requires
        counter < u32::MAX,
    ensures
        after == if header@ == counting_request() {
            (counter + 1) as u32
        } else {
            counter
        },
{
    if header.to_owned() == "POST /counter HTTP/1.1".to_owned() {
        counter + 1
    } else {
        counter
    }
}

/// The page with the counter written wherever its placeholder stands.
pub fn render(template: &str, counter: u32) -> (page: String)
    ensures
        page@ == replaced(template@, placeholder(), decimal_digits(counter as nat)),
{
    let number = row_text(counter);
    proof {
        reveal_strlit("{{{ counter }}}");
    }
    let page = replace(
        &chars_of(template),
        &chars_of("{{{ counter }}}"),
        &chars_of(number.as_str()),
    );
    text_of(&page)
}

/// What stands before a page of the given length in a reply.
pub fn response_head(length: u32) -> (head: String)
    ensures
        head@ == reply_head(length),
{
    let number = row_text(length);
    "HTTP/1.1 200 OK\r\nContentType: text/html; charset=utf-8\r\nAccess-Control-Allow-Origin: *\r\nContent-Length: ".to_owned().concat(
        number.as_str(),
    ).concat("\r\n\r\n")
}

} // verus!
