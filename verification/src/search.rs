//! Web search through the Brave Search API: how a request is put together
//! and how the service's reply is reported. Sending the request is the
//! caller's part.

use vstd::prelude::*;
use vstd::string::StringExecFns;
use vstd::utf8::encode_utf8;
use crate::text::{join, push_char};

verus! {

/// One hit of a search.
#[derive(Debug, PartialEq, Eq)]
pub struct WebSearchResult {
    pub title: String,
    pub url: String,
    pub description: String,
}

/// The hits found on the web.
#[derive(Debug, PartialEq, Eq)]
pub struct WebSearchWeb {
    pub results: Vec<WebSearchResult>,
}

/// What the service answers.
#[derive(Debug, PartialEq, Eq)]
pub struct WebSearchResponse {
    pub web: WebSearchWeb,
}

/// The bytes that stand for themselves in a query: letters, digits and `-`, `.`, `_`, `~`.
pub open spec fn is_unreserved(b: u8) -> bool {
    ||| 0x30 <= b <= 0x39
    ||| 0x41 <= b <= 0x5a
    ||| 0x61 <= b <= 0x7a
    ||| b == 0x2d
    ||| b == 0x2e
    ||| b == 0x5f
    ||| b == 0x7e
}

/// The upper-case hexadecimal digit for a value below sixteen.
pub open spec fn hex_digit(d: int) -> char {
    if d < 10 {
        (0x30 + d) as char
    } else {
        (0x41 - 10 + d) as char
    }
}

/// How one byte is written in a query: as itself where it is unreserved,
/// otherwise as `%` and its two hexadecimal digits.
pub open spec fn encoded_byte(b: u8) -> Seq<char> {
    if is_unreserved(b) {
        seq![b as char]
    } else {
        seq!['%', hex_digit(b as int / 16), hex_digit(b as int % 16)]
    }
}

/// The percent-encoding of a sequence of bytes.
pub open spec fn percent_encoded(bytes: Seq<u8>) -> Seq<char>
    decreases bytes.len(),
{
    if bytes.len() == 0 {
        Seq::empty()
    } else {
        percent_encoded(bytes.drop_last()) + encoded_byte(bytes.last())
    }
}

/// Percent-encodes a text for use in a query.
///
/// This calls `urlencoding::encode`. The contract states what that function
/// does: it walks over the UTF-8 bytes of the text, keeps letters, digits and
/// `-`, `.`, `_`, `~`, and writes every other byte as `%` with two upper-case
/// hexadecimal digits.
#[verifier::external_body]
fn percent_encode(text: &str) -> (encoded: String)
    ensures
        encoded@ == percent_encoded(encode_utf8(text@)),
{
    urlencoding::encode(text).into_owned()
}

/// The bytes that a header value may hold: tab, and everything from space on
/// but for the delete character.
pub open spec fn is_header_byte(b: u8) -> bool {
    (b >= 32 && b != 127) || b == 9
}

/// A text that can be sent as the value of a header.
pub open spec fn is_header_text(bytes: Seq<u8>) -> bool {
    forall|i: int| 0 <= i < bytes.len() ==> is_header_byte(#[trigger] bytes[i])
}

/// Checks that a text can be sent as the value of a header, and returns the
/// complaint if it cannot.
///
/// This calls `reqwest::header::HeaderValue::from_str`. The contract states
/// what that function does: it accepts the text exactly when each of its
/// UTF-8 bytes is a tab or at least 32 and not 127, and the error it returns
/// otherwise reads "failed to parse header value".
#[verifier::external_body]
fn header_complaint(value: &str) -> (complaint: Option<String>)
    ensures
        complaint is None <==> is_header_text(encode_utf8(value@)),
        complaint is Some ==> complaint->Some_0@ == "failed to parse header value"@,
{
    match reqwest::header::HeaderValue::from_str(value) {
        Ok(_) => None,
        Err(e) => Some(e.to_string()),
    }
}

/// The character for a digit below ten.
pub open spec fn digit(d: int) -> char {
    (0x30 + d) as char
}

/// A number in decimal, without leading zeros.
pub open spec fn decimal(n: nat) -> Seq<char>
    decreases n,
{
    if n < 10 {
        seq![digit(n as int)]
    } else {
        decimal(n / 10).push(digit((n % 10) as int))
    }
}

fn digit_char(d: u32) -> (c: char)
    requires
        d < 10,
    ensures
        c == digit(d as int),
{
    if d == 0 {
        '0'
    } else if d == 1 {
        '1'
    } else if d == 2 {
        '2'
    } else if d == 3 {
        '3'
    } else if d == 4 {
        '4'
    } else if d == 5 {
        '5'
    } else if d == 6 {
        '6'
    } else if d == 7 {
        '7'
    } else if d == 8 {
        '8'
    } else {
        '9'
    }
}

/// Writes a number in decimal.
pub fn decimal_text(n: u32) -> (text: String)
    ensures
        text@ == decimal(n as nat),
    decreases n,
{
    if n < 10 {
        let mut text = String::new();
        push_char(&mut text, digit_char(n));
        proof {
            assert(Seq::<char>::empty().push(digit(n as int)) =~= seq![digit(n as int)]);
        }
        text
    } else {
        let mut text = decimal_text(n / 10);
        push_char(&mut text, digit_char(n % 10));
        text
    }
}

/// What is sent to the service.
#[derive(Debug, PartialEq, Eq)]
pub struct SearchRequest {
    pub url: String,
    /// The value of the `Content-Type` header.
    pub content_type: String,
    /// The value of the `Authorization` header.
    pub authorization: String,
}

/// The model of a `SearchRequest`.
pub struct SearchRequestView {
    pub url: Seq<char>,
    pub content_type: Seq<char>,
    pub authorization: Seq<char>,
}

impl View for SearchRequest {
    type V = SearchRequestView;

    open spec fn view(&self) -> SearchRequestView {
        SearchRequestView {
            url: self.url@,
            content_type: self.content_type@,
            authorization: self.authorization@,
        }
    }
}

/// The number of results asked for where the caller names none.
pub const DEFAULT_RESULT_LIMIT: u32 = 5;

/// The number of results to ask for.
pub open spec fn result_limit(limit: Option<u32>) -> u32 {
    match limit {
        Some(n) => n,
        None => DEFAULT_RESULT_LIMIT,
    }
}

/// The address of a search for `query` with at most `limit` results.
pub open spec fn search_url(query: Seq<char>, limit: u32) -> Seq<char> {
    "https://api.search.brave.com/res/v1/web/search?q="@ + percent_encoded(encode_utf8(query))
        + "&count="@ + decimal(limit as nat)
}

/// The value of the `Authorization` header for a key.
pub open spec fn bearer(api_key: Seq<char>) -> Seq<char> {
    "Bearer "@ + api_key
}

/// The model of what `search_request` returns.
pub open spec fn request_view(request: Result<SearchRequest, String>) -> Result<
    SearchRequestView,
    Seq<char>,
> {
    match request {
        Ok(r) => Ok(r@),
        Err(e) => Err(e@),
    }
}

/// What a search for `query` amounts to.
pub open spec fn requested(query: Seq<char>, limit: Option<u32>, api_key: Seq<char>) -> Result<
    SearchRequestView,
    Seq<char>,
> {
    if api_key.len() == 0 {
        Err("Brave Search API key is not set"@)
    } else if !is_header_text(encode_utf8(bearer(api_key))) {
        Err("Invalid API key: "@ + "failed to parse header value"@)
    } else {
        Ok(
            SearchRequestView {
                url: search_url(query, result_limit(limit)),
                content_type: "application/json"@,
                authorization: bearer(api_key),
            },
        )
    }
}

/// Puts the request for a search together.
///
/// Without a key there is nothing to send. A key that cannot stand in a
/// header is refused with the complaint of the header check. Otherwise the
/// request asks for `limit` results, five where none is named.
pub fn search_request(query: &str, limit: Option<u32>, api_key: &str) -> (request: Result<
    SearchRequest,
    String,
>)
    ensures
        request_view(request) == requested(query@, limit, api_key@),
{
    if api_key.is_empty() {
        return Err(String::from_str("Brave Search API key is not set"));
    }
    let count = match limit {
        Some(n) => n,
        None => DEFAULT_RESULT_LIMIT,
    };
    let mut url = join(
        "https://api.search.brave.com/res/v1/web/search?q=",
        percent_encode(query).as_str(),
    );
    url.append("&count=");
    url.append(decimal_text(count).as_str());
    let authorization = join("Bearer ", api_key);
    match header_complaint(authorization.as_str()) {
        Some(complaint) => Err(join("Invalid API key: ", complaint.as_str())),
        None => Ok(
            SearchRequest { url, content_type: String::from_str("application/json"), authorization },
        ),
    }
}

/// What sending a request came back with.
pub enum SearchReply {
    /// The request could not be sent; the text is the error.
    SendFailed(String),
    /// The service answered with a status that is no success; the text is the status.
    Rejected(String),
    /// The answer could not be read; the text is the error.
    Unreadable(String),
    /// The answer.
    Answered(WebSearchResponse),
}

/// Reports the reply to a search: the answer, or what went wrong, in words.
pub fn search_result(reply: SearchReply) -> (result: Result<WebSearchResponse, String>)
    ensures
        match reply {
            SearchReply::SendFailed(e) => result is Err && result->Err_0@
                == "Failed to send request: "@ + e@,
            SearchReply::Rejected(status) => result is Err && result->Err_0@
                == "API request failed with status: "@ + status@,
            SearchReply::Unreadable(e) => result is Err && result->Err_0@
                == "Failed to parse response: "@ + e@,
            SearchReply::Answered(response) => result == Ok::<WebSearchResponse, String>(response),
        },
{
    match reply {
        SearchReply::SendFailed(e) => Err(join("Failed to send request: ", e.as_str())),
        SearchReply::Rejected(status) => Err(
            join("API request failed with status: ", status.as_str()),
        ),
        SearchReply::Unreadable(e) => Err(join("Failed to parse response: ", e.as_str())),
        SearchReply::Answered(response) => Ok(response),
    }
}

} // verus!
