//! The HTTP response that route and cron handlers return.
use crate::sdk::error::Error;
use crate::sorted_map::SortedMap;
use crate::text::{concat, decimal, decimal_string};
use vstd::prelude::*;

verus! {

/// What a response is: a status code, headers by name, and a body.
pub struct ResponseView {
    pub status: u16,
    pub headers: Map<Seq<char>, Seq<char>>,
    pub body: Seq<char>,
}

/// HTTP response returned by route and cron handlers.
pub struct Response {
    status: u16,
    headers: SortedMap<String>,
    body: String,
}

impl View for Response {
    type V = ResponseView;

    closed spec fn view(&self) -> ResponseView {
        ResponseView { status: self.status, headers: self.headers@, body: self.body@ }
    }
}

/// The header under which a body's media type is given.
pub open spec fn content_type_key() -> Seq<char> {
    seq!['c', 'o', 'n', 't', 'e', 'n', 't', '-', 't', 'y', 'p', 'e']
}

/// The body that a response gets from `with_body`: the new body, and a
/// `content-type` header unless one was set before.
pub open spec fn with_body_view(r: ResponseView, content_type: Seq<char>, body: Seq<char>) -> ResponseView {
    ResponseView {
        status: r.status,
        headers: if r.headers.contains_key(content_type_key()) {
            r.headers
        } else {
            r.headers.insert(content_type_key(), content_type)
        },
        body,
    }
}

/// A status code is valid when it lies in `100..=599`.
pub open spec fn valid_status(status: u16) -> bool {
    100 <= status <= 599
}

impl Response {
    /// An empty `200 OK` response.
    pub fn new() -> (r: Self)
        ensures
            r@.status == 200,
            r@.headers == Map::<Seq<char>, Seq<char>>::empty(),
            r@.body == Seq::<char>::empty(),
    {
        Response { status: 200, headers: SortedMap::new(), body: String::new() }
    }

    /// The status code.
    pub fn status_code(&self) -> (s: u16)
        ensures
            s == self@.status,
    {
        self.status
    }

    /// The headers as entries, in increasing name order.
    pub closed spec fn header_entries_spec(&self) -> Seq<(String, String)> {
        self.headers.entry_seq()
    }

    /// The headers, in increasing name order.
    pub fn header_entries(&self) -> (h: &Vec<(String, String)>)
        ensures
            h@ == self.header_entries_spec(),
            crate::sorted_map::sorted_keys(h@),
            crate::sorted_map::entries_map(h@) == self@.headers,
    {
        self.headers.entries()
    }

    /// The body.
    pub fn body(&self) -> (b: &str)
        ensures
            b@ == self@.body,
    {
        self.body.as_str()
    }

    /// Sets a custom HTTP status code. Codes outside `100..=599` are refused
    /// with an error that names the code.
    pub fn status(self, status: u16) -> (r: Result<Self, Error>)
        ensures
            r is Ok <==> valid_status(status),
            r matches Ok(s) ==> s@ == (ResponseView { status, ..self@ }),
            r matches Err(e) ==> e@ == "invalid HTTP status "@ + decimal(status as nat),
    {
        if !(100 <= status && status <= 599) {
            let message = concat("invalid HTTP status ", decimal_string(status as u64).as_str());
            return Err(Error::from_message(message));
        }
        Ok(Response { status, headers: self.headers, body: self.body })
    }

    /// Adds or replaces a header.
    pub fn header(self, name: String, value: String) -> (r: Self)
        ensures
            r@ == (ResponseView { headers: self@.headers.insert(name@, value@), ..self@ }),
    {
        let Response { status, mut headers, body } = self;
        headers.insert(name, value);
        Response { status, headers, body }
    }

    /// Sets a `text/plain; charset=utf-8` body.
    pub fn text(self, body: String) -> (r: Self)
        ensures
            r@ == with_body_view(self@, "text/plain; charset=utf-8"@, body@),
    {
        self.with_body("text/plain; charset=utf-8", body)
    }

    /// Sets a `text/html; charset=utf-8` body.
    pub fn html(self, body: String) -> (r: Self)
        ensures
            r@ == with_body_view(self@, "text/html; charset=utf-8"@, body@),
    {
        self.with_body("text/html; charset=utf-8", body)
    }

    /// Sets a `text/csv; charset=utf-8` body.
    pub fn csv(self, body: String) -> (r: Self)
        ensures
            r@ == with_body_view(self@, "text/csv; charset=utf-8"@, body@),
    {
        self.with_body("text/csv; charset=utf-8", body)
    }

    /// Sets a JSON body from the outcome of serializing it: the JSON text
    /// gives an `application/json; charset=utf-8` body, and a failure gives a
    /// `500` response whose text is the failure's message.
    pub fn json(self, serialized: Result<String, String>) -> (r: Self)
        ensures
            serialized matches Ok(text) ==> r@ == with_body_view(
                self@,
                "application/json; charset=utf-8"@,
                text@,
            ),
            serialized matches Err(message) ==> r@ == with_body_view(
                ResponseView {
                    status: 500,
                    headers: Map::<Seq<char>, Seq<char>>::empty(),
                    body: Seq::<char>::empty(),
                },
                "text/plain; charset=utf-8"@,
                message@,
            ),
    {
        match serialized {
            Ok(text) => self.with_body("application/json; charset=utf-8", text),
            Err(message) => crate::sdk::response::server_error().text(message),
        }
    }

    /// Sets an `application/octet-stream` body. Bodies are strings, so bytes
    /// that are not UTF-8 are converted lossily.
    pub fn bytes(self, body: Vec<u8>) -> (r: Self)
        ensures
            r@ == with_body_view(self@, "application/octet-stream"@, spec_utf8_lossy(body@)),
    {
        let text = utf8_lossy(&body);
        self.with_body("application/octet-stream", text)
    }

    /// Sets the body, and the `content-type` header unless one is set.
    pub fn with_body(self, content_type: &str, body: String) -> (r: Self)
        ensures
            r@ == with_body_view(self@, content_type@, body@),
    {
        let Response { status, mut headers, body: _ } = self;
        if !headers.contains_key("content-type") {
            proof {
                reveal_strlit("content-type");
                assert("content-type"@ =~= content_type_key());
            }
            headers.insert("content-type".to_string(), content_type.to_string());
        } else {
            proof {
                reveal_strlit("content-type");
                assert("content-type"@ =~= content_type_key());
            }
        }
        Response { status, headers, body }
    }
}

impl Default for Response {
    fn default() -> (r: Self)
        ensures
            r@.status == 200,
            r@.headers == Map::<Seq<char>, Seq<char>>::empty(),
            r@.body == Seq::<char>::empty(),
    {
        Response::new()
    }
}

/// What `String::from_utf8_lossy` makes of some bytes.
pub uninterp spec fn spec_utf8_lossy(bytes: Seq<u8>) -> Seq<char>;

/// `String::from_utf8_lossy`: the text of the bytes, with each invalid
/// sequence replaced by U+FFFD. Valid UTF-8 comes out as what it decodes to,
/// as the documentation says; the rest is named, not written out.
#[verifier::external_body]
pub(crate) fn utf8_lossy(bytes: &Vec<u8>) -> (r: String)
    ensures
        r@ == spec_utf8_lossy(bytes@),
        vstd::utf8::valid_utf8(bytes@) ==> r@ == vstd::utf8::decode_utf8(bytes@),
{
    String::from_utf8_lossy(bytes).into_owned()
}

} // verus!
