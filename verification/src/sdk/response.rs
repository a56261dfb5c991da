//! Named constructors for common responses.
use crate::sdk::http_response::{Response, ResponseView};
use vstd::prelude::*;

verus! {

/// An empty response with the given status.
pub open spec fn empty_with_status(status: u16) -> ResponseView {
    ResponseView {
        status,
        headers: Map::<Seq<char>, Seq<char>>::empty(),
        body: Seq::<char>::empty(),
    }
}

fn with_valid_status(status: u16) -> (r: Response)
    requires
        100 <= status <= 599,
    ensures
        r@ == empty_with_status(status),
{
    let r = Response::new().status(status);
    r.unwrap()
}

/// An empty `200 OK` response.
pub fn new() -> (r: Response)
    ensures
        r@ == empty_with_status(200),
{
    Response::new()
}

/// An empty `200 OK` response.
pub fn ok() -> (r: Response)
    ensures
        r@ == empty_with_status(200),
{
    Response::new()
}

/// An empty `201 Created` response.
pub fn created() -> (r: Response)
    ensures
        r@ == empty_with_status(201),
{
    with_valid_status(201)
}

/// An empty `400 Bad Request` response.
pub fn bad_request() -> (r: Response)
    ensures
        r@ == empty_with_status(400),
{
    with_valid_status(400)
}

/// An empty `418 I'm a teapot` response.
pub fn teapot() -> (r: Response)
    ensures
        r@ == empty_with_status(418),
{
    with_valid_status(418)
}

/// An empty `500 Internal Server Error` response.
pub fn server_error() -> (r: Response)
    ensures
        r@ == empty_with_status(500),
{
    with_valid_status(500)
}

} // verus!
