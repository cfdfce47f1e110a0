//! The closed response interface of the pipeline: a status code, a content
//! type, a body and a chunked-transfer flag.  Handlers and the error mapper
//! build values of this type; nothing downstream changes them.

use vstd::prelude::*;

verus! {

/// What a handler hands back to the host server.
pub struct Response {
    pub status: u16,
    pub content_type: String,
    pub body: String,
    pub chunked: bool,
}

/// The mathematical value of a `Response`.
pub struct RespV {
    pub status: u16,
    pub content_type: Seq<char>,
    pub body: Seq<char>,
    pub chunked: bool,
}

impl View for Response {
    type V = RespV;

    open spec fn view(&self) -> RespV {
        RespV {
            status: self.status,
            content_type: self.content_type@,
            body: self.body@,
            chunked: self.chunked,
        }
    }
}

/// A 200 response with a JSON body.
pub fn ok_json(body: String) -> (r: Response)
    ensures
        r@.status == 200,
        r@.content_type == "application/json"@,
        r@.body == body@,
        !r@.chunked,
{
    Response {
        status: 200,
        content_type: "application/json".to_owned(),
        body,
        chunked: false,
    }
}

/// A 200 response with a plain-text body.
pub fn ok_text(body: String) -> (r: Response)
    ensures
        r@.status == 200,
        r@.content_type == "text/plain; charset=utf-8"@,
        r@.body == body@,
        !r@.chunked,
{
    Response {
        status: 200,
        content_type: "text/plain; charset=utf-8".to_owned(),
        body,
        chunked: false,
    }
}

/// The response for a request that matched no route.
pub fn not_found() -> (r: Response)
    ensures
        r@.status == 404,
        r@.content_type == "text/plain; charset=utf-8"@,
        r@.body == Seq::<char>::empty(),
        !r@.chunked,
{
    Response {
        status: 404,
        content_type: "text/plain; charset=utf-8".to_owned(),
        body: String::new(),
        chunked: false,
    }
}

/// The response the host gives when typed extraction fails.
pub fn malformed_input() -> (r: Response)
    ensures
        r@.status == 400,
        r@.content_type == "text/plain; charset=utf-8"@,
        r@.body == "malformed input"@,
        !r@.chunked,
{
    Response {
        status: 400,
        content_type: "text/plain; charset=utf-8".to_owned(),
        body: "malformed input".to_owned(),
        chunked: false,
    }
}

} // verus!
