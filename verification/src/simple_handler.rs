//! The output handlers: a fixed JSON object, a custom response shape, a
//! plain-text echo and a chunked body.  Each one's body is pinned exactly.

use vstd::prelude::*;
use crate::json::{spec_custom_out, render_custom_out};
use crate::response::{Response, ok_json, ok_text};

verus! {

/// The plain-text echo endpoint: `text data: <content>`.
pub fn out_text(content: &str) -> (r: Response)
    ensures
        r@.status == 200,
        r@.content_type == "text/plain; charset=utf-8"@,
        r@.body == "text data: "@ + content@,
        !r@.chunked,
{
    let mut body = "text data: ".to_owned();
    body.append(content);
    ok_text(body)
}

/// The fixed JSON endpoint.
pub fn out_json() -> (r: Response)
    ensures
        r@.status == 200,
        r@.content_type == "application/json"@,
        r@.body == "{\"name\":\"roger\",\"age\":39,\"favourite_num\":[1,3,17]}"@,
        !r@.chunked,
{
    ok_json("{\"name\":\"roger\",\"age\":39,\"favourite_num\":[1,3,17]}".to_owned())
}

/// The custom response shape: a name, an age that is never rendered, and a
/// message.
pub struct CustomOut {
    pub name: String,
    pub age: u32,
    pub message: String,
}

impl CustomOut {
    /// Renders the shape: a JSON object holding the name and the message and
    /// nothing else.
    pub fn respond_to(self) -> (r: Response)
        ensures
            r@.status == 200,
            r@.content_type == "application/json"@,
            r@.body == spec_custom_out(self.name@, self.message@),
            !r@.chunked,
    {
        let body = render_custom_out(self.name.as_str(), self.message.as_str());
        ok_json(body)
    }
}

/// The custom-shape endpoint: an absent path segment echoes as the empty
/// message, a present one echoes as itself.
pub fn out_custom(content: Option<&str>) -> (r: Response)
    ensures
        r@.status == 200,
        r@.content_type == "application/json"@,
        r@.body == spec_custom_out("Roger"@, match content {
            Option::Some(c) => c@,
            Option::None => Seq::<char>::empty(),
        }),
        !r@.chunked,
{
    let message = match content {
        Option::Some(c) => c.to_owned(),
        Option::None => String::new(),
    };
    let out = CustomOut { name: "Roger".to_owned(), age: 38, message };
    out.respond_to()
}

/// The chunked endpoint: a fixed body sent as a stream.
pub fn out_stream() -> (r: Response)
    ensures
        r@.status == 200,
        r@.content_type == "application/json"@,
        r@.body == "stream content"@,
        r@.chunked,
{
    Response {
        status: 200,
        content_type: "application/json".to_owned(),
        body: "stream content".to_owned(),
        chunked: true,
    }
}

} // verus!
