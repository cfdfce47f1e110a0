//! The error taxonomy and the error mapper.  Every handler failure carries
//! one of a small closed set of kinds; the mapper turns each kind into a
//! status code and the uniform JSON envelope, with no fallthrough.

use vstd::prelude::*;
use crate::json::{spec_envelope, render_envelope};
use crate::response::{Response, RespV};
use crate::middleware::{UserAuth, AuthV};

verus! {

/// The error that renders through the default mapping: status 500 and the
/// fixed text `default error`.
pub struct DefaultError {
    pub message: &'static str,
}

impl DefaultError {
    /// The status code of the default error kind.
    pub fn status_code(&self) -> (s: u16)
        ensures
            s == 500,
    {
        500
    }

    /// The uniform envelope for the default error kind.
    pub fn error_response(&self) -> (r: Response)
        ensures
            r@ == spec_error_response(500, "default error"@),
    {
        envelope_response(500, "default error")
    }
}

/// An always-failing handler: the route `/err/default`.
pub fn error_default() -> (r: Result<String, DefaultError>)
    ensures
        r matches Err(e) && e.message@ == "do you see this error"@,
{
    Err(DefaultError { message: "do you see this error" })
}

/// The two explicitly mapped error variants.
pub enum SysErr {
    IntenalError,
    BadRequestError(&'static str),
}

/// An error that can say its own short text.
pub trait Messagible {
    /// The text the implementor reports.
    spec fn spec_message(&self) -> Seq<char>;

    /// Returns the implementor's text.
    fn message(&self) -> (m: &'static str)
        ensures
            m@ == self.spec_message(),
    ;
}

impl Messagible for SysErr {
    open spec fn spec_message(&self) -> Seq<char> {
        match *self {
            SysErr::IntenalError => "internal error"@,
            SysErr::BadRequestError(m) => m@,
        }
    }

    fn message(&self) -> (m: &'static str) {
        match *self {
            SysErr::IntenalError => "internal error",
            SysErr::BadRequestError(m) => m,
        }
    }
}

impl SysErr {
    /// The display text of the variant, as distinct from `spec_message`:
    /// a bad request displays as the fixed text `bad request`.
    pub open spec fn spec_display(&self) -> Seq<char> {
        match *self {
            SysErr::IntenalError => "internal error"@,
            SysErr::BadRequestError(_) => "bad request"@,
        }
    }

    /// The status code of the variant.
    pub open spec fn spec_status(&self) -> u16 {
        match *self {
            SysErr::IntenalError => 500,
            SysErr::BadRequestError(_) => 400,
        }
    }

    /// Maps the variant to its status code: internal errors are 500,
    /// bad requests are 400.
    pub fn status_code(&self) -> (s: u16)
        ensures
            s == self.spec_status(),
    {
        match *self {
            SysErr::IntenalError => 500,
            SysErr::BadRequestError(..) => 400,
        }
    }

    /// The uniform envelope for the variant, under its own status code.
    pub fn error_response(&self) -> (r: Response)
        ensures
            r@ == spec_error_response(self.spec_status(), self.spec_display()),
    {
        match *self {
            SysErr::IntenalError => envelope_response(500, "internal error"),
            SysErr::BadRequestError(..) => envelope_response(400, "bad request"),
        }
    }
}

/// An always-failing handler: the route `/err/custom/internal`.
pub fn error_custom_internal() -> (r: Result<String, SysErr>)
    ensures
        r matches Err(e) && e matches SysErr::IntenalError,
{
    Err(SysErr::IntenalError)
}

/// The closed set of kinds a handler failure can carry once it has been
/// mapped at the boundary.
pub enum ErrorKind {
    Internal,
    BadRequest(&'static str),
    Default,
}

impl ErrorKind {
    /// The status code of the kind; the mapping is total.
    pub open spec fn spec_status(&self) -> u16 {
        match *self {
            ErrorKind::Internal => 500,
            ErrorKind::BadRequest(_) => 400,
            ErrorKind::Default => 500,
        }
    }

    /// The rendered text of the kind.
    pub open spec fn spec_text(&self) -> Seq<char> {
        match *self {
            ErrorKind::Internal => "internal error"@,
            ErrorKind::BadRequest(m) => m@,
            ErrorKind::Default => "default error"@,
        }
    }

    /// The error mapper: every kind becomes its status code and the uniform
    /// envelope `{"success":false,"message":<text>}`.
    pub fn to_response(&self) -> (r: Response)
        ensures
            r@ == spec_error_response(self.spec_status(), self.spec_text()),
    {
        match *self {
            ErrorKind::Internal => envelope_response(500, "internal error"),
            ErrorKind::BadRequest(m) => envelope_response(400, m),
            ErrorKind::Default => envelope_response(500, "default error"),
        }
    }
}

/// An always-failing handler that maps its error itself: the route
/// `/err/custom/mapped` turns `BadRequestError("date")` into a bad-request
/// kind carrying the variant's message.
pub fn error_custom_mapped() -> (r: Result<String, ErrorKind>)
    ensures
        r matches Err(e) && e matches ErrorKind::BadRequest(m) && m@ == "date"@,
{
    let result: Result<String, SysErr> = Err(SysErr::BadRequestError("date"));
    match result {
        Ok(s) => Ok(s),
        Err(e) => Err(ErrorKind::BadRequest(e.message())),
    }
}

/// The text of the user-info endpoint for a resolved auth value.
pub open spec fn spec_userinfo(a: AuthV) -> Seq<char> {
    match a {
        AuthV::Present { name, .. } => "user: "@ + name,
        AuthV::Absent => "no user info"@,
    }
}

/// The user-info endpoint: reports the stashed auth name, or that there is
/// no user.
pub fn get_userinfo(auth: &UserAuth) -> (r: String)
    ensures
        r@ == spec_userinfo(auth@),
{
    match auth {
        UserAuth::Present { name, .. } => {
            let mut t = "user: ".to_owned();
            t.append(name.as_str());
            t
        },
        UserAuth::Absent => "no user info".to_owned(),
    }
}

/// The value of every mapped error response: the given status, a JSON
/// content type, the envelope body, no chunking.
pub open spec fn spec_error_response(status: u16, text: Seq<char>) -> RespV {
    RespV {
        status: status,
        content_type: "application/json; charset=utf-8"@,
        body: spec_envelope(text),
        chunked: false,
    }
}

/// Builds the envelope response for a status and a text.
fn envelope_response(status: u16, text: &str) -> (r: Response)
    ensures
        r@ == spec_error_response(status, text@),
{
    Response {
        status,
        content_type: "application/json; charset=utf-8".to_owned(),
        body: render_envelope(text),
        chunked: false,
    }
}

} // verus!
