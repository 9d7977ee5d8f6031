//! Status codes a handler can produce, with their wire text.

use vstd::prelude::*;

verus! {

/// The closed set of status codes this server sends.
#[derive(Clone, Copy, Debug, PartialEq, Eq, Structural)]
pub enum HttpStatusCode {
    Okay,
    Created,
    BadRequest,
    NotFound,
    InternalServerError,
}

impl HttpStatusCode {
    /// The numeric code, as written on the status line.
    pub open spec fn spec_code(self) -> int {
        match self {
            HttpStatusCode::Okay => 200,
            HttpStatusCode::Created => 201,
            HttpStatusCode::BadRequest => 400,
            HttpStatusCode::NotFound => 404,
            HttpStatusCode::InternalServerError => 500,
        }
    }

    /// The decimal digits of the numeric code.
    pub open spec fn spec_code_text(self) -> Seq<char> {
        match self {
            HttpStatusCode::Okay => "200"@,
            HttpStatusCode::Created => "201"@,
            HttpStatusCode::BadRequest => "400"@,
            HttpStatusCode::NotFound => "404"@,
            HttpStatusCode::InternalServerError => "500"@,
        }
    }

    /// The reason phrase that follows the code on the status line.
    pub open spec fn spec_reason(self) -> Seq<char> {
        match self {
            HttpStatusCode::Okay => "OK"@,
            HttpStatusCode::Created => "Created"@,
            HttpStatusCode::BadRequest => "Bad Request"@,
            HttpStatusCode::NotFound => "Not Found"@,
            HttpStatusCode::InternalServerError => "Internal Server Error"@,
        }
    }

    pub fn code(&self) -> (n: u16)
        ensures
            n as int == self.spec_code(),
    {
        match self {
            HttpStatusCode::Okay => 200,
            HttpStatusCode::Created => 201,
            HttpStatusCode::BadRequest => 400,
            HttpStatusCode::NotFound => 404,
            HttpStatusCode::InternalServerError => 500,
        }
    }

    pub fn code_text(&self) -> (r: &'static str)
        ensures
            r@ == self.spec_code_text(),
    {
        match self {
            HttpStatusCode::Okay => "200",
            HttpStatusCode::Created => "201",
            HttpStatusCode::BadRequest => "400",
            HttpStatusCode::NotFound => "404",
            HttpStatusCode::InternalServerError => "500",
        }
    }

    pub fn reason(&self) -> (r: &'static str)
        ensures
            r@ == self.spec_reason(),
    {
        match self {
            HttpStatusCode::Okay => "OK",
            HttpStatusCode::Created => "Created",
            HttpStatusCode::BadRequest => "Bad Request",
            HttpStatusCode::NotFound => "Not Found",
            HttpStatusCode::InternalServerError => "Internal Server Error",
        }
    }
}

} // verus!
