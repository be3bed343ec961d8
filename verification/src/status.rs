use vstd::prelude::*;

verus! {

/// The status line of a response.
#[derive(Clone, Copy, Debug, PartialEq, Eq, Structural)]
pub enum Status {
    /// 200, which the wire calls OK.
    Okay,
    Created,
    Accepted,
    NoContent,
    MovedPermanently,
    Found,
    NotModified,
    BadRequest,
    Unauthorized,
    Forbidden,
    NotFound,
    MethodNotAllowed,
    InternalServerError,
    NotImplemented,
    BadGateway,
    ServiceUnavailable,
}

impl Status {
    /// The numeric code that stands for this status on the wire.
    pub open spec fn code_spec(self) -> u16 {
        match self {
            Status::Okay => 200,
            Status::Created => 201,
            Status::Accepted => 202,
            Status::NoContent => 204,
            Status::MovedPermanently => 301,
            Status::Found => 302,
            Status::NotModified => 304,
            Status::BadRequest => 400,
            Status::Unauthorized => 401,
            Status::Forbidden => 403,
            Status::NotFound => 404,
            Status::MethodNotAllowed => 405,
            Status::InternalServerError => 500,
            Status::NotImplemented => 501,
            Status::BadGateway => 502,
            Status::ServiceUnavailable => 503,
        }
    }

    pub fn code(self) -> (c: u16)
        ensures
            c == self.code_spec(),
    {
        match self {
            Status::Okay => 200,
            Status::Created => 201,
            Status::Accepted => 202,
            Status::NoContent => 204,
            Status::MovedPermanently => 301,
            Status::Found => 302,
            Status::NotModified => 304,
            Status::BadRequest => 400,
            Status::Unauthorized => 401,
            Status::Forbidden => 403,
            Status::NotFound => 404,
            Status::MethodNotAllowed => 405,
            Status::InternalServerError => 500,
            Status::NotImplemented => 501,
            Status::BadGateway => 502,
            Status::ServiceUnavailable => 503,
        }
    }

    /// The status that a numeric code stands for, where this library knows
    /// the code.
    pub fn from_code(code: u16) -> (s: Option<Status>)
        ensures
            match s {
                Some(status) => status.code_spec() == code,
                None => forall|status: Status| status.code_spec() != code,
            },
    {
        if code == 200 {
            Some(Status::Okay)
        } else if code == 201 {
            Some(Status::Created)
        } else if code == 202 {
            Some(Status::Accepted)
        } else if code == 204 {
            Some(Status::NoContent)
        } else if code == 301 {
            Some(Status::MovedPermanently)
        } else if code == 302 {
            Some(Status::Found)
        } else if code == 304 {
            Some(Status::NotModified)
        } else if code == 400 {
            Some(Status::BadRequest)
        } else if code == 401 {
            Some(Status::Unauthorized)
        } else if code == 403 {
            Some(Status::Forbidden)
        } else if code == 404 {
            Some(Status::NotFound)
        } else if code == 405 {
            Some(Status::MethodNotAllowed)
        } else if code == 500 {
            Some(Status::InternalServerError)
        } else if code == 501 {
            Some(Status::NotImplemented)
        } else if code == 502 {
            Some(Status::BadGateway)
        } else if code == 503 {
            Some(Status::ServiceUnavailable)
        } else {
            None
        }
    }
}

} // verus!
