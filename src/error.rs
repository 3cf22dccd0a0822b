use vstd::prelude::*;

verus! {

/// What went wrong while serving a request.
#[derive(Clone, Copy, Debug, PartialEq, Eq, Structural)]
pub enum ErrorKind {
    /// The remote token exchange could not be reached or gave an unreadable body.
    ExchangeFailed,
    /// The credential cache could not be reached.
    StoreUnavailable,
    /// The correlation token is unknown to the cache, or its entry expired.
    Unauthorized,
    /// The remote listing API could not be reached.
    UpstreamUnavailable,
    /// The first listing page carried no pagination header.
    MissingPaginationHeader,
    /// A listing page, or its pagination header, could not be read.
    MalformedResponse,
}

/// The status number that the error envelope carries for `e`.
pub open spec fn status_of(e: ErrorKind) -> i32 {
    match e {
        ErrorKind::Unauthorized => 4,
        _ => 0,
    }
}

/// The text that the error envelope carries for `e`.
pub open spec fn message_of(e: ErrorKind) -> Seq<char> {
    match e {
        ErrorKind::ExchangeFailed => "error when acquire token"@,
        ErrorKind::StoreUnavailable => "error connect to database"@,
        ErrorKind::Unauthorized => "unauthorized"@,
        ErrorKind::UpstreamUnavailable => "error when request"@,
        ErrorKind::MissingPaginationHeader => "missing pagination header"@,
        ErrorKind::MalformedResponse => "malformed response"@,
    }
}

impl ErrorKind {
    /// The status number of the error envelope: 4 for an unresolvable
    /// correlation token, 0 for every other failure.
    pub fn status(&self) -> (r: i32)
        ensures
            r == status_of(*self),
    {
        match self {
            ErrorKind::Unauthorized => 4,
            _ => 0,
        }
    }

    /// The text of the error envelope.
    pub fn message(&self) -> (r: String)
        ensures
            r@ == message_of(*self),
    {
        match self {
            ErrorKind::ExchangeFailed => String::from_str("error when acquire token"),
            ErrorKind::StoreUnavailable => String::from_str("error connect to database"),
            ErrorKind::Unauthorized => String::from_str("unauthorized"),
            ErrorKind::UpstreamUnavailable => String::from_str("error when request"),
            ErrorKind::MissingPaginationHeader => String::from_str("missing pagination header"),
            ErrorKind::MalformedResponse => String::from_str("malformed response"),
        }
    }
}

/// The error envelope handed to a client: a status number and a text.
#[derive(Clone, Debug)]
pub struct Message {
    pub status: i32,
    pub message: String,
}

impl Message {
    /// The envelope that reports `e`.
    pub fn from_error(e: ErrorKind) -> (r: Message)
        ensures
            r.status == status_of(e),
            r.message@ == message_of(e),
    {
        Message { status: e.status(), message: e.message() }
    }
}

} // verus!
