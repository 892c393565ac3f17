//! Small pieces of the HTTP server's request handling: which URI scheme a
//! request came in with, the error that handlers report, and the display name of
//! an authenticated user.

use vstd::prelude::*;
use crate::text::{trim, trimmed};

verus! {

/// The URI scheme that a request used.
#[derive(Clone, Debug, PartialEq, Eq)]
pub struct Scheme(pub String);

/// The scheme of a request: a configured `FORWARDED_PROTO` wins, then the
/// `X-Forwarded-Proto` header, then plain `http`.
pub open spec fn spec_detect_scheme(configured: Option<String>, forwarded_proto: Option<String>) -> Seq<
    char,
> {
    match configured {
        Some(c) => c@,
        None => match forwarded_proto {
            Some(h) => h@,
            None => "http"@,
        },
    }
}

impl Scheme {
    /// Resolves the scheme from the configuration and the forwarding header.
    pub fn detect(configured: Option<String>, forwarded_proto: Option<String>) -> (r: Scheme)
        ensures
            r.0@ == spec_detect_scheme(configured, forwarded_proto),
    {
        match configured {
            Some(c) => Scheme(c),
            None => match forwarded_proto {
                Some(h) => Scheme(h),
                None => Scheme(String::from_str("http")),
            },
        }
    }
}

/// An error that a handler reports as an internal server error.
#[derive(Clone, Debug, PartialEq, Eq)]
pub struct HandlerError {
    pub message: String,
}

impl HandlerError {
    pub fn new(message: String) -> (r: HandlerError)
        ensures
            r.message == message,
    {
        HandlerError { message }
    }

    /// The HTTP status of the response.
    pub fn status(&self) -> (r: u16)
        ensures
            r == 500,
    {
        500
    }

    /// The body of the response.
    pub fn to_string(&self) -> (r: String)
        ensures
            r@ == self.message@,
    {
        self.message.clone()
    }
}

/// The name parts joined as the display name is built: each present part after a space.
pub open spec fn spec_joined_name(given_name: Option<String>, family_name: Option<String>) -> Seq<
    char,
> {
    let g = match given_name {
        Some(n) => " "@ + n@,
        None => Seq::<char>::empty(),
    };
    let f = match family_name {
        Some(n) => " "@ + n@,
        None => Seq::<char>::empty(),
    };
    g + f
}

/// The name that a user is shown under: given and family name, where present,
/// separated by a space, without surrounding white space.
pub fn to_logged_as_name(given_name: &Option<String>, family_name: &Option<String>) -> (r: String)
    ensures
        r@ == trimmed(spec_joined_name(*given_name, *family_name)),
{
    let mut joined = String::new();
    match given_name {
        Some(n) => {
            joined.append(" ");
            joined.append(n.as_str());
        },
        None => {},
    }
    match family_name {
        Some(n) => {
            joined.append(" ");
            joined.append(n.as_str());
        },
        None => {},
    }
    assert(joined@ =~= spec_joined_name(*given_name, *family_name));
    trim(joined.as_str())
}

} // verus!
