//! The fixed enumeration of HTTP methods a route may declare.

use vstd::prelude::*;

verus! {

/// One of the nine HTTP request methods.
#[derive(Debug, Copy, Clone, PartialEq, Eq, Structural)]
pub enum Method {
    Options,
    Get,
    Post,
    Put,
    Delete,
    Head,
    Trace,
    Connect,
    Patch,
}

/// The upper-case token of a method, as it appears on the wire.
pub open spec fn method_str(m: Method) -> Seq<char> {
    match m {
        Method::Options => "OPTIONS"@,
        Method::Get => "GET"@,
        Method::Post => "POST"@,
        Method::Put => "PUT"@,
        Method::Delete => "DELETE"@,
        Method::Head => "HEAD"@,
        Method::Trace => "TRACE"@,
        Method::Connect => "CONNECT"@,
        Method::Patch => "PATCH"@,
    }
}

impl Method {
    /// The upper-case wire token of this method.
    pub fn as_str(&self) -> (r: &'static str)
        ensures
            r@ == method_str(*self),
    {
        match self {
            Method::Options => "OPTIONS",
            Method::Get => "GET",
            Method::Post => "POST",
            Method::Put => "PUT",
            Method::Delete => "DELETE",
            Method::Head => "HEAD",
            Method::Trace => "TRACE",
            Method::Connect => "CONNECT",
            Method::Patch => "PATCH",
        }
    }
}

/// The error returned when a string names no known HTTP method.
#[derive(Debug, Copy, Clone, PartialEq, Eq, Structural)]
pub struct MethodUnknown;

impl MethodUnknown {
    /// A human-readable description of this error.
    pub fn message(&self) -> (r: &'static str)
        ensures
            r@ == "Method unknown"@,
    {
        "Method unknown"
    }
}

/// The method whose wire token is `s`, if any.
pub open spec fn method_of_str(s: Seq<char>) -> Option<Method> {
    if s == "OPTIONS"@ {
        Some(Method::Options)
    } else if s == "GET"@ {
        Some(Method::Get)
    } else if s == "POST"@ {
        Some(Method::Post)
    } else if s == "PUT"@ {
        Some(Method::Put)
    } else if s == "DELETE"@ {
        Some(Method::Delete)
    } else if s == "HEAD"@ {
        Some(Method::Head)
    } else if s == "TRACE"@ {
        Some(Method::Trace)
    } else if s == "CONNECT"@ {
        Some(Method::Connect)
    } else if s == "PATCH"@ {
        Some(Method::Patch)
    } else {
        None
    }
}

impl core::str::FromStr for Method {
    type Err = MethodUnknown;

    fn from_str(s: &str) -> Result<Method, MethodUnknown> {
        match Method::parse(s) {
            Some(m) => Ok(m),
            None => Err(MethodUnknown),
        }
    }
}

impl Method {
    /// Parse an upper-case wire token back into a method.
    pub fn parse(s: &str) -> (r: Option<Method>)
        ensures
            r == method_of_str(s@),
    {
        let v = crate::strutil::str_to_chars(s);
        if crate::strutil::chars_eq_str(&v, "OPTIONS") {
            Some(Method::Options)
        } else if crate::strutil::chars_eq_str(&v, "GET") {
            Some(Method::Get)
        } else if crate::strutil::chars_eq_str(&v, "POST") {
            Some(Method::Post)
        } else if crate::strutil::chars_eq_str(&v, "PUT") {
            Some(Method::Put)
        } else if crate::strutil::chars_eq_str(&v, "DELETE") {
            Some(Method::Delete)
        } else if crate::strutil::chars_eq_str(&v, "HEAD") {
            Some(Method::Head)
        } else if crate::strutil::chars_eq_str(&v, "TRACE") {
            Some(Method::Trace)
        } else if crate::strutil::chars_eq_str(&v, "CONNECT") {
            Some(Method::Connect)
        } else if crate::strutil::chars_eq_str(&v, "PATCH") {
            Some(Method::Patch)
        } else {
            None
        }
    }
}

} // verus!
