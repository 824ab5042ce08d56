//! What the browser side of the game decides before it sends a request.

use vstd::prelude::*;

verus! {

/// The different types of HTTP requests that the client sends.
#[derive(Clone, Copy, Debug, PartialEq, Eq, Structural)]
pub enum Method {
    Post,
    Get,
}

/// The different types that a response can be read as.
#[derive(Clone, Copy, Debug, PartialEq, Eq, Structural)]
pub enum ResponseType {
    Text,
    Json,
}

/// The name of a method as it goes over the wire.
pub open spec fn method_name(method: Method) -> Seq<char> {
    match method {
        Method::Post => "POST"@,
        Method::Get => "GET"@,
    }
}

impl Method {
    /// The name of the method as it goes over the wire.
    pub fn name(&self) -> (r: &'static str)
        ensures
            r@ == method_name(*self),
    {
        match self {
            Method::Post => "POST",
            Method::Get => "GET",
        }
    }
}

/// As what a response is read when the caller asks for `hint`: as text when
/// nothing is asked for or `text` is, and as JSON for anything else.
pub open spec fn chosen_response_type(hint: Option<Seq<char>>) -> ResponseType {
    match hint {
        Some(name) => if name == "text"@ {
            ResponseType::Text
        } else {
            ResponseType::Json
        },
        None => ResponseType::Text,
    }
}

/// As what a response is read when the caller asks for `hint`.
pub fn response_type_for(hint: Option<&str>) -> (r: ResponseType)
    ensures
        r == chosen_response_type(
            match hint {
                Some(name) => Some(name@),
                None => None,
            },
        ),
{
    match hint {
        Some(name) => {
            if name.to_owned() == "text".to_owned() {
                ResponseType::Text
            } else {
                ResponseType::Json
            }
        },
        None => ResponseType::Text,
    }
}

} // verus!
