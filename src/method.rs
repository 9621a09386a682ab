use vstd::prelude::*;

use crate::error::HttpError;

verus! {

/// The request methods a task can be set to, in the order the host lists them.
#[derive(Clone, Copy, Debug, PartialEq, Eq, Structural)]
pub enum Method {
    Get,
    Head,
    Post,
    Put,
    Delete,
    Connect,
    Options,
    Trace,
    Patch,
}

/// The method at a position of the host's list.
pub open spec fn method_at(index: nat) -> Option<Method> {
    if index == 0 {
        Some(Method::Get)
    } else if index == 1 {
        Some(Method::Head)
    } else if index == 2 {
        Some(Method::Post)
    } else if index == 3 {
        Some(Method::Put)
    } else if index == 4 {
        Some(Method::Delete)
    } else if index == 5 {
        Some(Method::Connect)
    } else if index == 6 {
        Some(Method::Options)
    } else if index == 7 {
        Some(Method::Trace)
    } else if index == 8 {
        Some(Method::Patch)
    } else {
        None
    }
}

/// The token that names a method on the request line.
pub open spec fn method_token(m: Method) -> Seq<u8> {
    match m {
        Method::Get => seq![71u8, 69, 84],
        Method::Head => seq![72u8, 69, 65, 68],
        Method::Post => seq![80u8, 79, 83, 84],
        Method::Put => seq![80u8, 85, 84],
        Method::Delete => seq![68u8, 69, 76, 69, 84, 69],
        Method::Connect => seq![67u8, 79, 78, 78, 69, 67, 84],
        Method::Options => seq![79u8, 80, 84, 73, 79, 78, 83],
        Method::Trace => seq![84u8, 82, 65, 67, 69],
        Method::Patch => seq![80u8, 65, 84, 67, 72],
    }
}

impl Method {
    /// The method's token as it is written on the request line.
    pub fn token(&self) -> (r: Vec<u8>)
        ensures
            r@ == method_token(*self),
    {
        match self {
            Method::Get => vec![71u8, 69, 84],
            Method::Head => vec![72u8, 69, 65, 68],
            Method::Post => vec![80u8, 79, 83, 84],
            Method::Put => vec![80u8, 85, 84],
            Method::Delete => vec![68u8, 69, 76, 69, 84, 69],
            Method::Connect => vec![67u8, 79, 78, 78, 69, 67, 84],
            Method::Options => vec![79u8, 80, 84, 73, 79, 78, 83],
            Method::Trace => vec![84u8, 82, 65, 67, 69],
            Method::Patch => vec![80u8, 65, 84, 67, 72],
        }
    }

    /// Whether the method is one whose response carries a body to download.
    pub fn expects_body(&self) -> (r: bool)
        ensures
            r == (*self != Method::Head),
    {
        !matches!(self, Method::Head)
    }
}

/// The method selected in the host's list: `None` when nothing is selected,
/// an error too when the selection lies past the end of the list.
pub fn get_method(selected: Option<usize>) -> (r: Result<Method, HttpError>)
    ensures
        selected is None ==> r == Err::<Method, HttpError>(HttpError::MissingRequiredSetting),
        selected is Some ==> match method_at(selected->0 as nat) {
            Some(m) => r == Ok::<Method, HttpError>(m),
            None => r == Err::<Method, HttpError>(HttpError::MissingRequiredSetting),
        },
{
    match selected {
        None => Err(HttpError::MissingRequiredSetting),
        Some(i) => {
            if i == 0 {
                Ok(Method::Get)
            } else if i == 1 {
                Ok(Method::Head)
            } else if i == 2 {
                Ok(Method::Post)
            } else if i == 3 {
                Ok(Method::Put)
            } else if i == 4 {
                Ok(Method::Delete)
            } else if i == 5 {
                Ok(Method::Connect)
            } else if i == 6 {
                Ok(Method::Options)
            } else if i == 7 {
                Ok(Method::Trace)
            } else if i == 8 {
                Ok(Method::Patch)
            } else {
                Err(HttpError::MissingRequiredSetting)
            }
        },
    }
}

} // verus!
