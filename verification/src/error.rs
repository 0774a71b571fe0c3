//! The error a generative request ends with: a machine-readable code, a
//! human-readable message and, optionally, the request parameter at fault.

use vstd::prelude::*;

verus! {

#[derive(Debug, Clone)]
pub struct GenError {
    pub code: String,
    pub message: String,
    pub param: Option<String>,
}

/// An error with this code and message and no parameter.
pub open spec fn plain_error(e: GenError, code: Seq<char>, message: Seq<char>) -> bool {
    e.code@ == code && e.message@ == message && e.param is None
}

/// An error with this code and message that names parameter `param`.
pub open spec fn param_error(e: GenError, code: Seq<char>, message: Seq<char>, param: Seq<char>) -> bool {
    &&& e.code@ == code
    &&& e.message@ == message
    &&& e.param matches Some(p) && p@ == param
}

impl GenError {
    pub fn new(code: &str, message: &str) -> (e: Self)
        ensures
            plain_error(e, code@, message@),
    {
        GenError { code: code.to_owned(), message: message.to_owned(), param: None }
    }

    /// The same error, naming the request parameter at fault.
    pub fn with_param(self, param: &str) -> (e: Self)
        ensures
            e.code == self.code,
            e.message == self.message,
            (e.param matches Some(p) && p@ == param@),
    {
        GenError { code: self.code, message: self.message, param: Some(param.to_owned()) }
    }
}

} // verus!
