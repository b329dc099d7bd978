//! The error that a request handler answers with.

use vstd::prelude::*;

verus! {

/// An application error: the handler failed to produce a response.
/// It is answered with a 500 Internal Server Error whose body carries
/// the message.
#[derive(Debug, Clone, PartialEq, Eq)]
pub struct AppError {
    error: String,
}

/// The prefix of the body of a failed response.
pub open spec fn response_prefix() -> Seq<char> {
    seq![
        'F', 'a', 'i', 'l', 'e', 'd', ' ', 'p', 'r', 'o', 'c', 'e', 's', 's', 'i', 'n', 'g', ' ',
        'r', 'e', 'q', 'u', 'e', 's', 't', ' ', 'd', 'u', 'e', ' ', 't', 'o', ' ', 'e', 'r', 'r',
        'o', 'r', ':', ' ',
    ]
}

impl AppError {
    /// The message that the error carries.
    pub closed spec fn spec_message(&self) -> Seq<char> {
        self.error@
    }

    /// Makes an error that carries `error` as its message.
    pub fn from_error(error: &str) -> (res: AppError)
        ensures
            res.spec_message() == error@,
    {
        AppError { error: String::from_str(error) }
    }

    /// The message, as the error displays it.
    pub fn message(&self) -> (res: String)
        ensures
            res@ == self.spec_message(),
    {
        self.error.clone()
    }

    /// The body of the 500 response that answers this error:
    /// `Failed processing request due to error: ` followed by the message.
    pub fn response_body(&self) -> (res: String)
        ensures
            res@ == response_prefix() + self.spec_message(),
    {
        let prefix = "Failed processing request due to error: ";
        proof {
            reveal_strlit("Failed processing request due to error: ");
        }
        let body = String::from_str(prefix);
        body.concat(self.error.as_str())
    }
}

} // verus!
