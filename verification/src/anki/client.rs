//! Replies of the AnkiConnect API: a result, or an error message.

use vstd::prelude::*;

verus! {

/// Version of the AnkiConnect API that requests are made against.
pub const VERSION: u32 = 6;

/// A reply: its result if the request succeeded, else an error message.
#[derive(Debug, Clone)]
pub struct Response<T> {
    pub result: Option<T>,
    pub error: Option<String>,
}

/// An error message from AnkiConnect.
#[derive(Debug, Clone)]
pub struct Error(pub String);

impl<T> Response<T> {
    /// The result if there is one; otherwise the error message, or
    /// `(no message)` if there is none either.
    pub fn into_result(self) -> (r: Result<T, Error>)
        ensures
            match self.result {
                Some(v) => r == Ok::<T, Error>(v),
                None => match self.error {
                    Some(e) => r matches Err(Error(m)) && m@ == e@,
                    None => r matches Err(Error(m)) && m@ == "(no message)"@,
                },
            },
    {
        match (self.result, self.error) {
            (Some(result), _) => Ok(result),
            (None, Some(err)) => Err(Error(err)),
            (None, None) => Err(Error("(no message)".to_owned())),
        }
    }
}

} // verus!
