//! The failures that the library reports.
use vstd::prelude::*;

verus! {

/// A failure: what went wrong, and the message of what caused it where something did.
#[derive(Debug)]
pub struct Error {
    pub message: String,
    pub cause: Option<String>,
}

/// The text of a failure together with its cause.
pub open spec fn error_chain(e: Error) -> Seq<char> {
    match e.cause {
        Some(cause) => e.message@ + ": "@ + cause@,
        None => e.message@,
    }
}

/// Whether `r` fails with exactly this message and no cause.
pub open spec fn fails_with<T>(r: Result<T, Error>, message: Seq<char>) -> bool {
    match r {
        Ok(_) => false,
        Err(e) => e.message@ == message && e.cause is None,
    }
}

/// Whether `r` fails with exactly this message, caused by a failure with that text.
pub open spec fn fails_from<T>(r: Result<T, Error>, message: Seq<char>, cause: Seq<char>) -> bool {
    match r {
        Ok(_) => false,
        Err(e) => e.message@ == message && e.cause is Some && e.cause->0@ == cause,
    }
}

impl Error {
    /// A failure without a cause.
    pub fn new(message: &str) -> (e: Error)
        ensures
            e.message@ == message@,
            e.cause is None,
    {
        Error { message: message.to_string(), cause: None }
    }

    /// A failure with a cause.
    pub fn caused(message: &str, cause: String) -> (e: Error)
        ensures
            e.message@ == message@,
            e.cause == Some(cause),
    {
        Error { message: message.to_string(), cause: Some(cause) }
    }

    /// The message, followed by the cause where there is one.
    pub fn chain(&self) -> (s: String)
        ensures
            s@ == error_chain(*self),
    {
        let mut s = self.message.clone();
        match &self.cause {
            Some(cause) => {
                s.append(": ");
                s.append(cause.as_str());
            },
            None => {},
        }
        s
    }
}

/// The whole text of a failure is its message and, behind it, its cause, with nothing left out.
pub proof fn failure_is_told_whole(e: &Error, r: String)
    requires
        call_ensures(Error::chain, (e,), r),
    ensures
        e.cause is None ==> r@ == e.message@,
        e.cause is Some ==> r@ == e.message@ + ": "@ + e.cause->0@,
{
}

} // verus!
