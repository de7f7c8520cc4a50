//! The error type of this crate.
use vstd::prelude::*;

verus! {

/// What can go wrong when an array is built or a page is written.
#[derive(Debug)]
pub enum Error {
    /// The arguments of a constructor break an invariant of the type.
    OutOfSpec(String),
    /// The requested compression codec cannot be instantiated.
    Codec(String),
    /// A page could not be compressed or written.
    Encoding(String),
}

impl Error {
    /// An [`Error::OutOfSpec`] with this message.
    pub fn oos(message: &str) -> (e: Error)
        ensures
            e == Error::OutOfSpec(e->OutOfSpec_0),
            e->OutOfSpec_0@ == message@,
    {
        Error::OutOfSpec(message.to_owned())
    }

    /// The message that the error carries.
    pub fn message(&self) -> (m: String)
        ensures
            m@ == match *self {
                Error::OutOfSpec(s) => s@,
                Error::Codec(s) => s@,
                Error::Encoding(s) => s@,
            },
    {
        match self {
            Error::OutOfSpec(s) => s.clone(),
            Error::Codec(s) => s.clone(),
            Error::Encoding(s) => s.clone(),
        }
    }
}

} // verus!
