//! Turning results into answers of the REST surface.

use vstd::prelude::*;

verus! {

/// An answer with a status code and a text.
#[derive(Debug, Clone, PartialEq, Eq)]
pub struct Custom {
    pub status: u16,
    pub message: String,
}

/// What can be turned into the result of a handler.
pub trait ToRocket {
    type O;

    /// Keeps a success; replaces a failure by the answer with this status
    /// and message.
    fn to_rocket(self, message: String, status: u16) -> Result<Self::O, Custom>;
}

impl<O, E> ToRocket for Result<O, E> {
    type O = O;

    fn to_rocket(self, message: String, status: u16) -> (answer: Result<O, Custom>)
        ensures
            match self {
                Ok(ok) => answer == Ok::<O, Custom>(ok),
                Err(_) => answer == Err::<O, Custom>(Custom { status, message }),
            },
    {
        match self {
            Ok(ok) => Ok(ok),
            Err(_) => Err(Custom { status, message }),
        }
    }
}

} // verus!
