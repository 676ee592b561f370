use vstd::prelude::*;
use vstd::string::*;

verus! {

/// Errors of the terminal front end.
#[derive(Debug)]
pub enum FrontendError {
    /// Already trying to connect to a network.
    AlreadyConnecting,
    /// An error of the terminal interface, with its message.
    Tui(String),
    /// A system error not related to the terminal interface.
    System(String),
}

/// Whether `text` is how `FrontendError::message` describes `e`.
pub open spec fn describes_frontend_error(e: FrontendError, text: Seq<char>) -> bool {
    match e {
        FrontendError::AlreadyConnecting => text == "Already working on connecting to a network"@,
        FrontendError::Tui(msg) => text == "An error occured in the Tui with message: "@ + msg@,
        FrontendError::System(msg) => text == "A system error occured with message: "@ + msg@,
    }
}

impl FrontendError {
    /// The text shown to the user for this error.
    pub fn message(&self) -> (r: String)
        ensures
            describes_frontend_error(*self, r@),
    {
        match self {
            FrontendError::AlreadyConnecting => String::from_str(
                "Already working on connecting to a network",
            ),
            FrontendError::Tui(msg) => String::from_str(
                "An error occured in the Tui with message: ",
            ).concat(msg.as_str()),
            FrontendError::System(msg) => String::from_str(
                "A system error occured with message: ",
            ).concat(msg.as_str()),
        }
    }
}

} // verus!
