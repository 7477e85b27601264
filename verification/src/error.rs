use vstd::prelude::*;

verus! {

/// A fatal parse error: a discriminated value carrying a human-readable
/// message. Recoverable no-matches are never errors; they are represented by
/// [`crate::output::HingeOutput::Empty`].
#[derive(Clone, Debug)]
pub enum HingeError {
    Message(String),
}

impl View for HingeError {
    type V = Seq<char>;

    open spec fn view(&self) -> Seq<char> {
        match self {
            HingeError::Message(m) => m@,
        }
    }
}

impl HingeError {
    /// Builds an error from a message text.
    pub fn from_text(text: &str) -> (e: HingeError)
        ensures
            e@ == text@,
    {
        HingeError::Message(text.to_owned())
    }

    /// The human-readable message carried by this error.
    pub fn message(&self) -> (m: &String)
        ensures
            m@ == self@,
    {
        match self {
            HingeError::Message(m) => m,
        }
    }
}

} // verus!
