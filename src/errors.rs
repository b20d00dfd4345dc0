use vstd::prelude::*;

verus! {

/// A descriptive error returned by a failed lookup.
#[derive(Clone, Debug, PartialEq, Eq)]
pub struct CliplyError {
    pub details: String,
}

impl CliplyError {
    /// Creates an error that carries the message `details`.
    pub fn new(details: &str) -> (r: CliplyError)
        ensures
            r.details@ == details@,
    {
        CliplyError { details: details.to_owned() }
    }

    /// Returns the message that this error carries.
    pub fn to_string(self) -> (r: String)
        ensures
            r@ == self.details@,
    {
        self.details
    }
}

} // verus!
