use vstd::prelude::*;
use vstd::string::*;

verus! {

/// Errors of the settings layer.
#[derive(Debug, Clone)]
pub enum IcyDrawError {
    Error(String),
    ErrorCreatingDirectory(String),
}

impl IcyDrawError {
    /// The text that describes the error to a user.
    pub fn to_message(&self) -> (r: String)
        ensures
            match self {
                IcyDrawError::Error(e) => r@ == "Error: "@ + e@,
                IcyDrawError::ErrorCreatingDirectory(d) => r@ == "Error creating directory: "@ + d@,
            },
    {
        match self {
            IcyDrawError::Error(e) => String::from_str("Error: ").concat(e.as_str()),
            IcyDrawError::ErrorCreatingDirectory(d) => String::from_str("Error creating directory: ").concat(d.as_str()),
        }
    }
}

} // verus!
