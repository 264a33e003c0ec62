use vstd::prelude::*;

verus! {

/// Errors of the whitelist instructions.
#[derive(Clone, Copy, Debug, PartialEq, Eq, Structural)]
pub enum WhitelistErrorCode {
    /// Src Balance < LP Deposit Amount.
    NotEnoughBalance,
    /// Can't decrease as the count is more than number of available spots.
    InvalidNumberofWL,
    /// WLType is invalid.
    InvalidWLType,
}

impl WhitelistErrorCode {
    /// The message that the program reports with the error.
    pub fn message(&self) -> (m: &'static str)
        ensures
            match self {
                WhitelistErrorCode::NotEnoughBalance => m@ == "Src Balance < LP Deposit Amount."@,
                WhitelistErrorCode::InvalidNumberofWL => m@
                    == "Can't decerease as the count is more than number of available spots."@,
                WhitelistErrorCode::InvalidWLType => m@ == "WLType is invalid."@,
            },
    {
        match self {
            WhitelistErrorCode::NotEnoughBalance => "Src Balance < LP Deposit Amount.",
            WhitelistErrorCode::InvalidNumberofWL => "Can't decerease as the count is more than number of available spots.",
            WhitelistErrorCode::InvalidWLType => "WLType is invalid.",
        }
    }
}

} // verus!
