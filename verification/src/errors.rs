//! The error vocabulary of the tracker and the user-facing text of each kind.
use vstd::prelude::*;

verus! {

/// Everything that can go wrong while interpreting a command: the three
/// grammar rejections, the two persistence failures and a catch-all for
/// unexpected internal trouble.
#[derive(Debug, Clone, Copy, PartialEq, Eq, Structural)]
pub enum DustyError {
    InvalidFloor,
    InvalidSpace,
    InvalidFormat,
    CorruptState,
    InternalError,
    FileError,
}

/// The user-facing message of each error kind.  Grammar rejections carry a
/// remediation hint naming the valid range; persistence failures stay
/// generic and expose no internal detail.
pub open spec fn error_message(e: DustyError) -> Seq<char> {
    match e {
        DustyError::InvalidFloor => "Invalid floor, please input a floor between [-4,4]"@,
        DustyError::InvalidSpace => "Invalid space, please input a space between [0,400]"@,
        DustyError::InvalidFormat => "Invalid format, please input a location in the format P<floor>.<space>"@,
        DustyError::CorruptState => "Dusty's location file is corrupt, please fix or delete it."@,
        DustyError::InternalError => "I experienced an internal error, please check my logs"@,
        DustyError::FileError => "Couldn't access Dusty's location file."@,
    }
}

impl DustyError {
    /// Render the error as the text shown to the user.
    pub fn message(&self) -> (r: String)
        ensures
            r@ == error_message(*self),
    {
        match self {
            DustyError::InvalidFloor => String::from_str(
                "Invalid floor, please input a floor between [-4,4]",
            ),
            DustyError::InvalidSpace => String::from_str(
                "Invalid space, please input a space between [0,400]",
            ),
            DustyError::InvalidFormat => String::from_str(
                "Invalid format, please input a location in the format P<floor>.<space>",
            ),
            DustyError::CorruptState => String::from_str(
                "Dusty's location file is corrupt, please fix or delete it.",
            ),
            DustyError::InternalError => String::from_str(
                "I experienced an internal error, please check my logs",
            ),
            DustyError::FileError => String::from_str("Couldn't access Dusty's location file."),
        }
    }
}

} // verus!
