use vstd::prelude::*;

verus! {

/// The failures of the application, each with its detail.
pub enum EchoError {
    IoNamedTempFileError(String),
    IoStoredFileError(String),
    ClientRequestError(String),
    CliParamError(String),
}

impl EchoError {
    /// The kind of the error, a colon, and its detail.
    pub open spec fn spec_message(&self) -> Seq<char> {
        match self {
            EchoError::IoNamedTempFileError(e) => "IoNamedTempFileError: "@ + e@,
            EchoError::ClientRequestError(e) => "ClientRequestError: "@ + e@,
            EchoError::IoStoredFileError(e) => "IoStoredFileError: "@ + e@,
            EchoError::CliParamError(e) => "CliParamError: "@ + e@,
        }
    }

    /// The text shown to the user for this error.
    pub fn message(&self) -> (r: String)
        ensures
            r@ == self.spec_message(),
    {
        match self {
            EchoError::IoNamedTempFileError(e) => String::from_str("IoNamedTempFileError: ").concat(
                e.as_str(),
            ),
            EchoError::ClientRequestError(e) => String::from_str("ClientRequestError: ").concat(
                e.as_str(),
            ),
            EchoError::IoStoredFileError(e) => String::from_str("IoStoredFileError: ").concat(
                e.as_str(),
            ),
            EchoError::CliParamError(e) => String::from_str("CliParamError: ").concat(e.as_str()),
        }
    }
}

} // verus!
