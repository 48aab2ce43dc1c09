use vstd::prelude::*;

verus! {

/// The standard library's I/O error, carried by `CarlaeError::Io`.
#[verifier::external_type_specification]
#[verifier::external_body]
pub struct ExIoError(std::io::Error);

/// Every error that scanning, parsing, evaluating or reading a script can raise.
#[derive(Debug)]
pub enum CarlaeError {
    General(String),
    Io(std::io::Error),
    Scanning(String),
    Parsing(String),
    Evaluation(String),
}

/// Calls `<std::io::Error as Display>::fmt` through `to_string`. The text comes
/// from the operating system and the error's kind, so nothing is stated of it.
#[verifier::external_body]
fn io_error_text(e: &std::io::Error) -> String {
    e.to_string()
}

impl CarlaeError {
    /// The text that the error displays: the message it carries, or, for an
    /// I/O error, the I/O error's own text.
    pub fn message(&self) -> (res: String)
        ensures
            match self {
                CarlaeError::General(s) => res@ == s@,
                CarlaeError::Scanning(s) => res@ == s@,
                CarlaeError::Parsing(s) => res@ == s@,
                CarlaeError::Evaluation(s) => res@ == s@,
                CarlaeError::Io(_) => true,
            },
    {
        match self {
            CarlaeError::General(s) => s.clone(),
            CarlaeError::Io(e) => io_error_text(e),
            CarlaeError::Scanning(s) => s.clone(),
            CarlaeError::Parsing(s) => s.clone(),
            CarlaeError::Evaluation(s) => s.clone(),
        }
    }
}

impl From<std::io::Error> for CarlaeError {
    fn from(err: std::io::Error) -> (res: Self) {
        CarlaeError::Io(err)
    }
}

impl vstd::std_specs::convert::FromSpecImpl<std::io::Error> for CarlaeError {
    open spec fn obeys_from_spec() -> bool {
        true
    }

    open spec fn from_spec(v: std::io::Error) -> Self {
        CarlaeError::Io(v)
    }
}

} // verus!
