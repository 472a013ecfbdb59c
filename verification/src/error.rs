use vstd::prelude::*;
use vstd::string::StringExecFns;

verus! {

/// Why a format implementation's read call failed: the engine's message,
/// carried verbatim.
pub struct ReadError {
    pub message: String,
}

/// Why a format implementation's write call failed: the engine's message,
/// carried verbatim.
pub struct WriteError {
    pub message: String,
}

/// The side of a conversion on which a format name was requested.
#[derive(PartialEq, Eq, Structural, Clone, Copy, Debug)]
pub enum Side {
    Source,
    Destination,
}

/// Why a conversion failed as a whole. An unknown format name is reported
/// before any file is opened, created or truncated; read and write failures
/// pass the engine's message through unchanged.
pub enum ConvError {
    UnknownFormat(Side, String),
    Read(ReadError),
    Write(WriteError),
}

impl ConvError {
    /// The message this error prints as.
    pub open spec fn spec_describe(&self) -> Seq<char> {
        match self {
            ConvError::UnknownFormat(Side::Source, n) => "no reader for format: "@ + n@,
            ConvError::UnknownFormat(Side::Destination, n) => "no writer for format: "@ + n@,
            ConvError::Read(e) => e.message@,
            ConvError::Write(e) => e.message@,
        }
    }

    /// A short description, usable as a process's error message.
    pub fn describe(&self) -> (r: String)
        ensures
            r@ == self.spec_describe(),
    {
        match self {
            ConvError::UnknownFormat(side, n) => {
                let prefix = match side {
                    Side::Source => "no reader for format: ",
                    Side::Destination => "no writer for format: ",
                };
                String::from_str(prefix).concat(n.as_str())
            },
            ConvError::Read(e) => e.message.clone(),
            ConvError::Write(e) => e.message.clone(),
        }
    }
}

} // verus!
