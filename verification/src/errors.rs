//! The error kinds that the generators and the codec report.

use vstd::prelude::*;
use vstd::string::StringExecFns;

verus! {

/// Every way a palette command can fail.
#[derive(Clone, Debug, PartialEq, Eq)]
pub enum PaletteError {
    /// The text is not a six-hex-digit colour after one optional leading `#`.
    /// Carries the offending text.
    MalformedHex(String),
    /// The wal colour-scheme file is absent or unreadable.
    ConfigNotFound,
    /// The wal colour-scheme file is not a JSON object with a `colors` object.
    ConfigMalformed,
    /// Standard input could not be read.
    IOError,
    /// A gradient was asked for with zero steps.
    InvalidStepCount,
}

impl PaletteError {
    /// A message for the user, one line, without a trailing newline.
    pub fn message(&self) -> (r: String)
        ensures
            match self {
                PaletteError::MalformedHex(t) => r@ == "malformed hex colour: "@ + t@,
                PaletteError::ConfigNotFound => r@ == "wal colour scheme not found"@,
                PaletteError::ConfigMalformed => r@ == "wal colour scheme is malformed"@,
                PaletteError::IOError => r@ == "could not read input"@,
                PaletteError::InvalidStepCount => r@ == "a gradient needs at least one step"@,
            },
    {
        match self {
            PaletteError::MalformedHex(t) => {
                let mut s = String::from_str("malformed hex colour: ");
                s.append(t.as_str());
                s
            },
            PaletteError::ConfigNotFound => String::from_str("wal colour scheme not found"),
            PaletteError::ConfigMalformed => String::from_str("wal colour scheme is malformed"),
            PaletteError::IOError => String::from_str("could not read input"),
            PaletteError::InvalidStepCount => String::from_str(
                "a gradient needs at least one step",
            ),
        }
    }
}

} // verus!
