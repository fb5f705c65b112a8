//! Errors of the platform layer.
use vstd::prelude::*;

verus! {

/// Who is at fault for an error: the user's setup, or the environment.
#[derive(Copy, Clone, Debug, PartialEq, Eq, Structural)]
pub enum Blame {
    Human,
    Internal,
}

/// The filesystem operation that a migration performs.
#[derive(Clone, Debug, PartialEq, Eq)]
pub enum FsOp {
    Rename { from: Vec<u8>, to: Vec<u8> },
    RemoveDir { path: Vec<u8> },
}

/// An error of the platform layer.
#[derive(Clone, Debug, PartialEq, Eq)]
pub enum MainError {
    /// Neither the toolchain-home override nor the user home is defined.
    NoHomeDir,
    /// A filesystem operation failed; the message is what the system said.
    Io { op: FsOp, message: String },
    /// An encoded wide path had an odd number of bytes.
    OddLength { len: usize },
    /// A known-folder lookup failed with the given result code.
    KnownFolder { code: i32 },
    /// A template names a substitution that was not supplied.
    UnknownSubstitution { name: String },
}

impl MainError {
    /// Whether the user's setup or the environment is to blame.
    pub open spec fn spec_blame(&self) -> Blame {
        match self {
            MainError::NoHomeDir => Blame::Human,
            MainError::UnknownSubstitution { .. } => Blame::Human,
            _ => Blame::Internal,
        }
    }

    pub fn blame(&self) -> (r: Blame)
        ensures
            r == self.spec_blame(),
    {
        match self {
            MainError::NoHomeDir => Blame::Human,
            MainError::UnknownSubstitution { .. } => Blame::Human,
            _ => Blame::Internal,
        }
    }
}

} // verus!
