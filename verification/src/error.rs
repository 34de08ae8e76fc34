//! What can go wrong while an archive is unpacked, and where.

use vstd::prelude::*;

verus! {

/// The kind of a failure.
#[derive(Clone, Copy, Debug, PartialEq, Eq, Structural)]
pub enum ErrorKind {
    /// The bytes are not what the format allows: a wrong signature, a
    /// negative count, a name that is not UTF-8.
    Format,
    /// The archive ends before a field or a payload that it announces.
    Truncation,
    /// Compressed bytes are corrupt, or do not decompress to the declared size.
    Decompression,
}

/// The step of the unpacking at which a failure came up.
#[derive(Clone, Copy, Debug, PartialEq, Eq, Structural)]
pub enum Stage {
    /// The signature and the format version.
    Signature,
    /// The container header.
    Header,
    /// The file list.
    FileList,
    /// The entry with this index in the file list.
    Entry(usize),
}

/// A failure, with the step at which it came up.
#[derive(Clone, Copy, Debug, PartialEq, Eq, Structural)]
pub struct PakError {
    pub kind: ErrorKind,
    pub stage: Stage,
}

impl PakError {
    /// A failure ends the run unless it is an entry's payload that does not
    /// decompress: that entry is given up and the run goes on.
    pub open spec fn fatal(self) -> bool {
        !(self.kind == ErrorKind::Decompression && self.stage is Entry)
    }

    /// Tells whether this failure ends the run.
    pub fn is_fatal(&self) -> (r: bool)
        ensures
            r == self.fatal(),
    {
        match (self.kind, self.stage) {
            (ErrorKind::Decompression, Stage::Entry(_)) => false,
            _ => true,
        }
    }
}

} // verus!
