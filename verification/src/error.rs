//! The error taxonomy of the pipeline.

use vstd::prelude::*;

verus! {

/// The upstream table cannot be used.
#[derive(Clone, Copy, Debug, PartialEq, Eq, Structural)]
pub enum MalformedInput {
    /// The input has no line at all, so there is no header line.
    NoHeaderLine,
    /// The data line with this number (the header line is line 1) does not
    /// have as many fields as the header line.
    FieldCount { line: usize },
    /// No header matches the mandatory symbol column.
    MissingSymbolColumn,
}

/// Why one asset could not be fetched and stored.
#[derive(Clone, Copy, Debug, PartialEq, Eq, Structural)]
pub enum FetchError {
    /// The connection failed, or the body could not be read.
    Transport,
    /// The server answered with a status outside the 2xx range.
    HttpStatus(u16),
    /// The asset file could not be written.
    Io,
}

} // verus!
