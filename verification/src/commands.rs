//! Requests to Neovim, by how they are sent: serial ones keep their order
//! and are not waited for (typing); parallel ones are queries and changes
//! whose answer may be awaited.

use vstd::prelude::*;

verus! {

/// A request that keeps its place among the others and is not waited for.
#[derive(Debug, Clone)]
pub enum SerialCommand {
    /// Keys to feed to Neovim.
    Input(String),
    /// Move the cursor (line counted from 1, column from 0).
    SetCursor { line: i64, col: i64 },
}

/// A request that may be answered out of order.
#[derive(Debug, Clone)]
pub enum ParallelCommand {
    /// Replace the lines `start..end` of the buffer.
    SetBufferLines { start: i64, end: i64, lines: Vec<String> },
    /// Read the lines `start..end` of the buffer.
    GetBufferLines { start: i64, end: i64 },
    GetLineCount,
    SetBufferName(String),
    SetBufferNotModified,
    GetVisualSelection,
    GetMode,
    GetCursor,
}

} // verus!
