//! The layout of a snapshot table.
use vstd::prelude::*;

verus! {

/// Configuration for rendering a metric table.
#[derive(Debug, Clone)]
pub struct TableConfig {
    /// Table title (e.g., "Heimwatch CPU Usage Snapshot").
    pub title: String,
    /// Column headers and their display widths.
    pub columns: Vec<(&'static str, usize)>,
    /// Total table width, for separator lines.
    pub total_width: usize,
    /// Header line width, for the separator under the headers.
    pub header_width: usize,
}

} // verus!
