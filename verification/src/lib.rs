//! Read and write lines of the minimap2 PAF alignment format.
//!
//! A PAF line holds twelve required tab-separated columns followed by any
//! number of optional columns of the form `XX:T:value`.  Parsed lines are
//! stored as [`data::PAFLine`] values; [`input`] decodes text into them and
//! [`output`] renders them back to text.

/// The data structures storing PAF lines, and their mathematical models.
pub mod data;
/// Error handling types.
pub mod error;
/// The grammar of a PAF line, as specification functions.
pub mod grammar;
/// Read PAF lines.
pub mod input;
/// Output PAF lines.
pub mod output;
/// Properties relating parsing and serialization.
pub mod laws;
