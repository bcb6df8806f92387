//! Cross-layer debug-location correlation for a three-stage compilation
//! pipeline: original Cairo source, the statement-based Sierra intermediate
//! representation, and the flat CASM instruction stream.
//!
//! The compiler front end and back end are external collaborators; this
//! library builds the lookup tables that relate their outputs, and answers
//! "what source location caused the fault at this program counter".

pub mod cairo_sierra;
pub mod casm_sierra;
pub mod correlate;
pub mod grouping;
pub mod hex_str;
pub mod trace;
