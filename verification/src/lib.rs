//! Small verified building blocks for a pair of teaching demos: growable
//! integer sequences with exact textual rendering, text buffers with
//! concatenation and byte-range slicing, a string-keyed score map, and a
//! describable/printable capability pair with a default method.

pub mod decimal;
pub mod describe;
pub mod scores;
pub mod sequence;
pub mod text;
