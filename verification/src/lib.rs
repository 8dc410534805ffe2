//! Routing metadata: compaction of routing edges between their expanded and
//! compact representations, and the integer part of adaptive timeout control.

pub mod compaction;
pub mod timeout;
