//! The request-side models of the library: validated request types, the
//! response projections, and the authorized caller.

pub mod book;
pub mod extractor;
