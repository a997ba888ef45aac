//! Converts a generic formatted-text document tree into man-page markup
//! (roff macros).  The pipeline has two verified stages: a converter that
//! rewrites the source tree into an intermediate man-document tree
//! ([`man_node`]), and an emitter that serializes that tree into literal
//! roff text with exact escaping and macro rules ([`roff`]).  The source
//! tree itself is modelled by [`md`], and page metadata is read from a
//! front-matter block by [`front_matter`].

pub mod front_matter;
pub mod laws;
pub mod man_node;
pub mod md;
pub mod roff;
