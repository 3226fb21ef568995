//! The editor support for Arazzo documents: where identifiers stand, what
//! hovering and completing show, and where operations are defined.

pub mod document;
pub mod hover;
pub mod completion;
pub mod definition;
pub mod framing;
