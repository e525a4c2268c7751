//! Fixed byte widths of record types, known without constructing a value.
//!
//! Every sizeable type states its own width through [`SizedData`]. A record's
//! width is the sum of the widths of its fields, and the padded width adds the
//! eight bytes that the hosting runtime keeps in front of every account for
//! its discriminator.

pub mod composer;
pub mod laws;
pub mod registry;
pub mod width;

pub use width::SizedData;
pub use width::DISCRIMINATOR_LEN;
pub use registry::Registry;
pub use composer::{compose, compose_padded, ComposeError, Definition, Field};
