//! Detection of virtual-method tables in compiled x86 binaries.
//!
//! A table of code pointers lies in the read-only data of a binary, and the
//! code stores its address into each object that it constructs. Detection
//! therefore has two steps. The scanner reads the read-only data for runs of
//! pointers into the code section; each run that ends inside the data gives a
//! candidate. The validator then walks the decoded instructions and confirms the
//! candidates whose address the code loads and stores, and records in an index
//! which instruction refers to which table.
pub mod candidates;
pub mod instruction;
pub mod object_file;
pub mod ordered;
pub mod pointer;
pub mod section;
pub mod validate;
pub mod vtable;
pub mod xrefs;

pub use vtable::{find_vtables, Context, DetectError, SectionKind};
