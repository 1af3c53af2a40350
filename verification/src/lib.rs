//! Anchor-based text patching for the Proxmox VE console bundle.
//!
//! A document is an ordered sequence of text lines.  An insertion rule pairs
//! a predicate over a single line with a payload of lines; patching splices
//! each rule's payload in immediately before every line its predicate
//! matches, preserving all original lines and their order.  The `moosefs`
//! module applies two fixed rules that register a MooseFS storage backend in
//! the console's JavaScript bundle.

pub mod laws;
pub mod lines;
pub mod moosefs;
pub mod patcher;
pub mod text;
