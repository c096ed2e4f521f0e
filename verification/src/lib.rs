//! Core identity types of a desktop windowing toolkit: widget and window
//! identifiers, the allocator that issues them, and the two equality
//! relations (structural and domain) defined over them.

pub mod id;
