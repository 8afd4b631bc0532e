//! Raw link-layer packet I/O and kernel routing-table snapshots.
//!
//! The crate has two halves: a raw packet socket bound to one network
//! interface, with a buffered record reader that splits one kernel read
//! into the captured frames it contains, and a routing-table reader that
//! decodes a kernel-provided buffer of variable-length routing messages
//! into typed records.

pub mod cidr;
pub mod framing;
pub mod raw_socket;
pub mod route;
mod sys;
