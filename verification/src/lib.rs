//! The payload side of a small kernel ABI: an application finds the kernel's
//! table of entry points through a register, and requests each service by
//! calling the entry at `table + id * 8` with four register arguments.
//! This library computes those requests; performing them is left to the
//! program that owns the raw table address.
pub mod abi;
