//! A minimal virtual character-device core: a fixed set of independently
//! addressable in-memory byte stores, each supporting offset-based reads and
//! write-triggered growth, behind a registry that routes calls to the right
//! device. The host framework that exposes device nodes, dispatches calls and
//! provides per-device locking sits outside this crate and hands in plain
//! values (buffers, offsets, access modes).
pub mod device;
pub mod registry;
