//! The request pipeline of a small greeting server, as plain functions.
//!
//! Every exchange passes the same stages in the same order: observability,
//! timeout, compression, header policy, route handler. Each stage is a
//! function from plain values to plain values with a proved contract; the
//! surrounding program does the waiting, the compressing and the logging
//! and hands back what it observed.

pub mod headers;
pub mod message;
pub mod handler;
pub mod names;
pub mod timeout;
pub mod policy;
pub mod compression;
pub mod trace;
pub mod pipeline;
