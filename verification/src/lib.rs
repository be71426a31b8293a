//! The on-host agent of a supervised-automation system, as a library of
//! decisions: what each worker does at a tick, given the shared mode; how
//! the link to the remote authority is made and made again; what an
//! approved action comes to in input steps; which files are indexed.
//!
//! The library reads no file, opens no connection and injects no input.
//! Whoever runs it performs what it decides and hands back what happened.

pub mod accessibility;
pub mod command_server;
pub mod effector;
pub mod index;
pub mod json;
pub mod kernel_link;
pub mod librarian;
pub mod mode;
pub mod side_channel;
pub mod text;
pub mod workers;
