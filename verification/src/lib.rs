//! Wake a sleeping machine over the local network, find the runner on it, and
//! decide on that runner when to launch commands and when to shut the host down.
//!
//! No module here touches a socket, a timer or a child process: those belong
//! to the caller, which hands in what it observed and carries out what is
//! returned.

pub mod magic_packet;
pub mod interfaces;
pub mod net;
pub mod wake_on_lan;
pub mod discovery;
pub mod config;
pub mod registry;
pub mod supervisor;
pub mod backoff;
pub mod locator;
pub mod sessions;
pub mod control;
