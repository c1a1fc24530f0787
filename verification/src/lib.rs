//! Frame-time monitoring of the foreground process.
//!
//! A kernel probe on the buffer-queueing function of the graphics library emits
//! one timestamp per presented frame. This crate holds everything that decides
//! what happens with those timestamps: the wire format of a record, the window
//! of recent frame times of a process, the book-keeping of which process is
//! being probed, and the loop that ties them together. Loading programs,
//! attaching probes, polling descriptors and sending messages are left to the
//! caller, who performs the actions this crate asks for and reports back.

pub mod event;
pub mod manager;
pub mod pid_watch;
pub mod probe;
pub mod probe_loop;
