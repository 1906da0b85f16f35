//! FocusLock: a time-boxed focus lock.
//!
//! While a lock is active a fixed set of domains is redirected to the loopback
//! address in the system hosts file and a fixed set of programs is kept from
//! running. The lock ends at an instant that is stored durably, so it outlives
//! a restart of the program.
//!
//! This crate holds the rules of the lock and proves them: what the hosts file
//! must read after a change, what state follows from the stored instant and
//! the clock, which programs are to be ended, and which steps each command
//! takes in which order. Reading and writing files, the database, threads and
//! the window belong to the program around it.
//!
//! - [`timelock`]: the timer and the state that follows from it.
//! - [`hosts`]: the block of redirections in the hosts file; [`hosts_laws`]:
//!   what holds of the file after a change.
//! - [`process`]: the watcher of the blocked programs.
//! - [`coordinator`]: the commands, as plans of steps; [`coordinator_laws`]:
//!   what the plans bring about.
//! - [`steps`]: the steps that a plan is made of.
//! - [`android`]: the lock on a phone, enforced by a service of the system.
//! - [`text`]: characters, patterns and lines.

pub mod android;
pub mod coordinator;
pub mod coordinator_laws;
pub mod hosts;
pub mod hosts_laws;
pub mod process;
pub mod steps;
pub mod text;
pub mod timelock;
