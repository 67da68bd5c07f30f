//! Verified core of a keyboard-driven time tracker: dates and durations, a day's work
//! records, CSV export, the command-line grammar, the keymap of the day view, and the SQLite
//! storage protocol (the statements that persist a day or the running timer, how the rows
//! that come back are read, and change tracking between processes).
#![allow(unused_imports)]

pub mod cli;
pub mod date;
pub mod digits;
pub mod keys;
pub mod models;
pub mod storage;
pub mod text;
pub mod timer;

use vstd::prelude::*;

verus! {

} // verus!
