//! A gateway to external programs and a parser for the tables they print.
//!
//! `command` describes an invocation, `gateway` decides how it proceeds,
//! `outcome` says what it ends in, and `invocation` states what holds of
//! every invocation as a whole. `table` extracts the names listed in a
//! program's tabular output, on top of `text` and `order`. `tasks` holds the
//! two invocations that the application makes.

pub mod command;
pub mod decode;
pub mod gateway;
pub mod invocation;
pub mod order;
pub mod outcome;
pub mod table;
pub mod tasks;
pub mod text;
