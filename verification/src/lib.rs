//! A small task tracker: tasks with generated identifiers, kept in a SQLite
//! table, and the listing shown to the user.
//!
//! * [`util`]: task identifiers, and the handle on the database.
//! * [`task`]: the task, the statements that store and fetch it, and what
//!   the answers of the database amount to.
//! * [`order`]: the order of a listing, and the sort that establishes it.
//! * [`encoding`]: the proof that comparing names byte by byte orders them
//!   by character.
//! * [`cli`]: the commands, and the text each of them prints.
//! * [`sql`]: the calls into `rusqlite`.
//!
//! Everything that the library computes is proved against its contract.
//! What SQLite does with a statement is not. For each operation on the
//! database a function of its own says which statement and values are sent,
//! and others say how the answer is read; the operation itself promises of
//! the rows only that what it returns was read from them.

pub mod cli;
pub mod encoding;
pub mod order;
pub mod sql;
pub mod task;
pub mod util;
