//! Schema-checked lookup of who is assigned to which compute node on a given
//! date, over a worksheet already decoded into rows of typed cells.
pub mod cell;
pub mod error;
pub mod header;
pub mod row;
pub mod select;
pub mod report;
