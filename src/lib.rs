//! Migration of a Financisto backup into Bluecoins SQL statements.

pub mod accounts;
pub mod backup;
pub mod categories;
pub mod decode;
pub mod error;
pub mod model;
pub mod sql;
pub mod text;
pub mod time;
pub mod transactions;
