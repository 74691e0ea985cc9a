//! Programs for label printers that speak ZPL: the commands and their wire
//! text, the assembly of a print job, and the protocol of a session with the
//! printer.

pub mod command;
pub mod decimal;
pub mod label;
pub mod session;
