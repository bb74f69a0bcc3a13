//! A minimal SMTP receiver library: the per-connection protocol state
//! machine that turns raw input chunks into validated transactions and
//! completed mail, the laws that whole command sequences obey, and the
//! pure parts of the storage glue (row building, retention cutoff,
//! query patterns, temporary addresses).

pub mod address;
pub mod laws;
pub mod parse;
pub mod smtp;
pub mod storage;
