//! Storage location resolution for a desktop application: candidate
//! storage directories, write-access probing and the stored message record.
pub mod error;
pub mod escape;
pub mod files;
pub mod paths;
pub mod locations;
pub mod message;
pub mod probe;
