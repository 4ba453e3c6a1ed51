//! Reading and writing of UNIX process accounting files in the `acct(5)`
//! version 3 layout.
//!
//! A file is a run of 64-byte records. [`AcctFile::load`] and
//! [`AcctFile::new`] check the length, read every record and keep those of
//! version 3; [`AcctFile::into_bytes`] writes records back. One record is read
//! by [`AcctV3::from_parts`] and its kin and written by [`AcctV3::to_bytes`].
//!
//! The elapsed time of a record is a 32-bit float on the wire. It is held as
//! its bits, in a `u32`: `f32::from_bits` gives the number. The time at which
//! a process began is held in seconds since the UNIX epoch.

pub mod comp;
pub mod error;
pub mod file;
pub mod flags;
pub mod raw;
pub mod record;
pub mod round_trip;
pub mod text;
pub mod userdb;
pub mod wire;

pub use comp::expand_time;
pub use error::{Error, Result};
pub use file::AcctFile;
pub use raw::{AcctV3Inner, RECORD_SIZE};
pub use record::AcctV3;
pub use userdb::UserTable;
