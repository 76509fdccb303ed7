//! The rules by which a desktop cockpit keeps ZCode accounts and ZCode
//! instances: account records and their index, the encrypted credentials file
//! that the ZCode client reads, quota replies, and the store of managed
//! instances with their launch environments.
//!
//! The library holds no I/O. What is read from disk, from the environment or
//! from the network comes in as plain values, and what is to be written goes
//! out as plain values.

pub mod account;
pub mod account_files;
pub mod clock;
pub mod credential;
pub mod credentials_file;
pub mod crypto;
pub mod encoding;
pub mod index;
pub mod instance;
pub mod json;
pub mod launch;
pub mod ordering;
pub mod path;
pub mod quota;
pub mod text;
pub mod transfer;
