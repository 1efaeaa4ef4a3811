//! Unlocking of encrypted authenticator vault backups and generation of
//! time-based one-time passcodes for the entries they hold.
use vstd::prelude::*;

pub mod codec;
pub mod crypto;
pub mod json;
pub mod model;
pub mod schema;
pub mod totp;
pub mod vault;

verus! {

} // verus!
