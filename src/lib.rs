//! An authenticated append-only inbox: fixed-width record storage, derived
//! storage addresses, and the signature checks that guard every mutation.

pub mod codec;
pub mod crypto;
pub mod error;
pub mod inbox;
pub mod inbox_layout;
pub mod inbox_program;
pub mod registry;
