//! Decoder for self-relative Windows security descriptors: the fixed header,
//! access control lists, access control entries and security identifiers.
//!
//! Every decoder is a pure function from a byte slice to a decoded value and
//! the bytes that follow it, or to a [`DecodeError`]. Each one is specified by
//! a function on `Seq<u8>` that says what the bytes mean.

pub mod ace;
pub mod acl;
pub mod descriptor;
pub mod error;
pub mod flags;
pub mod laws;
pub mod sid;
pub mod wire;

pub use ace::{AccessAllowedAce, AccessAllowedObjectAce, Ace, AceFormat};
pub use acl::Acl;
pub use descriptor::SecurityDescriptor;
pub use error::DecodeError;
pub use flags::ObjectAceFlags;
pub use sid::{LdapSid, LdapSidIdentifiedAuthority};
