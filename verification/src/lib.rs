//! LDAP and Active Directory searches as tools and resources of a gateway.
//!
//! A binding is one search of one directory. A call of it fills the search filter in
//! from the call's arguments, each text in them escaped; binds a service account; runs
//! the search; and answers with the entries found, or with what went wrong, as JSON.

pub mod codec;
pub mod envelope;
pub mod execution;
pub mod expression;
pub mod json;
pub mod ldap;
pub mod observability;
pub mod plugin;
pub mod profiles;
pub mod protocol;
pub mod text;
pub mod types;

pub use plugin::LdapBackendPlugin;
pub use types::{LdapBackendSpec, LdapScope};
