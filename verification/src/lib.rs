//! Authentication and authorization core of a multi-tenant task tracker.
//!
//! The library covers credential hashing and verification, session issuance
//! with silent rotation on expiry, permission-tier resolution, and
//! collision-free allocation of the public account sequence. The persistent
//! store of accounts and sessions is modelled by in-memory stores whose
//! contracts mirror the constraints the backing database enforces; callers
//! that keep records elsewhere drive those stores from the outside.

pub mod account;
pub mod email;
pub mod exceptions;
pub mod model;
pub mod password;
pub mod permission;
pub mod sequence;
pub mod session;
pub mod store;

pub use account::{find_account, login, register};
pub use email::is_valid_email;
pub use exceptions::QuantumixException;
pub use model::{Account, Session, DEFAULT_PERMISSION};
pub use password::{hash_password, verify_password};
pub use permission::{authorize, determine_permission};
pub use sequence::{generate_sequence, SEQUENCE_MAX, SEQUENCE_MIN};
pub use session::{create_or_rotate, session, validate_and_return_session, SESSION_VALIDITY_SECS};
pub use store::{AccountStore, SessionStore};
