//! A permissioned store for sensitive records: time-bounded consent, owner-only
//! mutation, and research pools that record owners can submit into.
//!
//! The host supplies the clock (`now`) and the caller's raw identity bytes
//! (`caller`) to each operation that needs them; emitted events are kept in
//! the store until the host takes them.

pub mod identity;
pub mod table;
pub mod types;
pub mod model;
pub mod store;
pub mod laws;

pub use identity::{identity_matches, is_identity, patient_id_from_identity};
pub use model::{CONSENT_WINDOW, StoreView};
pub use store::{HealthDataStore, StoreParts};
pub use types::{
    AccessGrant, ConsentPolicy, HealthEvent, HealthRecord, PatientDataResponse, PoolSubmission,
    ResearchPool, StoreError,
};
