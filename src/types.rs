use vstd::prelude::*;
use crate::table::Keyed;

verus! {

/// One patient's record.
#[derive(Debug, PartialEq, Eq)]
pub struct HealthRecord {
    /// Caller-encrypted payload; never inspected here.
    pub data: Vec<u8>,
    /// Time of creation or of the last update.
    pub timestamp: u64,
    pub record_type: String,
    /// The patient id; the record's key.
    pub owner_id: String,
    /// Entities granted access, in order of grant; repeats are kept.
    pub authorized_ids: Vec<String>,
    pub is_anonymized: bool,
    pub consent_proof: Option<Vec<u8>>,
}

pub struct RecordView {
    pub data: Seq<u8>,
    pub timestamp: u64,
    pub record_type: Seq<char>,
    pub owner_id: Seq<char>,
    pub authorized_ids: Seq<Seq<char>>,
    pub is_anonymized: bool,
    pub consent_proof: Option<Seq<u8>>,
}

pub open spec fn bytes_opt_view(o: Option<Vec<u8>>) -> Option<Seq<u8>> {
    match o {
        Some(v) => Some(v@),
        None => None,
    }
}

pub open spec fn strings_view(v: Seq<String>) -> Seq<Seq<char>> {
    v.map_values(|s: String| s@)
}

impl View for HealthRecord {
    type V = RecordView;

    open spec fn view(&self) -> RecordView {
        RecordView {
            data: self.data@,
            timestamp: self.timestamp,
            record_type: self.record_type@,
            owner_id: self.owner_id@,
            authorized_ids: strings_view(self.authorized_ids@),
            is_anonymized: self.is_anonymized,
            consent_proof: bytes_opt_view(self.consent_proof),
        }
    }
}

impl Keyed for RecordView {
    type Key = Seq<char>;

    open spec fn key(&self) -> Seq<char> {
        self.owner_id
    }
}

/// A provider's access window.
#[derive(Debug, PartialEq, Eq)]
pub struct AccessGrant {
    pub provider_id: String,
    pub granted_at: u64,
    pub expires_at: u64,
}

/// One entity's consent to read one patient's record, for a purpose, until
/// `expiration`.
#[derive(Debug, PartialEq, Eq)]
pub struct ConsentPolicy {
    pub patient_id: String,
    pub entity_id: String,
    pub purpose: String,
    pub expiration: u64,
    pub proof: String,
}

pub struct ConsentView {
    pub patient_id: Seq<char>,
    pub entity_id: Seq<char>,
    pub purpose: Seq<char>,
    pub expiration: u64,
    pub proof: Seq<char>,
}

impl View for ConsentPolicy {
    type V = ConsentView;

    open spec fn view(&self) -> ConsentView {
        ConsentView {
            patient_id: self.patient_id@,
            entity_id: self.entity_id@,
            purpose: self.purpose@,
            expiration: self.expiration,
            proof: self.proof@,
        }
    }
}

/// A consent is filed under its key string.
impl Keyed for (Seq<char>, ConsentView) {
    type Key = Seq<char>;

    open spec fn key(&self) -> Seq<char> {
        self.0
    }
}

/// A reward-bearing pool published by an entity; at most one per entity.
#[derive(Debug, PartialEq, Eq)]
pub struct ResearchPool {
    pub title: String,
    pub description: String,
    pub reward_amount: u64,
    /// The owning entity; the pool's key.
    pub entity_id: String,
    pub created_at: u64,
    pub status: String,
}

pub struct PoolView {
    pub title: Seq<char>,
    pub description: Seq<char>,
    pub reward_amount: u64,
    pub entity_id: Seq<char>,
    pub created_at: u64,
    pub status: Seq<char>,
}

impl View for ResearchPool {
    type V = PoolView;

    open spec fn view(&self) -> PoolView {
        PoolView {
            title: self.title@,
            description: self.description@,
            reward_amount: self.reward_amount,
            entity_id: self.entity_id@,
            created_at: self.created_at,
            status: self.status@,
        }
    }
}

impl Keyed for PoolView {
    type Key = Seq<char>;

    open spec fn key(&self) -> Seq<char> {
        self.entity_id
    }
}

impl ResearchPool {
    /// A field-by-field copy.
    pub fn copy(&self) -> (r: ResearchPool)
        ensures
            r@ == self@,
    {
        ResearchPool {
            title: self.title.clone(),
            description: self.description.clone(),
            reward_amount: self.reward_amount,
            entity_id: self.entity_id.clone(),
            created_at: self.created_at,
            status: self.status.clone(),
        }
    }
}

/// What a reader of a record gets back.
#[derive(Debug, PartialEq, Eq)]
pub struct PatientDataResponse {
    pub data: Vec<u8>,
    pub record_type: String,
    pub timestamp: u64,
}

pub struct ResponseView {
    pub data: Seq<u8>,
    pub record_type: Seq<char>,
    pub timestamp: u64,
}

impl View for PatientDataResponse {
    type V = ResponseView;

    open spec fn view(&self) -> ResponseView {
        ResponseView { data: self.data@, record_type: self.record_type@, timestamp: self.timestamp }
    }
}

/// The part of a record that a reader sees.
pub open spec fn response_of(r: RecordView) -> ResponseView {
    ResponseView { data: r.data, record_type: r.record_type, timestamp: r.timestamp }
}

/// A patient's application to an entity's pool.
#[derive(Debug, PartialEq, Eq)]
pub struct PoolSubmission {
    pub patient_id: String,
    pub entity_id: String,
    pub submitted_at: u64,
    /// Conventionally "pending", "accepted" or "rejected"; not restricted.
    pub status: String,
}

pub struct SubmissionView {
    pub patient_id: Seq<char>,
    pub entity_id: Seq<char>,
    pub submitted_at: u64,
    pub status: Seq<char>,
}

impl View for PoolSubmission {
    type V = SubmissionView;

    open spec fn view(&self) -> SubmissionView {
        SubmissionView {
            patient_id: self.patient_id@,
            entity_id: self.entity_id@,
            submitted_at: self.submitted_at,
            status: self.status@,
        }
    }
}

/// A submission is keyed by its pool's entity and the submitting patient.
impl Keyed for SubmissionView {
    type Key = (Seq<char>, Seq<char>);

    open spec fn key(&self) -> (Seq<char>, Seq<char>) {
        (self.entity_id, self.patient_id)
    }
}

/// A notification emitted after a successful change or read.
#[derive(Debug, PartialEq, Eq)]
pub enum HealthEvent {
    RecordAdded { patient_id: String },
    AccessGranted { patient_id: String, provider_id: String },
    RecordAccessed { patient_id: String, accessor_id: String },
    ConsentGranted { patient_id: String, entity_id: String },
    PoolCreated { entity_id: String, title: String, reward_amount: u64 },
    RecordDeleted { patient_id: String },
    PoolDeleted { entity_id: String, title: String },
    RecordUpdated { patient_id: String },
    PoolUpdated { entity_id: String, title: String },
    PoolSubmission { patient_id: String, entity_id: String, status: String },
    SubmissionUpdated { patient_id: String, entity_id: String, status: String },
}

pub enum EventView {
    RecordAdded { patient_id: Seq<char> },
    AccessGranted { patient_id: Seq<char>, provider_id: Seq<char> },
    RecordAccessed { patient_id: Seq<char>, accessor_id: Seq<char> },
    ConsentGranted { patient_id: Seq<char>, entity_id: Seq<char> },
    PoolCreated { entity_id: Seq<char>, title: Seq<char>, reward_amount: u64 },
    RecordDeleted { patient_id: Seq<char> },
    PoolDeleted { entity_id: Seq<char>, title: Seq<char> },
    RecordUpdated { patient_id: Seq<char> },
    PoolUpdated { entity_id: Seq<char>, title: Seq<char> },
    PoolSubmission { patient_id: Seq<char>, entity_id: Seq<char>, status: Seq<char> },
    SubmissionUpdated { patient_id: Seq<char>, entity_id: Seq<char>, status: Seq<char> },
}

impl View for HealthEvent {
    type V = EventView;

    open spec fn view(&self) -> EventView {
        match self {
            HealthEvent::RecordAdded { patient_id } => EventView::RecordAdded {
                patient_id: patient_id@,
            },
            HealthEvent::AccessGranted { patient_id, provider_id } => EventView::AccessGranted {
                patient_id: patient_id@,
                provider_id: provider_id@,
            },
            HealthEvent::RecordAccessed { patient_id, accessor_id } => EventView::RecordAccessed {
                patient_id: patient_id@,
                accessor_id: accessor_id@,
            },
            HealthEvent::ConsentGranted { patient_id, entity_id } => EventView::ConsentGranted {
                patient_id: patient_id@,
                entity_id: entity_id@,
            },
            HealthEvent::PoolCreated { entity_id, title, reward_amount } => EventView::PoolCreated {
                entity_id: entity_id@,
                title: title@,
                reward_amount: *reward_amount,
            },
            HealthEvent::RecordDeleted { patient_id } => EventView::RecordDeleted {
                patient_id: patient_id@,
            },
            HealthEvent::PoolDeleted { entity_id, title } => EventView::PoolDeleted {
                entity_id: entity_id@,
                title: title@,
            },
            HealthEvent::RecordUpdated { patient_id } => EventView::RecordUpdated {
                patient_id: patient_id@,
            },
            HealthEvent::PoolUpdated { entity_id, title } => EventView::PoolUpdated {
                entity_id: entity_id@,
                title: title@,
            },
            HealthEvent::PoolSubmission { patient_id, entity_id, status } => EventView::PoolSubmission {
                patient_id: patient_id@,
                entity_id: entity_id@,
                status: status@,
            },
            HealthEvent::SubmissionUpdated {
                patient_id,
                entity_id,
                status,
            } => EventView::SubmissionUpdated {
                patient_id: patient_id@,
                entity_id: entity_id@,
                status: status@,
            },
        }
    }
}

/// Why an operation was refused. A refused operation changes nothing.
#[derive(Debug, Clone, Copy, PartialEq, Eq, Structural)]
pub enum StoreError {
    /// The record, pool or submission does not exist.
    NotFound,
    /// The caller is not the owner that the operation requires.
    NotAuthorized,
}

} // verus!
