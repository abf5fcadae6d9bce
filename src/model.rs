use vstd::prelude::*;
use vstd::utf8::encode_utf8;
use crate::table::{has_key, keys_unique, lookup, remove_key, upsert};
use crate::types::{
    ConsentView, EventView, PoolView, RecordView, ResponseView, SubmissionView, response_of,
};

verus! {

/// How long a consent lasts, in clock units: ninety days.
pub const CONSENT_WINDOW: u64 = 7_776_000;

/// The key a consent is filed under: the patient id, a colon, the entity id.
pub open spec fn consent_key(patient_id: Seq<char>, entity_id: Seq<char>) -> Seq<char> {
    patient_id + seq![':'] + entity_id
}

/// The whole state of a store: its four tables, each in insertion order, and
/// the events emitted so far.
pub struct StoreView {
    pub records: Seq<RecordView>,
    pub consents: Seq<(Seq<char>, ConsentView)>,
    pub pools: Seq<PoolView>,
    pub submissions: Seq<SubmissionView>,
    pub events: Seq<EventView>,
}

/// A record as `store_patient_data` creates it.
pub open spec fn fresh_record(
    patient_id: Seq<char>,
    data: Seq<u8>,
    record_type: Seq<char>,
    now: u64,
) -> RecordView {
    RecordView {
        data,
        timestamp: now,
        record_type,
        owner_id: patient_id,
        authorized_ids: Seq::empty(),
        is_anonymized: false,
        consent_proof: None,
    }
}

impl StoreView {
    /// The state of a new store.
    pub open spec fn empty() -> StoreView {
        StoreView {
            records: Seq::empty(),
            consents: Seq::empty(),
            pools: Seq::empty(),
            submissions: Seq::empty(),
            events: Seq::empty(),
        }
    }

    /// Every table has unique keys.
    pub open spec fn wf(self) -> bool {
        &&& keys_unique(self.records)
        &&& keys_unique(self.consents)
        &&& keys_unique(self.pools)
        &&& keys_unique(self.submissions)
    }

    pub open spec fn record(self, patient_id: Seq<char>) -> Option<RecordView> {
        lookup(self.records, patient_id)
    }

    pub open spec fn has_record(self, patient_id: Seq<char>) -> bool {
        has_key(self.records, patient_id)
    }

    pub open spec fn consent(self, patient_id: Seq<char>, entity_id: Seq<char>) -> Option<
        ConsentView,
    > {
        match lookup(self.consents, consent_key(patient_id, entity_id)) {
            Some(row) => Some(row.1),
            None => None,
        }
    }

    pub open spec fn pool(self, entity_id: Seq<char>) -> Option<PoolView> {
        lookup(self.pools, entity_id)
    }

    pub open spec fn submission(self, entity_id: Seq<char>, patient_id: Seq<char>) -> Option<
        SubmissionView,
    > {
        lookup(self.submissions, (entity_id, patient_id))
    }

    /// `s` with `record` in place of the record of the same patient.
    pub open spec fn with_record(self, record: RecordView) -> StoreView {
        StoreView { records: upsert(self.records, record), ..self }
    }

    pub open spec fn with_event(self, event: EventView) -> StoreView {
        StoreView { events: self.events.push(event), ..self }
    }

    /// The state after `store_patient_data`.
    pub open spec fn after_store(
        self,
        patient_id: Seq<char>,
        data: Seq<u8>,
        record_type: Seq<char>,
        now: u64,
    ) -> StoreView {
        self.with_record(fresh_record(patient_id, data, record_type, now)).with_event(
            EventView::RecordAdded { patient_id },
        )
    }

    /// What `get_patient_data` returns: the record's readable part, when the
    /// reader is its owner or is on its access list.
    pub open spec fn read_result(self, patient_id: Seq<char>, entity_id: Seq<char>) -> Option<
        ResponseView,
    > {
        match self.record(patient_id) {
            Some(r) => if r.owner_id == entity_id || r.authorized_ids.contains(entity_id) {
                Some(response_of(r))
            } else {
                None
            },
            None => None,
        }
    }

    /// What `access_patient_data` returns at time `now`: the payload, when a
    /// consent of the pair is still running and the entity is on the record's
    /// access list.
    pub open spec fn access_result(self, patient_id: Seq<char>, entity_id: Seq<char>, now: u64) -> Option<
        Seq<u8>,
    > {
        match (self.consent(patient_id, entity_id), self.record(patient_id)) {
            (Some(c), Some(r)) => if now < c.expiration && r.authorized_ids.contains(entity_id) {
                Some(r.data)
            } else {
                None
            },
            _ => None,
        }
    }

    /// The state after an authorized `revoke_access`: the entity leaves the
    /// record's access list, every occurrence of it, and the pair's consent
    /// is removed.
    pub open spec fn after_revoke(self, patient_id: Seq<char>, entity_id: Seq<char>) -> StoreView {
        match self.record(patient_id) {
            Some(r) => StoreView {
                consents: remove_key(self.consents, consent_key(patient_id, entity_id)),
                ..self.with_record(
                    RecordView {
                        authorized_ids: r.authorized_ids.filter(|x: Seq<char>| x != entity_id),
                        ..r
                    },
                )
            },
            None => self,
        }
    }
}

/// The consent that `add_consent` files at time `now`.
pub open spec fn fresh_consent(
    patient_id: Seq<char>,
    entity_id: Seq<char>,
    purpose: Seq<char>,
    proof: Seq<char>,
    now: u64,
) -> ConsentView {
    ConsentView {
        patient_id,
        entity_id,
        purpose,
        expiration: (now + CONSENT_WINDOW) as u64,
        proof,
    }
}

/// `key` begins with the text `prefix`, compared as UTF-8 bytes.
pub open spec fn has_text_prefix(key: Seq<char>, prefix: Seq<char>) -> bool {
    encode_utf8(prefix).is_prefix_of(encode_utf8(key))
}

impl StoreView {
    /// `entity_id` appended to the access list of the record of
    /// `patient_id`, if there is one.
    pub open spec fn with_access(self, patient_id: Seq<char>, entity_id: Seq<char>) -> StoreView {
        match self.record(patient_id) {
            Some(r) => self.with_record(
                RecordView { authorized_ids: r.authorized_ids.push(entity_id), ..r },
            ),
            None => self,
        }
    }

    /// The state after `add_consent` at time `now`: the pair's consent is
    /// filed (replacing an earlier one) and the entity joins the record's
    /// access list when the record exists.
    pub open spec fn after_add_consent(
        self,
        patient_id: Seq<char>,
        entity_id: Seq<char>,
        purpose: Seq<char>,
        proof: Seq<char>,
        now: u64,
    ) -> StoreView {
        let s = self.with_access(patient_id, entity_id);
        StoreView {
            consents: upsert(
                s.consents,
                (
                    consent_key(patient_id, entity_id),
                    fresh_consent(patient_id, entity_id, purpose, proof, now),
                ),
            ),
            ..s
        }
    }

    /// The state after a `grant_access` by the owner of an existing record.
    pub open spec fn after_grant(self, patient_id: Seq<char>, entity_id: Seq<char>) -> StoreView {
        self.with_access(patient_id, entity_id).with_event(
            EventView::ConsentGranted { patient_id, entity_id },
        )
    }

    /// The state after a successful `get_anonymized_data`: the record is
    /// marked anonymized and keeps the proof.
    pub open spec fn after_anonymized(self, patient_id: Seq<char>, proof: Seq<u8>) -> StoreView {
        match self.record(patient_id) {
            Some(r) => self.with_record(
                RecordView { is_anonymized: true, consent_proof: Some(proof), ..r },
            ),
            None => self,
        }
    }

    /// The state after a successful `update_patient_data`.
    pub open spec fn after_update(
        self,
        patient_id: Seq<char>,
        data: Seq<u8>,
        record_type: Seq<char>,
        now: u64,
    ) -> StoreView {
        match self.record(patient_id) {
            Some(r) => self.with_record(RecordView { data, record_type, timestamp: now, ..r }).with_event(
                EventView::RecordUpdated { patient_id },
            ),
            None => self,
        }
    }

    /// The state after a successful `delete_patient_data`: the record is gone,
    /// and so is every consent whose key begins with the patient id and a
    /// colon.
    pub open spec fn after_delete(self, patient_id: Seq<char>) -> StoreView {
        StoreView {
            records: remove_key(self.records, patient_id),
            consents: self.consents.filter(
                |row: (Seq<char>, ConsentView)|
                    !has_text_prefix(row.0, patient_id + seq![':']),
            ),
            events: self.events.push(EventView::RecordDeleted { patient_id }),
            ..self
        }
    }
}

/// A pool that is open for submissions.
pub open spec fn is_active(p: PoolView) -> bool {
    p.status == "active"@
}

/// Pools ordered by creation time, newest first.
pub open spec fn newest_first(s: Seq<PoolView>) -> bool {
    forall|i: int, j: int| 0 <= i < j < s.len() ==> s[i].created_at >= s[j].created_at
}

/// A pool as `create_research_pool` makes it at time `now`.
pub open spec fn fresh_pool(
    entity_id: Seq<char>,
    title: Seq<char>,
    description: Seq<char>,
    reward_amount: u64,
    now: u64,
) -> PoolView {
    PoolView { title, description, reward_amount, entity_id, created_at: now, status: "active"@ }
}

/// The given value, or `d` when none is given.
pub open spec fn or_keep<T>(o: Option<T>, d: T) -> T {
    match o {
        Some(v) => v,
        None => d,
    }
}

pub open spec fn text_opt_view(o: Option<String>) -> Option<Seq<char>> {
    match o {
        Some(s) => Some(s@),
        None => None,
    }
}

/// `p` with each given field replaced.
pub open spec fn updated_pool(
    p: PoolView,
    title: Option<Seq<char>>,
    description: Option<Seq<char>>,
    reward_amount: Option<u64>,
    status: Option<Seq<char>>,
) -> PoolView {
    PoolView {
        title: or_keep(title, p.title),
        description: or_keep(description, p.description),
        reward_amount: or_keep(reward_amount, p.reward_amount),
        status: or_keep(status, p.status),
        ..p
    }
}

impl StoreView {
    /// The pools open for submissions, in the store's order.
    pub open spec fn active_pools(self) -> Seq<PoolView> {
        self.pools.filter(|p: PoolView| is_active(p))
    }

    /// The state after `create_research_pool` at time `now`.
    pub open spec fn after_create_pool(
        self,
        entity_id: Seq<char>,
        title: Seq<char>,
        description: Seq<char>,
        reward_amount: u64,
        now: u64,
    ) -> StoreView {
        StoreView {
            pools: upsert(self.pools, fresh_pool(entity_id, title, description, reward_amount, now)),
            ..self
        }.with_event(EventView::PoolCreated { entity_id, title, reward_amount })
    }

    /// The state after `submit_to_pool` by a caller whose patient id is
    /// `patient_id`, at time `now`.
    pub open spec fn after_submit(self, entity_id: Seq<char>, patient_id: Seq<char>, now: u64) -> StoreView {
        StoreView {
            submissions: upsert(
                self.submissions,
                SubmissionView { patient_id, entity_id, submitted_at: now, status: "pending"@ },
            ),
            ..self
        }.with_event(EventView::PoolSubmission { patient_id, entity_id, status: "pending"@ })
    }
}

} // verus!
