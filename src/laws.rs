use vstd::prelude::*;
use crate::table::{lemma_remove_key, lemma_upsert};
use crate::model::{StoreView, consent_key, fresh_record};
use crate::types::{RecordView, ResponseView};

verus! {

/// Storing a record and then reading it as its owner gives back exactly the
/// stored payload and type, stamped with the time of storing.
pub proof fn lemma_store_then_owner_read(
    s: StoreView,
    patient_id: Seq<char>,
    data: Seq<u8>,
    record_type: Seq<char>,
    now: u64,
)
    requires
        s.wf(),
    ensures
        s.after_store(patient_id, data, record_type, now).wf(),
        s.after_store(patient_id, data, record_type, now).read_result(patient_id, patient_id)
            == Some(ResponseView { data, record_type, timestamp: now }),
{
    lemma_upsert(s.records, fresh_record(patient_id, data, record_type, now));
}

/// A consent whose expiration has come gives no access, whatever the
/// record's access list holds.
pub proof fn lemma_expired_consent_denies(
    s: StoreView,
    patient_id: Seq<char>,
    entity_id: Seq<char>,
    now: u64,
)
    requires
        s.consent(patient_id, entity_id) is Some,
        now >= s.consent(patient_id, entity_id)->Some_0.expiration,
    ensures
        s.access_result(patient_id, entity_id, now) is None,
{
}

/// After the owner revokes an entity's access to an existing record, the
/// entity is nowhere on the record's access list and the pair has no
/// consent; either way, a later consented read by that entity gets nothing.
pub proof fn lemma_revoke_then_access(
    s: StoreView,
    patient_id: Seq<char>,
    entity_id: Seq<char>,
    now: u64,
)
    requires
        s.wf(),
    ensures
        s.after_revoke(patient_id, entity_id).wf(),
        s.has_record(patient_id) ==> {
            &&& s.after_revoke(patient_id, entity_id).record(patient_id) is Some
            &&& !s.after_revoke(patient_id, entity_id).record(patient_id)->Some_0.authorized_ids.contains(
                entity_id,
            )
            &&& s.after_revoke(patient_id, entity_id).consent(patient_id, entity_id) is None
        },
        s.after_revoke(patient_id, entity_id).access_result(patient_id, entity_id, now) is None,
{
    if let Some(r) = s.record(patient_id) {
        let kept = r.authorized_ids.filter(|x: Seq<char>| x != entity_id);
        let r1 = RecordView { authorized_ids: kept, ..r };
        assert(r.owner_id == patient_id) by {
            crate::table::lemma_key_pos(s.records, crate::table::key_pos(s.records, patient_id));
        }
        lemma_upsert(s.records, r1);
        lemma_remove_key(s.consents, consent_key(patient_id, entity_id));
        if kept.contains(entity_id) {
            let k = choose|k: int| 0 <= k < kept.len() && kept[k] == entity_id;
            r.authorized_ids.lemma_filter_pred(|x: Seq<char>| x != entity_id, k);
        }
    }
}

} // verus!
