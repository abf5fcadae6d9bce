use vstd::prelude::*;
use vstd::utf8::encode_utf8;
use crate::identity::{hex_of, identity_matches, is_identity, patient_id_from_identity};
use crate::table::{
    Keyed,
    has_key, key_pos, keys_unique, lemma_key_pos, lemma_remove_key, lemma_upsert, lemma_upsert_at,
    lookup, remove_key, upsert,
};
use crate::types::{
    ConsentPolicy, ConsentView, EventView, HealthEvent, HealthRecord, PatientDataResponse, PoolSubmission,
    PoolView, RecordView, ResearchPool, StoreError, SubmissionView, response_of, strings_view,
};
use crate::model::{
    CONSENT_WINDOW, StoreView, consent_key, fresh_pool, fresh_record, has_text_prefix, is_active,
    newest_first, text_opt_view, updated_pool,
};

verus! {

/// The store: records, consents, pools and submissions, and the events
/// emitted since they were last taken.
pub struct HealthDataStore {
    pub(crate) records: Vec<HealthRecord>,
    pub(crate) consent_policies: Vec<(String, ConsentPolicy)>,
    pub(crate) research_pools: Vec<ResearchPool>,
    pub(crate) pool_submissions: Vec<PoolSubmission>,
    pub(crate) events: Vec<HealthEvent>,
}

impl View for HealthDataStore {
    type V = StoreView;

    closed spec fn view(&self) -> StoreView {
        StoreView {
            records: self.records@.map_values(|r: HealthRecord| r@),
            consents: self.consent_policies@.map_values(|c: (String, ConsentPolicy)| (c.0@, c.1@)),
            pools: self.research_pools@.map_values(|p: ResearchPool| p@),
            submissions: self.pool_submissions@.map_values(|s: PoolSubmission| s@),
            events: self.events@.map_values(|e: HealthEvent| e@),
        }
    }
}

impl HealthDataStore {
    /// An empty store.
    pub fn init() -> (r: HealthDataStore)
        ensures
            r@.wf(),
            r@ == StoreView::empty(),
    {
        let r = HealthDataStore {
            records: Vec::new(),
            consent_policies: Vec::new(),
            research_pools: Vec::new(),
            pool_submissions: Vec::new(),
            events: Vec::new(),
        };
        proof {
            assert(r@.records =~= Seq::<RecordView>::empty());
            assert(r@.consents =~= Seq::<(Seq<char>, ConsentView)>::empty());
            assert(r@.pools =~= Seq::<PoolView>::empty());
            assert(r@.submissions =~= Seq::<SubmissionView>::empty());
            assert(r@.events =~= Seq::<EventView>::empty());
        }
        r
    }

    /// The events emitted so far, oldest first.
    pub fn events(&self) -> (r: &Vec<HealthEvent>)
        ensures
            r@.map_values(|e: HealthEvent| e@) == self@.events,
    {
        &self.events
    }

    /// Hands the emitted events to the caller and forgets them.
    pub fn take_events(&mut self) -> (r: Vec<HealthEvent>)
        ensures
            r@.map_values(|e: HealthEvent| e@) == old(self)@.events,
            final(self)@ == (StoreView { events: Seq::empty(), ..old(self)@ }),
    {
        let mut taken: Vec<HealthEvent> = Vec::new();
        std::mem::swap(&mut taken, &mut self.events);
        proof {
            assert(self@.events =~= Seq::<EventView>::empty());
            assert(self@ =~= (StoreView { events: Seq::empty(), ..old(self)@ }));
        }
        taken
    }

    fn emit(&mut self, event: HealthEvent)
        ensures
            final(self)@ == old(self)@.with_event(event@),
    {
        self.events.push(event);
        proof {
            assert(self@.events =~= old(self)@.events.push(event@));
        }
    }

    /// The position of the record of `patient_id`.
    fn find_record(&self, patient_id: &String) -> (r: Option<usize>)
        requires
            self@.wf(),
        ensures
            match r {
                Some(i) => i < self@.records.len() && self@.has_record(patient_id@) && key_pos(
                    self@.records,
                    patient_id@,
                ) == i && self@.record(patient_id@) == Some(self@.records[i as int]),
                None => !self@.has_record(patient_id@) && self@.record(patient_id@) is None,
            },
    {
        let mut i: usize = 0;
        while i < self.records.len()
            invariant
                self@.wf(),
                i <= self.records@.len(),
                forall|j: int| 0 <= j < i ==> self@.records[j].owner_id != patient_id@,
            decreases self.records@.len() - i,
        {
            assert(self@.records[i as int] == self.records@[i as int]@);
            if self.records[i].owner_id == *patient_id {
                proof {
                    lemma_key_pos(self@.records, i as int);
                }
                return Some(i);
            }
            i = i + 1;
        }
        None
    }

    /// Creates or replaces the record of `patient_id`, with an empty access
    /// list and timestamp `now`.
    pub fn store_patient_data(
        &mut self,
        patient_id: String,
        encrypted_data: Vec<u8>,
        record_type: String,
        now: u64,
    ) -> (r: Result<(), StoreError>)
        requires
            old(self)@.wf(),
        ensures
            r is Ok,
            final(self)@.wf(),
            final(self)@ == old(self)@.after_store(patient_id@, encrypted_data@, record_type@, now),
    {
        let ghost fresh = fresh_record(patient_id@, encrypted_data@, record_type@, now);
        let record = HealthRecord {
            data: encrypted_data,
            timestamp: now,
            record_type,
            owner_id: patient_id.clone(),
            authorized_ids: Vec::new(),
            is_anonymized: false,
            consent_proof: None,
        };
        proof {
            assert(record@.authorized_ids =~= Seq::<Seq<char>>::empty());
            assert(record@ == fresh);
            lemma_upsert(old(self)@.records, fresh);
        }
        match self.find_record(&patient_id) {
            Some(i) => {
                self.records.set(i, record);
                proof {
                    assert(self@.records =~= upsert(old(self)@.records, fresh));
                }
            },
            None => {
                self.records.push(record);
                proof {
                    assert(self@.records =~= upsert(old(self)@.records, fresh));
                }
            },
        }
        self.emit(HealthEvent::RecordAdded { patient_id });
        Ok(())
    }
}

/// `id` occurs in `ids`.
fn list_contains(ids: &Vec<String>, id: &String) -> (r: bool)
    ensures
        r == strings_view(ids@).contains(id@),
{
    let mut i: usize = 0;
    while i < ids.len()
        invariant
            i <= ids@.len(),
            forall|j: int| 0 <= j < i ==> ids@[j]@ != id@,
        decreases ids@.len() - i,
    {
        if ids[i] == *id {
            proof {
                assert(strings_view(ids@)[i as int] == id@);
            }
            return true;
        }
        i = i + 1;
    }
    proof {
        if strings_view(ids@).contains(id@) {
            let k = choose|k: int| 0 <= k < strings_view(ids@).len() && strings_view(ids@)[k] == id@;
            assert(ids@[k]@ == id@);
        }
    }
    false
}

/// A copy of a byte buffer.
fn copy_bytes(b: &Vec<u8>) -> (r: Vec<u8>)
    ensures
        r@ == b@,
{
    let r = b.clone();
    proof {
        assert(r@ =~= b@);
    }
    r
}

/// The key a consent of the pair is filed under.
fn make_consent_key(patient_id: &str, entity_id: &str) -> (r: String)
    ensures
        r@ == consent_key(patient_id@, entity_id@),
{
    let mut k = patient_id.to_owned();
    k.append(":");
    k.append(entity_id);
    proof {
        reveal_strlit(":");
        assert(k@ =~= consent_key(patient_id@, entity_id@));
    }
    k
}

impl HealthDataStore {
    /// The position of the consent filed under `key`.
    fn find_consent(&self, key: &String) -> (r: Option<usize>)
        requires
            self@.wf(),
        ensures
            match r {
                Some(i) => i < self@.consents.len() && has_key(self@.consents, key@) && key_pos(
                    self@.consents,
                    key@,
                ) == i && lookup(self@.consents, key@) == Some(self@.consents[i as int]),
                None => !has_key(self@.consents, key@) && lookup(self@.consents, key@) is None,
            },
    {
        let mut i: usize = 0;
        while i < self.consent_policies.len()
            invariant
                self@.wf(),
                i <= self.consent_policies@.len(),
                forall|j: int| 0 <= j < i ==> self@.consents[j].0 != key@,
            decreases self.consent_policies@.len() - i,
        {
            assert(self@.consents[i as int].0 == self.consent_policies@[i as int].0@);
            if self.consent_policies[i].0 == *key {
                proof {
                    lemma_key_pos(self@.consents, i as int);
                }
                return Some(i);
            }
            i = i + 1;
        }
        None
    }

    /// The position of the pool of `entity_id`.
    fn find_pool(&self, entity_id: &String) -> (r: Option<usize>)
        requires
            self@.wf(),
        ensures
            match r {
                Some(i) => i < self@.pools.len() && has_key(self@.pools, entity_id@) && key_pos(
                    self@.pools,
                    entity_id@,
                ) == i && self@.pool(entity_id@) == Some(self@.pools[i as int]),
                None => !has_key(self@.pools, entity_id@) && self@.pool(entity_id@) is None,
            },
    {
        let mut i: usize = 0;
        while i < self.research_pools.len()
            invariant
                self@.wf(),
                i <= self.research_pools@.len(),
                forall|j: int| 0 <= j < i ==> self@.pools[j].entity_id != entity_id@,
            decreases self.research_pools@.len() - i,
        {
            assert(self@.pools[i as int] == self.research_pools@[i as int]@);
            if self.research_pools[i].entity_id == *entity_id {
                proof {
                    lemma_key_pos(self@.pools, i as int);
                }
                return Some(i);
            }
            i = i + 1;
        }
        None
    }

    /// The position of the submission of `patient_id` to the pool of `entity_id`.
    fn find_submission(&self, entity_id: &String, patient_id: &String) -> (r: Option<usize>)
        requires
            self@.wf(),
        ensures
            match r {
                Some(i) => i < self@.submissions.len() && has_key(
                    self@.submissions,
                    (entity_id@, patient_id@),
                ) && key_pos(self@.submissions, (entity_id@, patient_id@)) == i && self@.submission(
                    entity_id@,
                    patient_id@,
                ) == Some(self@.submissions[i as int]),
                None => !has_key(self@.submissions, (entity_id@, patient_id@)) && self@.submission(
                    entity_id@,
                    patient_id@,
                ) is None,
            },
    {
        let mut i: usize = 0;
        while i < self.pool_submissions.len()
            invariant
                self@.wf(),
                i <= self.pool_submissions@.len(),
                forall|j: int|
                    0 <= j < i ==> (self@.submissions[j].entity_id, self@.submissions[j].patient_id)
                        != (entity_id@, patient_id@),
            decreases self.pool_submissions@.len() - i,
        {
            assert(self@.submissions[i as int] == self.pool_submissions@[i as int]@);
            if self.pool_submissions[i].entity_id == *entity_id && self.pool_submissions[i].patient_id
                == *patient_id {
                proof {
                    lemma_key_pos(self@.submissions, i as int);
                }
                return Some(i);
            }
            i = i + 1;
        }
        None
    }

    /// Reads a record as `entity_id`: granted to the record's owner and to
    /// every entity on its access list, each such read emitting
    /// `RecordAccessed`. Anyone else, or a missing record, gets `None`.
    pub fn get_patient_data(&mut self, patient_id: &str, entity_id: &str) -> (r: Result<
        Option<PatientDataResponse>,
        StoreError,
    >)
        requires
            old(self)@.wf(),
        ensures
            final(self)@.wf(),
            r is Ok,
            match r {
                Ok(Some(resp)) => old(self)@.read_result(patient_id@, entity_id@) == Some(resp@)
                    && final(self)@ == old(self)@.with_event(
                    EventView::RecordAccessed { patient_id: patient_id@, accessor_id: entity_id@ },
                ),
                Ok(None) => old(self)@.read_result(patient_id@, entity_id@) is None && final(self)@
                    == old(self)@,
                Err(_) => false,
            },
    {
        let p = patient_id.to_owned();
        let e = entity_id.to_owned();
        match self.find_record(&p) {
            Some(i) => {
                assert(self@.records[i as int] == self.records@[i as int]@);
                let rec = &self.records[i];
                if rec.owner_id == e || list_contains(&rec.authorized_ids, &e) {
                    let resp = PatientDataResponse {
                        data: copy_bytes(&rec.data),
                        record_type: rec.record_type.clone(),
                        timestamp: rec.timestamp,
                    };
                    assert(resp@ == response_of(self@.records[i as int]));
                    self.emit(HealthEvent::RecordAccessed { patient_id: p, accessor_id: e });
                    Ok(Some(resp))
                } else {
                    Ok(None)
                }
            },
            None => Ok(None),
        }
    }

    /// Reads a record's payload under consent at time `now`: a consent of the
    /// pair must still run (`now` before its expiration) and the entity must
    /// be on the record's access list. A successful read emits
    /// `RecordAccessed`.
    pub fn access_patient_data(&mut self, patient_id: &str, entity_id: &str, now: u64) -> (r: Result<
        Option<Vec<u8>>,
        StoreError,
    >)
        requires
            old(self)@.wf(),
        ensures
            final(self)@.wf(),
            r is Ok,
            match r {
                Ok(Some(data)) => old(self)@.access_result(patient_id@, entity_id@, now) == Some(
                    data@,
                ) && final(self)@ == old(self)@.with_event(
                    EventView::RecordAccessed { patient_id: patient_id@, accessor_id: entity_id@ },
                ),
                Ok(None) => old(self)@.access_result(patient_id@, entity_id@, now) is None
                    && final(self)@ == old(self)@,
                Err(_) => false,
            },
    {
        let key = make_consent_key(patient_id, entity_id);
        let c = match self.find_consent(&key) {
            Some(c) => c,
            None => {
                return Ok(None);
            },
        };
        assert(self@.consents[c as int].1 == self.consent_policies@[c as int].1@);
        if self.consent_policies[c].1.expiration <= now {
            return Ok(None);
        }
        let p = patient_id.to_owned();
        let e = entity_id.to_owned();
        match self.find_record(&p) {
            Some(i) => {
                assert(self@.records[i as int] == self.records@[i as int]@);
                if list_contains(&self.records[i].authorized_ids, &e) {
                    let data = copy_bytes(&self.records[i].data);
                    self.emit(HealthEvent::RecordAccessed { patient_id: p, accessor_id: e });
                    Ok(Some(data))
                } else {
                    Ok(None)
                }
            },
            None => Ok(None),
        }
    }
}

/// `ids` without any occurrence of `id`, in the same order.
fn without_id(ids: &Vec<String>, id: &String) -> (r: Vec<String>)
    ensures
        strings_view(r@) == strings_view(ids@).filter(|x: Seq<char>| x != id@),
{
    let ghost pred = |x: Seq<char>| x != id@;
    let mut out: Vec<String> = Vec::new();
    let mut i: usize = 0;
    while i < ids.len()
        invariant
            i <= ids@.len(),
            pred == (|x: Seq<char>| x != id@),
            strings_view(out@) == strings_view(ids@).take(i as int).filter(pred),
        decreases ids@.len() - i,
    {
        proof {
            let v = strings_view(ids@);
            assert(v.take(i + 1) =~= v.take(i as int).push(v[i as int]));
            v.take(i as int).lemma_filter_push(v[i as int], pred);
        }
        if ids[i] != *id {
            let s = ids[i].clone();
            let ghost before = out@;
            let ghost sv = s@;
            out.push(s);
            proof {
                assert(strings_view(out@) =~= strings_view(before).push(sv));
            }
        }
        i = i + 1;
    }
    proof {
        assert(strings_view(ids@).take(ids@.len() as int) =~= strings_view(ids@));
    }
    out
}

/// `key` begins with `prefix`, byte for byte.
fn starts_with_text(key: &str, prefix: &str) -> (r: bool)
    ensures
        r == has_text_prefix(key@, prefix@),
{
    let k = key.as_bytes();
    let p = prefix.as_bytes();
    if p.len() > k.len() {
        return false;
    }
    let mut i: usize = 0;
    while i < p.len()
        invariant
            k@ == encode_utf8(key@),
            p@ == encode_utf8(prefix@),
            p@.len() <= k@.len(),
            i <= p@.len(),
            forall|j: int| 0 <= j < i ==> p@[j] == k@[j],
        decreases p@.len() - i,
    {
        if p[i] != k[i] {
            proof {
                assert(k@.subrange(0, p@.len() as int)[i as int] != p@[i as int]);
            }
            return false;
        }
        i = i + 1;
    }
    proof {
        assert(p@ =~= k@.subrange(0, p@.len() as int));
    }
    true
}

impl ConsentPolicy {
    /// A field-by-field copy.
    pub fn copy(&self) -> (r: ConsentPolicy)
        ensures
            r@ == self@,
    {
        ConsentPolicy {
            patient_id: self.patient_id.clone(),
            entity_id: self.entity_id.clone(),
            purpose: self.purpose.clone(),
            expiration: self.expiration,
            proof: self.proof.clone(),
        }
    }
}

impl HealthDataStore {
    /// Puts `rec` in place of the record at `i`, which has the same key.
    fn replace_record(&mut self, i: usize, rec: HealthRecord)
        requires
            old(self)@.wf(),
            i < old(self)@.records.len(),
            rec@.owner_id == old(self)@.records[i as int].owner_id,
        ensures
            final(self)@.wf(),
            final(self)@ == old(self)@.with_record(rec@),
    {
        proof {
            lemma_upsert_at(old(self)@.records, i as int, rec@);
            lemma_upsert(old(self)@.records, rec@);
        }
        self.records.set(i, rec);
        proof {
            assert(self@.records =~= old(self)@.records.update(i as int, rec@));
            assert(self@ =~= old(self)@.with_record(rec@));
        }
    }

    /// Files `policy` under `key`, replacing a consent filed there before.
    fn put_consent(&mut self, key: String, policy: ConsentPolicy)
        requires
            old(self)@.wf(),
        ensures
            final(self)@.wf(),
            final(self)@ == (StoreView {
                consents: upsert(old(self)@.consents, (key@, policy@)),
                ..old(self)@
            }),
    {
        let ghost row = (key@, policy@);
        proof {
            lemma_upsert(old(self)@.consents, row);
        }
        match self.find_consent(&key) {
            Some(i) => {
                proof {
                    lemma_upsert_at(old(self)@.consents, i as int, row);
                }
                self.consent_policies.set(i, (key, policy));
                proof {
                    assert(self@.consents =~= old(self)@.consents.update(i as int, row));
                }
            },
            None => {
                self.consent_policies.push((key, policy));
                proof {
                    assert(self@.consents =~= old(self)@.consents.push(row));
                }
            },
        }
        proof {
            assert(self@ =~= (StoreView {
                consents: upsert(old(self)@.consents, row),
                ..old(self)@
            }));
        }
    }

    /// Appends `entity_id` to the access list of the record of `patient_id`,
    /// if there is one.
    fn add_access(&mut self, patient_id: &String, entity_id: &String)
        requires
            old(self)@.wf(),
        ensures
            final(self)@.wf(),
            final(self)@ == old(self)@.with_access(patient_id@, entity_id@),
    {
        if let Some(i) = self.find_record(patient_id) {
            let mut rec = self.records.remove(i);
            proof {
                assert(rec@ == old(self)@.records[i as int]);
            }
            rec.authorized_ids.push(entity_id.clone());
            proof {
                assert(rec@.authorized_ids =~= old(self)@.records[i as int].authorized_ids.push(
                    entity_id@,
                ));
            }
            self.records.insert(i, rec);
            proof {
                let r0 = old(self)@.records[i as int];
                let r1 = RecordView { authorized_ids: r0.authorized_ids.push(entity_id@), ..r0 };
                assert(rec@ == r1);
                lemma_upsert_at(old(self)@.records, i as int, r1);
                lemma_upsert(old(self)@.records, r1);
                assert(self@.records =~= old(self)@.records.update(i as int, r1));
                assert(self@ =~= old(self)@.with_record(r1));
            }
        }
    }

    /// Files a consent of `entity_id` to read the record of `patient_id`,
    /// running from `now` for `CONSENT_WINDOW`, and puts the entity on the
    /// record's access list when the record exists. Anyone may call it.
    pub fn add_consent(
        &mut self,
        patient_id: String,
        entity_id: String,
        purpose: String,
        starknet_proof: String,
        now: u64,
    ) -> (r: Result<(), StoreError>)
        requires
            old(self)@.wf(),
            now <= u64::MAX - CONSENT_WINDOW,
        ensures
            r is Ok,
            final(self)@.wf(),
            final(self)@ == old(self)@.after_add_consent(
                patient_id@,
                entity_id@,
                purpose@,
                starknet_proof@,
                now,
            ),
    {
        let key = make_consent_key(patient_id.as_str(), entity_id.as_str());
        self.add_access(&patient_id, &entity_id);
        let consent = ConsentPolicy {
            patient_id,
            entity_id,
            purpose,
            expiration: now + CONSENT_WINDOW,
            proof: starknet_proof,
        };
        self.put_consent(key, consent);
        Ok(())
    }

    /// Lets the record's owner add `entity_id` to its access list (a repeat
    /// grant adds a repeat entry) and emits `ConsentGranted`. A missing record
    /// is left alone and nothing is emitted.
    pub fn grant_access(&mut self, patient_id: String, entity_id: String, caller: &[u8]) -> (r:
        Result<(), StoreError>)
        requires
            old(self)@.wf(),
        ensures
            final(self)@.wf(),
            match old(self)@.record(patient_id@) {
                None => r is Ok && final(self)@ == old(self)@,
                Some(rec) => if identity_matches(rec.owner_id, caller@) {
                    r is Ok && final(self)@ == old(self)@.after_grant(patient_id@, entity_id@)
                } else {
                    r == Err::<(), StoreError>(StoreError::NotAuthorized) && final(self)@ == old(
                        self,
                    )@
                },
            },
    {
        match self.find_record(&patient_id) {
            None => Ok(()),
            Some(i) => {
                assert(self@.records[i as int] == self.records@[i as int]@);
                if !is_identity(self.records[i].owner_id.as_str(), caller) {
                    return Err(StoreError::NotAuthorized);
                }
                self.add_access(&patient_id, &entity_id);
                self.emit(HealthEvent::ConsentGranted { patient_id, entity_id });
                Ok(())
            },
        }
    }
}

impl HealthDataStore {
    /// Lets the record's owner take `entity_id` off its access list, every
    /// occurrence of it, and drop the pair's consent. A missing record is
    /// left alone.
    pub fn revoke_access(&mut self, patient_id: &str, entity_id: &str, caller: &[u8]) -> (r: Result<
        (),
        StoreError,
    >)
        requires
            old(self)@.wf(),
        ensures
            final(self)@.wf(),
            match old(self)@.record(patient_id@) {
                None => r is Ok && final(self)@ == old(self)@,
                Some(rec) => if identity_matches(rec.owner_id, caller@) {
                    r is Ok && final(self)@ == old(self)@.after_revoke(patient_id@, entity_id@)
                } else {
                    r == Err::<(), StoreError>(StoreError::NotAuthorized) && final(self)@ == old(
                        self,
                    )@
                },
            },
    {
        let p = patient_id.to_owned();
        let e = entity_id.to_owned();
        let i = match self.find_record(&p) {
            None => {
                return Ok(());
            },
            Some(i) => i,
        };
        assert(self@.records[i as int] == self.records@[i as int]@);
        if !is_identity(self.records[i].owner_id.as_str(), caller) {
            return Err(StoreError::NotAuthorized);
        }
        let mut rec = self.records.remove(i);
        let ids = without_id(&rec.authorized_ids, &e);
        rec.authorized_ids = ids;
        self.records.insert(i, rec);
        proof {
            let r0 = old(self)@.records[i as int];
            let r1 = RecordView {
                authorized_ids: r0.authorized_ids.filter(|x: Seq<char>| x != entity_id@),
                ..r0
            };
            assert(rec@ == r1);
            lemma_upsert_at(old(self)@.records, i as int, r1);
            lemma_upsert(old(self)@.records, r1);
            assert(self@.records =~= old(self)@.records.update(i as int, r1));
            assert(self@ =~= old(self)@.with_record(r1));
        }
        let ghost mid = self@;
        let key = make_consent_key(patient_id, entity_id);
        proof {
            lemma_remove_key(mid.consents, key@);
        }
        if let Some(c) = self.find_consent(&key) {
            proof {
                lemma_upsert_at(mid.consents, c as int, mid.consents[c as int]);
            }
            self.consent_policies.remove(c);
            proof {
                assert(self@.consents =~= mid.consents.remove(c as int));
            }
        }
        proof {
            assert(self@ =~= (StoreView { consents: remove_key(mid.consents, key@), ..mid }));
        }
        Ok(())
    }

    /// Hands the payload to an entity on the record's access list for
    /// anonymized use, marking the record anonymized and keeping `proof`.
    /// Anyone else, or a missing record, gets `None` and changes nothing.
    pub fn get_anonymized_data(
        &mut self,
        patient_id: &str,
        entity_id: &str,
        anonymization_proof: Vec<u8>,
    ) -> (r: Result<Option<Vec<u8>>, StoreError>)
        requires
            old(self)@.wf(),
        ensures
            final(self)@.wf(),
            r is Ok,
            match old(self)@.record(patient_id@) {
                Some(rec) => if rec.authorized_ids.contains(entity_id@) {
                    (match r {
                        Ok(Some(d)) => d@ == rec.data,
                        _ => false,
                    }) && final(self)@ == old(self)@.after_anonymized(
                        patient_id@,
                        anonymization_proof@,
                    )
                } else {
                    r == Ok::<Option<Vec<u8>>, StoreError>(None) && final(self)@ == old(self)@
                },
                None => r == Ok::<Option<Vec<u8>>, StoreError>(None) && final(self)@ == old(self)@,
            },
    {
        let p = patient_id.to_owned();
        let e = entity_id.to_owned();
        let i = match self.find_record(&p) {
            None => {
                return Ok(None);
            },
            Some(i) => i,
        };
        assert(self@.records[i as int] == self.records@[i as int]@);
        if !list_contains(&self.records[i].authorized_ids, &e) {
            return Ok(None);
        }
        let mut rec = self.records.remove(i);
        rec.is_anonymized = true;
        rec.consent_proof = Some(anonymization_proof);
        let data = copy_bytes(&rec.data);
        self.records.insert(i, rec);
        proof {
            let r0 = old(self)@.records[i as int];
            let r1 = RecordView {
                is_anonymized: true,
                consent_proof: Some(anonymization_proof@),
                ..r0
            };
            assert(rec@ == r1);
            lemma_upsert_at(old(self)@.records, i as int, r1);
            lemma_upsert(old(self)@.records, r1);
            assert(self@.records =~= old(self)@.records.update(i as int, r1));
            assert(self@ =~= old(self)@.with_record(r1));
        }
        Ok(Some(data))
    }

    /// Lets the record's owner replace its payload and type; the timestamp
    /// becomes `now`, and `RecordUpdated` is emitted.
    pub fn update_patient_data(
        &mut self,
        patient_id: &str,
        new_data: Vec<u8>,
        record_type: String,
        caller: &[u8],
        now: u64,
    ) -> (r: Result<(), StoreError>)
        requires
            old(self)@.wf(),
        ensures
            final(self)@.wf(),
            match old(self)@.record(patient_id@) {
                None => r == Err::<(), StoreError>(StoreError::NotFound) && final(self)@ == old(
                    self,
                )@,
                Some(rec) => if identity_matches(rec.owner_id, caller@) {
                    r is Ok && final(self)@ == old(self)@.after_update(
                        patient_id@,
                        new_data@,
                        record_type@,
                        now,
                    )
                } else {
                    r == Err::<(), StoreError>(StoreError::NotAuthorized) && final(self)@ == old(
                        self,
                    )@
                },
            },
    {
        let p = patient_id.to_owned();
        let i = match self.find_record(&p) {
            None => {
                return Err(StoreError::NotFound);
            },
            Some(i) => i,
        };
        assert(self@.records[i as int] == self.records@[i as int]@);
        if !is_identity(self.records[i].owner_id.as_str(), caller) {
            return Err(StoreError::NotAuthorized);
        }
        let mut rec = self.records.remove(i);
        let ghost nd = new_data@;
        let ghost nt = record_type@;
        rec.data = new_data;
        rec.record_type = record_type;
        rec.timestamp = now;
        self.records.insert(i, rec);
        proof {
            let r0 = old(self)@.records[i as int];
            let r1 = RecordView { data: nd, record_type: nt, timestamp: now, ..r0 };
            assert(rec@ == r1);
            lemma_upsert_at(old(self)@.records, i as int, r1);
            lemma_upsert(old(self)@.records, r1);
            assert(self@.records =~= old(self)@.records.update(i as int, r1));
            assert(self@ =~= old(self)@.with_record(r1));
        }
        self.emit(HealthEvent::RecordUpdated { patient_id: p });
        Ok(())
    }
}

impl HealthDataStore {
    /// The consents whose key does not begin with `prefix`, in order.
    fn consents_without_prefix(&self, prefix: &str) -> (r: Vec<(String, ConsentPolicy)>)
        requires
            self@.wf(),
        ensures
            r@.map_values(|c: (String, ConsentPolicy)| (c.0@, c.1@)) == self@.consents.filter(
                |row: (Seq<char>, ConsentView)| !has_text_prefix(row.0, prefix@),
            ),
            keys_unique(
                self@.consents.filter(
                    |row: (Seq<char>, ConsentView)| !has_text_prefix(row.0, prefix@),
                ),
            ),
    {
        let ghost pred = |row: (Seq<char>, ConsentView)| !has_text_prefix(row.0, prefix@);
        let ghost all = self@.consents;
        let mut kept: Vec<(String, ConsentPolicy)> = Vec::new();
        let mut i: usize = 0;
        while i < self.consent_policies.len()
            invariant
                self@.wf(),
                all == self@.consents,
                i <= all.len(),
                pred == (|row: (Seq<char>, ConsentView)| !has_text_prefix(row.0, prefix@)),
                kept@.map_values(|c: (String, ConsentPolicy)| (c.0@, c.1@)) == all.take(
                    i as int,
                ).filter(pred),
                keys_unique(all.take(i as int).filter(pred)),
                forall|a: int|
                    0 <= a < all.take(i as int).filter(pred).len() ==> exists|j: int|
                        0 <= j < i && all[j] == #[trigger] all.take(i as int).filter(pred)[a],
            decreases all.len() - i,
        {
            let ghost before = all.take(i as int).filter(pred);
            proof {
                assert(all.take(i + 1) =~= all.take(i as int).push(all[i as int]));
                all.take(i as int).lemma_filter_push(all[i as int], pred);
            }
            assert(all[i as int] == (self.consent_policies@[i as int].0@,
            self.consent_policies@[i as int].1@));
            if !starts_with_text(self.consent_policies[i].0.as_str(), prefix) {
                let row = (self.consent_policies[i].0.clone(), self.consent_policies[i].1.copy());
                let ghost kb = kept@;
                kept.push(row);
                proof {
                    assert(kept@.map_values(|c: (String, ConsentPolicy)| (c.0@, c.1@)) =~= kb.map_values(
                        |c: (String, ConsentPolicy)| (c.0@, c.1@),
                    ).push(all[i as int]));
                    let after = all.take(i + 1).filter(pred);
                    assert(after == before.push(all[i as int]));
                    assert forall|a: int, b: int|
                        0 <= a < after.len() && 0 <= b < after.len() && after[a].0 == after[b].0 implies a
                        == b by {
                        if a < before.len() && b == before.len() {
                            let j = choose|j: int| 0 <= j < i && all[j] == before[a];
                            assert(all[j].0 == all[i as int].0);
                        } else if b < before.len() && a == before.len() {
                            let j = choose|j: int| 0 <= j < i && all[j] == before[b];
                            assert(all[j].0 == all[i as int].0);
                        }
                    }
                    assert forall|a: int| 0 <= a < after.len() implies exists|j: int|
                        0 <= j < i + 1 && all[j] == #[trigger] after[a] by {
                        if a < before.len() {
                            let j = choose|j: int| 0 <= j < i && all[j] == before[a];
                            assert(all[j] == after[a]);
                        } else {
                            assert(all[i as int] == after[a]);
                        }
                    }
                }
            } else {
                proof {
                    let after = all.take(i + 1).filter(pred);
                    assert(after == before);
                }
            }
            i = i + 1;
        }
        proof {
            assert(all.take(all.len() as int) =~= all);
        }
        kept
    }

    /// Lets the record's owner delete it. Every consent whose key begins with
    /// the patient id and a colon goes with it, and `RecordDeleted` is
    /// emitted.
    pub fn delete_patient_data(&mut self, patient_id: &str, caller: &[u8]) -> (r: Result<
        (),
        StoreError,
    >)
        requires
            old(self)@.wf(),
        ensures
            final(self)@.wf(),
            match old(self)@.record(patient_id@) {
                None => r == Err::<(), StoreError>(StoreError::NotFound) && final(self)@ == old(
                    self,
                )@,
                Some(rec) => if identity_matches(rec.owner_id, caller@) {
                    r is Ok && final(self)@ == old(self)@.after_delete(patient_id@)
                } else {
                    r == Err::<(), StoreError>(StoreError::NotAuthorized) && final(self)@ == old(
                        self,
                    )@
                },
            },
    {
        let p = patient_id.to_owned();
        let i = match self.find_record(&p) {
            None => {
                return Err(StoreError::NotFound);
            },
            Some(i) => i,
        };
        assert(self@.records[i as int] == self.records@[i as int]@);
        if !is_identity(self.records[i].owner_id.as_str(), caller) {
            return Err(StoreError::NotAuthorized);
        }
        let mut prefix = patient_id.to_owned();
        prefix.append(":");
        proof {
            reveal_strlit(":");
            assert(prefix@ =~= patient_id@ + seq![':']);
        }
        let kept = self.consents_without_prefix(prefix.as_str());
        proof {
            lemma_remove_key(old(self)@.records, p@);
            lemma_upsert_at(old(self)@.records, i as int, old(self)@.records[i as int]);
        }
        self.records.remove(i);
        self.consent_policies = kept;
        proof {
            assert(self@.records =~= old(self)@.records.remove(i as int));
        }
        self.emit(HealthEvent::RecordDeleted { patient_id: p });
        proof {
            assert(self@ =~= old(self)@.after_delete(patient_id@));
        }
        Ok(())
    }

    /// The readable part of every record that has `entity_id` on its access
    /// list, in the store's order.
    pub fn list_authorized_reports(&self, entity_id: &str) -> (r: Result<
        Vec<PatientDataResponse>,
        StoreError,
    >)
        requires
            self@.wf(),
        ensures
            match r {
                Ok(v) => v@.map_values(|x: PatientDataResponse| x@) == self@.records.filter(
                    |rec: RecordView| rec.authorized_ids.contains(entity_id@),
                ).map_values(|rec: RecordView| response_of(rec)),
                Err(_) => false,
            },
    {
        let e = entity_id.to_owned();
        let ghost pred = |rec: RecordView| rec.authorized_ids.contains(entity_id@);
        let ghost all = self@.records;
        let mut out: Vec<PatientDataResponse> = Vec::new();
        let mut i: usize = 0;
        while i < self.records.len()
            invariant
                all == self@.records,
                i <= all.len(),
                e@ == entity_id@,
                pred == (|rec: RecordView| rec.authorized_ids.contains(entity_id@)),
                out@.map_values(|x: PatientDataResponse| x@) == all.take(i as int).filter(
                    pred,
                ).map_values(|rec: RecordView| response_of(rec)),
            decreases all.len() - i,
        {
            proof {
                assert(all.take(i + 1) =~= all.take(i as int).push(all[i as int]));
                all.take(i as int).lemma_filter_push(all[i as int], pred);
            }
            assert(all[i as int] == self.records@[i as int]@);
            let rec = &self.records[i];
            if list_contains(&rec.authorized_ids, &e) {
                let resp = PatientDataResponse {
                    data: copy_bytes(&rec.data),
                    record_type: rec.record_type.clone(),
                    timestamp: rec.timestamp,
                };
                let ghost ob = out@;
                out.push(resp);
                proof {
                    assert(out@.map_values(|x: PatientDataResponse| x@) =~= ob.map_values(
                        |x: PatientDataResponse| x@,
                    ).push(response_of(all[i as int])));
                    assert(all.take(i + 1).filter(pred).map_values(|rec: RecordView| response_of(rec))
                        =~= all.take(i as int).filter(pred).map_values(
                        |rec: RecordView| response_of(rec),
                    ).push(response_of(all[i as int])));
                }
            }
            i = i + 1;
        }
        proof {
            assert(all.take(all.len() as int) =~= all);
        }
        Ok(out)
    }
}

impl HealthDataStore {
    /// Creates or replaces the pool of `entity_id`, active and dated `now`,
    /// and emits `PoolCreated`.
    pub fn create_research_pool(
        &mut self,
        entity_id: String,
        title: String,
        description: String,
        reward_amount: u64,
        now: u64,
    ) -> (r: Result<(), StoreError>)
        requires
            old(self)@.wf(),
        ensures
            r is Ok,
            final(self)@.wf(),
            final(self)@ == old(self)@.after_create_pool(
                entity_id@,
                title@,
                description@,
                reward_amount,
                now,
            ),
    {
        let ghost fresh = fresh_pool(entity_id@, title@, description@, reward_amount, now);
        let pool = ResearchPool {
            title: title.clone(),
            description,
            reward_amount,
            entity_id: entity_id.clone(),
            created_at: now,
            status: "active".to_owned(),
        };
        proof {
            lemma_upsert(old(self)@.pools, fresh);
        }
        match self.find_pool(&entity_id) {
            Some(i) => {
                proof {
                    lemma_upsert_at(old(self)@.pools, i as int, fresh);
                }
                self.research_pools.set(i, pool);
            },
            None => {
                self.research_pools.push(pool);
            },
        }
        proof {
            assert(self@.pools =~= upsert(old(self)@.pools, fresh));
        }
        self.emit(HealthEvent::PoolCreated { entity_id, title, reward_amount });
        proof {
            assert(self@ =~= old(self)@.after_create_pool(
                entity_id@,
                title@,
                description@,
                reward_amount,
                now,
            ));
        }
        Ok(())
    }

    /// The pool of `entity_id`, if there is one.
    pub fn get_research_pool(&self, entity_id: &str) -> (r: Result<Option<ResearchPool>, StoreError>)
        requires
            self@.wf(),
        ensures
            match r {
                Ok(Some(p)) => self@.pool(entity_id@) == Some(p@),
                Ok(None) => self@.pool(entity_id@) is None,
                Err(_) => false,
            },
    {
        let e = entity_id.to_owned();
        match self.find_pool(&e) {
            Some(i) => {
                assert(self@.pools[i as int] == self.research_pools@[i as int]@);
                Ok(Some(self.research_pools[i].copy()))
            },
            None => Ok(None),
        }
    }

    /// The active pools, newest first.
    pub fn list_research_pools(&self) -> (r: Result<Vec<ResearchPool>, StoreError>)
        requires
            self@.wf(),
        ensures
            match r {
                Ok(v) => newest_first(v@.map_values(|p: ResearchPool| p@)) && v@.map_values(
                    |p: ResearchPool| p@,
                ).to_multiset() == self@.active_pools().to_multiset(),
                Err(_) => false,
            },
    {
        broadcast use vstd::seq_lib::group_to_multiset_ensures;
        broadcast use vstd::multiset::group_multiset_axioms;

        let active = "active".to_owned();
        let ghost pred = |p: PoolView| is_active(p);
        let ghost all = self@.pools;
        let mut out: Vec<ResearchPool> = Vec::new();
        let mut i: usize = 0;
        proof {
            assert(all.take(0).filter(pred) =~= Seq::<PoolView>::empty());
            assert(out@.map_values(|p: ResearchPool| p@) =~= Seq::<PoolView>::empty());
            assert(Seq::<PoolView>::empty().to_multiset() =~= vstd::multiset::Multiset::empty());
        }
        while i < self.research_pools.len()
            invariant
                all == self@.pools,
                i <= all.len(),
                active@ == "active"@,
                pred == (|p: PoolView| is_active(p)),
                newest_first(out@.map_values(|p: ResearchPool| p@)),
                out@.map_values(|p: ResearchPool| p@).to_multiset() == all.take(i as int).filter(
                    pred,
                ).to_multiset(),
            decreases all.len() - i,
        {
            proof {
                assert(all.take(i + 1) =~= all.take(i as int).push(all[i as int]));
                all.take(i as int).lemma_filter_push(all[i as int], pred);
            }
            assert(all[i as int] == self.research_pools@[i as int]@);
            if self.research_pools[i].status == active {
                let pool = self.research_pools[i].copy();
                let t = pool.created_at;
                let mut k: usize = 0;
                while k < out.len() && out[k].created_at >= t
                    invariant
                        k <= out@.len(),
                        forall|m: int| 0 <= m < k ==> out@[m].created_at >= t,
                    decreases out@.len() - k,
                {
                    k = k + 1;
                }
                let ghost ob = out@;
                let ghost pv = pool@;
                out.insert(k, pool);
                proof {
                    let f = |p: ResearchPool| p@;
                    assert(out@.map_values(f) =~= ob.map_values(f).insert(k as int, pv));
                    let s = out@.map_values(f);
                    let o = ob.map_values(f);
                    assert forall|a: int, b: int| 0 <= a < b < s.len() implies s[a].created_at
                        >= s[b].created_at by {
                        if b < k {
                            assert(s[a] == o[a] && s[b] == o[b]);
                        } else if a > k {
                            assert(s[a] == o[a - 1] && s[b] == o[b - 1]);
                        } else if a == k {
                            assert(s[a] == pv && s[b] == o[b - 1]);
                            assert(ob[k as int].created_at < t);
                            assert(o[k as int] == ob[k as int]@);
                            if b - 1 > k {
                                assert(o[k as int].created_at >= o[b - 1].created_at);
                            }
                        } else if b == k {
                            assert(s[a] == o[a] && s[b] == pv);
                            assert(o[a] == ob[a]@);
                        } else {
                            assert(s[a] == o[a] && s[b] == o[b - 1]);
                        }
                    }
                    assert(s.to_multiset() == o.to_multiset().insert(pv)) by {
                        vstd::seq_lib::to_multiset_insert(o, k as int, pv);
                    }
                    assert(all[i as int] == pv);
                    assert(pred(all[i as int]));
                    assert(all.take(i + 1).filter(pred) == all.take(i as int).filter(pred).push(pv));
                    assert(out@.map_values(|p: ResearchPool| p@) == s);
                    assert(o == ob.map_values(|p: ResearchPool| p@));
                    vstd::seq_lib::to_multiset_build(all.take(i as int).filter(pred), pv);
                    assert(o.to_multiset() == all.take(i as int).filter(pred).to_multiset());
                    assert(s.to_multiset() == all.take(i + 1).filter(pred).to_multiset());
                }
            } else {
                assert(!pred(all[i as int]));
            }
            i = i + 1;
        }
        proof {
            assert(all.take(all.len() as int) =~= all);
        }
        Ok(out)
    }

    /// Lets the pool's owning entity change the fields it is given (each
    /// `None` keeps its field) and emits `PoolUpdated` with the resulting
    /// title.
    pub fn update_research_pool(
        &mut self,
        entity_id: &str,
        title: Option<String>,
        description: Option<String>,
        reward_amount: Option<u64>,
        status: Option<String>,
        caller: &[u8],
    ) -> (r: Result<(), StoreError>)
        requires
            old(self)@.wf(),
        ensures
            final(self)@.wf(),
            match old(self)@.pool(entity_id@) {
                None => r == Err::<(), StoreError>(StoreError::NotFound) && final(self)@ == old(
                    self,
                )@,
                Some(p) => if identity_matches(p.entity_id, caller@) {
                    let q = updated_pool(
                        p,
                        text_opt_view(title),
                        text_opt_view(description),
                        reward_amount,
                        text_opt_view(status),
                    );
                    r is Ok && final(self)@ == (StoreView {
                        pools: upsert(old(self)@.pools, q),
                        ..old(self)@
                    }).with_event(EventView::PoolUpdated { entity_id: entity_id@, title: q.title })
                } else {
                    r == Err::<(), StoreError>(StoreError::NotAuthorized) && final(self)@ == old(
                        self,
                    )@
                },
            },
    {
        let e = entity_id.to_owned();
        let i = match self.find_pool(&e) {
            None => {
                return Err(StoreError::NotFound);
            },
            Some(i) => i,
        };
        assert(self@.pools[i as int] == self.research_pools@[i as int]@);
        if !is_identity(self.research_pools[i].entity_id.as_str(), caller) {
            return Err(StoreError::NotAuthorized);
        }
        let ghost q = updated_pool(
            old(self)@.pools[i as int],
            text_opt_view(title),
            text_opt_view(description),
            reward_amount,
            text_opt_view(status),
        );
        let mut pool = self.research_pools[i].copy();
        if let Some(t) = title {
            pool.title = t;
        }
        if let Some(d) = description {
            pool.description = d;
        }
        if let Some(a) = reward_amount {
            pool.reward_amount = a;
        }
        if let Some(s) = status {
            pool.status = s;
        }
        assert(pool@ == q);
        let new_title = pool.title.clone();
        proof {
            lemma_upsert_at(old(self)@.pools, i as int, q);
            lemma_upsert(old(self)@.pools, q);
        }
        self.research_pools.set(i, pool);
        proof {
            assert(self@.pools =~= upsert(old(self)@.pools, q));
        }
        self.emit(HealthEvent::PoolUpdated { entity_id: e, title: new_title });
        proof {
            assert(self@ =~= (StoreView { pools: upsert(old(self)@.pools, q), ..old(self)@ }).with_event(
                EventView::PoolUpdated { entity_id: entity_id@, title: q.title },
            ));
        }
        Ok(())
    }

    /// Lets the pool's owning entity delete it, emitting `PoolDeleted` with
    /// its title.
    pub fn delete_research_pool(&mut self, entity_id: &str, caller: &[u8]) -> (r: Result<
        (),
        StoreError,
    >)
        requires
            old(self)@.wf(),
        ensures
            final(self)@.wf(),
            match old(self)@.pool(entity_id@) {
                None => r == Err::<(), StoreError>(StoreError::NotFound) && final(self)@ == old(
                    self,
                )@,
                Some(p) => if identity_matches(p.entity_id, caller@) {
                    r is Ok && final(self)@ == (StoreView {
                        pools: remove_key(old(self)@.pools, entity_id@),
                        ..old(self)@
                    }).with_event(EventView::PoolDeleted { entity_id: entity_id@, title: p.title })
                } else {
                    r == Err::<(), StoreError>(StoreError::NotAuthorized) && final(self)@ == old(
                        self,
                    )@
                },
            },
    {
        let e = entity_id.to_owned();
        let i = match self.find_pool(&e) {
            None => {
                return Err(StoreError::NotFound);
            },
            Some(i) => i,
        };
        assert(self@.pools[i as int] == self.research_pools@[i as int]@);
        if !is_identity(self.research_pools[i].entity_id.as_str(), caller) {
            return Err(StoreError::NotAuthorized);
        }
        proof {
            lemma_remove_key(old(self)@.pools, entity_id@);
            lemma_upsert_at(old(self)@.pools, i as int, old(self)@.pools[i as int]);
        }
        let pool = self.research_pools.remove(i);
        proof {
            assert(self@.pools =~= remove_key(old(self)@.pools, entity_id@));
        }
        self.emit(HealthEvent::PoolDeleted { entity_id: e, title: pool.title });
        proof {
            assert(self@ =~= (StoreView {
                pools: remove_key(old(self)@.pools, entity_id@),
                ..old(self)@
            }).with_event(
                EventView::PoolDeleted { entity_id: entity_id@, title: old(self)@.pools[i as int].title },
            ));
        }
        Ok(())
    }
}

impl HealthDataStore {
    /// Files a pending submission of the caller to the pool of `entity_id`,
    /// dated `now`, replacing an earlier one. The caller's patient id is the
    /// hex encoding of its raw identity; the pool need not exist. Emits
    /// `PoolSubmission`.
    pub fn submit_to_pool(&mut self, entity_id: &str, caller: &[u8], now: u64) -> (r: Result<
        (),
        StoreError,
    >)
        requires
            old(self)@.wf(),
        ensures
            r is Ok,
            final(self)@.wf(),
            final(self)@ == old(self)@.after_submit(entity_id@, hex_of(caller@), now),
    {
        let patient_id = patient_id_from_identity(caller);
        let e = entity_id.to_owned();
        let sub = PoolSubmission {
            patient_id: patient_id.clone(),
            entity_id: e.clone(),
            submitted_at: now,
            status: "pending".to_owned(),
        };
        let ghost row = sub@;
        proof {
            lemma_upsert(old(self)@.submissions, row);
        }
        match self.find_submission(&e, &patient_id) {
            Some(i) => {
                proof {
                    lemma_upsert_at(old(self)@.submissions, i as int, row);
                }
                self.pool_submissions.set(i, sub);
            },
            None => {
                self.pool_submissions.push(sub);
            },
        }
        proof {
            assert(self@.submissions =~= upsert(old(self)@.submissions, row));
        }
        self.emit(
            HealthEvent::PoolSubmission { patient_id, entity_id: e, status: "pending".to_owned() },
        );
        proof {
            assert(self@ =~= old(self)@.after_submit(entity_id@, hex_of(caller@), now));
        }
        Ok(())
    }

    /// Lets the pool's owning entity set the status of the submission of
    /// `patient_id` to any text, emitting `SubmissionUpdated`.
    pub fn update_submission_status(
        &mut self,
        entity_id: &str,
        patient_id: &str,
        status: String,
        caller: &[u8],
    ) -> (r: Result<(), StoreError>)
        requires
            old(self)@.wf(),
        ensures
            final(self)@.wf(),
            match (old(self)@.pool(entity_id@), old(self)@.submission(entity_id@, patient_id@)) {
                (None, _) => r == Err::<(), StoreError>(StoreError::NotFound) && final(self)@ == old(
                    self,
                )@,
                (Some(p), _) if !identity_matches(p.entity_id, caller@) => r == Err::<
                    (),
                    StoreError,
                >(StoreError::NotAuthorized) && final(self)@ == old(self)@,
                (Some(_), None) => r == Err::<(), StoreError>(StoreError::NotFound) && final(self)@
                    == old(self)@,
                (Some(_), Some(sub)) => r is Ok && final(self)@ == (StoreView {
                    submissions: upsert(
                        old(self)@.submissions,
                        SubmissionView { status: status@, ..sub },
                    ),
                    ..old(self)@
                }).with_event(
                    EventView::SubmissionUpdated {
                        patient_id: patient_id@,
                        entity_id: entity_id@,
                        status: status@,
                    },
                ),
            },
    {
        let e = entity_id.to_owned();
        let p = patient_id.to_owned();
        let i = match self.find_pool(&e) {
            None => {
                return Err(StoreError::NotFound);
            },
            Some(i) => i,
        };
        assert(self@.pools[i as int] == self.research_pools@[i as int]@);
        if !is_identity(self.research_pools[i].entity_id.as_str(), caller) {
            return Err(StoreError::NotAuthorized);
        }
        let j = match self.find_submission(&e, &p) {
            None => {
                return Err(StoreError::NotFound);
            },
            Some(j) => j,
        };
        assert(self@.submissions[j as int] == self.pool_submissions@[j as int]@);
        let ghost row = SubmissionView { status: status@, ..old(self)@.submissions[j as int] };
        let sub = PoolSubmission {
            patient_id: self.pool_submissions[j].patient_id.clone(),
            entity_id: self.pool_submissions[j].entity_id.clone(),
            submitted_at: self.pool_submissions[j].submitted_at,
            status: status.clone(),
        };
        assert(sub@ == row);
        proof {
            lemma_upsert_at(old(self)@.submissions, j as int, row);
            lemma_upsert(old(self)@.submissions, row);
        }
        self.pool_submissions.set(j, sub);
        proof {
            assert(self@.submissions =~= upsert(old(self)@.submissions, row));
        }
        self.emit(HealthEvent::SubmissionUpdated { patient_id: p, entity_id: e, status });
        proof {
            assert(self@ =~= (StoreView {
                submissions: upsert(old(self)@.submissions, row),
                ..old(self)@
            }).with_event(
                EventView::SubmissionUpdated {
                    patient_id: patient_id@,
                    entity_id: entity_id@,
                    status: status@,
                },
            ));
        }
        Ok(())
    }
}

/// The four tables of a store, as handed to and taken from durable storage.
pub struct StoreParts {
    pub records: Vec<HealthRecord>,
    pub consent_policies: Vec<(String, ConsentPolicy)>,
    pub research_pools: Vec<ResearchPool>,
    pub pool_submissions: Vec<PoolSubmission>,
}

impl StoreParts {
    pub open spec fn view_as_store(&self) -> StoreView {
        StoreView {
            records: self.records@.map_values(|r: HealthRecord| r@),
            consents: self.consent_policies@.map_values(|c: (String, ConsentPolicy)| (c.0@, c.1@)),
            pools: self.research_pools@.map_values(|p: ResearchPool| p@),
            submissions: self.pool_submissions@.map_values(|s: PoolSubmission| s@),
            events: Seq::empty(),
        }
    }
}

impl HealthDataStore {
    /// The store's tables, for durable storage; pending events are dropped.
    pub fn into_parts(self) -> (r: StoreParts)
        ensures
            r.view_as_store() == (StoreView { events: Seq::empty(), ..self@ }),
    {
        let r = StoreParts {
            records: self.records,
            consent_policies: self.consent_policies,
            research_pools: self.research_pools,
            pool_submissions: self.pool_submissions,
        };
        proof {
            assert(r.view_as_store() =~= (StoreView { events: Seq::empty(), ..self@ }));
        }
        r
    }

    /// A store over tables read back from durable storage, with no pending
    /// events; `None` when some table holds two rows under one key.
    pub fn from_parts(parts: StoreParts) -> (r: Option<HealthDataStore>)
        ensures
            r is Some <==> parts.view_as_store().wf(),
            r is Some ==> r->Some_0@ == parts.view_as_store(),
    {
        let ghost want = parts.view_as_store();
        let records = &parts.records;
        let consent_policies = &parts.consent_policies;
        let research_pools = &parts.research_pools;
        let pool_submissions = &parts.pool_submissions;
        let mut st = HealthDataStore::init();
        proof {
            assert(want.records.take(0) =~= Seq::<RecordView>::empty());
            assert(want.consents.take(0) =~= Seq::<(Seq<char>, ConsentView)>::empty());
            assert(want.pools.take(0) =~= Seq::<PoolView>::empty());
            assert(want.submissions.take(0) =~= Seq::<SubmissionView>::empty());
        }
        let mut i: usize = 0;
        while i < records.len()
            invariant
                want == parts.view_as_store(),
                st@.wf(),
                i <= records@.len(),
                records@.map_values(|r: HealthRecord| r@) == want.records,
                st@ == (StoreView { records: want.records.take(i as int), ..StoreView::empty() }),
            decreases records@.len() - i,
        {
            assert(want.records[i as int] == records@[i as int]@);
            if let Some(j) = st.find_record(&records[i].owner_id) {
                proof {
                    assert(want.records[j as int] == st@.records[j as int]);
                    assert(!keys_unique(want.records));
                }
                return None;
            }
            let ghost before = st@.records;
            st.records.push(records[i].copy());
            proof {
                assert(st@.records =~= before.push(want.records[i as int]));
                assert(want.records.take(i + 1) =~= want.records.take(i as int).push(want.records[i as int]));
                assert(keys_unique(st@.records)) by {
                    assert forall|a: int, b: int|
                        0 <= a < st@.records.len() && 0 <= b < st@.records.len()
                            && st@.records[a].key() == st@.records[b].key() implies a == b by {
                        if a < i && b == i {
                            assert(has_key(before, st@.records[a].key()));
                        } else if b < i && a == i {
                            assert(has_key(before, st@.records[b].key()));
                        }
                    }
                }
            }
            i = i + 1;
        }
        proof {
            assert(want.records.take(want.records.len() as int) =~= want.records);
        }
        i = 0;
        while i < consent_policies.len()
            invariant
                want == parts.view_as_store(),
                st@.wf(),
                keys_unique(want.records),
                i <= consent_policies@.len(),
                consent_policies@.map_values(|c: (String, ConsentPolicy)| (c.0@, c.1@)) == want.consents,
                st@ == (StoreView {
                    records: want.records,
                    consents: want.consents.take(i as int),
                    ..StoreView::empty()
                }),
            decreases consent_policies@.len() - i,
        {
            assert(want.consents[i as int] == (consent_policies@[i as int].0@,
            consent_policies@[i as int].1@));
            if let Some(j) = st.find_consent(&consent_policies[i].0) {
                proof {
                    assert(want.consents[j as int] == st@.consents[j as int]);
                    assert(!keys_unique(want.consents));
                }
                return None;
            }
            let ghost before = st@.consents;
            st.consent_policies.push((consent_policies[i].0.clone(), consent_policies[i].1.copy()));
            proof {
                assert(st@.consents =~= before.push(want.consents[i as int]));
                assert(want.consents.take(i + 1) =~= want.consents.take(i as int).push(
                    want.consents[i as int],
                ));
                assert(keys_unique(st@.consents)) by {
                    assert forall|a: int, b: int|
                        0 <= a < st@.consents.len() && 0 <= b < st@.consents.len()
                            && st@.consents[a].key() == st@.consents[b].key() implies a == b by {
                        if a < i && b == i {
                            assert(has_key(before, st@.consents[a].key()));
                        } else if b < i && a == i {
                            assert(has_key(before, st@.consents[b].key()));
                        }
                    }
                }
            }
            i = i + 1;
        }
        proof {
            assert(want.consents.take(want.consents.len() as int) =~= want.consents);
        }
        i = 0;
        while i < research_pools.len()
            invariant
                want == parts.view_as_store(),
                st@.wf(),
                keys_unique(want.records),
                keys_unique(want.consents),
                i <= research_pools@.len(),
                research_pools@.map_values(|p: ResearchPool| p@) == want.pools,
                st@ == (StoreView {
                    records: want.records,
                    consents: want.consents,
                    pools: want.pools.take(i as int),
                    ..StoreView::empty()
                }),
            decreases research_pools@.len() - i,
        {
            assert(want.pools[i as int] == research_pools@[i as int]@);
            if let Some(j) = st.find_pool(&research_pools[i].entity_id) {
                proof {
                    assert(want.pools[j as int] == st@.pools[j as int]);
                    assert(!keys_unique(want.pools));
                }
                return None;
            }
            let ghost before = st@.pools;
            st.research_pools.push(research_pools[i].copy());
            proof {
                assert(st@.pools =~= before.push(want.pools[i as int]));
                assert(want.pools.take(i + 1) =~= want.pools.take(i as int).push(want.pools[i as int]));
                assert(keys_unique(st@.pools)) by {
                    assert forall|a: int, b: int|
                        0 <= a < st@.pools.len() && 0 <= b < st@.pools.len() && st@.pools[a].key()
                            == st@.pools[b].key() implies a == b by {
                        if a < i && b == i {
                            assert(has_key(before, st@.pools[a].key()));
                        } else if b < i && a == i {
                            assert(has_key(before, st@.pools[b].key()));
                        }
                    }
                }
            }
            i = i + 1;
        }
        proof {
            assert(want.pools.take(want.pools.len() as int) =~= want.pools);
        }
        i = 0;
        while i < pool_submissions.len()
            invariant
                want == parts.view_as_store(),
                st@.wf(),
                keys_unique(want.records),
                keys_unique(want.consents),
                keys_unique(want.pools),
                i <= pool_submissions@.len(),
                pool_submissions@.map_values(|s: PoolSubmission| s@) == want.submissions,
                st@ == (StoreView {
                    records: want.records,
                    consents: want.consents,
                    pools: want.pools,
                    submissions: want.submissions.take(i as int),
                    ..StoreView::empty()
                }),
            decreases pool_submissions@.len() - i,
        {
            assert(want.submissions[i as int] == pool_submissions@[i as int]@);
            if let Some(j) = st.find_submission(
                &pool_submissions[i].entity_id,
                &pool_submissions[i].patient_id,
            ) {
                proof {
                    assert(want.submissions[j as int] == st@.submissions[j as int]);
                    assert(!keys_unique(want.submissions));
                }
                return None;
            }
            let ghost before = st@.submissions;
            let sub = PoolSubmission {
                patient_id: pool_submissions[i].patient_id.clone(),
                entity_id: pool_submissions[i].entity_id.clone(),
                submitted_at: pool_submissions[i].submitted_at,
                status: pool_submissions[i].status.clone(),
            };
            st.pool_submissions.push(sub);
            proof {
                assert(st@.submissions =~= before.push(want.submissions[i as int]));
                assert(want.submissions.take(i + 1) =~= want.submissions.take(i as int).push(
                    want.submissions[i as int],
                ));
                assert(keys_unique(st@.submissions)) by {
                    assert forall|a: int, b: int|
                        0 <= a < st@.submissions.len() && 0 <= b < st@.submissions.len()
                            && st@.submissions[a].key() == st@.submissions[b].key() implies a
                        == b by {
                        if a < i && b == i {
                            assert(has_key(before, st@.submissions[a].key()));
                        } else if b < i && a == i {
                            assert(has_key(before, st@.submissions[b].key()));
                        }
                    }
                }
            }
            i = i + 1;
        }
        proof {
            assert(want.submissions.take(want.submissions.len() as int) =~= want.submissions);
            assert(st@ =~= want);
        }
        Some(st)
    }
}

impl HealthRecord {
    /// A field-by-field copy.
    pub fn copy(&self) -> (r: HealthRecord)
        ensures
            r@ == self@,
    {
        let mut ids: Vec<String> = Vec::new();
        let mut i: usize = 0;
        while i < self.authorized_ids.len()
            invariant
                i <= self.authorized_ids@.len(),
                strings_view(ids@) == strings_view(self.authorized_ids@).take(i as int),
            decreases self.authorized_ids@.len() - i,
        {
            let c = self.authorized_ids[i].clone();
            let ghost before = ids@;
            ids.push(c);
            proof {
                let sv = strings_view(self.authorized_ids@);
                assert(strings_view(before) == sv.take(i as int));
                assert(strings_view(before).len() == before.len());
                assert(before.len() == i);
                assert(ids@ == before.push(c));
                assert forall|k: int| 0 <= k <= i implies strings_view(ids@)[k] == sv.take(i + 1)[k] by {
                    if k < i {
                        assert(strings_view(ids@)[k] == ids@[k]@);
                        assert(ids@[k] == before[k]);
                        assert(strings_view(before)[k] == before[k]@);
                    } else {
                        assert(strings_view(ids@)[k] == c@);
                    }
                }
                assert(strings_view(ids@) =~= sv.take(i + 1));
            }
            i = i + 1;
        }
        proof {
            assert(strings_view(self.authorized_ids@).take(self.authorized_ids@.len() as int)
                =~= strings_view(self.authorized_ids@));
        }
        let proof_copy = match &self.consent_proof {
            Some(b) => Some(copy_bytes(b)),
            None => None,
        };
        HealthRecord {
            data: copy_bytes(&self.data),
            timestamp: self.timestamp,
            record_type: self.record_type.clone(),
            owner_id: self.owner_id.clone(),
            authorized_ids: ids,
            is_anonymized: self.is_anonymized,
            consent_proof: proof_copy,
        }
    }
}

} // verus!
