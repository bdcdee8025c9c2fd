use vstd::prelude::*;
use crate::owner::Owner;
use crate::record::HealthRecord;
use crate::record::RecordView;
use crate::record::StoreError;
use crate::record::AddRecordRequest;
use crate::record::record_id_of;
use crate::record::trim_of;
use crate::record::trim_string;

verus! {

/// The views of a sequence of records, in the same order.
pub open spec fn views_of(records: Seq<HealthRecord>) -> Seq<RecordView> {
    records.map_values(|r: HealthRecord| r@)
}

/// Whether some record in `rs` carries the id `id`.
pub open spec fn has_record_id(rs: Seq<RecordView>, id: Seq<char>) -> bool {
    exists|i: int| 0 <= i < rs.len() && rs[i].id == id
}

/// Whether `i` is the position of the first record in `rs` whose id is `id`.
pub open spec fn is_first_match(rs: Seq<RecordView>, id: Seq<char>, i: int) -> bool {
    &&& 0 <= i < rs.len()
    &&& rs[i].id == id
    &&& forall|j: int| 0 <= j < i ==> rs[j].id != id
}

/// One owner's entry: the owner and that owner's records in insertion order.
struct OwnerEntry {
    owner: Owner,
    records: Vec<HealthRecord>,
}

/// One entry of a snapshot: plain data handed to the durable layer when the
/// store is persisted, and handed back on reload.
pub struct StoredEntry {
    pub owner_bytes: Vec<u8>,
    pub records: Vec<HealthRecord>,
}

/// Whether a snapshot is one that a store can have written: owners pairwise
/// distinct, no owner too long to be a principal, none anonymous.
pub open spec fn stored_wf(entries: Seq<StoredEntry>) -> bool {
    &&& forall|i: int, j: int|
        0 <= i < j < entries.len() ==> entries[i].owner_bytes@ != entries[j].owner_bytes@
    &&& forall|i: int|
        0 <= i < entries.len() ==> entries[i].owner_bytes@.len() <= 29
            && entries[i].owner_bytes@ != Owner::anonymous_bytes()
}

/// The records a snapshot holds for `owner`: those of the first entry with
/// matching owner bytes, empty if there is none.
pub open spec fn stored_lookup(entries: Seq<StoredEntry>, owner: Seq<u8>) -> Seq<RecordView>
    decreases entries.len(),
{
    if entries.len() == 0 {
        Seq::empty()
    } else if entries[0].owner_bytes@ == owner {
        views_of(entries[0].records@)
    } else {
        stored_lookup(entries.drop_first(), owner)
    }
}

/// The mapping from owners to their ordered record sequences.
pub struct RecordStore {
    entries: Vec<OwnerEntry>,
}

spec fn lookup(entries: Seq<OwnerEntry>, owner: Seq<u8>) -> Seq<RecordView>
    decreases entries.len(),
{
    if entries.len() == 0 {
        Seq::empty()
    } else if entries[0].owner@ == owner {
        views_of(entries[0].records@)
    } else {
        lookup(entries.drop_first(), owner)
    }
}

spec fn contains_owner(entries: Seq<OwnerEntry>, owner: Seq<u8>) -> bool
    decreases entries.len(),
{
    entries.len() != 0 && (entries[0].owner@ == owner || contains_owner(
        entries.drop_first(),
        owner,
    ))
}

proof fn lemma_contains_iff(entries: Seq<OwnerEntry>, o: Seq<u8>)
    ensures
        contains_owner(entries, o) <==> exists|i: int|
            0 <= i < entries.len() && entries[i].owner@ == o,
    decreases entries.len(),
{
    if entries.len() != 0 {
        lemma_contains_iff(entries.drop_first(), o);
        if entries[0].owner@ == o {
            assert(entries[0].owner@ == o);
        } else if contains_owner(entries.drop_first(), o) {
            let i = choose|i: int|
                0 <= i < entries.drop_first().len() && entries.drop_first()[i].owner@ == o;
            assert(entries[i + 1].owner@ == o);
        } else {
            assert forall|i: int| 0 <= i < entries.len() implies entries[i].owner@ != o by {
                if i > 0 {
                    assert(entries.drop_first()[i - 1].owner@ != o);
                }
            }
        }
    }
}

proof fn lemma_lookup_absent(entries: Seq<OwnerEntry>, o: Seq<u8>)
    requires
        !contains_owner(entries, o),
    ensures
        lookup(entries, o) == Seq::<RecordView>::empty(),
    decreases entries.len(),
{
    if entries.len() != 0 {
        lemma_lookup_absent(entries.drop_first(), o);
    }
}

proof fn lemma_lookup_at(entries: Seq<OwnerEntry>, i: int, o: Seq<u8>)
    requires
        0 <= i < entries.len(),
        entries[i].owner@ == o,
        forall|j: int| 0 <= j < i ==> entries[j].owner@ != o,
    ensures
        contains_owner(entries, o),
        lookup(entries, o) == views_of(entries[i].records@),
    decreases i,
{
    if i == 0 {
    } else {
        assert forall|j: int| 0 <= j < i - 1 implies entries.drop_first()[j].owner@ != o by {
            assert(entries[j + 1].owner@ != o);
        }
        assert(entries.drop_first()[i - 1].owner@ == o);
        lemma_lookup_at(entries.drop_first(), i - 1, o);
    }
}

proof fn lemma_lookup_update(entries: Seq<OwnerEntry>, i: int, e: OwnerEntry, o: Seq<u8>)
    requires
        0 <= i < entries.len(),
        entries[i].owner@ == e.owner@,
        forall|j: int| 0 <= j < i ==> entries[j].owner@ != e.owner@,
    ensures
        o == e.owner@ ==> lookup(entries.update(i, e), o) == views_of(e.records@),
        o != e.owner@ ==> lookup(entries.update(i, e), o) == lookup(entries, o),
    decreases i,
{
    let upd = entries.update(i, e);
    if i == 0 {
        assert(upd[0] == e);
        assert(upd.drop_first() =~= entries.drop_first());
    } else {
        assert(upd[0] == entries[0]);
        assert(upd.drop_first() =~= entries.drop_first().update(i - 1, e));
        assert forall|j: int| 0 <= j < i - 1 implies entries.drop_first()[j].owner@
            != e.owner@ by {
            assert(entries[j + 1].owner@ != e.owner@);
        }
        assert(entries.drop_first()[i - 1].owner@ == e.owner@);
        lemma_lookup_update(entries.drop_first(), i - 1, e, o);
    }
}

proof fn lemma_lookup_push(entries: Seq<OwnerEntry>, e: OwnerEntry, o: Seq<u8>)
    ensures
        contains_owner(entries, o) ==> lookup(entries.push(e), o) == lookup(entries, o),
        !contains_owner(entries, o) && o == e.owner@ ==> lookup(entries.push(e), o) == views_of(
            e.records@,
        ),
        !contains_owner(entries, o) && o != e.owner@ ==> lookup(entries.push(e), o)
            == Seq::<RecordView>::empty(),
    decreases entries.len(),
{
    if entries.len() == 0 {
        assert(entries.push(e)[0] == e);
        if o != e.owner@ {
            assert(entries.push(e).drop_first() =~= Seq::<OwnerEntry>::empty());
            assert(lookup(Seq::<OwnerEntry>::empty(), o) == Seq::<RecordView>::empty());
        }
    } else {
        assert(entries.push(e)[0] == entries[0]);
        assert(entries.push(e).drop_first() =~= entries.drop_first().push(e));
        lemma_lookup_push(entries.drop_first(), e, o);
        if !contains_owner(entries, o) {
            assert(entries[0].owner@ != o);
            assert(!contains_owner(entries.drop_first(), o));
            assert(lookup(entries.push(e), o) == lookup(entries.drop_first().push(e), o));
        }
    }
}

proof fn lemma_parallel_lookup(stored: Seq<StoredEntry>, entries: Seq<OwnerEntry>, o: Seq<u8>)
    requires
        stored.len() == entries.len(),
        forall|j: int|
            0 <= j < stored.len() ==> stored[j].owner_bytes@ == entries[j].owner@ && views_of(
                stored[j].records@,
            ) == views_of(entries[j].records@),
    ensures
        stored_lookup(stored, o) == lookup(entries, o),
    decreases stored.len(),
{
    if stored.len() != 0 {
        assert(stored[0].owner_bytes@ == entries[0].owner@);
        assert forall|j: int| 0 <= j < stored.len() - 1 implies stored.drop_first()[j].owner_bytes@
            == entries.drop_first()[j].owner@ && views_of(stored.drop_first()[j].records@)
            == views_of(entries.drop_first()[j].records@) by {
            assert(stored[j + 1].owner_bytes@ == entries[j + 1].owner@);
            assert(views_of(stored[j + 1].records@) == views_of(entries[j + 1].records@));
        }
        lemma_parallel_lookup(stored.drop_first(), entries.drop_first(), o);
    }
}

fn find_entry(entries: &Vec<OwnerEntry>, owner: &Owner) -> (r: Option<usize>)
    ensures
        match r {
            Some(i) => i < entries@.len() && entries@[i as int].owner@ == owner@ && forall|j: int|
                0 <= j < i ==> entries@[j].owner@ != owner@,
            None => !contains_owner(entries@, owner@),
        },
{
    let mut i: usize = 0;
    while i < entries.len()
        invariant
            i <= entries@.len(),
            forall|j: int| 0 <= j < i ==> entries@[j].owner@ != owner@,
        decreases entries@.len() - i,
    {
        if entries[i].owner.same_as(owner) {
            return Some(i);
        }
        i = i + 1;
    }
    proof {
        lemma_contains_iff(entries@, owner@);
    }
    None
}

fn find_record(records: &Vec<HealthRecord>, record_id: &String) -> (r: Option<usize>)
    ensures
        match r {
            Some(i) => is_first_match(views_of(records@), record_id@, i as int),
            None => !has_record_id(views_of(records@), record_id@),
        },
{
    let mut i: usize = 0;
    while i < records.len()
        invariant
            i <= records@.len(),
            forall|j: int| 0 <= j < i ==> views_of(records@)[j].id != record_id@,
        decreases records@.len() - i,
    {
        if records[i].id.eq(record_id) {
            return Some(i);
        }
        i = i + 1;
    }
    None
}

/// Copies a record vector element by element.
pub(crate) fn copy_records(records: &Vec<HealthRecord>) -> (r: Vec<HealthRecord>)
    ensures
        r@ == records@,
{
    let mut out: Vec<HealthRecord> = Vec::new();
    let mut i: usize = 0;
    while i < records.len()
        invariant
            i <= records@.len(),
            out@ == records@.subrange(0, i as int),
        decreases records@.len() - i,
    {
        out.push(records[i].duplicate());
        i = i + 1;
        proof {
            assert(out@ =~= records@.subrange(0, i as int));
        }
    }
    proof {
        assert(out@ =~= records@);
    }
    out
}

/// The count operation's value on the mathematical store: zero for the
/// anonymous caller, else the length of the owner's sequence.
pub open spec fn spec_count(s: RecordStore, owner: Owner) -> nat {
    if owner.is_anonymous() {
        0
    } else {
        s.records_of(owner@).len()
    }
}

/// The list operation's value on the mathematical store: nothing for the
/// anonymous caller, else the owner's sequence.
pub open spec fn spec_list(s: RecordStore, owner: Owner) -> Option<Seq<RecordView>> {
    if owner.is_anonymous() {
        None
    } else {
        Some(s.records_of(owner@))
    }
}

impl RecordStore {
    #[verifier::type_invariant]
    spec fn inv(self) -> bool {
        &&& forall|i: int, j: int|
            0 <= i < j < self.entries@.len() ==> self.entries@[i].owner@
                != self.entries@[j].owner@
        &&& forall|i: int| 0 <= i < self.entries@.len() ==> !self.entries@[i].owner.is_anonymous()
    }

    /// The records stored for the owner with the given principal bytes, in
    /// insertion order; empty if there are none.
    pub closed spec fn records_of(self, owner: Seq<u8>) -> Seq<RecordView> {
        lookup(self.entries@, owner)
    }

    /// An empty store.
    pub fn new() -> (s: RecordStore)
        ensures
            forall|o: Seq<u8>| s.records_of(o) == Seq::<RecordView>::empty(),
    {
        let s = RecordStore { entries: Vec::new() };
        proof {
            assert forall|o: Seq<u8>| s.records_of(o) == Seq::<RecordView>::empty() by {
                assert(s.entries@.len() == 0);
            }
        }
        s
    }

    /// Appends a freshly built record to the caller's sequence, creating the
    /// sequence if absent. Fails with Unauthenticated for the anonymous
    /// caller and with InvalidInput when title or category trim to nothing;
    /// a failure leaves the store unchanged.
    pub fn add(&mut self, owner: &Owner, timestamp: u64, request: AddRecordRequest) -> (result:
        Result<HealthRecord, StoreError>)
        ensures
            owner.is_anonymous() ==> result == Err::<HealthRecord, StoreError>(
                StoreError::Unauthenticated,
            ),
            !owner.is_anonymous() && (trim_of(request.title@).len() == 0 || trim_of(
                request.record_type@,
            ).len() == 0) ==> result == Err::<HealthRecord, StoreError>(StoreError::InvalidInput),
            result is Err ==> forall|o: Seq<u8>|
                final(self).records_of(o) == old(self).records_of(o),
            result is Err <==> (owner.is_anonymous() || trim_of(request.title@).len() == 0
                || trim_of(request.record_type@).len() == 0),
            result matches Ok(rec) ==> {
                &&& rec@ == (RecordView {
                    id: record_id_of(owner@, timestamp),
                    title: trim_of(request.title@),
                    record_type: trim_of(request.record_type@),
                    date: timestamp,
                    encrypted_url: request.encrypted_url@,
                    file_size: request.file_size,
                    created_at: timestamp,
                })
                &&& final(self).records_of(owner@) == old(self).records_of(owner@).push(rec@)
                &&& forall|o: Seq<u8>|
                    o != owner@ ==> final(self).records_of(o) == old(self).records_of(o)
            },
    {
        proof {
            use_type_invariant(&*self);
        }
        if owner.check_anonymous() {
            return Err(StoreError::Unauthenticated);
        }
        let title = trim_string(&request.title);
        if title.as_str().is_empty() {
            return Err(StoreError::InvalidInput);
        }
        let record_type = trim_string(&request.record_type);
        if record_type.as_str().is_empty() {
            return Err(StoreError::InvalidInput);
        }
        let id = crate::api::generate_record_id(owner, timestamp);
        let record = HealthRecord {
            id,
            title,
            record_type,
            date: timestamp,
            encrypted_url: request.encrypted_url,
            file_size: request.file_size,
            created_at: timestamp,
        };
        let returned = record.duplicate();
        let ghost entries_old = self.entries@;
        let mut entries: Vec<OwnerEntry> = Vec::new();
        core::mem::swap(&mut entries, &mut self.entries);
        match find_entry(&entries, owner) {
            Some(i) => {
                let mut entry = entries.remove(i);
                let ghost old_entry = entries_old[i as int];
                entry.records.push(record);
                let ghost new_entry = entry;
                entries.insert(i, entry);
                proof {
                    assert(entries@ =~= entries_old.update(i as int, new_entry));
                    lemma_lookup_at(entries_old, i as int, owner@);
                    assert(views_of(new_entry.records@) =~= views_of(old_entry.records@).push(
                        record@,
                    ));
                    assert forall|o: Seq<u8>| o != owner@ implies lookup(entries@, o) == lookup(
                        entries_old,
                        o,
                    ) by {
                        lemma_lookup_update(entries_old, i as int, new_entry, o);
                    }
                    lemma_lookup_update(entries_old, i as int, new_entry, owner@);
                }
                self.entries = entries;
                Ok(returned)
            },
            None => {
                let mut records: Vec<HealthRecord> = Vec::new();
                records.push(record);
                let entry = OwnerEntry { owner: owner.duplicate(), records };
                let ghost new_entry = entry;
                entries.push(entry);
                proof {
                    lemma_contains_iff(entries_old, owner@);
                    lemma_lookup_absent(entries_old, owner@);
                    assert(views_of(new_entry.records@) =~= Seq::<RecordView>::empty().push(
                        record@,
                    ));
                    lemma_lookup_push(entries_old, new_entry, owner@);
                    assert forall|o: Seq<u8>| o != owner@ implies lookup(entries@, o) == lookup(
                        entries_old,
                        o,
                    ) by {
                        lemma_lookup_push(entries_old, new_entry, o);
                        if !contains_owner(entries_old, o) {
                            lemma_lookup_absent(entries_old, o);
                        }
                    }
                }
                self.entries = entries;
                Ok(returned)
            },
        }
    }

    /// The caller's full record sequence, in insertion order; fails with
    /// Unauthenticated for the anonymous caller.
    pub fn list(&self, owner: &Owner) -> (result: Result<Vec<HealthRecord>, StoreError>)
        ensures
            owner.is_anonymous() ==> result == Err::<Vec<HealthRecord>, StoreError>(
                StoreError::Unauthenticated,
            ),
            !owner.is_anonymous() ==> (result matches Ok(v) && views_of(v@) == self.records_of(
                owner@,
            )),
            result matches Ok(v) ==> Some(views_of(v@)) == spec_list(*self, *owner),
    {
        if owner.check_anonymous() {
            return Err(StoreError::Unauthenticated);
        }
        match find_entry(&self.entries, owner) {
            Some(i) => {
                let out = copy_records(&self.entries[i].records);
                proof {
                    lemma_lookup_at(self.entries@, i as int, owner@);
                }
                Ok(out)
            },
            None => {
                proof {
                    lemma_lookup_absent(self.entries@, owner@);
                }
                Ok(Vec::new())
            },
        }
    }

    /// The first record of the caller's sequence with the given id; fails
    /// with Unauthenticated for the anonymous caller and with NotFound when
    /// no record of the caller carries the id.
    pub fn get(&self, owner: &Owner, record_id: &String) -> (result: Result<
        HealthRecord,
        StoreError,
    >)
        ensures
            owner.is_anonymous() ==> result == Err::<HealthRecord, StoreError>(
                StoreError::Unauthenticated,
            ),
            !owner.is_anonymous() ==> match result {
                Ok(rec) => exists|i: int|
                    is_first_match(self.records_of(owner@), record_id@, i) && rec@
                        == self.records_of(owner@)[i],
                Err(e) => e == StoreError::NotFound && !has_record_id(
                    self.records_of(owner@),
                    record_id@,
                ),
            },
    {
        if owner.check_anonymous() {
            return Err(StoreError::Unauthenticated);
        }
        match find_entry(&self.entries, owner) {
            Some(i) => {
                proof {
                    lemma_lookup_at(self.entries@, i as int, owner@);
                }
                match find_record(&self.entries[i].records, record_id) {
                    Some(j) => {
                        let rec = self.entries[i].records[j].duplicate();
                        proof {
                            let ghost rs = self.records_of(owner@);
                            assert(is_first_match(rs, record_id@, j as int) && rec@ == rs[
                            j as int]);
                        }
                        Ok(rec)
                    },
                    None => Err(StoreError::NotFound),
                }
            },
            None => {
                proof {
                    lemma_lookup_absent(self.entries@, owner@);
                }
                Err(StoreError::NotFound)
            },
        }
    }

    /// Removes the first record of the caller's sequence with the given id,
    /// keeping the order of the rest; fails with Unauthenticated for the
    /// anonymous caller and with NotFound when no record of the caller
    /// carries the id. A failure leaves the store unchanged.
    pub fn delete(&mut self, owner: &Owner, record_id: &String) -> (result: Result<
        (),
        StoreError,
    >)
        ensures
            owner.is_anonymous() ==> result == Err::<(), StoreError>(StoreError::Unauthenticated),
            result is Err ==> forall|o: Seq<u8>|
                final(self).records_of(o) == old(self).records_of(o),
            !owner.is_anonymous() ==> match result {
                Ok(u) => exists|i: int|
                    is_first_match(old(self).records_of(owner@), record_id@, i)
                        && final(self).records_of(owner@) == old(self).records_of(owner@).remove(
                        i,
                    ),
                Err(e) => e == StoreError::NotFound && !has_record_id(
                    old(self).records_of(owner@),
                    record_id@,
                ),
            },
            !owner.is_anonymous() && result is Ok ==> forall|o: Seq<u8>|
                o != owner@ ==> final(self).records_of(o) == old(self).records_of(o),
    {
        proof {
            use_type_invariant(&*self);
        }
        if owner.check_anonymous() {
            return Err(StoreError::Unauthenticated);
        }
        let ghost entries_old = self.entries@;
        match find_entry(&self.entries, owner) {
            Some(i) => {
                proof {
                    lemma_lookup_at(entries_old, i as int, owner@);
                }
                match find_record(&self.entries[i].records, record_id) {
                    Some(j) => {
                        let mut entries: Vec<OwnerEntry> = Vec::new();
                        core::mem::swap(&mut entries, &mut self.entries);
                        let mut entry = entries.remove(i);
                        let ghost old_entry = entries_old[i as int];
                        entry.records.remove(j);
                        let ghost new_entry = entry;
                        entries.insert(i, entry);
                        proof {
                            assert(entries@ =~= entries_old.update(i as int, new_entry));
                            assert(views_of(new_entry.records@) =~= views_of(
                                old_entry.records@,
                            ).remove(j as int));
                            assert forall|o: Seq<u8>| o != owner@ implies lookup(entries@, o)
                                == lookup(entries_old, o) by {
                                lemma_lookup_update(entries_old, i as int, new_entry, o);
                            }
                            lemma_lookup_update(entries_old, i as int, new_entry, owner@);
                        }
                        self.entries = entries;
                        proof {
                            assert(is_first_match(
                                old(self).records_of(owner@),
                                record_id@,
                                j as int,
                            ));
                            assert(self.records_of(owner@) == old(self).records_of(owner@).remove(
                                j as int,
                            ));
                        }
                        Ok(())
                    },
                    None => Err(StoreError::NotFound),
                }
            },
            None => {
                proof {
                    lemma_lookup_absent(entries_old, owner@);
                }
                Err(StoreError::NotFound)
            },
        }
    }

    /// The length of the caller's record sequence; zero for the anonymous
    /// caller, which this operation treats as having no records rather than
    /// as an error.
    pub fn count(&self, owner: &Owner) -> (r: u64)
        ensures
            r as nat == spec_count(*self, *owner),
            owner.is_anonymous() ==> r == 0,
            !owner.is_anonymous() ==> r as nat == self.records_of(owner@).len(),
    {
        if owner.check_anonymous() {
            return 0;
        }
        match find_entry(&self.entries, owner) {
            Some(i) => {
                proof {
                    lemma_lookup_at(self.entries@, i as int, owner@);
                }
                self.entries[i].records.len() as u64
            },
            None => {
                proof {
                    lemma_lookup_absent(self.entries@, owner@);
                }
                0
            },
        }
    }

    /// The whole store as plain data, for the durable layer to persist.
    pub fn snapshot(&self) -> (out: Vec<StoredEntry>)
        ensures
            stored_wf(out@),
            forall|o: Seq<u8>| stored_lookup(out@, o) == self.records_of(o),
    {
        proof {
            use_type_invariant(&*self);
        }
        let mut out: Vec<StoredEntry> = Vec::new();
        let mut i: usize = 0;
        while i < self.entries.len()
            invariant
                self.inv(),
                i <= self.entries@.len(),
                out@.len() == i,
                forall|j: int|
                    0 <= j < i ==> out@[j].owner_bytes@ == self.entries@[j].owner@ && views_of(
                        out@[j].records@,
                    ) == views_of(self.entries@[j].records@),
                forall|j: int| 0 <= j < i ==> out@[j].owner_bytes@.len() <= 29,
            decreases self.entries@.len() - i,
        {
            let e = &self.entries[i];
            out.push(StoredEntry { owner_bytes: e.owner.to_bytes(), records: copy_records(
                &e.records,
            ) });
            i = i + 1;
        }
        proof {
            assert forall|o: Seq<u8>| stored_lookup(out@, o) == self.records_of(o) by {
                lemma_parallel_lookup(out@, self.entries@, o);
            }
        }
        out
    }

    /// Rebuilds a store from persisted data. Returns the reloaded store
    /// exactly when the data is a well-formed snapshot, with every owner's
    /// sequence as it was persisted.
    pub fn restore(entries: Vec<StoredEntry>) -> (r: Option<RecordStore>)
        ensures
            match r {
                Some(s) => stored_wf(entries@) && forall|o: Seq<u8>|
                    s.records_of(o) == stored_lookup(entries@, o),
                None => !stored_wf(entries@),
            },
    {
        let mut out: Vec<OwnerEntry> = Vec::new();
        let mut i: usize = 0;
        while i < entries.len()
            invariant
                i <= entries@.len(),
                out@.len() == i,
                forall|j: int|
                    0 <= j < i ==> out@[j].owner@ == entries@[j].owner_bytes@ && views_of(
                        out@[j].records@,
                    ) == views_of(entries@[j].records@),
                forall|j: int|
                    0 <= j < i ==> entries@[j].owner_bytes@.len() <= 29 && entries@[j].owner_bytes@
                        != Owner::anonymous_bytes(),
                forall|j: int, k: int|
                    0 <= j < k < i ==> entries@[j].owner_bytes@ != entries@[k].owner_bytes@,
                forall|j: int| 0 <= j < i ==> !out@[j].owner.is_anonymous(),
            decreases entries@.len() - i,
        {
            let e = &entries[i];
            if e.owner_bytes.len() > 29 {
                proof {
                    assert(!(entries@[i as int].owner_bytes@.len() <= 29));
                }
                return None;
            }
            let owner = match Owner::from_bytes(crate::owner::copy_bytes(&e.owner_bytes)) {
                Some(o) => o,
                None => vstd::pervasive::unreached(),
            };
            if owner.check_anonymous() {
                proof {
                    assert(entries@[i as int].owner_bytes@ == Owner::anonymous_bytes());
                }
                return None;
            }
            match find_entry(&out, &owner) {
                Some(k) => {
                    proof {
                        assert(entries@[k as int].owner_bytes@ == entries@[i as int].owner_bytes@);
                        assert(k < i);
                    }
                    return None;
                },
                None => {
                    proof {
                        lemma_contains_iff(out@, owner@);
                    }
                },
            }
            out.push(OwnerEntry { owner, records: copy_records(&e.records) });
            i = i + 1;
        }
        let s = RecordStore { entries: out };
        proof {
            assert forall|o: Seq<u8>| s.records_of(o) == stored_lookup(entries@, o) by {
                lemma_parallel_lookup(entries@, s.entries@, o);
            }
        }
        Some(s)
    }
}

} // verus!
