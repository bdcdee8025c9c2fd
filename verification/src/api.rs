use vstd::prelude::*;
use crate::digits::dec_str;
use crate::digits::u64_to_dec;
use crate::owner::Owner;
use crate::record::AddRecordRequest;
use crate::record::ApiResponse;
use crate::record::HealthRecord;
use crate::record::RecordView;
use crate::record::StoreError;
use crate::record::record_id_of;
use crate::record::trim_of;
use crate::store::RecordStore;
use crate::store::has_record_id;
use crate::store::is_first_match;
use crate::store::views_of;

verus! {

/// The id of a record created by `owner` at second `timestamp`: the owner's
/// principal text and the decimal timestamp, joined by an underscore.
pub fn generate_record_id(owner: &Owner, timestamp: u64) -> (r: String)
    ensures
        r@ == record_id_of(owner@, timestamp),
{
    let mut s = owner.text();
    s.append("_");
    let digits = u64_to_dec(timestamp);
    s.append(digits.as_str());
    proof {
        reveal_strlit("_");
        assert("_"@ =~= seq!['_']);
        assert(s@ =~= record_id_of(owner@, timestamp));
    }
    s
}

/// Converts the host clock's nanosecond reading to whole seconds.
pub fn seconds_from_nanos(nanos: u64) -> (r: u64)
    ensures
        r == nanos / 1_000_000_000,
{
    nanos / 1_000_000_000
}

/// Validates and stores a new record for the caller, answering with the
/// outcome and no data.
pub fn add_record(store: &mut RecordStore, caller: &Owner, timestamp: u64, request: AddRecordRequest) -> (r: ApiResponse)
    ensures
        caller.is_anonymous() ==> !r.success && r.message@ == "Anonymous users cannot add records"@,
        !caller.is_anonymous() && trim_of(request.title@).len() == 0 ==> !r.success && r.message@
            == "Title cannot be empty"@,
        !caller.is_anonymous() && trim_of(request.title@).len() != 0 && trim_of(
            request.record_type@,
        ).len() == 0 ==> !r.success && r.message@ == "Record type cannot be empty"@,
        !r.success ==> forall|o: Seq<u8>| final(store).records_of(o) == old(store).records_of(o),
        r.success <==> (!caller.is_anonymous() && trim_of(request.title@).len() != 0 && trim_of(
            request.record_type@,
        ).len() != 0),
        r.success ==> {
            &&& r.message@ == "Record added successfully"@
            &&& final(store).records_of(caller@) == old(store).records_of(caller@).push(
                RecordView {
                    id: record_id_of(caller@, timestamp),
                    title: trim_of(request.title@),
                    record_type: trim_of(request.record_type@),
                    date: timestamp,
                    encrypted_url: request.encrypted_url@,
                    file_size: request.file_size,
                    created_at: timestamp,
                },
            )
            &&& forall|o: Seq<u8>|
                o != caller@ ==> final(store).records_of(o) == old(store).records_of(o)
        },
        r.data is None,
{
    if caller.check_anonymous() {
        return ApiResponse {
            success: false,
            message: String::from_str("Anonymous users cannot add records"),
            data: None,
        };
    }
    let title = crate::record::trim_string(&request.title);
    if title.as_str().is_empty() {
        return ApiResponse {
            success: false,
            message: String::from_str("Title cannot be empty"),
            data: None,
        };
    }
    let record_type = crate::record::trim_string(&request.record_type);
    if record_type.as_str().is_empty() {
        return ApiResponse {
            success: false,
            message: String::from_str("Record type cannot be empty"),
            data: None,
        };
    }
    match store.add(caller, timestamp, request) {
        Ok(_) => ApiResponse {
            success: true,
            message: String::from_str("Record added successfully"),
            data: None,
        },
        Err(_) => vstd::pervasive::unreached(),
    }
}

/// Answers with the caller's full record sequence, in insertion order.
pub fn get_my_records(store: &RecordStore, caller: &Owner) -> (r: ApiResponse)
    ensures
        caller.is_anonymous() ==> !r.success && r.message@ == "Authentication required"@
            && r.data is None,
        !caller.is_anonymous() ==> {
            &&& r.success
            &&& r.data matches Some(v) && views_of(v@) == store.records_of(caller@)
            &&& r.message@ == "Found "@ + dec_str(store.records_of(caller@).len()) + " records"@
        },
{
    match store.list(caller) {
        Ok(records) => {
            let n = records.len() as u64;
            let mut message = String::from_str("Found ");
            let digits = u64_to_dec(n);
            message.append(digits.as_str());
            message.append(" records");
            ApiResponse { success: true, message, data: Some(records) }
        },
        Err(_) => ApiResponse {
            success: false,
            message: String::from_str("Authentication required"),
            data: None,
        },
    }
}

/// Answers with the first record of the caller's sequence that carries the
/// given id, if any.
pub fn get_record_by_id(store: &RecordStore, caller: &Owner, record_id: &String) -> (r:
    ApiResponse)
    ensures
        caller.is_anonymous() ==> !r.success && r.message@ == "Authentication required"@
            && r.data is None,
        !caller.is_anonymous() && has_record_id(store.records_of(caller@), record_id@) ==> {
            &&& r.success
            &&& r.message@ == "Record found"@
            &&& r.data matches Some(v) && v@.len() == 1 && exists|i: int|
                is_first_match(store.records_of(caller@), record_id@, i) && v@[0]@
                    == store.records_of(caller@)[i]
        },
        !caller.is_anonymous() && !has_record_id(store.records_of(caller@), record_id@) ==> {
            &&& !r.success
            &&& r.message@ == "Record not found or access denied"@
            &&& r.data is None
        },
{
    match store.get(caller, record_id) {
        Ok(record) => {
            let mut data: Vec<HealthRecord> = Vec::new();
            data.push(record);
            ApiResponse {
                success: true,
                message: String::from_str("Record found"),
                data: Some(data),
            }
        },
        Err(StoreError::Unauthenticated) => ApiResponse {
            success: false,
            message: String::from_str("Authentication required"),
            data: None,
        },
        Err(_) => ApiResponse {
            success: false,
            message: String::from_str("Record not found or access denied"),
            data: None,
        },
    }
}

/// Removes the first record of the caller's sequence that carries the given
/// id; a failure leaves the store unchanged.
pub fn delete_record(store: &mut RecordStore, caller: &Owner, record_id: &String) -> (r:
    ApiResponse)
    ensures
        caller.is_anonymous() ==> !r.success && r.message@ == "Authentication required"@,
        !r.success ==> forall|o: Seq<u8>| final(store).records_of(o) == old(store).records_of(o),
        !caller.is_anonymous() && has_record_id(old(store).records_of(caller@), record_id@) ==> {
            &&& r.success
            &&& r.message@ == "Record deleted successfully"@
            &&& exists|i: int|
                is_first_match(old(store).records_of(caller@), record_id@, i)
                    && final(store).records_of(caller@) == old(store).records_of(caller@).remove(i)
            &&& forall|o: Seq<u8>|
                o != caller@ ==> final(store).records_of(o) == old(store).records_of(o)
        },
        !caller.is_anonymous() && !has_record_id(old(store).records_of(caller@), record_id@) ==> {
            &&& !r.success
            &&& r.message@ == "Record not found or access denied"@
        },
        r.data is None,
{
    match store.delete(caller, record_id) {
        Ok(_) => ApiResponse {
            success: true,
            message: String::from_str("Record deleted successfully"),
            data: None,
        },
        Err(StoreError::Unauthenticated) => ApiResponse {
            success: false,
            message: String::from_str("Authentication required"),
            data: None,
        },
        Err(_) => ApiResponse {
            success: false,
            message: String::from_str("Record not found or access denied"),
            data: None,
        },
    }
}

/// The number of records of the caller; zero for the anonymous caller.
pub fn get_record_count(store: &RecordStore, caller: &Owner) -> (r: u64)
    ensures
        r as nat == crate::store::spec_count(*store, *caller),
        caller.is_anonymous() ==> r == 0,
        !caller.is_anonymous() ==> r as nat == store.records_of(caller@).len(),
{
    store.count(caller)
}

/// A fixed liveness answer.
pub fn health_check() -> (r: String)
    ensures
        r@ == "Health Records Backend is running"@,
{
    String::from_str("Health Records Backend is running")
}

} // verus!
