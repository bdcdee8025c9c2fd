use vstd::prelude::*;
use crate::digits::dec_str;
use crate::owner::principal_text_of;

verus! {

/// What the store remembers of one record, in mathematical form.
pub ghost struct RecordView {
    pub id: Seq<char>,
    pub title: Seq<char>,
    pub record_type: Seq<char>,
    pub date: u64,
    pub encrypted_url: Seq<char>,
    pub file_size: Option<u64>,
    pub created_at: u64,
}

/// One stored record: a title, a category, two equal creation timestamps in
/// seconds, a reference to externally encrypted content, and an optional
/// caller-supplied byte count.
#[derive(Clone, Debug)]
pub struct HealthRecord {
    pub id: String,
    pub title: String,
    pub record_type: String,
    pub date: u64,
    pub encrypted_url: String,
    pub file_size: Option<u64>,
    pub created_at: u64,
}

impl View for HealthRecord {
    type V = RecordView;

    open spec fn view(&self) -> RecordView {
        RecordView {
            id: self.id@,
            title: self.title@,
            record_type: self.record_type@,
            date: self.date,
            encrypted_url: self.encrypted_url@,
            file_size: self.file_size,
            created_at: self.created_at,
        }
    }
}

impl HealthRecord {
    /// A record equal to this one, field by field.
    pub fn duplicate(&self) -> (r: HealthRecord)
        ensures
            r == *self,
    {
        HealthRecord {
            id: self.id.clone(),
            title: self.title.clone(),
            record_type: self.record_type.clone(),
            date: self.date,
            encrypted_url: self.encrypted_url.clone(),
            file_size: self.file_size,
            created_at: self.created_at,
        }
    }
}

/// The caller-supplied fields of a record to be added.
#[derive(Clone, Debug)]
pub struct AddRecordRequest {
    pub title: String,
    pub record_type: String,
    pub encrypted_url: String,
    pub file_size: Option<u64>,
}

/// The three expected failures: an anonymous caller on an operation that
/// needs identity, an empty title or category after trimming, and a record
/// id absent from the caller's own records.
#[derive(Clone, Copy, Debug, PartialEq, Eq)]
pub enum StoreError {
    Unauthenticated,
    InvalidInput,
    NotFound,
}

/// The envelope every request handler answers with.
#[derive(Clone, Debug)]
pub struct ApiResponse {
    pub success: bool,
    pub message: String,
    pub data: Option<Vec<HealthRecord>>,
}

/// What str::trim returns on the given characters.
pub uninterp spec fn trim_of(s: Seq<char>) -> Seq<char>;

/// Relies on str::trim: removes leading and trailing whitespace; the result
/// depends on the characters alone.
#[verifier::external_body]
pub(crate) fn trim_string(s: &String) -> (r: String)
    ensures
        r@ == trim_of(s@),
{
    s.trim().to_string()
}

/// The id a record gets when `owner` creates it at second `timestamp`: the
/// owner's principal text and the decimal timestamp, joined by an underscore.
pub open spec fn record_id_of(owner: Seq<u8>, timestamp: u64) -> Seq<char> {
    principal_text_of(owner) + seq!['_'] + dec_str(timestamp as nat)
}

} // verus!
