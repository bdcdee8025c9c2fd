pub mod api;
pub mod digits;
pub mod laws;
pub mod owner;
pub mod record;
pub mod store;

pub use owner::Owner;
pub use record::AddRecordRequest;
pub use record::ApiResponse;
pub use record::HealthRecord;
pub use record::StoreError;
pub use store::RecordStore;
pub use store::StoredEntry;
