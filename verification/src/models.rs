use vstd::prelude::*;

verus! {

/// Payload of a create request: the long URL and the caller-chosen slug.
pub struct EntryRequest {
    pub url: String,
    pub slug: String,
}

/// Payload returned for a persisted entry, exactly as stored.
#[derive(Debug)]
pub struct EntryResponse {
    pub id: String,
    pub url: String,
    pub slug: String,
    pub created_at: String,
}

} // verus!
