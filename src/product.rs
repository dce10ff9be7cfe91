//! Finding the marketplace product that a vendor code names.
use vstd::prelude::*;
use crate::error::SyncError;

verus! {

/// Results requested per search.
pub const SEARCH_LIMIT: i32 = 100;

/// The search sent for one vendor code: free text, products with or without
/// photos, most relevant first.
#[derive(Clone, Debug)]
pub struct CardQuery {
    pub limit: i32,
    pub with_photo: i32,
    pub text_search: String,
    pub ascending: bool,
}

/// What came of a search request.
#[derive(Debug)]
pub enum SearchResponse {
    /// A successful response: the product ids of the cards, in order.
    Cards(Vec<i64>),
    /// A response with a status outside 2xx.
    Status(u16),
    /// A successful response whose body could not be read.
    Malformed,
    /// No response.
    Transport,
}

/// The search for `vendor_code`.
pub fn card_query(vendor_code: &str) -> (r: CardQuery)
    ensures
        r.limit == SEARCH_LIMIT,
        r.with_photo == -1,
        r.text_search@ == vendor_code@,
        !r.ascending,
{
    CardQuery {
        limit: SEARCH_LIMIT,
        with_photo: -1,
        text_search: vendor_code.to_owned(),
        ascending: false,
    }
}

/// The product that a search response names: the first card, which the
/// descending order makes the most relevant.
pub fn pick_product(response: &SearchResponse) -> (r: Result<i64, SyncError>)
    ensures
        match response {
            SearchResponse::Cards(ids) => if ids@.len() > 0 {
                r == Ok::<i64, SyncError>(ids@[0])
            } else {
                r == Err::<i64, SyncError>(SyncError::NotFound)
            },
            SearchResponse::Status(s) => r == Err::<i64, SyncError>(SyncError::Api { status: *s }),
            SearchResponse::Malformed => r == Err::<i64, SyncError>(SyncError::Protocol),
            SearchResponse::Transport => r == Err::<i64, SyncError>(SyncError::Transport),
        },
{
    match response {
        SearchResponse::Cards(ids) => if ids.len() > 0 {
            Ok(ids[0])
        } else {
            Err(SyncError::NotFound)
        },
        SearchResponse::Status(s) => Err(SyncError::Api { status: *s }),
        SearchResponse::Malformed => Err(SyncError::Protocol),
        SearchResponse::Transport => Err(SyncError::Transport),
    }
}

} // verus!
