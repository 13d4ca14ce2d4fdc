//! The health-summary boundary: the response payloads the consumer reads,
//! the routing decision over a raw request, and the guarantee that a health
//! summary reports exactly the store's aggregate counts.
//!
//! Listening, reading and writing sockets, and rendering the payloads to
//! bytes on the wire, live at the process edge.

use vstd::prelude::*;

use crate::storage::StorageManager;

verus! {

/// The response envelope: `data` is present exactly on success, `error`
/// exactly on failure.
#[derive(Debug)]
pub struct ApiResponse<T> {
    pub success: bool,
    pub data: Option<T>,
    pub error: Option<String>,
}

impl<T> ApiResponse<T> {
    /// A successful envelope around a payload.
    pub fn ok(data: T) -> (r: Self)
        ensures
            r.success,
            r.data == Some(data),
            r.error is None,
    {
        ApiResponse { success: true, data: Some(data), error: None }
    }

    /// A failed envelope around an error message.
    pub fn failure(error: String) -> (r: Self)
        ensures
            !r.success,
            r.data is None,
            r.error == Some(error),
    {
        ApiResponse { success: false, data: None, error: Some(error) }
    }
}

/// The health summary payload.
#[derive(Debug)]
pub struct HealthResponse {
    pub status: String,
    pub version: String,
    pub uptime_seconds: u64,
    pub blocks_indexed: u64,
    pub transactions_indexed: u64,
}

/// `needle` occurs in `hay` starting at position `i`.
pub open spec fn contains_at(hay: Seq<char>, needle: Seq<char>, i: int) -> bool {
    &&& 0 <= i
    &&& i + needle.len() <= hay.len()
    &&& hay.subrange(i, i + needle.len()) == needle
}

/// `needle` occurs somewhere in `hay`.
pub open spec fn str_contains(hay: Seq<char>, needle: Seq<char>) -> bool {
    exists|i: int| contains_at(hay, needle, i)
}

fn matches_at(hay: &str, needle: &str, i: usize) -> (r: bool)
    requires
        i + needle@.len() <= hay@.len(),
    ensures
        r == contains_at(hay@, needle@, i as int),
{
    let hlen = hay.unicode_len();
    let nlen = needle.unicode_len();
    let mut j: usize = 0;
    while j < nlen
        invariant
            hlen == hay@.len(),
            nlen == needle@.len(),
            i + nlen <= hay@.len(),
            j <= nlen,
            forall|q: int| 0 <= q < j ==> hay@[i + q] == needle@[q],
        decreases nlen - j,
    {
        if hay.get_char(i + j) != needle.get_char(j) {
            proof {
                if contains_at(hay@, needle@, i as int) {
                    assert(hay@.subrange(i as int, i + needle@.len())[j as int] == needle@[
                        j as int
                    ]);
                }
            }
            return false;
        }
        j = j + 1;
    }
    proof {
        assert(hay@.subrange(i as int, i + needle@.len()) =~= needle@);
    }
    true
}

/// Decide whether `needle` occurs anywhere in `hay`.
fn contains_sub(hay: &str, needle: &str) -> (r: bool)
    ensures
        r == str_contains(hay@, needle@),
{
    let hlen = hay.unicode_len();
    let nlen = needle.unicode_len();
    if nlen > hlen {
        return false;
    }
    if nlen == 0 {
        proof {
            assert(hay@.subrange(0, 0) =~= needle@);
            assert(contains_at(hay@, needle@, 0));
        }
        return true;
    }
    let mut i: usize = 0;
    while i <= hlen - nlen
        invariant
            nlen == needle@.len(),
            hlen == hay@.len(),
            1 <= nlen <= hlen,
            i <= hlen - nlen + 1,
            forall|p: int| 0 <= p < i ==> !contains_at(hay@, needle@, p),
        decreases hlen - nlen - i + 1,
    {
        if matches_at(hay, needle, i) {
            return true;
        }
        i = i + 1;
    }
    proof {
        assert forall|p: int| !contains_at(hay@, needle@, p) by {
            if 0 <= p < i {
            } else if p >= i {
                assert(p + needle@.len() > hay@.len());
            }
        }
    }
    false
}

/// Where a raw request is routed.
#[derive(Debug, Clone, Copy, PartialEq, Eq, Structural)]
pub enum Route {
    Health,
    Playground,
    NotFound,
}

/// Route a raw request: the health endpoint first, then the playground page,
/// else not found.
pub fn route_request(request: &str) -> (r: Route)
    ensures
        r is Health <==> str_contains(request@, "GET /health"@),
        r is Playground <==> !str_contains(request@, "GET /health"@) && str_contains(
            request@,
            "GET /playground"@,
        ),
        r is NotFound <==> !str_contains(request@, "GET /health"@) && !str_contains(
            request@,
            "GET /playground"@,
        ),
{
    if contains_sub(request, "GET /health") {
        Route::Health
    } else if contains_sub(request, "GET /playground") {
        Route::Playground
    } else {
        Route::NotFound
    }
}

/// Build the health summary: the reported aggregates equal the store's exact
/// counts at this point, and the status reads healthy.
pub fn get_health_data(storage: &StorageManager, version: String, uptime_seconds: u64) -> (r:
    HealthResponse)
    requires
        storage.wf(),
    ensures
        r.status@ == "healthy"@,
        r.version == version,
        r.uptime_seconds == uptime_seconds,
        r.blocks_indexed as nat == storage.blocks().dom().len(),
        r.transactions_indexed as nat == storage.transactions().dom().len(),
{
    let blocks_indexed = storage.get_block_count();
    let transactions_indexed = storage.get_transaction_count();
    HealthResponse {
        status: "healthy".to_owned(),
        version,
        uptime_seconds,
        blocks_indexed,
        transactions_indexed,
    }
}

/// Answer a health query: a successful envelope whose payload counts are
/// exactly the store's block and transaction cardinalities.
pub fn handle_health(storage: &StorageManager, version: String, uptime_seconds: u64) -> (r:
    ApiResponse<HealthResponse>)
    requires
        storage.wf(),
    ensures
        r.success,
        r.error is None,
        match r.data {
            Some(h) => {
                &&& h.status@ == "healthy"@
                &&& h.version == version
                &&& h.uptime_seconds == uptime_seconds
                &&& h.blocks_indexed as nat == storage.blocks().dom().len()
                &&& h.transactions_indexed as nat == storage.transactions().dom().len()
            },
            None => false,
        },
{
    ApiResponse::ok(get_health_data(storage, version, uptime_seconds))
}

} // verus!
