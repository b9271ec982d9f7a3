//! The URLs that agents and dashboards call on a relay, or on the desktop app's local API.

use vstd::prelude::*;
use crate::text::{trim_end_char, trim_end_matching};

verus! {

/// `format!("{}{}", base.trim_end_matches('/'), path)`.
pub open spec fn endpoint(base: Seq<char>, path: Seq<char>) -> Seq<char> {
    trim_end_char(base, '/') + path
}

/// The URL of `path` on the server at `base`, whatever slashes `base` ends with.
pub fn relay_endpoint(base: &str, path: &str) -> (r: String)
    ensures
        r@ == endpoint(base@, path@),
{
    let mut url = trim_end_matching(base, '/');
    url.append(path);
    url
}

/// The URL that deletes machine `machine_id` on the relay at `base`:
/// `{base}/v1/machines/{machine_id}`, the id written as it is.
pub fn machine_endpoint(base: &str, machine_id: &str) -> (r: String)
    ensures
        r@ == endpoint(base@, "/v1/machines/"@ + machine_id@),
{
    let mut url = trim_end_matching(base, '/');
    url.append("/v1/machines/");
    url.append(machine_id);
    proof {
        assert(url@ =~= trim_end_char(base@, '/') + ("/v1/machines/"@ + machine_id@));
    }
    url
}

/// A relay URL names the same endpoints with or without a trailing slash.
pub proof fn law_endpoint_ignores_trailing_slash(base: Seq<char>, path: Seq<char>)
    ensures
        endpoint(base.push('/'), path) == endpoint(base, path),
{
    assert(base.push('/').drop_last() =~= base);
}

} // verus!
