//! The status endpoint: how the outcomes of its probes are reported.
use vstd::prelude::*;
use crate::text::{contains_seq, str_contains};

verus! {

/// What the status report says of authentication, search and parsing.
#[derive(Debug)]
pub struct SearchHealth {
    pub auth: &'static str,
    pub search: &'static str,
    pub parsing: &'static str,
}

/// The status of authentication, search and parsing after a probe search that
/// found `Ok(count)` torrents or failed with a message: an expired session is
/// reported as such; an empty result means the parsing failed.
pub fn search_health(outcome: Result<usize, String>) -> (r: SearchHealth)
    ensures
        match outcome {
            Ok(n) => r.auth@ == "authenticated"@ && r.search@ == "ok"@ && r.parsing@ == if n == 0 {
                "failed"@
            } else {
                "ok"@
            },
            Err(m) => if contains_seq(m@, "Session expired"@) {
                r.auth@ == "not_authenticated"@ && r.search@ == "ok"@ && r.parsing@ == "n/a"@
            } else {
                r.auth@ == "auth_error"@ && r.search@ == "failed"@ && r.parsing@ == "n/a"@
            },
        },
{
    match outcome {
        Ok(n) => SearchHealth {
            auth: "authenticated",
            search: "ok",
            parsing: if n == 0 {
                "failed"
            } else {
                "ok"
            },
        },
        Err(m) => {
            if str_contains(m.as_str(), "Session expired") {
                SearchHealth { auth: "not_authenticated", search: "ok", parsing: "n/a" }
            } else {
                SearchHealth { auth: "auth_error", search: "failed", parsing: "n/a" }
            }
        },
    }
}

/// The status of a probe that succeeded or failed.
pub fn probe_status(ok: bool) -> (r: &'static str)
    ensures
        r@ == if ok {
            "ok"@
        } else {
            "failed"@
        },
{
    if ok {
        "ok"
    } else {
        "failed"
    }
}

/// Whether the TMDB integration is on.
pub fn tmdb_status(token_configured: bool) -> (r: &'static str)
    ensures
        r@ == if token_configured {
            "enabled"@
        } else {
            "disabled"@
        },
{
    if token_configured {
        "enabled"
    } else {
        "disabled"
    }
}

/// The remaining downloads as reported: the count, or -1 when it could not be read.
pub fn remaining_status(remaining: Result<u16, String>) -> (r: i32)
    ensures
        r == match remaining {
            Ok(n) => n as i32,
            Err(_) => -1i32,
        },
{
    match remaining {
        Ok(n) => n as i32,
        Err(_) => -1,
    }
}

} // verus!
