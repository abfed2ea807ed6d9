//! The small pure pieces behind the remaining endpoints: the version
//! report, the health probe, and the home page's response shape.

use vstd::prelude::*;
use vstd::string::StringExecFns;

verus! {

/// The payload of the version endpoint.
pub struct VersionResponse {
    pub version: String,
}

/// The version label to report: the value of the version variable when it
/// is set, `unknown` otherwise.
pub fn version_of(env_value: Option<String>) -> (r: VersionResponse)
    ensures
        match env_value {
            Some(v) => r.version@ == v@,
            None => r.version@ == "unknown"@,
        },
{
    match env_value {
        Some(v) => VersionResponse { version: v },
        None => VersionResponse { version: String::from_str("unknown") },
    }
}

/// The body the health probe always answers with.
pub fn health_body() -> (r: String)
    ensures
        r@ == "ok"@,
{
    String::from_str("ok")
}

/// What the home page endpoint sends back.
pub struct HomeReply {
    pub status: u16,
    pub content_type: String,
    pub body: String,
}

/// The home page's response for a read of the fixed HTML file: the page
/// itself on success, a plain-text failure notice otherwise.
pub fn home_reply(content: Option<String>) -> (r: HomeReply)
    ensures
        match content {
            Some(page) => r.status == 200 && r.content_type@ == "text/html; charset=utf-8"@
                && r.body@ == page@,
            None => r.status == 500 && r.content_type@ == "text/plain; charset=utf-8"@
                && r.body@ == "Failed to load static content"@,
        },
{
    match content {
        Some(page) => HomeReply {
            status: 200,
            content_type: String::from_str("text/html; charset=utf-8"),
            body: page,
        },
        None => HomeReply {
            status: 500,
            content_type: String::from_str("text/plain; charset=utf-8"),
            body: String::from_str("Failed to load static content"),
        },
    }
}

} // verus!
