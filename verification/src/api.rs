//! `jirac api`: raw requests to the Jira REST API.
use vstd::prelude::*;

use crate::text::push_str;

verus! {

/// `jirac api` subcommands: a method, an API path, and a JSON body for the
/// methods that send one.
pub enum ApiCommand {
    Get { path: String },
    Post { path: String, body: Option<String> },
    Put { path: String, body: Option<String> },
    Delete { path: String },
    Patch { path: String, body: Option<String> },
}

/// A request to send: method, path and the body text when there is one.
pub struct ApiRequest {
    pub method: &'static str,
    pub path: String,
    pub body: Option<String>,
}

/// The request an API command sends.
pub fn request(cmd: ApiCommand) -> (r: ApiRequest)
    ensures
        match cmd {
            ApiCommand::Get { path } => r.method@ == "GET"@ && r.path == path && r.body is None,
            ApiCommand::Post { path, body } => r.method@ == "POST"@ && r.path == path && r.body == body,
            ApiCommand::Put { path, body } => r.method@ == "PUT"@ && r.path == path && r.body == body,
            ApiCommand::Delete { path } => r.method@ == "DELETE"@ && r.path == path && r.body is None,
            ApiCommand::Patch { path, body } => r.method@ == "PATCH"@ && r.path == path && r.body == body,
        },
{
    match cmd {
        ApiCommand::Get { path } => ApiRequest { method: "GET", path, body: None },
        ApiCommand::Post { path, body } => ApiRequest { method: "POST", path, body },
        ApiCommand::Put { path, body } => ApiRequest { method: "PUT", path, body },
        ApiCommand::Delete { path } => ApiRequest { method: "DELETE", path, body: None },
        ApiCommand::Patch { path, body } => ApiRequest { method: "PATCH", path, body },
    }
}

/// The context given to a failed request's error.
pub fn failure_context(method: &str, path: &str) -> (r: String)
    ensures
        r@ == method@ + " "@ + path@ + " failed"@,
{
    let mut m = String::new();
    push_str(&mut m, method);
    push_str(&mut m, " ");
    push_str(&mut m, path);
    push_str(&mut m, " failed");
    m
}

} // verus!
