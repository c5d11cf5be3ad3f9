use vstd::prelude::*;

verus! {

/// The port the backend listens on unless told otherwise.
pub const DEFAULT_PORT: u16 = 55001;

/// The answer to a request sent to the backend.
#[derive(Debug, Clone)]
pub enum RequestResult {
    Success(String),
    RequestError,
    JsonParseError,
}

/// What to do about the backend after probing its port.
#[derive(Debug, Clone, Copy, PartialEq, Eq, Structural)]
pub enum LaunchPlan {
    /// Something else answers on the port: the status stays unknown.
    LeaveUnknown,
    /// A backend already answers on the port: connect to it.
    UseExisting,
    /// Nothing answers: start the backend as a child process.
    StartChild,
}

/// Whether `reqwest::Url::parse` accepts this text as a URL.
pub uninterp spec fn is_url(q: Seq<char>) -> bool;

/// `reqwest::Url::parse(q).is_ok()`: whether the text parses as a URL.
#[verifier::external_body]
fn parses_as_url(q: &str) -> (r: bool)
    ensures
        r == is_url(q@),
{
    reqwest::Url::parse(q).is_ok()
}

/// What a submitted search query asks the backend for.
#[derive(Debug, Clone)]
pub enum SearchRequest {
    /// The query is a URL: look up what it points at.
    Info(String),
    /// Anything else: search for it.
    Search(String),
}

/// The request for a submitted query: a URL is looked up, anything else
/// is searched for; the query is passed on as it is.
pub fn search_request(q: &String) -> (r: SearchRequest)
    ensures
        is_url(q@) ==> (r matches SearchRequest::Info(s) && s@ == q@),
        !is_url(q@) ==> (r matches SearchRequest::Search(s) && s@ == q@),
{
    if parses_as_url(q.as_str()) {
        SearchRequest::Info(q.clone())
    } else {
        SearchRequest::Search(q.clone())
    }
}

/// The port to use: the one given, else the default one.
pub fn port_or_default(port: Option<u16>) -> (r: u16)
    ensures
        r == match port {
            Some(p) => p,
            None => DEFAULT_PORT,
        },
{
    match port {
        Some(p) => p,
        None => DEFAULT_PORT,
    }
}

/// Whether the reply of the port is the backend's greeting.
pub fn is_backend_reply(text: &str) -> (r: bool)
    ensures
        r == (text@ == "YTM_RS_BACKEND"@),
{
    let owned = text.to_owned();
    owned == "YTM_RS_BACKEND".to_owned()
}

/// Decides how to reach the backend from what the port probe found:
/// whether anything answered, and whether the answer was the backend's.
pub fn plan_launch(answered: bool, is_backend: bool) -> (r: LaunchPlan)
    ensures
        r == if answered && !is_backend {
            LaunchPlan::LeaveUnknown
        } else if answered {
            LaunchPlan::UseExisting
        } else {
            LaunchPlan::StartChild
        },
{
    if answered && !is_backend {
        LaunchPlan::LeaveUnknown
    } else if answered {
        LaunchPlan::UseExisting
    } else {
        LaunchPlan::StartChild
    }
}

} // verus!
