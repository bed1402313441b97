//! Fetching the comments of an issue: what to ask for, and what to make of
//! each answer. Nothing here touches the network; the caller performs each
//! action and reports what came of it.

use crate::config::Env;
use crate::text::{decimal, format_decimal};
use vstd::prelude::*;

verus! {

/// `reqwest::Error`, carried through unread.
#[verifier::external_type_specification]
#[verifier::external_body]
pub struct ExTransportError(reqwest::Error);

/// `reqwest::header::HeaderValue`, carried through unread.
#[verifier::external_type_specification]
#[verifier::external_body]
pub struct ExHeaderValue(reqwest::header::HeaderValue);

/// `reqwest::header::InvalidHeaderValue`, carried through unread.
#[verifier::external_type_specification]
#[verifier::external_body]
pub struct ExInvalidHeaderValue(reqwest::header::InvalidHeaderValue);

/// Where the API lives.
pub const API_URL: &'static str = "https://api.github.com";

/// The media type asked of the API.
pub const ACCEPT_VALUE: &'static str = "application/vnd.github+json";

/// What the API says of an issue, as far as it is read.
#[derive(Debug)]
pub struct GetIssueResponse {
    pub comments_url: String,
}

/// One comment of an issue, as far as it is read.
#[derive(Debug)]
pub struct Comment {
    pub body: String,
}

/// Why the comments could not be had.
#[derive(Debug)]
pub enum GetCommentsError {
    /// A request failed, or an answer could not be decoded.
    Reqwest(reqwest::Error),
    /// A setting cannot be sent as the value of a header.
    InvalidHeader(reqwest::header::InvalidHeaderValue),
    /// The API answered with a status other than 200.
    NotOk,
}

/// The three headers that go with every request, as text.
#[derive(Clone, Debug)]
pub struct RequestHeaders {
    pub user_agent: String,
    pub authorization: String,
    pub accept: String,
}

/// Where a fetch stands.
#[derive(Clone, Copy, Debug, PartialEq, Eq, Structural)]
pub enum FetchState {
    /// The issue was asked for; its status is awaited.
    IssueRequested,
    /// The issue came with status 200; its decoded body is awaited.
    IssueAccepted,
    /// The comments were asked for; their status is awaited.
    CommentsRequested,
    /// The comments came with status 200; their decoded body is awaited.
    CommentsAccepted,
    /// The fetch is over.
    Closed,
}

/// What came of the last action.
#[derive(Debug)]
pub enum FetchEvent {
    /// An answer arrived with this status.
    Status(u16),
    /// The body of the answer was decoded as an issue.
    Issue(GetIssueResponse),
    /// The body of the answer was decoded as a list of comments.
    Comments(Vec<Comment>),
    /// The request could not be made, or the body could not be decoded.
    Failed(reqwest::Error),
}

/// What the caller is to do next.
#[derive(Debug)]
pub enum FetchAction {
    /// Send a GET request to this address, with the request headers.
    Get(String),
    /// Decode the body of the last answer as an issue.
    DecodeIssue,
    /// Decode the body of the last answer as a list of comments.
    DecodeComments,
    /// Hand these comments out: the fetch has succeeded.
    Deliver(Vec<Comment>),
    /// Give up with this error.
    Abort(GetCommentsError),
}

/// Whether `c` may stand in the value of a header: a tab, or any character
/// from the space upwards but DEL.
pub open spec fn header_char(c: char) -> bool {
    c == '\t' || (c as u32 >= 0x20 && c as u32 != 0x7f)
}

/// Whether `s` can be sent as the value of a header.
pub open spec fn header_text(s: Seq<char>) -> bool {
    forall|i: int| 0 <= i < s.len() ==> header_char(#[trigger] s[i])
}

/// The address of issue `number` of the repository `org`/`repo`.
pub open spec fn issue_url(org: Seq<char>, repo: Seq<char>, number: nat) -> Seq<char> {
    API_URL@ + "/repos/"@ + org + "/"@ + repo + "/issues/"@ + decimal(number)
}

/// The step that follows `event` in `state`: none where the event does not
/// answer what the state awaits.
pub open spec fn next_step(state: FetchState, event: FetchEvent) -> Option<
    (FetchState, FetchAction),
> {
    match (state, event) {
        (FetchState::Closed, _) => None,
        (_, FetchEvent::Failed(e)) => Some(
            (FetchState::Closed, FetchAction::Abort(GetCommentsError::Reqwest(e))),
        ),
        (FetchState::IssueRequested, FetchEvent::Status(code)) => Some(
            if code == 200 {
                (FetchState::IssueAccepted, FetchAction::DecodeIssue)
            } else {
                (FetchState::Closed, FetchAction::Abort(GetCommentsError::NotOk))
            },
        ),
        (FetchState::IssueAccepted, FetchEvent::Issue(issue)) => Some(
            (FetchState::CommentsRequested, FetchAction::Get(issue.comments_url)),
        ),
        (FetchState::CommentsRequested, FetchEvent::Status(code)) => Some(
            if code == 200 {
                (FetchState::CommentsAccepted, FetchAction::DecodeComments)
            } else {
                (FetchState::Closed, FetchAction::Abort(GetCommentsError::NotOk))
            },
        ),
        (FetchState::CommentsAccepted, FetchEvent::Comments(comments)) => Some(
            (FetchState::Closed, FetchAction::Deliver(comments)),
        ),
        _ => None,
    }
}

/// Calls `HeaderValue::from_str`, which accepts a text exactly when each of
/// its bytes is a tab, or is 32 or more and not 127. A character outside
/// ASCII is encoded in bytes of 128 or more, so the test comes to
/// `header_text`. Nothing is claimed of the value itself.
#[verifier::external_body]
pub(crate) fn header_value(s: &str) -> (r: Result<
    reqwest::header::HeaderValue,
    reqwest::header::InvalidHeaderValue,
>)
    ensures
        r is Ok <==> header_text(s@),
{
    reqwest::header::HeaderValue::from_str(s)
}

/// Writes the address of issue `number` of the repository that `env` names.
pub fn issue_address(env: &Env, number: u16) -> (r: String)
    ensures
        r@ == issue_url(env.repo_org@, env.repo_name@, number as nat),
{
    let mut r = String::new();
    r.append(API_URL);
    r.append("/repos/");
    r.append(env.repo_org.as_str());
    r.append("/");
    r.append(env.repo_name.as_str());
    r.append("/issues/");
    r.append(format_decimal(number as u64).as_str());
    r
}

/// Opens a fetch of the comments of issue `issue_number`.
///
/// Fails, before anything is sent, where the client's name or its token
/// cannot be the value of a header. Else it hands out the headers of every
/// request, and the first step: to ask for the issue.
pub fn begin(env: &Env, issue_number: u16) -> (r: Result<
    (RequestHeaders, FetchState, FetchAction),
    GetCommentsError,
>)
    ensures
        r is Ok <==> header_text(env.gh_api_project_name@) && header_text(env.gh_api_token@),
        r matches Err(e) ==> e is InvalidHeader,
        r matches Ok((headers, state, action)) ==> {
            &&& headers.user_agent == env.gh_api_project_name
            &&& headers.authorization == env.gh_api_token
            &&& headers.accept@ == ACCEPT_VALUE@
            &&& state == FetchState::IssueRequested
            &&& action matches FetchAction::Get(url)
            &&& url@ == issue_url(env.repo_org@, env.repo_name@, issue_number as nat)
        },
{
    match header_value(env.gh_api_project_name.as_str()) {
        Err(e) => {
            return Err(GetCommentsError::InvalidHeader(e));
        },
        Ok(_) => {},
    }
    match header_value(env.gh_api_token.as_str()) {
        Err(e) => {
            return Err(GetCommentsError::InvalidHeader(e));
        },
        Ok(_) => {},
    }
    let headers = RequestHeaders {
        user_agent: env.gh_api_project_name.clone(),
        authorization: env.gh_api_token.clone(),
        accept: ACCEPT_VALUE.to_owned(),
    };
    Ok((headers, FetchState::IssueRequested, FetchAction::Get(issue_address(env, issue_number))))
}

/// Takes a fetch one step further: from where it stands and what came of the
/// last action, to where it stands now and what to do next.
pub fn advance(state: FetchState, event: FetchEvent) -> (r: Option<(FetchState, FetchAction)>)
    ensures
        r == next_step(state, event),
{
    match (state, event) {
        (FetchState::Closed, _) => None,
        (_, FetchEvent::Failed(e)) => Some(
            (FetchState::Closed, FetchAction::Abort(GetCommentsError::Reqwest(e))),
        ),
        (FetchState::IssueRequested, FetchEvent::Status(code)) => Some(check_status(
            code,
            FetchState::IssueAccepted,
            FetchAction::DecodeIssue,
        )),
        (FetchState::IssueAccepted, FetchEvent::Issue(issue)) => Some(
            (FetchState::CommentsRequested, FetchAction::Get(issue.comments_url)),
        ),
        (FetchState::CommentsRequested, FetchEvent::Status(code)) => Some(check_status(
            code,
            FetchState::CommentsAccepted,
            FetchAction::DecodeComments,
        )),
        (FetchState::CommentsAccepted, FetchEvent::Comments(comments)) => Some(
            (FetchState::Closed, FetchAction::Deliver(comments)),
        ),
        _ => None,
    }
}

/// Goes on as told where the status is 200, and gives up where it is not.
fn check_status(code: u16, state: FetchState, action: FetchAction) -> (r: (FetchState, FetchAction))
    ensures
        r == if code == 200 {
            (state, action)
        } else {
            (FetchState::Closed, FetchAction::Abort(GetCommentsError::NotOk))
        },
{
    if code == 200 {
        (state, action)
    } else {
        (FetchState::Closed, FetchAction::Abort(GetCommentsError::NotOk))
    }
}

} // verus!
