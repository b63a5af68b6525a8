//! Casting a vote on a post: the form parameters sent to the legacy
//! endpoint, and the reading of its reply into a delta or an error message.

use crate::decimal::{i32_or_zero, parse_i32_or_zero, parse_i32_spec};
use crate::extract::{extract_string, string_in, text_or_empty};
use crate::pairs::pairs_view;
use crate::xml::{lemma_no_n_no_namespace, selects_no_namespace};
use sxd_document::Package;
use vstd::prelude::*;
use vstd::string::StringExecFns;

verus! {

/// The endpoint script that takes votes.
pub const VOTE_SCRIPT: &'static str = "nuke.php";

/// Where a successful reply holds the vote delta.
pub const DELTA_PATH: &'static str = "/root/data/item[2]";

/// Where a refused vote's reply holds the message.
pub const ERROR_PATH: &'static str = "/root/error/item[1]";

/// The direction of a vote.
#[derive(Clone, Copy, Debug, PartialEq, Eq, Structural)]
pub enum PostVoteOperation {
    Upvote,
    Downvote,
}

/// A post, by thread id and post id.
#[derive(Clone, Debug, PartialEq, Eq)]
pub struct PostId {
    pub tid: String,
    pub pid: String,
}

/// A vote on a post.
#[derive(Clone, Debug, PartialEq, Eq)]
pub struct PostVoteRequest {
    pub operation: PostVoteOperation,
    pub post_id: PostId,
}

/// The outcome of a vote: exactly one of a delta and an error message.
#[derive(Clone, Debug, PartialEq, Eq)]
pub enum PostVoteResponse {
    Delta(i32),
    Error(String),
}

/// The wire encoding of a vote direction.
pub open spec fn vote_wire(op: PostVoteOperation) -> Seq<char> {
    match op {
        PostVoteOperation::Upvote => "1"@,
        PostVoteOperation::Downvote => "-1"@,
    }
}

/// The form parameters of a vote, in the order in which they are sent.
pub open spec fn vote_params_spec(op: PostVoteOperation, tid: Seq<char>, pid: Seq<char>) -> Seq<(Seq<char>, Seq<char>)> {
    seq![
        ("__lib"@, "topic_recommend"@),
        ("__act"@, "add"@),
        ("value"@, vote_wire(op)),
        ("tid"@, tid),
        ("pid"@, pid),
    ]
}

/// How a reply reads: a non-empty delta text means success, its value
/// parsed leniently (zero where it is no integer); otherwise the vote was
/// refused with the error text as its message.
pub open spec fn is_vote_outcome(r: PostVoteResponse, delta_text: Seq<char>, error_text: Seq<char>) -> bool {
    if delta_text.len() > 0 {
        r == PostVoteResponse::Delta(i32_or_zero(delta_text))
    } else {
        r is Error && r->Error_0@ == error_text
    }
}

/// The wire encoding of a vote direction: `"1"` up, `"-1"` down.
pub fn vote_value(op: PostVoteOperation) -> (r: &'static str)
    ensures
        r@ == vote_wire(op),
{
    match op {
        PostVoteOperation::Upvote => "1",
        PostVoteOperation::Downvote => "-1",
    }
}

/// The form parameters that cast `request`'s vote.
pub fn post_vote_params(request: &PostVoteRequest) -> (r: Vec<(String, String)>)
    ensures
        pairs_view(r@) == vote_params_spec(
            request.operation,
            request.post_id.tid@,
            request.post_id.pid@,
        ),
{
    let mut params: Vec<(String, String)> = Vec::new();
    params.push((String::from_str("__lib"), String::from_str("topic_recommend")));
    params.push((String::from_str("__act"), String::from_str("add")));
    params.push((String::from_str("value"), String::from_str(vote_value(request.operation))));
    params.push((String::from_str("tid"), request.post_id.tid.clone()));
    params.push((String::from_str("pid"), request.post_id.pid.clone()));
    assert(pairs_view(params@) =~= vote_params_spec(
        request.operation,
        request.post_id.tid@,
        request.post_id.pid@,
    ));
    params
}

/// Reads a reply from the texts at the delta and error paths.
pub fn vote_response(delta_text: &str, error_text: &str) -> (r: PostVoteResponse)
    ensures
        is_vote_outcome(r, delta_text@, error_text@),
{
    if delta_text.unicode_len() > 0 {
        PostVoteResponse::Delta(parse_i32_or_zero(delta_text))
    } else {
        PostVoteResponse::Error(String::from_str(error_text))
    }
}

/// Reads the reply document of a vote: the text at the delta path where it
/// is present and non-empty, else the text at the error path (empty where
/// that is absent too).
pub fn post_vote_response(package: &Package) -> (r: PostVoteResponse)
    ensures
        vote_reply(*package, r),
{
    proof {
        lemma_reply_paths_plain();
    }
    let delta_text = match extract_string(package, DELTA_PATH) {
        Ok(text) => text,
        Err(_) => String::new(),
    };
    let error_text = if delta_text.unicode_len() > 0 {
        String::new()
    } else {
        match extract_string(package, ERROR_PATH) {
            Ok(text) => text,
            Err(_) => String::new(),
        }
    };
    vote_response(delta_text.as_str(), error_text.as_str())
}

/// The reply paths stay off the namespace axis.
proof fn lemma_reply_paths_plain()
    ensures
        selects_no_namespace(DELTA_PATH@),
        selects_no_namespace(ERROR_PATH@),
{
    reveal_strlit("/root/data/item[2]");
    reveal_strlit("/root/error/item[1]");
    assert forall|i: int| 0 <= i < DELTA_PATH@.len() implies DELTA_PATH@[i] != 'n' by {}
    assert forall|i: int| 0 <= i < ERROR_PATH@.len() implies ERROR_PATH@[i] != 'n' by {}
    lemma_no_n_no_namespace(DELTA_PATH@);
    lemma_no_n_no_namespace(ERROR_PATH@);
}

/// How the reply document `package` reads: by the text at the delta path
/// and the text at the error path, each empty where its path gives none.
pub open spec fn vote_reply(package: Package, r: PostVoteResponse) -> bool {
    is_vote_outcome(
        r,
        text_or_empty(string_in(package, DELTA_PATH@)),
        text_or_empty(string_in(package, ERROR_PATH@)),
    )
}

/// A reply document whose delta text is an integer reads as success with
/// that delta.
pub proof fn lemma_vote_success(package: Package, r: PostVoteResponse, delta: i32)
    requires
        vote_reply(package, r),
        parse_i32_spec(text_or_empty(string_in(package, DELTA_PATH@))) == Some(delta),
    ensures
        r == PostVoteResponse::Delta(delta),
{
}

/// A reply document without delta text reads as a refusal whose message is
/// the text at the error path, empty where that path gives none.
pub proof fn lemma_vote_refused(package: Package, r: PostVoteResponse)
    requires
        vote_reply(package, r),
        text_or_empty(string_in(package, DELTA_PATH@)).len() == 0,
    ensures
        r is Error,
        r->Error_0@ == text_or_empty(string_in(package, ERROR_PATH@)),
{
}

impl PostVoteResponse {
    /// The delta of a successful vote; zero for a refused one.
    pub fn delta(&self) -> (r: i32)
        ensures
            r == (match self {
                PostVoteResponse::Delta(d) => *d,
                PostVoteResponse::Error(_) => 0i32,
            }),
    {
        match self {
            PostVoteResponse::Delta(d) => *d,
            PostVoteResponse::Error(_) => 0,
        }
    }
}

} // verus!
