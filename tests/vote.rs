use logic::vote::{
    post_vote_params, post_vote_response, vote_response, vote_value, PostId, PostVoteOperation,
    PostVoteRequest, PostVoteResponse, DELTA_PATH, ERROR_PATH, VOTE_SCRIPT,
};
use sxd_document::parser::parse;

fn request(operation: PostVoteOperation) -> PostVoteRequest {
    PostVoteRequest {
        operation,
        post_id: PostId { tid: "1".to_string(), pid: "0".to_string() },
    }
}

#[test]
fn vote_value_encodes_direction() {
    assert_eq!(vote_value(PostVoteOperation::Upvote), "1");
    assert_eq!(vote_value(PostVoteOperation::Downvote), "-1");
}

#[test]
fn post_vote_params_in_order() {
    let got = post_vote_params(&request(PostVoteOperation::Downvote));
    let want: Vec<(String, String)> = [
        ("__lib", "topic_recommend"),
        ("__act", "add"),
        ("value", "-1"),
        ("tid", "1"),
        ("pid", "0"),
    ]
    .iter()
    .map(|(k, v)| (k.to_string(), v.to_string()))
    .collect();
    assert_eq!(got, want);
    assert_eq!(VOTE_SCRIPT, "nuke.php");
    assert_eq!(DELTA_PATH, "/root/data/item[2]");
    assert_eq!(ERROR_PATH, "/root/error/item[1]");
}

#[test]
fn vote_response_discriminates_on_delta_text() {
    assert_eq!(vote_response("1", ""), PostVoteResponse::Delta(1));
    assert_eq!(vote_response("-2", "ignored"), PostVoteResponse::Delta(-2));
    assert_eq!(vote_response("soon", ""), PostVoteResponse::Delta(0));
    assert_eq!(
        vote_response("", "already voted"),
        PostVoteResponse::Error("already voted".to_string())
    );
    assert_eq!(vote_response("", ""), PostVoteResponse::Error(String::new()));
}

#[test]
fn upvote_against_success_reply() {
    let params = post_vote_params(&request(PostVoteOperation::Upvote));
    assert_eq!(params[2], ("value".to_string(), "1".to_string()));
    let reply = parse("<root><data><item/><item>1</item></data></root>").unwrap();
    let got = post_vote_response(&reply);
    assert_eq!(got, PostVoteResponse::Delta(1));
    assert_eq!(got.delta(), 1);
}

#[test]
fn upvote_against_error_reply() {
    let reply = parse("<root><error><item>already voted</item></error></root>").unwrap();
    let got = post_vote_response(&reply);
    assert_eq!(got, PostVoteResponse::Error("already voted".to_string()));
    assert_eq!(got.delta(), 0);
}

#[test]
fn reply_without_data_or_error_is_empty_error() {
    let reply = parse("<root><other/></root>").unwrap();
    assert_eq!(post_vote_response(&reply), PostVoteResponse::Error(String::new()));
    let empty_delta = parse("<root><data><item/><item></item></data><error><item>no</item></error></root>").unwrap();
    assert_eq!(post_vote_response(&empty_delta), PostVoteResponse::Error("no".to_string()));
}

#[test]
fn unparsable_delta_reads_as_zero() {
    let reply = parse("<root><data><item/><item>many</item></data></root>").unwrap();
    assert_eq!(post_vote_response(&reply), PostVoteResponse::Delta(0));
}
