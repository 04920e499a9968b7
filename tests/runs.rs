use painful_testing::json::Difference;
use painful_testing::painless::{DocError, DocRole};
use painful_testing::runner::{evaluate, prepare_request, ClusterReply, TestOutcome};

fn ok(body: &str) -> ClusterReply {
    ClusterReply::Response { status: 200, body: body.to_string() }
}

#[test]
fn structurally_equal_documents_pass() {
    let expected = "{\"a\": 1, \"b\": {\"y\": [1, 2], \"x\": null}}".to_string();
    let r = evaluate(Some(&expected), &ok("{\"b\":{\"x\":null,\"y\":[1,2]},\"a\":1}"));
    assert!(matches!(r, Ok(TestOutcome::Pass)));
}

#[test]
fn missing_key_is_named() {
    let expected = "{\"count\": 2, \"owner\": \"me\"}".to_string();
    let r = evaluate(Some(&expected), &ok("{\"count\": 2}"));
    match r {
        Ok(TestOutcome::Mismatch(ds)) => {
            assert_eq!(ds.len(), 1);
            assert!(matches!(&ds[0], Difference::Missing { key, expected } if key == "owner" && expected == "\"me\""));
        }
        _ => panic!("expected a mismatch"),
    }
}

#[test]
fn refused_call_without_expectation_fails() {
    let r = evaluate(None, &ClusterReply::Response { status: 500, body: "boom".to_string() });
    assert!(matches!(r, Ok(TestOutcome::Failed(ref m)) if m == "boom"));
}

#[test]
fn refused_call_with_expectation_fails() {
    let expected = "{\"count\": 2}".to_string();
    let r = evaluate(Some(&expected), &ClusterReply::Response { status: 404, body: "{}".to_string() });
    assert!(matches!(r, Ok(TestOutcome::Failed(ref m)) if m == "{}"));
}

#[test]
fn successful_call_without_expectation_passes() {
    let r = evaluate(None, &ClusterReply::Response { status: 201, body: "not even json".to_string() });
    assert!(matches!(r, Ok(TestOutcome::Pass)));
}

#[test]
fn unreachable_cluster_is_an_error() {
    let expected = "{\"count\": 2}".to_string();
    let r = evaluate(Some(&expected), &ClusterReply::Unreachable("connection refused".to_string()));
    assert!(matches!(r, Ok(TestOutcome::Error(ref m)) if m == "connection refused"));
}

#[test]
fn invalid_expected_document_is_rejected() {
    let expected = "{\"count\": ".to_string();
    let r = evaluate(Some(&expected), &ok("{\"count\": 2}"));
    assert!(matches!(r, Err(DocError::InvalidDocument(DocRole::Expected))));
}

#[test]
fn non_json_response_fails() {
    let expected = "{\"count\": 2}".to_string();
    let r = evaluate(Some(&expected), &ok("<html>"));
    assert!(matches!(r, Ok(TestOutcome::Failed(ref m)) if m == "<html>"));
}

#[test]
fn increment_scenario_passes() {
    let state = "{\"count\":1}".to_string();
    let incoming = "{\"op\":\"increment\"}".to_string();
    let request = prepare_request("doc-1", Some(&state), &incoming);
    match request {
        Ok(req) => {
            assert_eq!(req.id, "doc-1");
            assert_eq!(req.incoming.text, "{\"op\":\"increment\"}");
            assert_eq!(req.state.expect("a state").text, "{\"count\":1}");
        }
        Err(_) => panic!("documents refused"),
    }
    let expected = "{\"count\":2}".to_string();
    let r = evaluate(Some(&expected), &ok("{\"count\":2}"));
    assert!(matches!(r, Ok(TestOutcome::Pass)));
}

#[test]
fn increment_scenario_mismatch() {
    let expected = "{\"count\":2}".to_string();
    let r = evaluate(Some(&expected), &ok("{\"count\":1}"));
    match r {
        Ok(TestOutcome::Mismatch(ds)) => {
            assert_eq!(ds.len(), 1);
            assert!(matches!(&ds[0], Difference::Changed { key, expected, got }
                if key == "count" && expected == "2" && got == "1"));
        }
        _ => panic!("expected a mismatch"),
    }
}

#[test]
fn number_and_string_differ() {
    let expected = "{\"n\": 1}".to_string();
    let r = evaluate(Some(&expected), &ok("{\"n\": \"1\"}"));
    match r {
        Ok(TestOutcome::Mismatch(ds)) => {
            assert_eq!(ds.len(), 1);
            assert!(matches!(&ds[0], Difference::Changed { key, expected, got }
                if key == "n" && expected == "1" && got == "\"1\""));
        }
        _ => panic!("expected a mismatch"),
    }
}

#[test]
fn extra_key_is_unexpected() {
    let expected = "{\"a\": true}".to_string();
    let r = evaluate(Some(&expected), &ok("{\"a\": true, \"z\": [ ]}"));
    match r {
        Ok(TestOutcome::Mismatch(ds)) => {
            assert_eq!(ds.len(), 1);
            assert!(matches!(&ds[0], Difference::Unexpected { key, got } if key == "z" && got == "[]"));
        }
        _ => panic!("expected a mismatch"),
    }
}

#[test]
fn differing_scalars_differ_at_root() {
    let expected = "[1, 2]".to_string();
    let r = evaluate(Some(&expected), &ok("{\"a\": 1}"));
    match r {
        Ok(TestOutcome::Mismatch(ds)) => {
            assert_eq!(ds.len(), 1);
            assert!(matches!(&ds[0], Difference::Root { expected, got } if expected == "[1,2]" && got == "{\"a\":1}"));
        }
        _ => panic!("expected a mismatch"),
    }
}

#[test]
fn equal_scalars_pass() {
    let expected = "  \"done\" ".to_string();
    assert!(matches!(evaluate(Some(&expected), &ok("\"done\"")), Ok(TestOutcome::Pass)));
}

#[test]
fn empty_objects_pass() {
    let expected = "{}".to_string();
    assert!(matches!(evaluate(Some(&expected), &ok("{ }")), Ok(TestOutcome::Pass)));
}

#[test]
fn invalid_incoming_is_rejected() {
    let incoming = "{op".to_string();
    let state = "{\"count\":1}".to_string();
    let r = prepare_request("doc-1", Some(&state), &incoming);
    assert!(matches!(r, Err(DocError::InvalidDocument(DocRole::Incoming))));
}

#[test]
fn invalid_state_is_rejected() {
    let incoming = "{\"op\":\"increment\"}".to_string();
    let state = "count=1".to_string();
    let r = prepare_request("doc-1", Some(&state), &incoming);
    assert!(matches!(r, Err(DocError::InvalidDocument(DocRole::State))));
}

#[test]
fn absent_state_is_accepted() {
    let incoming = "{\"op\" : \"increment\"}".to_string();
    match prepare_request("doc-2", None, &incoming) {
        Ok(req) => {
            assert!(req.state.is_none());
            assert_eq!(req.incoming.text, "{\"op\":\"increment\"}");
        }
        Err(_) => panic!("documents refused"),
    }
}
