use bapao::trans_content::{ReqContent, ResContentType, TransHead, TransUnitType};
use bapao::trans_unit::TransUnit;

fn request(id: &str, timestamp: i64, body: &str) -> ReqContent {
    ReqContent {
        head: TransHead {
            id: id.to_string(),
            content_type: None,
            state: "Pending".to_string(),
            timestamp,
        },
        body: body.to_string(),
    }
}

#[test]
fn unit_exposes_the_request_body() {
    let unit = TransUnit::new(request("r1", 1_700_000_000_000, "/ping"));
    assert_eq!(unit.get(), "/ping");
}

#[test]
fn unit_keeps_an_empty_body() {
    let unit = TransUnit::new(request("r1", 0, ""));
    assert_eq!(unit.get(), "");
}

#[test]
fn inline_response_is_correlated_with_its_request() {
    let unit = TransUnit::new(request("r1", 1_700_000_000_000, "/ping"));
    match unit.set(TransUnitType::String("pong".to_string())) {
        ResContentType::String(entry) => {
            assert_eq!(entry.head.id, "r1");
            assert_eq!(entry.head.timestamp, 1_700_000_000_000);
            assert_eq!(entry.head.state, "Done");
            assert_eq!(entry.head.content_type, Some("string".to_string()));
            assert_eq!(entry.body, "pong");
        }
        ResContentType::File(_) => panic!("a text result gave a blob response"),
    }
}

#[test]
fn blob_response_is_correlated_with_its_request() {
    let unit = TransUnit::new(request("shot-7", -5, "/monitor/pic/shot"));
    match unit.set(TransUnitType::File(vec![0, 159, 146, 150])) {
        ResContentType::File(entry) => {
            assert_eq!(entry.head.id, "shot-7");
            assert_eq!(entry.head.timestamp, -5);
            assert_eq!(entry.head.state, "Done");
            assert_eq!(entry.head.content_type, Some("file".to_string()));
            assert_eq!(entry.body, vec![0, 159, 146, 150]);
        }
        ResContentType::String(_) => panic!("a blob result gave a text response"),
    }
}

#[test]
fn response_does_not_take_the_time_of_the_answer() {
    let unit = TransUnit::new(request("old", 1, "/ping"));
    match unit.set(TransUnitType::String(String::new())) {
        ResContentType::String(entry) => assert_eq!(entry.head.timestamp, 1),
        ResContentType::File(_) => panic!("a text result gave a blob response"),
    }
}

#[test]
fn set_can_be_called_again_with_the_same_result() {
    let unit = TransUnit::new(request("r1", 42, "/ping"));
    let first = unit.set(TransUnitType::String("pong".to_string()));
    let second = unit.set(TransUnitType::String("pong".to_string()));
    match (first, second) {
        (ResContentType::String(a), ResContentType::String(b)) => {
            assert_eq!(a.head.id, b.head.id);
            assert_eq!(a.head.state, b.head.state);
            assert_eq!(a.head.content_type, b.head.content_type);
            assert_eq!(a.head.timestamp, b.head.timestamp);
            assert_eq!(a.body, b.body);
        }
        _ => panic!("a text result gave a blob response"),
    }
    assert_eq!(unit.get(), "/ping");
}

#[test]
fn response_to_a_request_that_is_not_pending_is_done_as_well() {
    let mut entry = request("r9", 7, "/again");
    entry.head.state = "Done".to_string();
    entry.head.content_type = Some("file".to_string());
    let unit = TransUnit::new(entry);
    match unit.set(TransUnitType::String("ok".to_string())) {
        ResContentType::String(response) => {
            assert_eq!(response.head.state, "Done");
            assert_eq!(response.head.content_type, Some("string".to_string()));
        }
        ResContentType::File(_) => panic!("a text result gave a blob response"),
    }
}
