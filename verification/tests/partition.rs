use bapao::partition::group_by_state;
use bapao::trans_content::{ReqContent, TransHead};

fn entry(id: &str, state: &str) -> ReqContent {
    ReqContent {
        head: TransHead {
            id: id.to_string(),
            content_type: None,
            state: state.to_string(),
            timestamp: 0,
        },
        body: String::new(),
    }
}

fn ids(entries: &[ReqContent]) -> Vec<String> {
    entries.iter().map(|entry| entry.head.id.clone()).collect()
}

#[test]
fn empty_batch_gives_two_empty_buckets() {
    let groups = group_by_state(Vec::new());
    assert!(groups.pending.is_empty());
    assert!(groups.done.is_empty());
}

#[test]
fn each_entry_goes_to_the_bucket_of_its_state() {
    let groups = group_by_state(vec![
        entry("a", "Pending"),
        entry("b", "Done"),
        entry("c", "Pending"),
        entry("d", "Done"),
        entry("e", "Pending"),
    ]);
    assert_eq!(ids(&groups.pending), vec!["a", "c", "e"]);
    assert_eq!(ids(&groups.done), vec!["b", "d"]);
}

#[test]
fn buckets_together_have_the_length_of_the_batch() {
    let batch = vec![
        entry("a", "Done"),
        entry("b", "Pending"),
        entry("c", "Failed"),
        entry("d", "Pending"),
    ];
    let len = batch.len();
    let groups = group_by_state(batch);
    assert_eq!(groups.pending.len() + groups.done.len(), len);
}

#[test]
fn unknown_state_is_inert() {
    let groups = group_by_state(vec![
        entry("a", "pending"),
        entry("b", ""),
        entry("c", "Pending "),
        entry("d", "Timeout"),
        entry("e", "PENDING"),
    ]);
    assert!(groups.pending.is_empty());
    assert_eq!(ids(&groups.done), vec!["a", "b", "c", "d", "e"]);
}

#[test]
fn entries_with_the_same_id_are_all_kept() {
    let groups = group_by_state(vec![
        entry("r1", "Pending"),
        entry("r1", "Done"),
        entry("r1", "Pending"),
    ]);
    assert_eq!(ids(&groups.pending), vec!["r1", "r1"]);
    assert_eq!(ids(&groups.done), vec!["r1"]);
}

#[test]
fn partition_leaves_the_entries_as_they_are() {
    let mut first = entry("a", "Pending");
    first.body = "/ping".to_string();
    first.head.timestamp = 99;
    let mut second = entry("b", "Done");
    second.body = "pong".to_string();
    second.head.content_type = Some("string".to_string());
    let groups = group_by_state(vec![first, second]);
    assert_eq!(groups.pending[0].body, "/ping");
    assert_eq!(groups.pending[0].head.timestamp, 99);
    assert_eq!(groups.pending[0].head.content_type, None);
    assert_eq!(groups.done[0].body, "pong");
    assert_eq!(groups.done[0].head.content_type, Some("string".to_string()));
}
