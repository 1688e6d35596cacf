use bapao::errors::{FetchError, SerializationError, WriteError};
use bapao::gitee::check_status;
use bapao::listener::document_content;
use bapao::trans_content::{ReqContent, TransHead};
use bapao::trans_unit::TransUnit;
use bapao::{AppListener, BtpListener, TransUnitType};
use serde_json::Value;

const NOW: i64 = 1_700_000_000_000;
const MINUTE: i64 = 60 * 1000;

type Handler = Box<dyn Fn() -> TransUnitType>;

/// A mailbox document and a blob store that live in memory.
struct Store {
    text: String,
    revision: u32,
    fetch_fails: bool,
    write_fails: bool,
    put_fails: bool,
    encoder_fails: bool,
    writes: Vec<(String, String)>,
    puts: Vec<(String, Vec<u8>)>,
}

fn entry_value(entry: &ReqContent) -> Value {
    let mut head = serde_json::Map::new();
    head.insert("id".to_string(), Value::String(entry.head.id.clone()));
    head.insert(
        "content_type".to_string(),
        match &entry.head.content_type {
            Some(text) => Value::String(text.clone()),
            None => Value::Null,
        },
    );
    head.insert("state".to_string(), Value::String(entry.head.state.clone()));
    head.insert("timestamp".to_string(), Value::from(entry.head.timestamp));
    let mut object = serde_json::Map::new();
    object.insert("head".to_string(), Value::Object(head));
    object.insert("body".to_string(), Value::String(entry.body.clone()));
    Value::Object(object)
}

fn encode(entries: &[ReqContent]) -> String {
    Value::Array(entries.iter().map(entry_value).collect()).to_string()
}

fn decode(text: &str) -> Result<Vec<ReqContent>, FetchError> {
    let parsed: Value =
        serde_json::from_str(text).map_err(|error| FetchError::Parse(error.to_string()))?;
    let array = parsed.as_array().ok_or(FetchError::Parse("not an array".to_string()))?;
    let mut entries = Vec::new();
    for value in array {
        let head = &value["head"];
        entries.push(ReqContent {
            head: TransHead {
                id: head["id"].as_str().unwrap_or_default().to_string(),
                content_type: head["content_type"].as_str().map(|text| text.to_string()),
                state: head["state"].as_str().unwrap_or_default().to_string(),
                timestamp: head["timestamp"].as_i64().unwrap_or_default(),
            },
            body: value["body"].as_str().unwrap_or_default().to_string(),
        });
    }
    Ok(entries)
}

impl Store {
    fn holding(entries: &[ReqContent]) -> Store {
        Store {
            text: encode(entries),
            revision: 1,
            fetch_fails: false,
            write_fails: false,
            put_fails: false,
            encoder_fails: false,
            writes: Vec::new(),
            puts: Vec::new(),
        }
    }

    fn fetch(&self) -> Result<(Vec<ReqContent>, String), FetchError> {
        if self.fetch_fails {
            return Err(FetchError::Transport("network is unreachable".to_string()));
        }
        Ok((decode(&self.text)?, self.revision.to_string()))
    }

    /// The status and the body with which the store answers a write.
    fn answer_to_write(&mut self, content: String, token: String) -> (u16, String) {
        if token != self.revision.to_string() {
            return (409, "the file was changed in the meantime".to_string());
        }
        self.text = content;
        self.revision += 1;
        (200, String::new())
    }

    fn write(&mut self, content: String, token: String) -> Result<(), WriteError> {
        self.writes.push((content.clone(), token.clone()));
        if self.write_fails {
            return Err(WriteError::Transport("network is unreachable".to_string()));
        }
        let (status, body) = self.answer_to_write(content, token);
        check_status(status, body)
    }

    fn put(&mut self, name: &str, content: &[u8]) -> Result<(), WriteError> {
        if self.put_fails {
            return Err(WriteError::Transport("network is unreachable".to_string()));
        }
        self.puts.push((name.to_string(), content.to_vec()));
        check_status(200, String::new())
    }

    fn entries(&self) -> Vec<ReqContent> {
        decode(&self.text).expect("the document holds an array of entries")
    }
}

/// One poll cycle against the store, as a worker drives it.
fn poll(session: &mut BtpListener, store: &mut Store, now: i64) -> Vec<TransUnit> {
    let cycle = session.accept_at(store.fetch(), now);
    if let Some(flush) = cycle.flush {
        for blob in &flush.blobs {
            let outcome = store.put(&blob.name, &blob.content);
            session.settle_blob(&blob.name, outcome);
        }
        let encoded = if store.encoder_fails {
            Err(SerializationError { message: "the encoder gave up".to_string() })
        } else {
            Ok(encode(&flush.entries))
        };
        let _ = store.write(document_content(encoded), flush.revision_token);
    }
    cycle.units
}

fn entry(id: &str, state: &str, timestamp: i64, content_type: Option<&str>, body: &str) -> ReqContent {
    ReqContent {
        head: TransHead {
            id: id.to_string(),
            content_type: content_type.map(|text| text.to_string()),
            state: state.to_string(),
            timestamp,
        },
        body: body.to_string(),
    }
}

fn router() -> AppListener<Handler> {
    let mut router: AppListener<Handler> = AppListener::new();
    router.add("/ping", Box::new(|| TransUnitType::String("pong".to_string())));
    router.add("/monitor/pic/shot", Box::new(|| TransUnitType::File(vec![255, 216, 255, 224])));
    router
}

#[test]
fn request_is_answered_in_the_cycle_after_it_was_seen() {
    let mut store = Store::holding(&[entry("r1", "Pending", NOW - 1000, None, "/ping")]);
    let mut session = BtpListener::new();
    let router = router();

    let units = poll(&mut session, &mut store, NOW);
    assert_eq!(units.len(), 1);
    assert!(router.dispatch(units, &mut session).is_empty());
    let units = poll(&mut session, &mut store, NOW + 10_000);
    assert!(units.is_empty());

    let document = store.entries();
    assert_eq!(document.len(), 1);
    assert_eq!(document[0].head.id, "r1");
    assert_eq!(document[0].head.state, "Done");
    assert_eq!(document[0].head.content_type, Some("string".to_string()));
    assert_eq!(document[0].head.timestamp, NOW - 1000);
    assert_eq!(document[0].body, "pong");
    assert!(document.iter().all(|entry| entry.head.state != "Pending"));
}

#[test]
fn request_leaves_the_document_when_it_is_handed_out() {
    let mut store = Store::holding(&[entry("r1", "Pending", NOW - 1000, None, "/ping")]);
    let mut session = BtpListener::new();
    let units = poll(&mut session, &mut store, NOW);
    assert_eq!(units.len(), 1);
    assert_eq!(store.writes, vec![("[]".to_string(), "1".to_string())]);
    assert!(store.entries().is_empty());
}

#[test]
fn expired_response_is_absent_from_the_next_written_document() {
    let mut store = Store::holding(&[
        entry("old", "Done", NOW - 31 * MINUTE, Some("string"), "late"),
        entry("new", "Done", NOW - 29 * MINUTE, Some("string"), "in time"),
        entry("r1", "Pending", NOW - 1000, None, "/ping"),
    ]);
    let mut session = BtpListener::new();
    poll(&mut session, &mut store, NOW);
    let document = store.entries();
    assert_eq!(document.len(), 1);
    assert_eq!(document[0].head.id, "new");
    assert_eq!(document[0].body, "in time");
}

#[test]
fn expired_response_stays_while_nothing_is_written() {
    let mut store = Store::holding(&[entry("old", "Done", NOW - 31 * MINUTE, Some("string"), "x")]);
    let mut session = BtpListener::new();
    assert!(poll(&mut session, &mut store, NOW).is_empty());
    assert!(store.writes.is_empty());
    assert_eq!(store.entries().len(), 1);
}

#[test]
fn blob_goes_to_the_blob_store_and_its_name_to_the_document() {
    let mut store =
        Store::holding(&[entry("shot", "Pending", NOW - 1000, None, "/monitor/pic/shot")]);
    let mut session = BtpListener::new();
    let router = router();

    let units = poll(&mut session, &mut store, NOW);
    assert!(router.dispatch(units, &mut session).is_empty());
    assert!(store.puts.is_empty());
    poll(&mut session, &mut store, NOW + 10_000);

    assert_eq!(store.puts.len(), 1);
    let (name, bytes) = store.puts[0].clone();
    assert_eq!(bytes, vec![255, 216, 255, 224]);
    let document = store.entries();
    assert_eq!(document.len(), 1);
    assert_eq!(document[0].head.id, "shot");
    assert_eq!(document[0].head.state, "Done");
    assert_eq!(document[0].head.content_type, Some("file".to_string()));
    assert_eq!(document[0].head.timestamp, NOW - 1000);
    assert_eq!(document[0].body, name);
}

#[test]
fn blob_is_uploaded_once_when_its_upload_succeeds() {
    let mut store =
        Store::holding(&[entry("shot", "Pending", NOW - 1000, None, "/monitor/pic/shot")]);
    let mut session = BtpListener::new();
    let router = router();
    let units = poll(&mut session, &mut store, NOW);
    router.dispatch(units, &mut session);
    poll(&mut session, &mut store, NOW);
    session.stash(TransUnit::new(entry("r2", "Pending", NOW, None, "/ping"))
        .set(TransUnitType::String("pong".to_string())));
    poll(&mut session, &mut store, NOW);
    assert_eq!(store.puts.len(), 1);
    assert_eq!(store.writes.len(), 3);
}

#[test]
fn blob_whose_upload_failed_is_uploaded_by_the_next_flush() {
    let mut store =
        Store::holding(&[entry("shot", "Pending", NOW - 1000, None, "/monitor/pic/shot")]);
    let mut session = BtpListener::new();
    let router = router();
    let units = poll(&mut session, &mut store, NOW);
    router.dispatch(units, &mut session);

    store.put_fails = true;
    poll(&mut session, &mut store, NOW);
    assert!(store.puts.is_empty());
    let name = store.entries()[0].body.clone();

    poll(&mut session, &mut store, NOW);
    assert!(store.puts.is_empty());

    store.put_fails = false;
    session.stash(TransUnit::new(entry("r2", "Pending", NOW, None, "/ping"))
        .set(TransUnitType::String("pong".to_string())));
    poll(&mut session, &mut store, NOW);
    assert_eq!(store.puts, vec![(name, vec![255, 216, 255, 224])]);
}

#[test]
fn cycle_with_nothing_to_send_calls_neither_store() {
    let mut store = Store::holding(&[entry("d", "Done", NOW - 1000, Some("string"), "x")]);
    let mut session = BtpListener::new();
    for _ in 0..3 {
        assert!(poll(&mut session, &mut store, NOW).is_empty());
    }
    assert!(store.writes.is_empty());
    assert!(store.puts.is_empty());
    assert_eq!(store.revision, 1);
}

#[test]
fn failing_fetch_gives_empty_cycles() {
    let mut store = Store::holding(&[entry("r1", "Pending", NOW - 1000, None, "/ping")]);
    store.fetch_fails = true;
    let mut session = BtpListener::new();
    assert!(poll(&mut session, &mut store, NOW).is_empty());
    assert!(poll(&mut session, &mut store, NOW + 10_000).is_empty());
    assert!(store.writes.is_empty());
    assert_eq!(store.entries().len(), 1);
}

#[test]
fn failing_fetch_with_a_staged_response_writes_under_the_empty_token() {
    let mut store = Store::holding(&[]);
    store.fetch_fails = true;
    let mut session = BtpListener::new();
    session.stash(TransUnit::new(entry("r1", "Pending", NOW, None, "/ping"))
        .set(TransUnitType::String("pong".to_string())));
    assert!(poll(&mut session, &mut store, NOW).is_empty());
    assert!(poll(&mut session, &mut store, NOW + 10_000).is_empty());
    assert_eq!(store.writes.len(), 1);
    assert_eq!(store.writes[0].1, "");
    assert_eq!(decode(&store.writes[0].0).expect("the write holds an array").len(), 1);
    assert!(store.entries().is_empty());
}

#[test]
fn failing_fetch_and_failing_encoder_write_an_empty_array() {
    let mut store = Store::holding(&[]);
    store.fetch_fails = true;
    store.encoder_fails = true;
    let mut session = BtpListener::new();
    for turn in 0..2 {
        session.stash(TransUnit::new(entry("r1", "Pending", NOW, None, "/ping"))
            .set(TransUnitType::String("pong".to_string())));
        assert!(poll(&mut session, &mut store, NOW + turn * 10_000).is_empty());
    }
    assert_eq!(
        store.writes,
        vec![("[]".to_string(), String::new()), ("[]".to_string(), String::new())]
    );
}

#[test]
fn staged_response_is_gone_after_a_write_that_failed() {
    let mut store = Store::holding(&[entry("r1", "Pending", NOW - 1000, None, "/ping")]);
    let mut session = BtpListener::new();
    let router = router();
    let units = poll(&mut session, &mut store, NOW);
    router.dispatch(units, &mut session);

    store.write_fails = true;
    poll(&mut session, &mut store, NOW);
    assert_eq!(store.writes.len(), 2);
    store.write_fails = false;
    poll(&mut session, &mut store, NOW);
    assert_eq!(store.writes.len(), 2);
    assert!(store.entries().is_empty());
}

#[test]
fn write_under_a_stale_token_is_refused_and_not_repeated() {
    let mut store = Store::holding(&[]);
    let mut session = BtpListener::new();
    session.stash(TransUnit::new(entry("r1", "Pending", NOW, None, "/ping"))
        .set(TransUnitType::String("pong".to_string())));
    let cycle = session.accept_at(store.fetch(), NOW);
    let flush = cycle.flush.expect("a staged response starts a flush");
    store.write("[]".to_string(), "1".to_string()).expect("the first writer wins");
    assert_eq!(
        store.write(encode(&flush.entries), flush.revision_token),
        Err(WriteError::Conflict)
    );
    assert!(poll(&mut session, &mut store, NOW).is_empty());
    assert!(store.entries().is_empty());
    assert_eq!(store.revision, 2);
}

#[test]
fn write_under_the_empty_token_of_a_failed_fetch_is_a_conflict() {
    let mut store = Store::holding(&[]);
    let mut session = BtpListener::new();
    session.stash(TransUnit::new(entry("r1", "Pending", NOW, None, "/ping"))
        .set(TransUnitType::String("pong".to_string())));
    let cycle =
        session.accept_at(Err(FetchError::Transport("network is unreachable".to_string())), NOW);
    let flush = cycle.flush.expect("a staged response starts a flush");
    assert_eq!(
        store.write(encode(&flush.entries), flush.revision_token),
        Err(WriteError::Conflict)
    );
    assert!(store.entries().is_empty());
    assert_eq!(store.revision, 1);
}

#[test]
fn request_without_a_handler_is_never_answered() {
    let mut store = Store::holding(&[
        entry("r1", "Pending", NOW - 1000, None, "/unknown"),
        entry("r2", "Pending", NOW - 1000, None, "/ping"),
    ]);
    let mut session = BtpListener::new();
    let router = router();
    let units = poll(&mut session, &mut store, NOW);
    let errors = router.dispatch(units, &mut session);
    assert_eq!(errors.len(), 1);
    assert_eq!(errors[0].key, "/unknown");
    poll(&mut session, &mut store, NOW);
    let document = store.entries();
    assert_eq!(document.len(), 1);
    assert_eq!(document[0].head.id, "r2");
}
