use rk_nku_sync::config::{ConfigError, DeviceConfig, Parameter};
use rk_nku_sync::session::{Handshake, HandshakeStep, SessionError};
use rk_nku_sync::sync::{
    extract_parameter_value, push_request, PullEngine, PushEngine, StreamingMode, SyncAction,
    SyncError,
};

fn strings(values: &[&str]) -> Vec<String> {
    values.iter().map(|v| v.to_string()).collect()
}

fn store_with(entries: &[(&str, &str, &[&str])]) -> DeviceConfig {
    let mut store = DeviceConfig::new();
    for (name, current, values) in entries {
        store.insert_parameter(
            name.to_string(),
            Parameter::new(format!("{name} description"), current.to_string(), strings(values)),
        );
    }
    store
}

/// Runs a pull against `device`, which answers each request; returns the
/// requests sent and the outcome.
fn run_pull(
    store: &mut DeviceConfig,
    mut device: impl FnMut(&str) -> Result<String, SessionError>,
    mut saved: impl FnMut() -> bool,
) -> (Vec<String>, Result<(), SyncError>) {
    let mut engine = PullEngine::new(store).unwrap();
    let mut sent = Vec::new();
    loop {
        match engine.next_action() {
            SyncAction::Send(request) => {
                let reply = device(&request);
                sent.push(request);
                engine.on_reply(store, reply);
            }
            SyncAction::Persist => engine.on_persisted(saved()),
            SyncAction::Finished => return (sent, Ok(())),
            SyncAction::Failed(e) => return (sent, Err(e)),
        }
    }
}

fn run_push(
    store: &DeviceConfig,
    mut device: impl FnMut(&str) -> Result<String, SessionError>,
) -> (Vec<String>, Result<(), SyncError>) {
    let mut engine = PushEngine::new(store, StreamingMode::OnChangeMode).unwrap();
    let mut sent = Vec::new();
    loop {
        match engine.next_action(store) {
            SyncAction::Send(request) => {
                let reply = device(&request);
                sent.push(request);
                engine.on_reply(reply);
            }
            SyncAction::Persist => unreachable!(),
            SyncAction::Finished => return (sent, Ok(())),
            SyncAction::Failed(e) => return (sent, Err(e)),
        }
    }
}

const GROUPS: &[&str] = &["0", "1", "2", "3", "4", "5", "6", "7", "8", "9", "10", "11"];

#[test]
fn pull_sets_value_at_reported_index() {
    let mut store = store_with(&[("groupnumber", "0", GROUPS)]);
    let (sent, outcome) = run_pull(
        &mut store,
        |request| {
            assert_eq!(request, "get groupnumber");
            Ok("groupnumber: 2".to_string())
        },
        || true,
    );
    assert_eq!(outcome, Ok(()));
    assert_eq!(sent, vec!["get groupnumber".to_string()]);
    assert_eq!(store.get_parameter_value("groupnumber").unwrap(), "2");
}

#[test]
fn pull_is_idempotent() {
    let mut store = store_with(&[
        ("groupnumber", "0", GROUPS),
        ("soundvolume", "50%", &["0%", "25%", "50%", "75%", "100%"]),
    ]);
    let device = |request: &str| -> Result<String, SessionError> {
        match request {
            "get groupnumber" => Ok("groupnumber: 7\r\n".to_string()),
            "get soundvolume" => Ok("soundvolume: 4".to_string()),
            _ => Err(SessionError::TransportError),
        }
    };
    assert_eq!(run_pull(&mut store, device, || true).1, Ok(()));
    let first = (
        store.get_parameter_value("groupnumber").unwrap(),
        store.get_parameter_value("soundvolume").unwrap(),
    );
    assert_eq!(first, ("7".to_string(), "100%".to_string()));
    assert_eq!(run_pull(&mut store, device, || true).1, Ok(()));
    let second = (
        store.get_parameter_value("groupnumber").unwrap(),
        store.get_parameter_value("soundvolume").unwrap(),
    );
    assert_eq!(first, second);
}

#[test]
fn pull_retries_whole_set_then_fails() {
    let mut store = store_with(&[("a", "0", GROUPS), ("b", "0", GROUPS)]);
    let (sent, outcome) = run_pull(
        &mut store,
        |request| match request {
            "get a" => Ok("a: 1".to_string()),
            _ => Ok("b: 99".to_string()),
        },
        || true,
    );
    assert_eq!(outcome, Err(SyncError::PullFailed));
    assert_eq!(sent.len(), 10);
    assert_eq!(sent.iter().filter(|r| *r == "get a").count(), 5);
}

#[test]
fn pull_recovers_after_transport_errors() {
    let mut store = store_with(&[("a", "0", GROUPS)]);
    let mut calls = 0;
    let (sent, outcome) = run_pull(
        &mut store,
        |_| {
            calls += 1;
            if calls < 5 {
                Err(SessionError::TransportError)
            } else {
                Ok("a: 3".to_string())
            }
        },
        || true,
    );
    assert_eq!(outcome, Ok(()));
    assert_eq!(sent.len(), 5);
    assert_eq!(store.get_parameter_value("a").unwrap(), "3");
}

#[test]
fn pull_retries_when_saving_fails() {
    let mut store = store_with(&[("a", "0", GROUPS)]);
    let mut saves = 0;
    let (sent, outcome) = run_pull(&mut store, |_| Ok("a: 3".to_string()), || {
        saves += 1;
        saves > 1
    });
    assert_eq!(outcome, Ok(()));
    assert_eq!(sent.len(), 2);
}

#[test]
fn push_sends_current_index_and_fails_without_echo() {
    let store = store_with(&[("soundvolume", "75%", &["0%", "25%", "50%", "75%", "100%"])]);
    let (sent, outcome) = run_push(&store, |_| Ok("soundvolume: 4".to_string()));
    assert_eq!(outcome, Err(SyncError::PushFailed));
    assert_eq!(sent, vec!["set soundvolume 3".to_string(); 5]);
}

#[test]
fn push_then_starts_stream() {
    let store = store_with(&[
        ("soundvolume", "75%", &["0%", "25%", "50%", "75%", "100%"]),
        ("groupnumber", "11", GROUPS),
    ]);
    let (sent, outcome) = run_push(&store, |request| match request {
        "set soundvolume 3" => Ok("ok soundvolume: 3\r\n".to_string()),
        "set groupnumber 11" => Ok("groupnumber: 11".to_string()),
        "set mode 1" => Ok("mode: 1".to_string()),
        _ => Err(SessionError::TransportError),
    });
    assert_eq!(outcome, Ok(()));
    assert_eq!(sent, strings(&["set soundvolume 3", "set groupnumber 11", "set mode 1"]));
}

#[test]
fn push_stream_start_fails_after_five_attempts() {
    let store = store_with(&[("a", "1", GROUPS)]);
    let (sent, outcome) = run_push(&store, |request| match request {
        "set a 1" => Ok("a: 1".to_string()),
        _ => Ok("mode: 2".to_string()),
    });
    assert_eq!(outcome, Err(SyncError::StreamStartFailed));
    assert_eq!(sent.len(), 6);
    assert_eq!(sent.iter().filter(|r| *r == "set mode 1").count(), 5);
}

#[test]
fn push_fails_for_value_outside_domain() {
    let store = store_with(&[("a", "zzz", GROUPS)]);
    let (sent, outcome) = run_push(&store, |_| Ok(String::new()));
    assert_eq!(outcome, Err(SyncError::PushFailed));
    assert!(sent.is_empty());
}

#[test]
fn engines_refuse_empty_store() {
    let store = DeviceConfig::new();
    assert!(matches!(
        PullEngine::new(&store),
        Err(SyncError::Config(ConfigError::EmptyParameterList))
    ));
    assert!(matches!(
        PushEngine::new(&store, StreamingMode::OnChangeMode),
        Err(SyncError::Config(ConfigError::EmptyParameterList))
    ));
}

#[test]
fn extract_reads_index() {
    assert_eq!(extract_parameter_value("groupnumber", "groupnumber: 2".to_string()), Ok(2));
    assert_eq!(extract_parameter_value("g", "g:\t+255 \r\n".to_string()), Ok(255));
    assert_eq!(extract_parameter_value("g", "g:007".to_string()), Ok(7));
    assert_eq!(
        extract_parameter_value("g", "g: 256".to_string()),
        Err(SyncError::ConfigValueError)
    );
    assert_eq!(
        extract_parameter_value("g", "g: -1".to_string()),
        Err(SyncError::ConfigValueError)
    );
    assert_eq!(extract_parameter_value("g", "g: ".to_string()), Err(SyncError::ConfigValueError));
    assert_eq!(
        extract_parameter_value("g", "h: 1".to_string()),
        Err(SyncError::MalformedResponse)
    );
    assert_eq!(
        extract_parameter_value("g", "g 1".to_string()),
        Err(SyncError::MalformedResponse)
    );
    assert_eq!(
        extract_parameter_value("g", "g: 1: 2".to_string()),
        Err(SyncError::MalformedResponse)
    );
    assert_eq!(
        extract_parameter_value("g", " g: 1".to_string()),
        Err(SyncError::MalformedResponse)
    );
}

#[test]
fn push_request_text() {
    assert_eq!(push_request("soundvolume", 3), "set soundvolume 3");
    assert_eq!(push_request("x", 0), "set x 0");
    assert_eq!(push_request("x", 42), "set x 42");
    assert_eq!(push_request("x", 255), "set x 255");
    assert_eq!(StreamingMode::OnChangeMode.code(), 1);
    assert_eq!(StreamingMode::SilentMode.code(), 0);
    assert_eq!(StreamingMode::PeriodicMode.code(), 2);
    assert_eq!(StreamingMode::OnDemandMode.code(), 3);
}

fn run_handshake(replies: &[Result<String, SessionError>]) -> (usize, HandshakeStep) {
    let mut handshake = Handshake::new();
    let mut attempts = 0;
    loop {
        let request = handshake.request();
        assert!(!request.is_empty());
        let reply = replies
            .get(attempts)
            .cloned()
            .unwrap_or(Err(SessionError::TransportError));
        attempts += 1;
        match handshake.on_reply(&reply) {
            HandshakeStep::Retry => continue,
            step => return (attempts, step),
        }
    }
}

#[test]
fn handshake_connects_on_kth_attempt() {
    for k in 1..=5 {
        let mut replies = vec![Ok("Hi?\r\n".to_string()); k - 1];
        replies.push(Ok("Hi!\r\n".to_string()));
        assert_eq!(run_handshake(&replies), (k, HandshakeStep::Connected));
    }
}

#[test]
fn handshake_gives_up_after_five() {
    let replies = vec![
        Err(SessionError::TransportError),
        Ok("Hi!".to_string()),
        Ok("hi!\r\n".to_string()),
        Err(SessionError::EncodingError),
        Ok("Hi!\r\n ".to_string()),
        Ok("Hi!\r\n".to_string()),
    ];
    assert_eq!(run_handshake(&replies), (5, HandshakeStep::Failed));
}

#[test]
fn handshake_request_is_framed_hello() {
    let handshake = Handshake::new();
    assert_eq!(handshake.request(), rk_nku_sync::session::encode_request("hello").unwrap());
}
