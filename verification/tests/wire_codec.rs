use statusbar::codec::{decode_op, encode_op};
use statusbar::tasks::{
    FinishedTask, LiveTask, StateSnapshot, TaskStatus, WebsocketOp, WebsocketOpKind,
};

fn ins(id: &str, value: &str, time: u64) -> WebsocketOp {
    WebsocketOp {
        alleged_time: time,
        kind: WebsocketOpKind::InsLiveTask { id: id.to_string(), value: value.to_string() },
    }
}

#[test]
fn encode_insert_is_canonical_json() {
    let op = ins("xyz", "hello world", 5);
    assert_eq!(
        encode_op(&op),
        "{\"alleged_time\":5,\"kind\":{\"InsLiveTask\":{\"id\":\"xyz\",\"value\":\"hello world\"}}}"
    );
}

#[test]
fn encode_finish_is_canonical_json() {
    let op = WebsocketOp {
        alleged_time: 1700000000000,
        kind: WebsocketOpKind::FinishLiveTask {
            id: "a".to_string(),
            status: TaskStatus::Succeeded,
        },
    };
    assert_eq!(
        encode_op(&op),
        "{\"alleged_time\":1700000000000,\"kind\":{\"FinishLiveTask\":{\"id\":\"a\",\"status\":\"Succeeded\"}}}"
    );
}

#[test]
fn encode_escapes_quotes_and_controls() {
    let op = ins("q", "say \"hi\"\n\tback\\slash \u{1}", 0);
    assert_eq!(
        encode_op(&op),
        "{\"alleged_time\":0,\"kind\":{\"InsLiveTask\":{\"id\":\"q\",\"value\":\"say \\\"hi\\\"\\n\\tback\\\\slash \\u0001\"}}}"
    );
}

#[test]
fn decode_inverts_encode_for_every_kind() {
    let ops = vec![
        ins("i1", "plain", 42),
        WebsocketOp {
            alleged_time: 1,
            kind: WebsocketOpKind::EditLiveTask {
                id: "e".to_string(),
                value: "new \u{8}\u{c}\r text".to_string(),
            },
        },
        WebsocketOp {
            alleged_time: 2,
            kind: WebsocketOpKind::DelLiveTask { id: "d".to_string() },
        },
        WebsocketOp {
            alleged_time: 3,
            kind: WebsocketOpKind::FinishLiveTask {
                id: "f".to_string(),
                status: TaskStatus::Failed,
            },
        },
        WebsocketOp {
            alleged_time: 4,
            kind: WebsocketOpKind::RestoreFinishedTask { id: "r".to_string() },
        },
        WebsocketOp {
            alleged_time: 5,
            kind: WebsocketOpKind::MvLiveTask {
                id_del: "m1".to_string(),
                id_ins: "m2".to_string(),
            },
        },
        WebsocketOp {
            alleged_time: u64::MAX,
            kind: WebsocketOpKind::RevLiveTask { id1: "x".to_string(), id2: "y".to_string() },
        },
        WebsocketOp {
            alleged_time: 6,
            kind: WebsocketOpKind::OverwriteState(StateSnapshot {
                live: vec![
                    LiveTask { id: "a".to_string(), value: "A".to_string() },
                    LiveTask { id: "b".to_string(), value: "unicode \u{e9}\u{4e16} ok".to_string() },
                ],
                finished: vec![FinishedTask {
                    id: "z".to_string(),
                    value: "done".to_string(),
                    status: TaskStatus::Obsoleted,
                }],
            }),
        },
        WebsocketOp {
            alleged_time: 7,
            kind: WebsocketOpKind::OverwriteState(StateSnapshot { live: vec![], finished: vec![] }),
        },
    ];
    for op in ops {
        let text = encode_op(&op);
        let back = decode_op(&text).expect(&text);
        assert_eq!(encode_op(&back), text);
    }
}

#[test]
fn decode_accepts_kind_only_payload_with_time_zero() {
    let op = decode_op("{\"kind\":{\"InsLiveTask\":{\"id\":\"1\",\"value\":\"buy milk\"}}}")
        .unwrap();
    assert_eq!(op.alleged_time, 0);
    match op.kind {
        WebsocketOpKind::InsLiveTask { id, value } => {
            assert_eq!(id, "1");
            assert_eq!(value, "buy milk");
        }
        other => panic!("wrong kind: {:?}", other),
    }
}

#[test]
fn decode_reads_unicode_escapes() {
    let op = decode_op(
        "{\"kind\":{\"EditLiveTask\":{\"id\":\"e\",\"value\":\"tab\\u0009 bell\\u0007\"}}}",
    )
    .unwrap();
    match op.kind {
        WebsocketOpKind::EditLiveTask { value, .. } => {
            assert_eq!(value, "tab\t bell\u{7}");
        }
        other => panic!("wrong kind: {:?}", other),
    }
}

#[test]
fn decode_refuses_malformed_payloads() {
    assert!(decode_op("").is_none());
    assert!(decode_op("not json at all").is_none());
    assert!(decode_op("{\"kind\":{\"NoSuchKind\":{\"id\":\"1\"}}}").is_none());
    assert!(decode_op("{\"kind\":{\"DelLiveTask\":{\"id\":\"1\"}}} trailing").is_none());
    assert!(decode_op("{\"alleged_time\":007,\"kind\":{\"DelLiveTask\":{\"id\":\"1\"}}}")
        .is_none());
    assert!(decode_op("{\"alleged_time\":99999999999999999999999,\"kind\":{\"DelLiveTask\":{\"id\":\"1\"}}}")
        .is_none());
    assert!(decode_op("{\"kind\":{\"DelLiveTask\":{\"id\":\"unterminated}}}").is_none());
    assert!(decode_op("{\"kind\":{\"DelLiveTask\":{\"id\":\"bad\\q escape\"}}}").is_none());
}

#[test]
fn decode_matches_serde_json_output() {
    // The canonical form is exactly what a serde-style serializer
    // emits for the same shape: build the payload with serde_json and
    // read it back with the library's decoder.
    let mut mv = serde_json::Map::new();
    mv.insert("id_del".to_string(), serde_json::Value::String("p".to_string()));
    mv.insert("id_ins".to_string(), serde_json::Value::String("q".to_string()));
    let mut kind = serde_json::Map::new();
    kind.insert("MvLiveTask".to_string(), serde_json::Value::Object(mv));
    let mut root = serde_json::Map::new();
    root.insert("alleged_time".to_string(), serde_json::Value::from(123u64));
    root.insert("kind".to_string(), serde_json::Value::Object(kind));
    let text = serde_json::to_string(&serde_json::Value::Object(root)).unwrap();
    let op = decode_op(&text).expect(&text);
    assert_eq!(op.alleged_time, 123);
    match op.kind {
        WebsocketOpKind::MvLiveTask { id_del, id_ins } => {
            assert_eq!(id_del, "p");
            assert_eq!(id_ins, "q");
        }
        other => panic!("wrong kind: {:?}", other),
    }
}
