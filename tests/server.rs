use smart_home_api::device::{SmartDevice, Socket};
use smart_home_api::dispatch::JsonRpcRequest;
use smart_home_api::home::Home;
use smart_home_api::json::JsonValue;
use smart_home_api::queue::RPCQueue;
use smart_home_api::rpc::{
    api_error, internal_error, invalid_method, invalid_param, invalid_request, parse_error,
    reply, reply_error, unhandled_error, Reply,
};
use smart_home_api::server::{
    decode_batch, describe_violations, Inbound, Response, SchemaChecker, Violation,
};

const SCHEMA: &str = r#"{
  "type": "array",
  "items": {
    "type": "object",
    "required": ["id", "jsonrpc", "method", "params"],
    "properties": {
      "id": {"type": "string"},
      "jsonrpc": {"const": "2.0"},
      "method": {"type": "string"}
    }
  }
}"#;

fn validator() -> SchemaChecker {
    SchemaChecker::from_text(SCHEMA).ok().unwrap()
}

fn home() -> Home {
    let mut h = Home::new("MyHome".to_string());
    h.add_room("kitchen".to_string(), vec![SmartDevice::Socket(Socket::new("1"))]).ok().unwrap();
    h
}

#[test]
fn malformed_json_gets_one_parse_error() {
    let mut h = home();
    let mut q: RPCQueue<JsonRpcRequest> = RPCQueue::new();
    let r = h.handle(&mut q, &validator(), "[{\"id\": \"1\",");
    match r {
        Response::Single(e) => {
            assert_eq!(e.code, -32700);
            assert_eq!(e.message, "Parse error");
            assert!(!e.data.is_empty());
        }
        Response::Batch(_) => panic!("expected a single error"),
    }
    assert!(q.is_empty());
    assert_eq!(h.get_rooms(), vec!["kitchen"]);
}

#[test]
fn malformed_inbound_is_not_queued() {
    let mut h = home();
    let mut q: RPCQueue<JsonRpcRequest> = RPCQueue::new();
    match h.respond(&mut q, Inbound::Malformed("EOF while parsing".to_string())) {
        Response::Single(e) => {
            assert_eq!(e.code, -32700);
            assert_eq!(e.data, "EOF while parsing");
        }
        Response::Batch(_) => panic!("expected a single error"),
    }
    assert_eq!(q.len(), 0);
}

#[test]
fn schema_violation_gets_one_invalid_request() {
    let mut h = home();
    let mut q: RPCQueue<JsonRpcRequest> = RPCQueue::new();
    let r = h.handle(&mut q, &validator(), "[{\"id\": 5, \"jsonrpc\": \"2.0\", \"method\": \"createReport\"}]");
    match r {
        Response::Single(e) => {
            assert_eq!(e.code, -32600);
            assert_eq!(e.message, "Invalid Request");
            assert!(e.data.contains("Error: "));
            assert!(e.data.contains("Location: /0"));
            assert_eq!(e.data.matches("Error: ").count(), 2);
            assert!(e.data.contains(";"));
        }
        Response::Batch(_) => panic!("expected a single error"),
    }
    assert!(q.is_empty());
}

#[test]
fn violations_are_joined() {
    let vs = vec![
        Violation { message: "a".to_string(), path: "/0".to_string() },
        Violation { message: "b".to_string(), path: "/1/id".to_string() },
    ];
    assert_eq!(
        describe_violations(&vs),
        "Error: a\n\n Location: /0\n\n;Error: b\n\n Location: /1/id\n\n"
    );
    let mut h = home();
    let mut q: RPCQueue<JsonRpcRequest> = RPCQueue::new();
    match h.respond(&mut q, Inbound::Invalid(vs)) {
        Response::Single(e) => {
            assert_eq!(e.code, -32600);
            assert_eq!(e.data, "Error: a\n\n Location: /0\n\n;Error: b\n\n Location: /1/id\n\n");
        }
        Response::Batch(_) => panic!("expected a single error"),
    }
}

#[test]
fn valid_batch_is_executed() {
    let mut h = home();
    let mut q: RPCQueue<JsonRpcRequest> = RPCQueue::new();
    let text = r#"[{"id":"a","jsonrpc":"2.0","method":"addRoom","params":{"name":"hall"}},
                  {"id":"b","jsonrpc":"2.0","method":"getDevices","params":{"room":"kitchen"}}]"#;
    match h.handle(&mut q, &validator(), text) {
        Response::Batch(rs) => {
            assert_eq!(rs.len(), 2);
            match &rs[0] {
                Reply::Success(s) => {
                    assert_eq!(s.id, "b");
                    assert_eq!(s.result.data, "Smart Socket 1");
                }
                Reply::Failure(_) => panic!("expected success"),
            }
            assert_eq!(rs[1].code(), 0);
        }
        Response::Single(_) => panic!("expected a batch"),
    }
    assert_eq!(h.get_rooms(), vec!["kitchen", "hall"]);
    assert!(q.is_empty());
}

#[test]
fn accepted_value_that_is_not_a_batch() {
    let mut h = home();
    let mut q: RPCQueue<JsonRpcRequest> = RPCQueue::new();
    match h.respond(&mut q, Inbound::Accepted(JsonValue::Bool(true))) {
        Response::Single(e) => assert_eq!(e.code, -32600),
        Response::Batch(_) => panic!("expected a single error"),
    }
    assert!(decode_batch(JsonValue::Array(vec![JsonValue::Null])).is_none());
    let ok = decode_batch(JsonValue::Array(vec![JsonValue::Object(vec![
        ("id".to_string(), JsonValue::Str("1".to_string())),
        ("jsonrpc".to_string(), JsonValue::Str("2.0".to_string())),
        ("method".to_string(), JsonValue::Str("reset".to_string())),
        ("params".to_string(), JsonValue::Array(vec![])),
    ])]))
    .unwrap();
    assert_eq!(ok.len(), 1);
    assert_eq!(ok[0].method, "reset");
}

#[test]
fn error_codes_and_messages() {
    let cases = vec![
        (parse_error("d".to_string()), -32700, "Parse error"),
        (invalid_request("d".to_string()), -32600, "Invalid Request"),
        (invalid_method("d".to_string()), -32601, "Invalid Method"),
        (invalid_param("d".to_string()), -32602, "Invalid Parameters of request"),
        (internal_error("d".to_string()), -32603, "Internal error"),
        (api_error("d".to_string()), 1, "Api logic error"),
        (unhandled_error("d".to_string()), 804, "unhandled error"),
    ];
    for (e, code, message) in cases {
        assert_eq!(e.code, code);
        assert_eq!(e.message, message);
        assert_eq!(e.data, "d");
    }
    let r = reply("7".to_string(), "done".to_string());
    assert_eq!((r.id.as_str(), r.jsonrpc.as_str(), r.result.data.as_str()), ("7", "2.0", "done"));
    let f = reply_error("8".to_string(), api_error("x".to_string()));
    assert_eq!((f.id.as_str(), f.jsonrpc.as_str(), f.error.code), ("8", "2.0", 1));
}

#[test]
fn queue_is_a_stack() {
    let mut q = RPCQueue::new();
    q.push(vec![1, 2]);
    q.push(vec![3]);
    assert_eq!(q.pop(), Some(3));
    assert_eq!(q.pop(), Some(2));
    q.reset();
    assert_eq!(q.pop(), None);
    assert!(q.is_empty());
}

#[test]
fn empty_batch_gets_empty_reply_array() {
    let mut h = home();
    let mut q: RPCQueue<JsonRpcRequest> = RPCQueue::new();
    match h.handle(&mut q, &validator(), "[]") {
        Response::Batch(rs) => assert!(rs.is_empty()),
        Response::Single(_) => panic!("expected a batch"),
    }
    assert_eq!(h.get_rooms(), vec!["kitchen"]);
}

#[test]
fn null_params_are_accepted() {
    let mut h = home();
    let mut q: RPCQueue<JsonRpcRequest> = RPCQueue::new();
    let text = r#"[{"id":"r","jsonrpc":"2.0","method":"createReport","params":null}]"#;
    match h.handle(&mut q, &validator(), text) {
        Response::Batch(rs) => {
            assert_eq!(rs.len(), 1);
            assert_eq!(rs[0].code(), 0);
        }
        Response::Single(_) => panic!("expected a batch"),
    }
    let missing = JsonValue::Array(vec![JsonValue::Object(vec![
        ("id".to_string(), JsonValue::Str("1".to_string())),
        ("jsonrpc".to_string(), JsonValue::Str("2.0".to_string())),
        ("method".to_string(), JsonValue::Str("reset".to_string())),
    ])]);
    assert!(decode_batch(missing).is_none());
}

#[test]
fn schema_documents_must_parse_and_compile() {
    assert!(SchemaChecker::from_text("{\"type\": ").is_err());
    assert!(SchemaChecker::from_text("{\"type\": 5}").is_err());
    assert!(SchemaChecker::from_text("{\"type\": \"array\"}").is_ok());
}
