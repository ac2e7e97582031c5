use smart_home_api::device::{Kettle, SmartDevice, Socket, Thermometer};
use smart_home_api::dispatch::JsonRpcRequest;
use smart_home_api::home::Home;
use smart_home_api::json::{unquoted, JsonValue};
use smart_home_api::provider::{IterableProvider, JsonDeviceInfoProvider};
use smart_home_api::queue::RPCQueue;
use smart_home_api::rpc::Reply;

fn text(s: &str) -> JsonValue {
    JsonValue::Str(s.to_string())
}

fn obj(members: Vec<(&str, JsonValue)>) -> JsonValue {
    JsonValue::Object(members.into_iter().map(|(k, v)| (k.to_string(), v)).collect())
}

fn req(id: &str, method: &str, params: JsonValue) -> JsonRpcRequest {
    JsonRpcRequest {
        id: id.to_string(),
        jsonrpc: "2.0".to_string(),
        method: method.to_string(),
        params,
    }
}

fn fixture() -> Home {
    let mut home = Home::new("MyHome".to_string());
    let mut kettle = Kettle::new("1");
    kettle.switch_on();
    home.add_room(
        "kitchen".to_string(),
        vec![SmartDevice::Socket(Socket::new("1")), SmartDevice::Kettle(kettle)],
    )
    .ok()
    .unwrap();
    let mut broken = Socket::new("3");
    broken.set_broken();
    home.add_room(
        "bedroom".to_string(),
        vec![SmartDevice::Socket(broken), SmartDevice::Thermometer(Thermometer::new("2"))],
    )
    .ok()
    .unwrap();
    home
}

fn run(home: &mut Home, batch: Vec<JsonRpcRequest>) -> Vec<Reply> {
    let mut q = RPCQueue::new();
    q.push(batch);
    let replies = home.execute(&mut q);
    assert!(q.is_empty());
    replies
}

fn id_of(r: &Reply) -> String {
    match r {
        Reply::Success(s) => s.id.clone(),
        Reply::Failure(f) => f.id.clone(),
    }
}

fn data_of(r: &Reply) -> String {
    match r {
        Reply::Success(s) => s.result.data.clone(),
        Reply::Failure(f) => f.error.data.clone(),
    }
}

#[test]
fn replies_one_per_command_in_stack_order() {
    let mut home = fixture();
    let replies = run(
        &mut home,
        vec![
            req("1", "addRoom", obj(vec![("name", text("A"))])),
            req("2", "addRoom", obj(vec![("name", text("B"))])),
            req("3", "getDevices", obj(vec![("room", text("kitchen"))])),
        ],
    );
    assert_eq!(replies.len(), 3);
    let ids: Vec<String> = replies.iter().map(id_of).collect();
    assert_eq!(ids, vec!["3", "2", "1"]);
    assert_eq!(data_of(&replies[0]), "Smart Socket 1;Smart Kettle 1");
    assert!(replies.iter().all(|r| r.code() == 0));
    assert_eq!(home.get_rooms(), vec!["kitchen", "bedroom", "B", "A"]);
}

#[test]
fn reset_drops_pending_commands() {
    let mut home = fixture();
    let replies = run(
        &mut home,
        vec![
            req("1", "addRoom", obj(vec![("name", text("Never"))])),
            req("2", "delRoom", obj(vec![("name", text("kitchen"))])),
            req("3", "reset", JsonValue::Null),
            req("4", "addRoom", obj(vec![("name", text("Attic"))])),
            req("5", "createReport", JsonValue::Null),
        ],
    );
    let ids: Vec<String> = replies.iter().map(id_of).collect();
    assert_eq!(ids, vec!["5", "4", "3"]);
    assert_eq!(data_of(&replies[2]), "reset: success");
    assert_eq!(data_of(&replies[1]), "addRoom: success");
    assert_eq!(home.get_rooms(), vec!["kitchen", "bedroom", "Attic"]);
}

#[test]
fn add_same_room_twice_is_api_error() {
    let mut home = fixture();
    let first = run(&mut home, vec![req("1", "addRoom", obj(vec![("name", text("Kitchen"))]))]);
    assert_eq!(first[0].code(), 0);
    assert_eq!(data_of(&first[0]), "addRoom: success");
    let second = run(&mut home, vec![req("2", "addRoom", obj(vec![("name", text("Kitchen"))]))]);
    assert_eq!(second[0].code(), 1);
    match &second[0] {
        Reply::Failure(f) => {
            assert_eq!(f.error.message, "Api logic error");
            assert!(f.error.data.contains("same name"));
            assert_eq!(f.error.data, "addRoom error: room with same name exist in home: MyHome");
        }
        Reply::Success(_) => panic!("expected an error reply"),
    }
    let kitchens = home.get_rooms().into_iter().filter(|r| r == "Kitchen").count();
    assert_eq!(kitchens, 1);
}

#[test]
fn del_missing_room_is_api_error() {
    let mut home = fixture();
    let before = home.get_rooms();
    let replies = run(&mut home, vec![req("9", "delRoom", obj(vec![("name", text("Nonexistent"))]))]);
    assert_eq!(replies[0].code(), 1);
    assert_eq!(data_of(&replies[0]), "delRoom error: room: Nonexistent not exist");
    assert_eq!(home.get_rooms(), before);
}

fn device_cmd(id: &str, room: &str, device: &str, command: &str, data: JsonValue) -> JsonRpcRequest {
    req(
        id,
        "deviceExecute",
        obj(vec![
            ("room", text(room)),
            ("device", text(device)),
            ("command", text(command)),
            ("data", data),
        ]),
    )
}

#[test]
fn switching_a_broken_device_is_a_success_reply() {
    let mut home = fixture();
    let replies = run(
        &mut home,
        vec![device_cmd("7", "bedroom", "Smart Socket 3", "switch", JsonValue::Array(vec![text("on")]))],
    );
    assert_eq!(replies[0].code(), 0);
    assert!(matches!(replies[0], Reply::Success(_)));
    assert_eq!(data_of(&replies[0]), "failed, can't change state, device is broken!");
}

#[test]
fn switching_changes_state() {
    let mut home = fixture();
    let replies = run(
        &mut home,
        vec![
            device_cmd("2", "kitchen", "Smart Socket 1", "report", JsonValue::Null),
            device_cmd("1", "kitchen", "Smart Socket 1", "switch", JsonValue::Array(vec![text("on")])),
        ],
    );
    assert_eq!(data_of(&replies[0]), "ok, state was set");
    assert!(data_of(&replies[1]).contains("Включен"));
}

#[test]
fn device_command_errors() {
    let mut home = fixture();
    let replies = run(
        &mut home,
        vec![
            device_cmd("1", "kitchen", "Smart Socket 1", "explode", JsonValue::Null),
            device_cmd("2", "kitchen", "Smart Socket 1", "switch", text("sideways")),
            device_cmd("3", "kitchen", "Smart Lamp", "get_name", JsonValue::Null),
            device_cmd("4", "garage", "Smart Socket 1", "get_name", JsonValue::Null),
            req("5", "deviceExecute", obj(vec![("room", text("kitchen"))])),
            device_cmd("6", "kitchen", "Smart Kettle 1", "get_current_info", JsonValue::Null),
        ],
    );
    assert_eq!(data_of(&replies[0]), "В чайнике: 1.10 л воды, Текущая температура: 0.00 °C");
    assert_eq!(replies[1].code(), -32602);
    assert_eq!(replies[2].code(), 1);
    assert_eq!(data_of(&replies[2]), "error: room: garage not exist");
    assert_eq!(replies[3].code(), 1);
    assert_eq!(data_of(&replies[3]), "error: device: \"Smart Lamp\" not exist in room: \"kitchen\"");
    assert_eq!(replies[4].code(), -32602);
    assert_eq!(data_of(&replies[4]), "wrong status provided: sideways");
    assert_eq!(replies[5].code(), -32601);
    assert_eq!(data_of(&replies[5]), "wrong device command");
}

#[test]
fn unknown_method_is_internal_error() {
    let mut home = fixture();
    let replies = run(&mut home, vec![req("x", "fly", JsonValue::Null)]);
    assert_eq!(replies[0].code(), -32603);
    match &replies[0] {
        Reply::Failure(f) => {
            assert_eq!(f.jsonrpc, "2.0");
            assert_eq!(f.error.message, "Internal error");
        }
        Reply::Success(_) => panic!("expected an error reply"),
    }
}

#[test]
fn provider_report_marks_missing_devices() {
    let mut home = fixture();
    let filter = obj(vec![(
        "schema",
        obj(vec![("kitchen", JsonValue::Array(vec![text("Smart Socket 1"), text("Ghost")]))]),
    )]);
    let replies = run(&mut home, vec![req("p", "createProviderReport", obj(vec![("provider", filter)]))]);
    assert_eq!(replies[0].code(), 0);
    let report = data_of(&replies[0]);
    assert!(report.contains("\x1b[41mkitchen=>Ghost\x1b[0m не найдено\n"));
    let matched = report.split("==============").next().unwrap();
    assert!(!matched.contains("Ghost"));
    assert!(matched.contains("Устройство: Smart Socket 1"));
    assert!(!matched.contains("Smart Kettle 1"));
    assert_eq!(matched.matches("\n--> ").count(), 1);
}

#[test]
fn provider_report_with_malformed_filter() {
    let mut home = fixture();
    let bad = obj(vec![("schema", obj(vec![("kitchen", text("Smart Socket 1"))]))]);
    let unwrapped = obj(vec![("kitchen", JsonValue::Array(vec![text("Smart Socket 1")]))]);
    let replies = run(
        &mut home,
        vec![
            req("p", "createProviderReport", obj(vec![("provider", bad)])),
            req("q", "createProviderReport", obj(vec![("provider", unwrapped)])),
        ],
    );
    assert_eq!(replies[0].code(), -32602);
    assert_eq!(replies[1].code(), -32602);
    assert!(data_of(&replies[0]).starts_with("error: "));
}

#[test]
fn provider_keys_are_distinct() {
    let filter = obj(vec![(
        "schema",
        obj(vec![
            ("a", JsonValue::Array(vec![text("x"), text("x"), text("y")])),
            ("b", JsonValue::Array(vec![])),
        ]),
    )]);
    let p = JsonDeviceInfoProvider::from_json(&filter).ok().unwrap();
    assert_eq!(p.as_set(), vec!["a=>x".to_string(), "a=>y".to_string()]);
    let home = fixture();
    assert!(p.get_device_info(&home, "kitchen", "Smart Socket 1").ok().unwrap().contains("Smart Socket 1"));
    assert!(p.get_device_info(&home, "attic", "Smart Socket 1").is_err());
}

#[test]
fn unquoted_parameters() {
    assert_eq!(unquoted(&text("Kitchen")), "Kitchen");
    assert_eq!(unquoted(&text("say \"hi\"")), "say \\\"hi\\");
    assert_eq!(unquoted(&JsonValue::Null), "null");
    assert_eq!(unquoted(&JsonValue::Number("12".to_string())), "12");
    assert_eq!(
        unquoted(&JsonValue::Array(vec![JsonValue::Number("1".to_string()), text("a")])),
        "[1,\"a\"]"
    );
    assert_eq!(unquoted(&obj(vec![("k", JsonValue::Bool(true))])), "{\"k\":true}");
}

#[test]
fn missing_name_parameter_reads_as_null() {
    let mut home = fixture();
    let replies = run(&mut home, vec![req("1", "addRoom", JsonValue::Null)]);
    assert_eq!(replies[0].code(), 0);
    assert!(home.get_rooms().contains(&"null".to_string()));
}

#[test]
fn create_report_lists_everything() {
    let mut home = fixture();
    let replies = run(&mut home, vec![req("r", "createReport", JsonValue::Null)]);
    let report = data_of(&replies[0]);
    assert!(report.starts_with("\nkitchen\n--> Устройство: Smart Socket 1"));
    assert!(report.contains("\nbedroom\n--> Устройство: Smart Socket 3"));
    assert_eq!(report, home.create_report());
}
