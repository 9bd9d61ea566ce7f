use yeelight_bridge::json::{json_text, parse_json, JsonValue};
use yeelight_bridge::yeelight::{
    Command, DecodeError, Method, Notification, Power, Response, ResponseResult, YeelightMessage,
};

#[test]
fn test_command_generate_json_packet() {
    let mut list = Vec::new();

    list.push((Command::new(1, Method::set_power(Power::On)),
               "{\"id\":1,\"method\":\"set_power\",\"params\":[\"on\"]}"));

    list.push((Command::new(1, Method::set_brightness(50)),
               "{\"id\":1,\"method\":\"set_bright\",\"params\":[50]}"));

    list.push((Command::new(1, Method::get_prop(vec!("power".to_string()))),
               "{\"id\":1,\"method\":\"get_prop\",\"params\":[\"power\"]}"));

    list.push((Command::new(1, Method::TOGGLE),
               "{\"id\":1,\"method\":\"toggle\",\"params\":[]}"));

    for (command, expected) in list {
        match command.method {
            Method::GetProp { .. } => assert_eq!(command.to_string(), expected),
            Method::SetBright { .. } => assert_eq!(command.to_string(), expected),
            Method::SetPower { .. } => assert_eq!(command.to_string(), expected),
            Method::Toggle { .. } => assert_eq!(command.to_string(), expected),
        };
    }
}

#[test]
fn test_response_from_json() {
    let ok_response = Response::from_str("{\"id\":1,\"result\":[\"on\"]}").unwrap();
    assert_eq!(ok_response.id, 1);
    assert_eq!(ok_response.result, ResponseResult::Success(vec!("on".to_string())));

    let error_response = "{\"id\":2, \"error\":{\"code\":-1, \"message\":\"unsupported method\"}}";
    let error_response = Response::from_str(error_response).unwrap();

    assert_eq!(error_response.id, 2);
    println!("{:?}", error_response.result);
}

#[test]
fn test_notification_from_json() {
    let notification = "{\"method\":\"props\",\"params\":{\"power\":\"on\", \"bright\": \"10\"}}";
    let notification = Notification::from_str(notification).unwrap();

    assert_eq!(notification.method, "props");
    assert_eq!(notification.param("power").unwrap(), &JsonValue::Str("on".to_string()));
    assert_eq!(notification.param("bright").unwrap(), &JsonValue::Str("10".to_string()));
}

#[test]
fn error_reply_keeps_code_and_message() {
    let r = Response::from_str("{\"id\":2, \"error\":{\"code\":-1, \"message\":\"unsupported method\"}}").unwrap();
    assert_eq!(
        r.result,
        ResponseResult::Error { code: -1, message: "unsupported method".to_string() }
    );
}

#[test]
fn response_decode_errors() {
    assert!(matches!(Response::from_str("not json"), Err(DecodeError::NotJson)));
    assert!(matches!(Response::from_str("{\"id\":1}"), Err(DecodeError::WrongShape)));
    assert!(matches!(Response::from_str("{\"id\":-1,\"result\":[]}"), Err(DecodeError::WrongShape)));
    assert!(matches!(Response::from_str("{\"id\":1,\"result\":[1]}"), Err(DecodeError::WrongShape)));
    assert!(matches!(Notification::from_str("{\"id\":1}"), Err(DecodeError::WrongShape)));
    assert!(matches!(Notification::from_str("{"), Err(DecodeError::NotJson)));
}

#[test]
fn line_with_id_is_a_reply_and_without_is_a_notification() {
    match YeelightMessage::decode_line("{\"id\":7,\"result\":[\"ok\"]}") {
        Some(YeelightMessage::Response(r)) => assert_eq!(r.id, 7),
        _ => panic!("expected a reply"),
    }
    match YeelightMessage::decode_line("{\"method\":\"props\",\"params\":{\"power\":\"off\"}}") {
        Some(YeelightMessage::Notification(n)) => assert_eq!(n.method, "props"),
        _ => panic!("expected a notification"),
    }
    assert!(YeelightMessage::decode_line("garbage").is_none());
    assert!(YeelightMessage::decode_line("{\"id\":1,\"method\":\"toggle\",\"params\":[]}").is_none());
}

#[test]
fn command_round_trip_through_json_value() {
    let commands = vec![
        Command::new(3, Method::set_power(Power::Off)),
        Command::new(4, Method::set_brightness(100)),
        Command::new(5, Method::get_prop(vec!["power".to_string(), "bright".to_string()])),
        Command::new(6, Method::TOGGLE),
    ];
    for c in commands {
        let back = Command::from_json(&c.to_json()).unwrap();
        assert_eq!(back.id, c.id);
        assert_eq!(format!("{:?}", back.method), format!("{:?}", c.method));
    }
}

#[test]
fn command_round_trip_through_text() {
    let c = Command::new(9, Method::get_prop(vec!["a\"b".to_string()]));
    let text = c.to_string();
    let v = parse_json(&text).unwrap();
    let back = Command::from_json(&v).unwrap();
    assert_eq!(back.id, 9);
    assert_eq!(format!("{:?}", back.method), format!("{:?}", c.method));
}

#[test]
fn command_line_ends_with_crlf() {
    let c = Command::new(1, Method::set_power(Power::On));
    assert_eq!(c.to_line(), "{\"id\":1,\"method\":\"set_power\",\"params\":[\"on\"]}\r\n");
}

#[test]
fn json_text_writes_a_document() {
    let v = JsonValue::Array(vec![JsonValue::UInt(1), JsonValue::Int(-2), JsonValue::Null, JsonValue::Bool(true)]);
    assert_eq!(json_text(&v), "[1,-2,null,true]");
    assert_eq!(parse_json("[1,-2,null,true]"), Some(v));
}

#[test]
fn power_words() {
    assert_eq!(Power::On.to_string(), "on");
    assert_eq!(Power::Off.to_string(), "off");
}
