use yeelight_bridge::controller::{
    action_method, decide, device_address, parse_brightness, parse_power, reply_publication, select_device,
    ControllerAction, DeviceFilters, MQTT_BRIGHTNESS_PUBLISH_TOPIC, MQTT_GET_POWER_TOPIC, MQTT_POWER_PUBLISH_TOPIC,
    MQTT_SET_BRIGHTNESS_TOPIC, MQTT_SET_POWER_TOPIC, MQTT_TOGGLE_TOPIC,
};
use yeelight_bridge::discovery::{parse, DiscoveryResponse};
use yeelight_bridge::session::{Routed, Session};
use yeelight_bridge::yeelight::{Notification, Power, Response, YeelightMessage};

#[test]
fn set_power_on_sends_exact_line() {
    let action = decide(MQTT_SET_POWER_TOPIC, "on");
    assert_eq!(action, ControllerAction::SetPower(Power::On));
    let mut s: Session<u8> = Session::new();
    let c = s.issue(action_method(action).unwrap(), 0).unwrap();
    assert_eq!(c.to_line(), "{\"id\":1,\"method\":\"set_power\",\"params\":[\"on\"]}\r\n");
    let reply = YeelightMessage::decode_line("{\"id\":1,\"result\":[\"ok\"]}").unwrap();
    match s.route(reply) {
        Routed::Deliver(_, r) => assert!(reply_publication(action, &r).is_none()),
        _ => panic!("expected delivery"),
    }
}

#[test]
fn props_notification_publishes_power() {
    let n = Notification::from_str("{\"method\":\"props\",\"params\":{\"power\":\"off\"}}").unwrap();
    let p = n.publications();
    assert_eq!(p.len(), 1);
    assert_eq!(p[0].topic, "smart-home-system/yeelight/power");
    assert_eq!(p[0].payload, "off");
    assert!(p[0].retained);
}

#[test]
fn notification_brightness_and_unknown_keys() {
    let n = Notification::from_str("{\"method\":\"props\",\"params\":{\"bright\":\"10\",\"ct\":\"4000\",\"power\":\"on\"}}").unwrap();
    let p = n.publications();
    assert_eq!(p.len(), 2);
    assert_eq!(p[0].topic, MQTT_BRIGHTNESS_PUBLISH_TOPIC);
    assert_eq!(p[0].payload, "10");
    assert_eq!(p[1].topic, MQTT_POWER_PUBLISH_TOPIC);
    assert_eq!(p[1].payload, "on");
    let n = Notification::from_str("{\"method\":\"props\",\"params\":{\"bright\":55}}").unwrap();
    assert_eq!(n.publications()[0].payload, "55");
    let n = Notification::from_str("{\"method\":\"props\",\"params\":{\"bright\":555,\"power\":\"dim\"}}").unwrap();
    assert!(n.publications().is_empty());
}

#[test]
fn brightness_above_range_is_clamped() {
    let action = decide(MQTT_SET_BRIGHTNESS_TOPIC, "150");
    assert_eq!(action, ControllerAction::SetBright(100));
    let mut s: Session<u8> = Session::new();
    let c = s.issue(action_method(action).unwrap(), 0).unwrap();
    assert_eq!(c.to_string(), "{\"id\":1,\"method\":\"set_bright\",\"params\":[100]}");
}

#[test]
fn negative_brightness_is_clamped_to_one() {
    let action = decide(MQTT_SET_BRIGHTNESS_TOPIC, "-5");
    assert_eq!(action, ControllerAction::SetBright(1));
    let mut s: Session<u8> = Session::new();
    let c = s.issue(action_method(action).unwrap(), 0).unwrap();
    assert_eq!(c.to_string(), "{\"id\":1,\"method\":\"set_bright\",\"params\":[1]}");
}

#[test]
fn power_get_republishes_reply() {
    let action = decide(MQTT_GET_POWER_TOPIC, "");
    assert_eq!(action, ControllerAction::GetPower);
    let mut s: Session<u8> = Session::new();
    let c = s.issue(action_method(action).unwrap(), 0).unwrap();
    assert_eq!(c.to_string(), "{\"id\":1,\"method\":\"get_prop\",\"params\":[\"power\"]}");
    let r = Response::from_str("{\"id\":1,\"result\":[\"on\"]}").unwrap();
    let p = reply_publication(action, &r).unwrap();
    assert_eq!(p.topic, "smart-home-system/yeelight/power");
    assert_eq!(p.payload, "on");
    assert!(p.retained);
}

#[test]
fn get_brightness_reply_and_error_reply() {
    let r = Response::from_str("{\"id\":1,\"result\":[\"42\"]}").unwrap();
    assert_eq!(reply_publication(ControllerAction::GetBrightness, &r).unwrap().payload, "42");
    let e = Response::from_str("{\"id\":1,\"error\":{\"code\":-1,\"message\":\"x\"}}").unwrap();
    assert!(reply_publication(ControllerAction::GetPower, &e).is_none());
}

#[test]
fn invalid_payload_sends_nothing() {
    let action = decide(MQTT_SET_POWER_TOPIC, "maybe");
    assert_eq!(action, ControllerAction::InvalidPayload);
    assert!(action_method(action).is_none());
    assert_eq!(decide(MQTT_SET_BRIGHTNESS_TOPIC, "bright"), ControllerAction::InvalidPayload);
    assert_eq!(decide("some/other/topic", "on"), ControllerAction::UnknownTopic);
    assert_eq!(decide(MQTT_TOGGLE_TOPIC, "anything"), ControllerAction::Toggle);
}

#[test]
fn power_payload_spellings() {
    for p in ["on", "ON", "True", "1"] {
        assert_eq!(parse_power(p), Some(Power::On));
    }
    for p in ["off", "oFF", "FALSE", "0"] {
        assert_eq!(parse_power(p), Some(Power::Off));
    }
    assert_eq!(parse_power("yes"), None);
    assert_eq!(parse_power(""), None);
}

#[test]
fn brightness_payloads() {
    assert_eq!(parse_brightness("0"), Some(1));
    assert_eq!(parse_brightness("1"), Some(1));
    assert_eq!(parse_brightness("050"), Some(50));
    assert_eq!(parse_brightness("100"), Some(100));
    assert_eq!(parse_brightness("99999999999999999999999"), Some(100));
    assert_eq!(parse_brightness(""), None);
    assert_eq!(parse_brightness("-5"), Some(1));
    assert_eq!(parse_brightness("-99999999999999999999999"), Some(1));
    assert_eq!(parse_brightness("+5"), Some(5));
    assert_eq!(parse_brightness("+300"), Some(100));
    assert_eq!(parse_brightness("-"), None);
    assert_eq!(parse_brightness("+"), None);
    assert_eq!(parse_brightness("--5"), None);
    assert_eq!(parse_brightness("5-"), None);
    assert_eq!(parse_brightness("12a"), None);
}

fn answer(id: &str, model: &str) -> DiscoveryResponse {
    parse(format!("id: {}\r\nmodel: {}\r\nLocation: yeelight://10.0.0.{}:55443\r\n", id, model, id).as_bytes()).unwrap()
}

#[test]
fn filters_pick_the_first_matching_lamp() {
    let found = vec![answer("1", "mono"), answer("2", "color"), answer("3", "color")];
    let any = DeviceFilters { id: None, model: None };
    assert_eq!(select_device(&found, &any), Some(0));
    let color = DeviceFilters { id: None, model: Some("color".to_string()) };
    assert_eq!(select_device(&found, &color), Some(1));
    let three = DeviceFilters { id: Some("3".to_string()), model: Some("color".to_string()) };
    assert_eq!(select_device(&found, &three), Some(2));
    assert!(three.matches(&found[2]));
    let none = DeviceFilters { id: Some("3".to_string()), model: Some("mono".to_string()) };
    assert_eq!(select_device(&found, &none), None);
}

#[test]
fn address_drops_the_scheme() {
    assert_eq!(device_address(&"yeelight://10.0.0.5:55443".to_string()), "10.0.0.5:55443");
    assert_eq!(device_address(&"10.0.0.5:55443".to_string()), "10.0.0.5:55443");
    assert_eq!(device_address(&"yeelight://yeelight://h:1".to_string()), "h:1");
}
