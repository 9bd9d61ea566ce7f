use yeelight_bridge::bridge::{BridgeError, Brightness, Inbound, InnerDevice, MqttRoutes, Power, TopicTable, YeelightLightbulb};

#[test]
fn power_reads_and_writes() {
    assert_eq!(Power::from_str("on"), Ok(Power(true)));
    assert_eq!(Power::from_str("true"), Ok(Power(true)));
    assert_eq!(Power::from_str("0"), Ok(Power(false)));
    assert_eq!(Power::from_str("nope"), Err(BridgeError::InvalidPower));
    assert_eq!(Power(true).to_string(), "on");
    assert_eq!(Power(false).to_string(), "off");
}

#[test]
fn brightness_reads_and_writes() {
    assert_eq!(Brightness::from_str("255"), Ok(Brightness(255)));
    assert_eq!(Brightness::from_str("256"), Err(BridgeError::InvalidBrightness));
    assert_eq!(Brightness::from_str("x"), Err(BridgeError::InvalidBrightness));
    assert_eq!(Brightness(42).to_string(), "42");
    assert_eq!(Brightness(0).to_string(), "0");
}

#[test]
fn homekit_writes_publish_set_requests() {
    let mut bulb = YeelightLightbulb::new();
    assert_eq!(bulb.power_state, Power(false));
    let p = bulb.set_power(Power(true));
    assert_eq!(p.topic, "smart-home-system/yeelight/power/set");
    assert_eq!(p.payload, "on");
    assert!(!p.retained);
    let b = bulb.set_brightness(Brightness(70));
    assert_eq!(b.topic, "smart-home-system/yeelight/brightness/set");
    assert_eq!(b.payload, "70");
    assert_eq!(bulb.power_state, Power(true));
    assert_eq!(bulb.brightness, Brightness(70));
}

#[test]
fn reports_update_the_state() {
    let mut bulb = YeelightLightbulb::new();
    assert_eq!(bulb.apply_power_report("on"), Ok(Power(true)));
    assert_eq!(bulb.apply_brightness_report("33"), Ok(Brightness(33)));
    assert_eq!(bulb.apply_power_report("blah"), Err(BridgeError::InvalidPower));
    assert_eq!(bulb.apply_brightness_report("-1"), Err(BridgeError::InvalidBrightness));
    assert_eq!(bulb.power_state, Power(true));
    assert_eq!(bulb.brightness, Brightness(33));
}

#[test]
fn inner_device_keeps_name_and_state() {
    let d: InnerDevice<YeelightLightbulb, ()> = InnerDevice::new("yeelight".to_string(), YeelightLightbulb::new());
    assert_eq!(d.name, "yeelight");
    assert_eq!(d.device.brightness, Brightness(0));
}

#[test]
fn topic_table_keeps_one_value_per_topic() {
    let mut t: TopicTable<u32> = TopicTable::new();
    assert_eq!(t.insert("a".to_string(), 1), None);
    assert_eq!(t.insert("b".to_string(), 2), None);
    assert_eq!(t.insert("a".to_string(), 3), Some(1));
    assert_eq!(t.get("a"), Some(&3));
    assert_eq!(t.take("a"), Some(3));
    assert_eq!(t.take("a"), None);
    assert_eq!(t.get("b"), Some(&2));
    assert_eq!(t.get("c"), None);
}

#[test]
fn get_reply_goes_to_the_awaiter_before_any_subscriber() {
    let mut r: MqttRoutes<u32, &str> = MqttRoutes::new();
    r.callbacks.insert("t/power".to_string(), "callback");
    let (request, replaced) = r.request_get("t/power/get", "t/power".to_string(), 1);
    assert_eq!(request.topic, "t/power/get");
    assert_eq!(request.payload, "");
    assert!(!request.retained);
    assert_eq!(replaced, None);
    let (_, replaced) = r.request_get("t/power/get", "t/power".to_string(), 2);
    assert_eq!(replaced, Some(1));
    assert!(matches!(r.on_message("t/power"), Inbound::Reply(2)));
    assert!(matches!(r.on_message("t/power"), Inbound::Subscriber));
    assert!(matches!(r.on_message("t/other"), Inbound::Unhandled));
}

#[test]
fn expired_get_leaves_the_table() {
    let mut r: MqttRoutes<u32, ()> = MqttRoutes::new();
    r.request_get("x/get", "x".to_string(), 9);
    assert_eq!(r.expire_get("x"), Some(9));
    assert_eq!(r.expire_get("x"), None);
    assert!(matches!(r.on_message("x"), Inbound::Unhandled));
}
