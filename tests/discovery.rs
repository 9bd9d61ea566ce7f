use yeelight_bridge::discovery::{parse, record_response, take_datagram, DiscoveryError, DiscoveryResponse};

#[test]
fn discovery_answer_is_parsed() {
    let datagram = b"HTTP/1.1 200 OK\r\nLocation: yeelight://10.0.0.5:55443\r\nid: 0x1\r\nmodel: color\r\n";
    let d = parse(datagram).unwrap();
    assert_eq!(d.model, "color");
    assert_eq!(d.id, "0x1");
    assert_eq!(d.location, "yeelight://10.0.0.5:55443");
}

#[test]
fn discovery_parse_plain_newlines_and_last_value_wins() {
    let d = parse(b"model: a\nid: 1\nLocation: x\nmodel: b").unwrap();
    assert_eq!(d.model, "b");
    assert_eq!(d.id, "1");
    assert_eq!(d.location, "x");
}

#[test]
fn discovery_parse_errors() {
    assert_eq!(parse(b"id: 1\nLocation: x\n").unwrap_err(), DiscoveryError::MissingModel);
    assert_eq!(parse(b"model: m\nLocation: x\n").unwrap_err(), DiscoveryError::MissingId);
    assert_eq!(parse(b"model: m\nid: 1\n").unwrap_err(), DiscoveryError::MissingLocation);
    assert_eq!(parse(&[0xff, 0xfe]).unwrap_err(), DiscoveryError::NotUtf8);
    assert_eq!(parse(b"model:m\nid: 1\nLocation: x").unwrap_err(), DiscoveryError::MissingModel);
}

#[test]
fn same_answer_twice_is_kept_once() {
    let datagram = b"HTTP/1.1 200 OK\r\nLocation: yeelight://10.0.0.5:55443\r\nid: 0x1\r\nmodel: color\r\n";
    let mut list: Vec<DiscoveryResponse> = Vec::new();
    assert!(record_response(&mut list, parse(datagram).unwrap()));
    assert!(!record_response(&mut list, parse(datagram).unwrap()));
    assert_eq!(list.len(), 1);
    let other = parse(b"Location: yeelight://10.0.0.6:55443\r\nid: 0x2\r\nmodel: color\r\n").unwrap();
    assert!(record_response(&mut list, other));
    assert_eq!(list.len(), 2);
    assert_eq!(list[1].id, "0x2");
}

#[test]
fn datagrams_are_taken_once() {
    let datagram = b"HTTP/1.1 200 OK\r\nLocation: yeelight://10.0.0.5:55443\r\nid: 0x1\r\nmodel: color\r\n";
    let mut list: Vec<DiscoveryResponse> = Vec::new();
    assert_eq!(take_datagram(&mut list, datagram), Ok(true));
    assert_eq!(take_datagram(&mut list, datagram), Ok(false));
    assert_eq!(take_datagram(&mut list, b"HTTP/1.1 200 OK\r\n"), Err(DiscoveryError::MissingModel));
    assert_eq!(list.len(), 1);
}
