//! A verified core for driving a Yeelight lamp over its LAN protocol and
//! relaying its state on MQTT.

pub mod bridge;
pub mod controller;
pub mod discovery;
pub mod json;
pub mod session;
pub mod text;
pub mod yeelight;
