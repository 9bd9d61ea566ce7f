//! The controller's decisions: which lamp to open, what an MQTT message
//! asks of the lamp, and what the lamp's replies and notifications publish.
//!
//! The process around them subscribes, performs the returned actions and
//! publishes the returned messages.

use vstd::prelude::*;
use crate::discovery::{DiscoveryResponse, DiscoveryModel};
use crate::json::JsonValue;
use crate::text::{same_str, chars_of, decimal, decimal_string, parse_bounded, parse_natural, all_digits, is_digit};
use crate::yeelight::{Method, Notification, Power, Response, ResponseResult, power_word, strings_view};

verus! {

pub const MQTT_SET_BRIGHTNESS_TOPIC: &'static str = "smart-home-system/yeelight/brightness/set";
pub const MQTT_GET_BRIGHTNESS_TOPIC: &'static str = "smart-home-system/yeelight/brightness/get";
pub const MQTT_BRIGHTNESS_PUBLISH_TOPIC: &'static str = "smart-home-system/yeelight/brightness";
pub const MQTT_SET_POWER_TOPIC: &'static str = "smart-home-system/yeelight/power/set";
pub const MQTT_GET_POWER_TOPIC: &'static str = "smart-home-system/yeelight/power/get";
pub const MQTT_POWER_PUBLISH_TOPIC: &'static str = "smart-home-system/yeelight/power";
pub const MQTT_TOGGLE_TOPIC: &'static str = "smart-home-system/yeelight/toggle";

/// Seconds between two discovery rounds that found no lamp.
pub const DISCOVERY_RETRY_SECS: u64 = 30;

/// Seconds one discovery round listens for answers.
pub const DISCOVERY_WINDOW_SECS: u64 = 3;

/// Which lamp the controller opens: one whose id, and one whose model,
/// equals the one given, where one is given.
#[derive(Debug, Clone)]
pub struct DeviceFilters {
    pub id: Option<String>,
    pub model: Option<String>,
}

pub open spec fn filter_accepts(f: Option<String>, value: Seq<char>) -> bool {
    match f {
        Some(x) => x@ == value,
        None => true,
    }
}

pub open spec fn filters_match(f: DeviceFilters, d: DiscoveryModel) -> bool {
    filter_accepts(f.id, d.id) && filter_accepts(f.model, d.model)
}

impl DeviceFilters {
    pub fn matches(&self, device: &DiscoveryResponse) -> (r: bool)
        ensures
            r == filters_match(*self, device@),
    {
        let id_ok = match &self.id {
            Some(id) => device.id == *id,
            None => true,
        };
        let model_ok = match &self.model {
            Some(model) => device.model == *model,
            None => true,
        };
        id_ok && model_ok
    }
}

/// The first answer that the filters accept.
pub fn select_device(found: &Vec<DiscoveryResponse>, filters: &DeviceFilters) -> (r: Option<usize>)
    ensures
        match r {
            Some(i) => i < found@.len() && filters_match(*filters, found@[i as int]@) && forall|j: int|
                0 <= j < i ==> !filters_match(*filters, #[trigger] found@[j]@),
            None => forall|j: int| 0 <= j < found@.len() ==> !filters_match(*filters, #[trigger] found@[j]@),
        },
{
    let mut i: usize = 0;
    while i < found.len()
        invariant
            i <= found@.len(),
            forall|j: int| 0 <= j < i ==> !filters_match(*filters, #[trigger] found@[j]@),
        decreases found@.len() - i,
    {
        if filters.matches(&found[i]) {
            return Some(i);
        }
        i = i + 1;
    }
    None
}

/// The scheme that prefixes a lamp's location.
pub open spec fn scheme() -> Seq<char> {
    "yeelight://"@
}

/// A location with every leading copy of the scheme removed.
pub open spec fn trim_scheme(s: Seq<char>) -> Seq<char>
    decreases s.len(),
{
    if s.len() >= scheme().len() && s.take(scheme().len() as int) == scheme() && scheme().len() > 0 {
        trim_scheme(s.skip(scheme().len() as int))
    } else {
        s
    }
}

/// The `host:port` address of a lamp's location `yeelight://host:port`.
pub fn device_address(location: &String) -> (r: String)
    ensures
        r@ == trim_scheme(location@),
{
    let cs = chars_of(location.as_str());
    let sc = chars_of("yeelight://");
    let mut start: usize = 0;
    assert(cs@.skip(0) =~= cs@);
    while sc.len() > 0 && cs.len() - start >= sc.len() && crate::text::range_is(&cs, start, start + sc.len(), &sc)
        invariant
            start <= cs@.len(),
            sc@ == scheme(),
            trim_scheme(cs@) == trim_scheme(cs@.skip(start as int)),
        decreases cs@.len() - start,
    {
        assert(cs@.skip(start as int).take(sc@.len() as int) =~= cs@.subrange(start as int, start + sc@.len()));
        assert(cs@.skip(start as int).skip(sc@.len() as int) =~= cs@.skip(start + sc@.len()));
        start = start + sc.len();
    }
    proof {
        let rest = cs@.skip(start as int);
        if rest.len() >= scheme().len() && scheme().len() > 0 {
            assert(rest.take(sc@.len() as int) =~= cs@.subrange(start as int, start + sc@.len()));
        }
    }
    crate::text::string_of_range(&cs, start, cs.len())
}

/// Whether `a` spells `word` with any of `word`'s lower-case ASCII letters
/// written in upper case.
pub open spec fn same_ignoring_case(a: Seq<char>, word: Seq<char>) -> bool {
    a.len() == word.len() && forall|i: int|
        0 <= i < a.len() ==> (#[trigger] a[i] == word[i] || ('a' <= word[i] <= 'z' && a[i] as u32
            == word[i] as u32 - 32))
}

/// The power state an MQTT payload asks for: `on`, `true` or `1` for on,
/// `off`, `false` or `0` for off, letters in any case.
pub open spec fn power_of_payload(p: Seq<char>) -> Option<Power> {
    if same_ignoring_case(p, "on"@) || same_ignoring_case(p, "true"@) || same_ignoring_case(p, "1"@) {
        Some(Power::On)
    } else if same_ignoring_case(p, "off"@) || same_ignoring_case(p, "false"@) || same_ignoring_case(
        p,
        "0"@,
    ) {
        Some(Power::Off)
    } else {
        None
    }
}

/// The integer a text spells in decimal: an optional `+` or `-`, then one
/// or more digits.
pub open spec fn parse_integer(p: Seq<char>) -> Option<int> {
    if p.len() > 0 && p[0] == '-' {
        match parse_natural(p.skip(1)) {
            Some(n) => Some(-n),
            None => None,
        }
    } else if p.len() > 0 && p[0] == '+' {
        match parse_natural(p.skip(1)) {
            Some(n) => Some(n as int),
            None => None,
        }
    } else {
        match parse_natural(p) {
            Some(n) => Some(n as int),
            None => None,
        }
    }
}

/// `n` clamped to `[1, 100]`.
pub open spec fn clamp_brightness(n: int) -> u8 {
    if n < 1 {
        1u8
    } else if n > 100 {
        100u8
    } else {
        n as u8
    }
}

/// The brightness an MQTT payload asks for: a decimal integer of any sign
/// and size, clamped to `[1, 100]`.
pub open spec fn brightness_of_payload(p: Seq<char>) -> Option<u8> {
    match parse_integer(p) {
        Some(n) => Some(clamp_brightness(n)),
        None => None,
    }
}

fn same_ignoring_case_exec(a: &Vec<char>, word: &str) -> (r: bool)
    ensures
        r == same_ignoring_case(a@, word@),
{
    let w = chars_of(word);
    if a.len() != w.len() {
        return false;
    }
    let mut i: usize = 0;
    while i < a.len()
        invariant
            a@.len() == w@.len(),
            w@ == word@,
            i <= a@.len(),
            forall|j: int|
                0 <= j < i ==> (#[trigger] a@[j] == w@[j] || ('a' <= w@[j] <= 'z' && a@[j] as u32
                    == w@[j] as u32 - 32)),
        decreases a@.len() - i,
    {
        let c = a[i];
        let d = w[i];
        if !(c == d || ('a' <= d && d <= 'z' && (c as u32) == (d as u32) - 32)) {
            return false;
        }
        i = i + 1;
    }
    true
}

/// Reads a power state from an MQTT payload.
pub fn parse_power(payload: &str) -> (r: Option<Power>)
    ensures
        r == power_of_payload(payload@),
{
    let p = chars_of(payload);
    if same_ignoring_case_exec(&p, "on") || same_ignoring_case_exec(&p, "true") || same_ignoring_case_exec(&p, "1") {
        Some(Power::On)
    } else if same_ignoring_case_exec(&p, "off") || same_ignoring_case_exec(&p, "false")
        || same_ignoring_case_exec(&p, "0") {
        Some(Power::Off)
    } else {
        None
    }
}

/// Reads a brightness from an MQTT payload, clamped to `[1, 100]`.
pub fn parse_brightness(payload: &str) -> (r: Option<u8>)
    ensures
        r == brightness_of_payload(payload@),
{
    let mut p = chars_of(payload);
    let negative = p.len() > 0 && p[0] == '-';
    if p.len() > 0 && (p[0] == '-' || p[0] == '+') {
        p.remove(0);
        assert(p@ =~= payload@.skip(1));
    }
    let ghost digits = p@;
    assert(parse_integer(payload@) == match parse_natural(digits) {
        Some(n) => Some(if negative { -(n as int) } else { n as int }),
        None => None::<int>,
    });
    if p.len() == 0 {
        return None;
    }
    let mut i: usize = 0;
    while i < p.len()
        invariant
            i <= p@.len(),
            p@ == digits,
            parse_integer(payload@) == match parse_natural(digits) {
                Some(n) => Some(if negative { -(n as int) } else { n as int }),
                None => None::<int>,
            },
            forall|j: int| 0 <= j < i ==> is_digit(#[trigger] p@[j]),
        decreases p@.len() - i,
    {
        if !('0' <= p[i] && p[i] <= '9') {
            assert(!all_digits(p@)) by {
                assert(!is_digit(p@[i as int]));
            }
            return None;
        }
        i = i + 1;
    }
    if negative {
        return Some(1u8);
    }
    match parse_bounded(&p, 100) {
        Some(v) => Some(if v < 1 { 1u8 } else { v as u8 }),
        None => Some(100u8),
    }
}

/// What an MQTT message asks of the controller.
#[derive(Debug, Clone, Copy, PartialEq, Eq, Structural)]
pub enum ControllerAction {
    SetPower(Power),
    SetBright(u8),
    Toggle,
    GetPower,
    GetBrightness,
    /// The payload does not read as what the topic takes; nothing is sent.
    InvalidPayload,
    UnknownTopic,
}

/// The action for a message on `topic` carrying `payload`.
pub open spec fn action_of(topic: Seq<char>, payload: Seq<char>) -> ControllerAction {
    if topic == MQTT_SET_POWER_TOPIC@ {
        match power_of_payload(payload) {
            Some(p) => ControllerAction::SetPower(p),
            None => ControllerAction::InvalidPayload,
        }
    } else if topic == MQTT_SET_BRIGHTNESS_TOPIC@ {
        match brightness_of_payload(payload) {
            Some(b) => ControllerAction::SetBright(b),
            None => ControllerAction::InvalidPayload,
        }
    } else if topic == MQTT_TOGGLE_TOPIC@ {
        ControllerAction::Toggle
    } else if topic == MQTT_GET_POWER_TOPIC@ {
        ControllerAction::GetPower
    } else if topic == MQTT_GET_BRIGHTNESS_TOPIC@ {
        ControllerAction::GetBrightness
    } else {
        ControllerAction::UnknownTopic
    }
}

/// Decides what a received MQTT message asks for.
pub fn decide(topic: &str, payload: &str) -> (r: ControllerAction)
    ensures
        r == action_of(topic@, payload@),
{
    if same_str(topic, MQTT_SET_POWER_TOPIC) {
        match parse_power(payload) {
            Some(p) => ControllerAction::SetPower(p),
            None => ControllerAction::InvalidPayload,
        }
    } else if same_str(topic, MQTT_SET_BRIGHTNESS_TOPIC) {
        match parse_brightness(payload) {
            Some(b) => ControllerAction::SetBright(b),
            None => ControllerAction::InvalidPayload,
        }
    } else if same_str(topic, MQTT_TOGGLE_TOPIC) {
        ControllerAction::Toggle
    } else if same_str(topic, MQTT_GET_POWER_TOPIC) {
        ControllerAction::GetPower
    } else if same_str(topic, MQTT_GET_BRIGHTNESS_TOPIC) {
        ControllerAction::GetBrightness
    } else {
        ControllerAction::UnknownTopic
    }
}

/// The method an action sends to the lamp, if it sends one.
pub fn action_method(action: ControllerAction) -> (r: Option<Method>)
    ensures
        match action {
            ControllerAction::SetPower(p) => r == Some(Method::SetPower(p)),
            ControllerAction::SetBright(b) => r == Some(Method::SetBright(b)),
            ControllerAction::Toggle => r == Some(Method::Toggle),
            ControllerAction::GetPower => r matches Some(Method::GetProp(ps)) && strings_view(ps@) == seq!["power"@],
            ControllerAction::GetBrightness => r matches Some(Method::GetProp(ps)) && strings_view(ps@) == seq!["bright"@],
            _ => r is None,
        },
{
    match action {
        ControllerAction::SetPower(p) => Some(Method::SetPower(p)),
        ControllerAction::SetBright(b) => Some(Method::SetBright(b)),
        ControllerAction::Toggle => Some(Method::Toggle),
        ControllerAction::GetPower => {
            let ps = vec!["power".to_owned()];
            assert(strings_view(ps@) =~= seq!["power"@]);
            Some(Method::GetProp(ps))
        },
        ControllerAction::GetBrightness => {
            let ps = vec!["bright".to_owned()];
            assert(strings_view(ps@) =~= seq!["bright"@]);
            Some(Method::GetProp(ps))
        },
        _ => None,
    }
}

/// A message to publish on MQTT.
#[derive(Debug, Clone)]
pub struct Publication {
    pub topic: String,
    pub payload: String,
    pub retained: bool,
}

pub struct PublicationModel {
    pub topic: Seq<char>,
    pub payload: Seq<char>,
    pub retained: bool,
}

impl View for Publication {
    type V = PublicationModel;

    open spec fn view(&self) -> PublicationModel {
        PublicationModel { topic: self.topic@, payload: self.payload@, retained: self.retained }
    }
}

/// The retained message that reports a power state.
pub open spec fn power_publication(p: Power) -> PublicationModel {
    PublicationModel { topic: MQTT_POWER_PUBLISH_TOPIC@, payload: power_word(p), retained: true }
}

/// The retained message that reports a brightness.
pub open spec fn brightness_publication(b: nat) -> PublicationModel {
    PublicationModel { topic: MQTT_BRIGHTNESS_PUBLISH_TOPIC@, payload: decimal(b), retained: true }
}

/// A brightness in `[0, 100]` written as a number or as a decimal string.
pub open spec fn lamp_brightness(v: JsonValue) -> Option<nat> {
    match v {
        JsonValue::UInt(u) => if u <= 100 { Some(u as nat) } else { None },
        JsonValue::Str(s) => match parse_natural(s@) {
            Some(n) if n <= 100 => Some(n),
            _ => None,
        },
        _ => None,
    }
}

/// What one notified property publishes: `power` and `bright` are reported,
/// other properties and unreadable values are not.
pub open spec fn property_publications(key: Seq<char>, v: JsonValue) -> Seq<PublicationModel> {
    if key == "power"@ {
        match v {
            JsonValue::Str(s) => match power_of_payload(s@) {
                Some(p) => seq![power_publication(p)],
                None => Seq::empty(),
            },
            _ => Seq::empty(),
        }
    } else if key == "bright"@ {
        match lamp_brightness(v) {
            Some(b) => seq![brightness_publication(b)],
            None => Seq::empty(),
        }
    } else {
        Seq::empty()
    }
}

/// What a notification's properties publish, in their order.
pub open spec fn notification_publications(ps: Seq<(String, JsonValue)>) -> Seq<PublicationModel>
    decreases ps.len(),
{
    if ps.len() == 0 {
        Seq::empty()
    } else {
        notification_publications(ps.drop_last()) + property_publications(ps.last().0@, ps.last().1)
    }
}

pub open spec fn publication_models(v: Seq<Publication>) -> Seq<PublicationModel> {
    v.map_values(|p: Publication| p@)
}

fn publish_power(p: Power) -> (r: Publication)
    ensures
        r@ == power_publication(p),
{
    Publication { topic: MQTT_POWER_PUBLISH_TOPIC.to_owned(), payload: p.to_string(), retained: true }
}

fn publish_brightness(b: u64) -> (r: Publication)
    ensures
        r@ == brightness_publication(b as nat),
{
    Publication { topic: MQTT_BRIGHTNESS_PUBLISH_TOPIC.to_owned(), payload: decimal_string(b), retained: true }
}

fn brightness_from(v: &JsonValue) -> (r: Option<u64>)
    ensures
        match r {
            Some(b) => lamp_brightness(*v) == Some(b as nat),
            None => lamp_brightness(*v) is None,
        },
{
    match v {
        JsonValue::UInt(u) => if *u <= 100 { Some(*u) } else { None },
        JsonValue::Str(s) => {
            let cs = chars_of(s.as_str());
            parse_bounded(&cs, 100)
        },
        _ => None,
    }
}

fn property_publication(key: &String, v: &JsonValue) -> (r: Option<Publication>)
    ensures
        match r {
            Some(p) => property_publications(key@, *v) == seq![p@],
            None => property_publications(key@, *v) == Seq::<PublicationModel>::empty(),
        },
{
    if same_str(key.as_str(), "power") {
        match v {
            JsonValue::Str(s) => match parse_power(s.as_str()) {
                Some(p) => Some(publish_power(p)),
                None => None,
            },
            _ => None,
        }
    } else if same_str(key.as_str(), "bright") {
        match brightness_from(v) {
            Some(b) => Some(publish_brightness(b)),
            None => None,
        }
    } else {
        None
    }
}

impl Notification {
    /// The retained messages that report what the notification changed.
    pub fn publications(&self) -> (r: Vec<Publication>)
        ensures
            publication_models(r@) == notification_publications(self.params@),
    {
        let mut out: Vec<Publication> = Vec::new();
        let mut i: usize = 0;
        assert(self.params@.take(0) =~= Seq::<(String, JsonValue)>::empty());
        assert(publication_models(out@) =~= Seq::<PublicationModel>::empty());
        while i < self.params.len()
            invariant
                i <= self.params@.len(),
                publication_models(out@) == notification_publications(self.params@.take(i as int)),
            decreases self.params@.len() - i,
        {
            let ghost before = out@;
            assert(self.params@.take(i + 1).drop_last() =~= self.params@.take(i as int));
            assert(self.params@.take(i + 1).last() == self.params@[i as int]);
            match property_publication(&self.params[i].0, &self.params[i].1) {
                Some(p) => {
                    out.push(p);
                    assert(publication_models(out@) =~= publication_models(before) + seq![p@]);
                },
                None => {
                    assert(publication_models(out@) =~= publication_models(before) + Seq::<PublicationModel>::empty());
                },
            }
            i = i + 1;
        }
        assert(self.params@.take(i as int) =~= self.params@);
        out
    }
}

/// What the reply to a query publishes: the first value of a successful
/// reply, when it reads as the queried property; nothing otherwise.
pub open spec fn reply_publication_spec(action: ControllerAction, resp: Response) -> Option<PublicationModel> {
    match resp.result {
        ResponseResult::Success(vals) => if vals@.len() > 0 {
            match action {
                ControllerAction::GetPower => match power_of_payload(vals@[0]@) {
                    Some(p) => Some(power_publication(p)),
                    None => None,
                },
                ControllerAction::GetBrightness => match parse_natural(vals@[0]@) {
                    Some(b) if b <= 100 => Some(brightness_publication(b)),
                    _ => None,
                },
                _ => None,
            }
        } else {
            None
        },
        ResponseResult::Error { .. } => None,
    }
}

/// The message that republishes the answer to a query.
pub fn reply_publication(action: ControllerAction, resp: &Response) -> (r: Option<Publication>)
    ensures
        match r {
            Some(p) => reply_publication_spec(action, *resp) == Some(p@),
            None => reply_publication_spec(action, *resp) is None,
        },
{
    match &resp.result {
        ResponseResult::Success(vals) => if vals.len() > 0 {
            match action {
                ControllerAction::GetPower => match parse_power(vals[0].as_str()) {
                    Some(p) => Some(publish_power(p)),
                    None => None,
                },
                ControllerAction::GetBrightness => {
                    let cs = chars_of(vals[0].as_str());
                    match parse_bounded(&cs, 100) {
                        Some(b) => Some(publish_brightness(b)),
                        None => None,
                    }
                },
                _ => None,
            }
        } else {
            None
        },
        ResponseResult::Error { .. } => None,
    }
}

} // verus!
