//! The HomeKit side: the lamp's state as HomeKit sees it, what a HomeKit
//! write publishes, what an MQTT report changes, and the table that routes
//! MQTT messages by topic.

use vstd::prelude::*;
use std::marker::PhantomData;
use crate::controller::{Publication, PublicationModel, power_of_payload};
use crate::text::{chars_of, decimal, decimal_string, parse_bounded, parse_natural};

verus! {

pub const MQTT_POWER_TOPIC: &'static str = "smart-home-system/yeelight/power";
pub const MQTT_POWER_SET_TOPIC: &'static str = "smart-home-system/yeelight/power/set";
pub const MQTT_BRIGHTNESS_TOPIC: &'static str = "smart-home-system/yeelight/brightness";
pub const MQTT_BRIGHTNESS_SET_TOPIC: &'static str = "smart-home-system/yeelight/brightness/set";

/// Seconds a `get` waits for its reply.
pub const GET_TIMEOUT_SECS: u64 = 5;

/// The HomeKit power characteristic: lit or not.
#[derive(Debug, Clone, Copy, PartialEq, Eq, Structural)]
pub struct Power(pub bool);

/// The HomeKit brightness characteristic.
#[derive(Debug, Clone, Copy, PartialEq, Eq, Structural)]
pub struct Brightness(pub u8);

/// Why an MQTT payload was not taken.
#[derive(Debug, Clone, Copy, PartialEq, Eq, Structural)]
pub enum BridgeError {
    InvalidPower,
    InvalidBrightness,
}

/// The power word published for a state.
pub open spec fn power_text(p: Power) -> Seq<char> {
    if p.0 { "on"@ } else { "off"@ }
}

/// The power state an MQTT payload reports.
pub open spec fn power_of_text(s: Seq<char>) -> Option<Power> {
    match power_of_payload(s) {
        Some(crate::yeelight::Power::On) => Some(Power(true)),
        Some(crate::yeelight::Power::Off) => Some(Power(false)),
        None => None,
    }
}

/// The brightness an MQTT payload reports: a decimal byte.
pub open spec fn brightness_of_text(s: Seq<char>) -> Option<Brightness> {
    match parse_natural(s) {
        Some(n) if n <= 255 => Some(Brightness(n as u8)),
        _ => None,
    }
}

impl Power {
    pub fn from_str(s: &str) -> (r: Result<Power, BridgeError>)
        ensures
            match power_of_text(s@) {
                Some(p) => r == Ok::<Power, BridgeError>(p),
                None => r == Err::<Power, BridgeError>(BridgeError::InvalidPower),
            },
    {
        match crate::controller::parse_power(s) {
            Some(crate::yeelight::Power::On) => Ok(Power(true)),
            Some(crate::yeelight::Power::Off) => Ok(Power(false)),
            None => Err(BridgeError::InvalidPower),
        }
    }

    pub fn to_string(&self) -> (r: String)
        ensures
            r@ == power_text(*self),
    {
        if self.0 {
            "on".to_owned()
        } else {
            "off".to_owned()
        }
    }
}

impl Brightness {
    pub fn from_str(s: &str) -> (r: Result<Brightness, BridgeError>)
        ensures
            match brightness_of_text(s@) {
                Some(b) => r == Ok::<Brightness, BridgeError>(b),
                None => r == Err::<Brightness, BridgeError>(BridgeError::InvalidBrightness),
            },
    {
        let cs = chars_of(s);
        match parse_bounded(&cs, 255) {
            Some(n) => Ok(Brightness(n as u8)),
            None => Err(BridgeError::InvalidBrightness),
        }
    }

    pub fn to_string(&self) -> (r: String)
        ensures
            r@ == decimal(self.0 as nat),
    {
        decimal_string(self.0 as u64)
    }
}

/// A named device with the state `device`, for the accessory kind `H`.
pub struct InnerDevice<T, H> {
    pub name: String,
    pub device: T,
    pub h: PhantomData<H>,
}

impl<T, H> InnerDevice<T, H> {
    pub fn new(name: String, device: T) -> (r: InnerDevice<T, H>)
        ensures
            r.name == name,
            r.device == device,
    {
        InnerDevice { name, device, h: PhantomData }
    }
}

/// What HomeKit knows of the lamp.
#[derive(Debug, Clone, Copy, PartialEq, Eq, Structural)]
pub struct YeelightLightbulb {
    pub power_state: Power,
    pub brightness: Brightness,
}

impl YeelightLightbulb {
    /// A lamp that is off, at brightness 0.
    pub fn new() -> (r: YeelightLightbulb)
        ensures
            r.power_state == Power(false),
            r.brightness == Brightness(0),
    {
        YeelightLightbulb { power_state: Power(false), brightness: Brightness(0) }
    }

    /// A HomeKit write of the power state: kept, and asked of the
    /// controller on `.../power/set`.
    pub fn set_power(&mut self, value: Power) -> (r: Publication)
        ensures
            final(self).power_state == value,
            final(self).brightness == old(self).brightness,
            r@ == (PublicationModel { topic: MQTT_POWER_SET_TOPIC@, payload: power_text(value), retained: false }),
    {
        self.power_state = value;
        Publication { topic: MQTT_POWER_SET_TOPIC.to_owned(), payload: value.to_string(), retained: false }
    }

    /// A HomeKit write of the brightness: kept, and asked of the controller
    /// on `.../brightness/set`.
    pub fn set_brightness(&mut self, value: Brightness) -> (r: Publication)
        ensures
            final(self).brightness == value,
            final(self).power_state == old(self).power_state,
            r@ == (PublicationModel {
                topic: MQTT_BRIGHTNESS_SET_TOPIC@,
                payload: decimal(value.0 as nat),
                retained: false,
            }),
    {
        self.brightness = value;
        Publication { topic: MQTT_BRIGHTNESS_SET_TOPIC.to_owned(), payload: value.to_string(), retained: false }
    }

    /// A power report from the controller: taken when it reads as a power
    /// state, and otherwise refused with the state left as it was.
    pub fn apply_power_report(&mut self, payload: &str) -> (r: Result<Power, BridgeError>)
        ensures
            final(self).brightness == old(self).brightness,
            match power_of_text(payload@) {
                Some(p) => r == Ok::<Power, BridgeError>(p) && final(self).power_state == p,
                None => r == Err::<Power, BridgeError>(BridgeError::InvalidPower) && final(self).power_state
                    == old(self).power_state,
            },
    {
        let p = Power::from_str(payload)?;
        self.power_state = p;
        Ok(p)
    }

    /// A brightness report from the controller: taken when it reads as a
    /// byte, and otherwise refused with the state left as it was.
    pub fn apply_brightness_report(&mut self, payload: &str) -> (r: Result<Brightness, BridgeError>)
        ensures
            final(self).power_state == old(self).power_state,
            match brightness_of_text(payload@) {
                Some(b) => r == Ok::<Brightness, BridgeError>(b) && final(self).brightness == b,
                None => r == Err::<Brightness, BridgeError>(BridgeError::InvalidBrightness)
                    && final(self).brightness == old(self).brightness,
            },
    {
        let b = Brightness::from_str(payload)?;
        self.brightness = b;
        Ok(b)
    }
}

/// Values kept by MQTT topic, at most one per topic: the callbacks of the
/// subscribed topics, or the awaiters of outstanding `get`s by reply topic.
pub struct TopicTable<T> {
    entries: Vec<(String, T)>,
}

impl<T> TopicTable<T> {
    pub closed spec fn has_at(&self, i: int, topic: Seq<char>) -> bool {
        0 <= i < self.entries@.len() && self.entries@[i].0@ == topic
    }

    /// The value kept for `topic`.
    pub closed spec fn lookup(&self, topic: Seq<char>) -> Option<T> {
        if exists|i: int| self.has_at(i, topic) {
            Some(self.entries@[choose|i: int| self.has_at(i, topic)].1)
        } else {
            None
        }
    }

    /// The number of topics that hold a value.
    pub closed spec fn size(&self) -> nat {
        self.entries@.len()
    }

    pub closed spec fn wf(&self) -> bool {
        forall|i: int, j: int|
            0 <= i < self.entries@.len() && 0 <= j < self.entries@.len() && i != j ==> #[trigger] self.entries@[i].0@
                != #[trigger] self.entries@[j].0@
    }

    pub fn new() -> (r: TopicTable<T>)
        ensures
            r.wf(),
            r.size() == 0,
            forall|t: Seq<char>| #[trigger] r.lookup(t) is None,
    {
        TopicTable { entries: Vec::new() }
    }

    fn position(&self, topic: &str) -> (r: Option<usize>)
        requires
            self.wf(),
        ensures
            match r {
                Some(i) => self.has_at(i as int, topic@) && self.lookup(topic@) == Some(self.entries@[i as int].1),
                None => self.lookup(topic@) is None,
            },
    {
        let key = topic.to_owned();
        let mut i: usize = 0;
        while i < self.entries.len()
            invariant
                i <= self.entries@.len(),
                key@ == topic@,
                self.wf(),
                forall|j: int| 0 <= j < i ==> !self.has_at(j, topic@),
            decreases self.entries@.len() - i,
        {
            if self.entries[i].0 == key {
                assert(self.has_at(i as int, topic@));
                let ghost c = choose|j: int| self.has_at(j, topic@);
                proof {
                    if c != i as int {
                        assert(self.entries@[c].0@ == self.entries@[i as int].0@);
                    }
                }
                return Some(i);
            }
            i = i + 1;
        }
        None
    }

    /// The value kept for `topic`, if any.
    pub fn get(&self, topic: &str) -> (r: Option<&T>)
        requires
            self.wf(),
        ensures
            match r {
                Some(v) => self.lookup(topic@) == Some(*v),
                None => self.lookup(topic@) is None,
            },
    {
        match self.position(topic) {
            Some(i) => Some(&self.entries[i].1),
            None => None,
        }
    }

    /// Removes and returns the value kept for `topic`.
    pub fn take(&mut self, topic: &str) -> (r: Option<T>)
        requires
            old(self).wf(),
        ensures
            final(self).wf(),
            r == old(self).lookup(topic@),
            final(self).lookup(topic@) is None,
            forall|t: Seq<char>| t != topic@ ==> #[trigger] final(self).lookup(t) == old(self).lookup(t),
    {
        match self.position(topic) {
            Some(i) => {
                let ghost before = *self;
                let (_, v) = self.entries.remove(i);
                proof {
                    self.lemma_after_remove(before, i as int, topic@);
                }
                Some(v)
            },
            None => None,
        }
    }

    proof fn lemma_after_remove(&self, before: TopicTable<T>, i: int, topic: Seq<char>)
        requires
            before.wf(),
            before.has_at(i, topic),
            self.entries@ == before.entries@.remove(i),
        ensures
            self.wf(),
            self.lookup(topic) is None,
            forall|t: Seq<char>| t != topic ==> #[trigger] self.lookup(t) == before.lookup(t),
    {
        let e = before.entries@;
        assert forall|a: int, b: int|
            0 <= a < self.entries@.len() && 0 <= b < self.entries@.len() && a != b implies #[trigger] self.entries@[a].0@
                != #[trigger] self.entries@[b].0@ by {
            let a2 = if a < i { a } else { a + 1 };
            let b2 = if b < i { b } else { b + 1 };
            assert(self.entries@[a] == e[a2]);
            assert(self.entries@[b] == e[b2]);
        }
        if exists|j: int| self.has_at(j, topic) {
            let j = choose|j: int| self.has_at(j, topic);
            let j2 = if j < i { j } else { j + 1 };
            assert(self.entries@[j] == e[j2]);
        }
        assert forall|t: Seq<char>| t != topic implies #[trigger] self.lookup(t) == before.lookup(t) by {
            if exists|j: int| self.has_at(j, t) {
                let j = choose|j: int| self.has_at(j, t);
                let j2 = if j < i { j } else { j + 1 };
                assert(self.entries@[j] == e[j2]);
                assert(before.has_at(j2, t));
                let c = choose|c: int| before.has_at(c, t);
                assert(c == j2);
            }
            if exists|j: int| before.has_at(j, t) {
                let j = choose|j: int| before.has_at(j, t);
                assert(j != i);
                let j1 = if j < i { j } else { j - 1 };
                assert(self.entries@[j1] == e[j]);
                assert(self.has_at(j1, t));
            }
        }
    }

    /// Keeps `value` for `topic`, in place of what was kept for it.
    pub fn insert(&mut self, topic: String, value: T) -> (r: Option<T>)
        requires
            old(self).wf(),
        ensures
            final(self).wf(),
            r == old(self).lookup(topic@),
            final(self).lookup(topic@) == Some(value),
            forall|t: Seq<char>| t != topic@ ==> #[trigger] final(self).lookup(t) == old(self).lookup(t),
    {
        let previous = self.take(topic.as_str());
        let ghost mid = *self;
        let ghost tv = topic@;
        self.entries.push((topic, value));
        proof {
            let n = mid.entries@.len() as int;
            assert(self.entries@[n].0@ == tv);
            assert forall|a: int, b: int|
                0 <= a < self.entries@.len() && 0 <= b < self.entries@.len() && a != b implies #[trigger] self.entries@[a].0@
                    != #[trigger] self.entries@[b].0@ by {
                if a < n && b < n {
                    assert(self.entries@[a] == mid.entries@[a]);
                    assert(self.entries@[b] == mid.entries@[b]);
                } else if a < n {
                    assert(self.entries@[a] == mid.entries@[a]);
                    assert(!mid.has_at(a, tv));
                } else if b < n {
                    assert(self.entries@[b] == mid.entries@[b]);
                    assert(!mid.has_at(b, tv));
                }
            }
            assert(self.has_at(n, tv));
            let c = choose|c: int| self.has_at(c, tv);
            if c < n {
                assert(self.entries@[c] == mid.entries@[c]);
                assert(mid.has_at(c, tv));
            }
            assert forall|t: Seq<char>| t != tv implies #[trigger] self.lookup(t) == mid.lookup(t) by {
                if exists|j: int| self.has_at(j, t) {
                    let j = choose|j: int| self.has_at(j, t);
                    assert(j < n);
                    assert(self.entries@[j] == mid.entries@[j]);
                    assert(mid.has_at(j, t));
                    let c2 = choose|c2: int| mid.has_at(c2, t);
                    assert(self.entries@[c2] == mid.entries@[c2]);
                    assert(self.has_at(c2, t));
                }
                if exists|j: int| mid.has_at(j, t) {
                    let j = choose|j: int| mid.has_at(j, t);
                    assert(self.entries@[j] == mid.entries@[j]);
                    assert(self.has_at(j, t));
                }
            }
        }
        previous
    }
}

/// Where an inbound MQTT message goes.
pub enum Inbound<G> {
    /// To the awaiter of the outstanding `get` whose reply topic it is.
    Reply(G),
    /// To the callback subscribed to its topic.
    Subscriber,
    /// Nowhere.
    Unhandled,
}

/// The bridge's MQTT routing: the awaiters of outstanding `get`s by reply
/// topic, and the subscribed callbacks by topic.
pub struct MqttRoutes<G, C> {
    pub gets: TopicTable<G>,
    pub callbacks: TopicTable<C>,
}

impl<G, C> MqttRoutes<G, C> {
    pub open spec fn wf(&self) -> bool {
        self.gets.wf() && self.callbacks.wf()
    }

    pub fn new() -> (r: MqttRoutes<G, C>)
        ensures
            r.wf(),
            forall|t: Seq<char>| #[trigger] r.gets.lookup(t) is None,
            forall|t: Seq<char>| #[trigger] r.callbacks.lookup(t) is None,
    {
        MqttRoutes { gets: TopicTable::new(), callbacks: TopicTable::new() }
    }

    /// Starts a `get`: its awaiter waits on `reply_topic`, in place of any
    /// earlier one, which is handed back; the returned message, an empty
    /// payload on `get_topic`, asks for the reply.
    pub fn request_get(&mut self, get_topic: &str, reply_topic: String, awaiter: G) -> (r: (Publication, Option<G>))
        requires
            old(self).wf(),
        ensures
            final(self).wf(),
            r.0@ == (PublicationModel { topic: get_topic@, payload: Seq::empty(), retained: false }),
            r.1 == old(self).gets.lookup(reply_topic@),
            final(self).gets.lookup(reply_topic@) == Some(awaiter),
            forall|t: Seq<char>| t != reply_topic@ ==> #[trigger] final(self).gets.lookup(t) == old(self).gets.lookup(t),
            final(self).callbacks == old(self).callbacks,
    {
        let replaced = self.gets.insert(reply_topic, awaiter);
        (Publication { topic: get_topic.to_owned(), payload: String::new(), retained: false }, replaced)
    }

    /// Ends a `get` whose timer fired: its awaiter leaves the table.
    pub fn expire_get(&mut self, reply_topic: &str) -> (r: Option<G>)
        requires
            old(self).wf(),
        ensures
            final(self).wf(),
            r == old(self).gets.lookup(reply_topic@),
            final(self).gets.lookup(reply_topic@) is None,
            forall|t: Seq<char>| t != reply_topic@ ==> #[trigger] final(self).gets.lookup(t) == old(self).gets.lookup(t),
            final(self).callbacks == old(self).callbacks,
    {
        self.gets.take(reply_topic)
    }

    /// Routes an inbound message on `topic`: an outstanding `get` waiting on
    /// it takes it, and leaves; otherwise a subscribed callback does.
    pub fn on_message(&mut self, topic: &str) -> (r: Inbound<G>)
        requires
            old(self).wf(),
        ensures
            final(self).wf(),
            final(self).callbacks == old(self).callbacks,
            forall|t: Seq<char>| t != topic@ ==> #[trigger] final(self).gets.lookup(t) == old(self).gets.lookup(t),
            final(self).gets.lookup(topic@) is None,
            match old(self).gets.lookup(topic@) {
                Some(g) => r == Inbound::Reply(g),
                None => if old(self).callbacks.lookup(topic@) is Some {
                    r == Inbound::<G>::Subscriber
                } else {
                    r == Inbound::<G>::Unhandled
                },
            },
    {
        match self.gets.take(topic) {
            Some(g) => Inbound::Reply(g),
            None => if self.callbacks.get(topic).is_some() {
                Inbound::Subscriber
            } else {
                Inbound::Unhandled
            },
        }
    }
}

/// What the controller publishes as the lamp's state, the bridge reads
/// back as that state.
pub proof fn lemma_reports_read_back(p: crate::yeelight::Power, b: nat)
    requires
        b <= 100,
    ensures
        power_of_text(crate::controller::power_publication(p).payload) == Some(
            Power(p == crate::yeelight::Power::On),
        ),
        brightness_of_text(crate::controller::brightness_publication(b).payload) == Some(Brightness(b as u8)),
{
    crate::text::lemma_decimal_parses(b);
    reveal_strlit("on");
    reveal_strlit("off");
    reveal_strlit("true");
    reveal_strlit("false");
    reveal_strlit("1");
    reveal_strlit("0");
    let w = crate::yeelight::power_word(p);
    assert("on"@.len() == 2 && "off"@.len() == 3 && "true"@.len() == 4 && "false"@.len() == 5);
    assert("1"@.len() == 1 && "0"@.len() == 1);
    if p == crate::yeelight::Power::On {
        assert(crate::controller::same_ignoring_case(w, "on"@));
    } else {
        assert(crate::controller::same_ignoring_case(w, "off"@));
        assert(!crate::controller::same_ignoring_case(w, "on"@)) by {
            assert(w.len() != "on"@.len());
        }
        assert(!crate::controller::same_ignoring_case(w, "1"@)) by {
            assert(w.len() != "1"@.len());
        }
        assert(!crate::controller::same_ignoring_case(w, "true"@)) by {
            assert(w.len() != "true"@.len());
        }
    }
}

} // verus!
