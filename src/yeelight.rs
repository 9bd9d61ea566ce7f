//! The Yeelight LAN wire protocol: commands sent to the lamp, and the
//! replies and notifications it sends back, one JSON object per line.

use vstd::prelude::*;
use crate::json::{JsonValue, member, member_index, find_member, parse_json, json_text, json_of_text, text_of_json};
use crate::json::lemma_member_index_bounds;
use crate::text::same_str;

verus! {

/// Whether the lamp is lit.
#[derive(Debug, Clone, Copy, PartialEq, Eq, Structural)]
pub enum Power {
    On,
    Off,
}

/// A method invocation on the lamp, with its parameters.
#[derive(Debug)]
pub enum Method {
    GetProp(Vec<String>),
    SetBright(u8),
    SetPower(Power),
    Toggle,
}

/// A method as a mathematical value.
pub enum MethodModel {
    GetProp(Seq<Seq<char>>),
    SetBright(u8),
    SetPower(Power),
    Toggle,
}

/// One outgoing invocation, numbered by its session.
#[derive(Debug)]
pub struct Command {
    pub id: u64,
    pub method: Method,
}

pub struct CommandModel {
    pub id: u64,
    pub method: MethodModel,
}

/// The outcome carried by a reply.
#[derive(Debug, Clone, PartialEq)]
pub enum ResponseResult {
    Success(Vec<String>),
    Error { code: i64, message: String },
}

pub enum ResultModel {
    Success(Seq<Seq<char>>),
    Error { code: i64, message: Seq<char> },
}

/// A reply of the lamp to the command with the same `id`.
#[derive(Debug, Clone)]
pub struct Response {
    pub id: u64,
    pub result: ResponseResult,
}

pub struct ResponseModel {
    pub id: u64,
    pub result: ResultModel,
}

/// A change of state that the lamp reports on its own.
#[derive(Debug)]
pub struct Notification {
    pub method: String,
    pub params: Vec<(String, JsonValue)>,
}

pub struct NotificationModel {
    pub method: Seq<char>,
    pub params: Seq<(String, JsonValue)>,
}

/// One line received from the lamp.
#[derive(Debug)]
pub enum YeelightMessage {
    Response(Response),
    Notification(Notification),
}

pub enum MessageModel {
    Response(ResponseModel),
    Notification(NotificationModel),
}

/// Why a received text was not a message of the expected kind.
#[derive(Debug, Clone, Copy, PartialEq, Eq, Structural)]
pub enum DecodeError {
    NotJson,
    WrongShape,
}

pub open spec fn strings_view(v: Seq<String>) -> Seq<Seq<char>> {
    v.map_values(|s: String| s@)
}

impl View for Method {
    type V = MethodModel;

    open spec fn view(&self) -> MethodModel {
        match self {
            Method::GetProp(ps) => MethodModel::GetProp(strings_view(ps@)),
            Method::SetBright(b) => MethodModel::SetBright(*b),
            Method::SetPower(p) => MethodModel::SetPower(*p),
            Method::Toggle => MethodModel::Toggle,
        }
    }
}

impl View for Command {
    type V = CommandModel;

    open spec fn view(&self) -> CommandModel {
        CommandModel { id: self.id, method: self.method@ }
    }
}

impl View for ResponseResult {
    type V = ResultModel;

    open spec fn view(&self) -> ResultModel {
        match self {
            ResponseResult::Success(v) => ResultModel::Success(strings_view(v@)),
            ResponseResult::Error { code, message } => ResultModel::Error { code: *code, message: message@ },
        }
    }
}

impl View for Response {
    type V = ResponseModel;

    open spec fn view(&self) -> ResponseModel {
        ResponseModel { id: self.id, result: self.result@ }
    }
}

impl View for Notification {
    type V = NotificationModel;

    open spec fn view(&self) -> NotificationModel {
        NotificationModel { method: self.method@, params: self.params@ }
    }
}

impl View for YeelightMessage {
    type V = MessageModel;

    open spec fn view(&self) -> MessageModel {
        match self {
            YeelightMessage::Response(r) => MessageModel::Response(r@),
            YeelightMessage::Notification(n) => MessageModel::Notification(n@),
        }
    }
}

/// The word a power state is written as on the wire.
pub open spec fn power_word(p: Power) -> Seq<char> {
    match p {
        Power::On => "on"@,
        Power::Off => "off"@,
    }
}

/// The wire name of a method.
pub open spec fn method_name(m: MethodModel) -> Seq<char> {
    match m {
        MethodModel::GetProp(_) => "get_prop"@,
        MethodModel::SetBright(_) => "set_bright"@,
        MethodModel::SetPower(_) => "set_power"@,
        MethodModel::Toggle => "toggle"@,
    }
}

/// `items` are the JSON parameters of `m`: always an array, empty for a toggle.
pub open spec fn encodes_params(items: Seq<JsonValue>, m: MethodModel) -> bool {
    match m {
        MethodModel::GetProp(ps) => items.len() == ps.len() && forall|i: int|
            0 <= i < items.len() ==> (#[trigger] items[i] matches JsonValue::Str(s) && s@ == ps[i]),
        MethodModel::SetBright(b) => items.len() == 1 && items[0] == JsonValue::UInt(b as u64),
        MethodModel::SetPower(p) => items.len() == 1 && (items[0] matches JsonValue::Str(s) && s@
            == power_word(p)),
        MethodModel::Toggle => items.len() == 0,
    }
}

/// `v` is the JSON object of a command: `{"id":N,"method":"..","params":[..]}`.
pub open spec fn encodes_command(v: JsonValue, c: CommandModel) -> bool {
    match v {
        JsonValue::Object(f) => {
            &&& f@.len() == 3
            &&& f@[0].0@ == "id"@ && f@[0].1 == JsonValue::UInt(c.id)
            &&& f@[1].0@ == "method"@ && (f@[1].1 matches JsonValue::Str(s) && s@ == method_name(
                c.method,
            ))
            &&& f@[2].0@ == "params"@ && (f@[2].1 matches JsonValue::Array(items)
                && encodes_params(items@, c.method))
        },
        _ => false,
    }
}

/// The strings of an array whose items are all strings.
pub open spec fn all_strings(items: Seq<JsonValue>) -> bool {
    forall|i: int| 0 <= i < items.len() ==> #[trigger] items[i] matches JsonValue::Str(_)
}

pub open spec fn string_content(v: JsonValue) -> Seq<char> {
    match v {
        JsonValue::Str(s) => s@,
        _ => Seq::empty(),
    }
}

pub open spec fn strings_of(items: Seq<JsonValue>) -> Option<Seq<Seq<char>>> {
    if all_strings(items) {
        Some(items.map_values(|x: JsonValue| string_content(x)))
    } else {
        None
    }
}

/// The method named `name` with the JSON parameters `items`, if they fit it.
pub open spec fn method_of(name: Seq<char>, items: Seq<JsonValue>) -> Option<MethodModel> {
    if name == "get_prop"@ {
        match strings_of(items) {
            Some(ps) => Some(MethodModel::GetProp(ps)),
            None => None,
        }
    } else if name == "set_bright"@ {
        if items.len() == 1 && (items[0] matches JsonValue::UInt(b) && b <= 255) {
            Some(MethodModel::SetBright(items[0]->UInt_0 as u8))
        } else {
            None
        }
    } else if name == "set_power"@ {
        if items.len() == 1 && (items[0] matches JsonValue::Str(s) && s@ == "on"@) {
            Some(MethodModel::SetPower(Power::On))
        } else if items.len() == 1 && (items[0] matches JsonValue::Str(s) && s@ == "off"@) {
            Some(MethodModel::SetPower(Power::Off))
        } else {
            None
        }
    } else if name == "toggle"@ {
        if items.len() == 0 {
            Some(MethodModel::Toggle)
        } else {
            None
        }
    } else {
        None
    }
}

/// The command a JSON object describes: members `id`, `method` and `params`.
pub open spec fn command_of_json(v: JsonValue) -> Option<CommandModel> {
    match v {
        JsonValue::Object(f) => match (
            member(f@, "id"@),
            member(f@, "method"@),
            member(f@, "params"@),
        ) {
            (Some(JsonValue::UInt(id)), Some(JsonValue::Str(name)), Some(JsonValue::Array(items))) => {
                match method_of(name@, items@) {
                    Some(m) => Some(CommandModel { id, method: m }),
                    None => None,
                }
            },
            _ => None,
        },
        _ => None,
    }
}

/// The `i64` a JSON number stands for, if it is an integer in range.
pub open spec fn i64_of(v: JsonValue) -> Option<i64> {
    match v {
        JsonValue::UInt(u) => if u <= i64::MAX as u64 { Some(u as i64) } else { None },
        JsonValue::Int(i) => Some(i),
        _ => None,
    }
}

/// The outcome in a reply object: a `result` array of strings, or else an
/// `error` object with an integer `code` and a string `message`.
pub open spec fn result_of_members(f: Seq<(String, JsonValue)>) -> Option<ResultModel> {
    match member(f, "result"@) {
        Some(JsonValue::Array(items)) => match strings_of(items@) {
            Some(ss) => Some(ResultModel::Success(ss)),
            None => None,
        },
        Some(_) => None,
        None => match member(f, "error"@) {
            Some(JsonValue::Object(ef)) => match (i64_of_opt(member(ef@, "code"@)), member(ef@, "message"@)) {
                (Some(code), Some(JsonValue::Str(m))) => Some(ResultModel::Error { code, message: m@ }),
                _ => None,
            },
            _ => None,
        },
    }
}

pub open spec fn i64_of_opt(v: Option<JsonValue>) -> Option<i64> {
    match v {
        Some(x) => i64_of(x),
        None => None,
    }
}

/// The reply a JSON object describes: an unsigned `id` and an outcome.
pub open spec fn response_of_json(v: JsonValue) -> Option<ResponseModel> {
    match v {
        JsonValue::Object(f) => match (member(f@, "id"@), result_of_members(f@)) {
            (Some(JsonValue::UInt(id)), Some(r)) => Some(ResponseModel { id, result: r }),
            _ => None,
        },
        _ => None,
    }
}

/// The notification a JSON object describes: a string `method` and an
/// object of `params`.
pub open spec fn notification_of_json(v: JsonValue) -> Option<NotificationModel> {
    match v {
        JsonValue::Object(f) => match (member(f@, "method"@), member(f@, "params"@)) {
            (Some(JsonValue::Str(m)), Some(JsonValue::Object(ps))) => Some(
                NotificationModel { method: m@, params: ps@ },
            ),
            _ => None,
        },
        _ => None,
    }
}

/// A received object is a reply when it has that shape, and otherwise a
/// notification when it has that one.
pub open spec fn message_of_json(v: JsonValue) -> Option<MessageModel> {
    match response_of_json(v) {
        Some(r) => Some(MessageModel::Response(r)),
        None => match notification_of_json(v) {
            Some(n) => Some(MessageModel::Notification(n)),
            None => None,
        },
    }
}

/// The message a received line holds, if any.
pub open spec fn message_of_line(line: Seq<char>) -> Option<MessageModel> {
    match json_of_text(line) {
        Some(v) => message_of_json(v),
        None => None,
    }
}

/// Copies of the strings of a JSON array, if all its items are strings.
fn strings_from(items: &Vec<JsonValue>) -> (r: Option<Vec<String>>)
    ensures
        match r {
            Some(v) => strings_of(items@) == Some(strings_view(v@)),
            None => strings_of(items@) is None,
        },
{
    let mut out: Vec<String> = Vec::new();
    let mut i: usize = 0;
    while i < items.len()
        invariant
            i <= items@.len(),
            out@.len() == i,
            forall|j: int| 0 <= j < i ==> (#[trigger] items@[j] matches JsonValue::Str(s) && s@ == out@[j]@),
        decreases items@.len() - i,
    {
        match &items[i] {
            JsonValue::Str(s) => {
                out.push(s.clone());
            },
            _ => {
                return None;
            },
        }
        i = i + 1;
    }
    assert(strings_view(out@) =~= items@.map_values(|x: JsonValue| string_content(x)));
    Some(out)
}

impl Command {
    pub fn new(id: u64, method: Method) -> (r: Command)
        ensures
            r.id == id,
            r.method == method,
    {
        Command { id, method }
    }

    /// The JSON object of the command.
    pub fn to_json(&self) -> (r: JsonValue)
        ensures
            encodes_command(r, self@),
    {
        let params: Vec<JsonValue> = match &self.method {
            Method::GetProp(ps) => {
                let mut items: Vec<JsonValue> = Vec::new();
                let mut i: usize = 0;
                while i < ps.len()
                    invariant
                        i <= ps@.len(),
                        items@.len() == i,
                        forall|j: int| 0 <= j < i ==> (#[trigger] items@[j] matches JsonValue::Str(s) && s@ == ps@[j]@),
                    decreases ps@.len() - i,
                {
                    items.push(JsonValue::Str(ps[i].clone()));
                    i = i + 1;
                }
                items
            },
            Method::SetBright(b) => vec![JsonValue::UInt(*b as u64)],
            Method::SetPower(p) => vec![JsonValue::Str(p.to_string())],
            Method::Toggle => Vec::new(),
        };
        let name = match &self.method {
            Method::GetProp(_) => "get_prop".to_owned(),
            Method::SetBright(_) => "set_bright".to_owned(),
            Method::SetPower(_) => "set_power".to_owned(),
            Method::Toggle => "toggle".to_owned(),
        };
        let fields: Vec<(String, JsonValue)> = vec![
            ("id".to_owned(), JsonValue::UInt(self.id)),
            ("method".to_owned(), JsonValue::Str(name)),
            ("params".to_owned(), JsonValue::Array(params)),
        ];
        JsonValue::Object(fields)
    }

    /// The JSON text of the command.
    pub fn to_string(&self) -> (r: String)
        ensures
            exists|j: JsonValue| encodes_command(j, self@) && r@ == text_of_json(j),
    {
        let j = self.to_json();
        json_text(&j)
    }

    /// The bytes written to the lamp for the command: its JSON text, then CR LF.
    pub fn to_line(&self) -> (r: String)
        ensures
            exists|j: JsonValue| encodes_command(j, self@) && r@ == text_of_json(j) + seq!['\r', '\n'],
    {
        let j = self.to_json();
        let mut text = json_text(&j);
        crate::text::push_char(&mut text, '\r');
        crate::text::push_char(&mut text, '\n');
        text
    }
}

impl Power {
    /// The word the state is written as: `on` or `off`.
    pub fn to_string(&self) -> (r: String)
        ensures
            r@ == power_word(*self),
    {
        match self {
            Power::On => "on".to_owned(),
            Power::Off => "off".to_owned(),
        }
    }
}

impl Method {
    pub fn get_prop(params: Vec<String>) -> (r: Method)
        ensures
            r == Method::GetProp(params),
    {
        Method::GetProp(params)
    }

    pub fn set_brightness(brightness: u8) -> (r: Method)
        ensures
            r == Method::SetBright(brightness),
    {
        Method::SetBright(brightness)
    }

    pub fn set_power(power: Power) -> (r: Method)
        ensures
            r == Method::SetPower(power),
    {
        Method::SetPower(power)
    }

    pub const TOGGLE: Method = Method::Toggle;

    /// The method named `name` with the JSON parameters `items`.
    pub fn from_json(name: &String, items: &Vec<JsonValue>) -> (r: Option<Method>)
        ensures
            match r {
                Some(m) => method_of(name@, items@) == Some(m@),
                None => method_of(name@, items@) is None,
            },
    {
        if same_str(name.as_str(), "get_prop") {
            match strings_from(items) {
                Some(ps) => Some(Method::GetProp(ps)),
                None => None,
            }
        } else if same_str(name.as_str(), "set_bright") {
            if items.len() == 1 {
                match &items[0] {
                    JsonValue::UInt(b) => if *b <= 255 {
                        Some(Method::SetBright(*b as u8))
                    } else {
                        None
                    },
                    _ => None,
                }
            } else {
                None
            }
        } else if same_str(name.as_str(), "set_power") {
            if items.len() == 1 {
                match &items[0] {
                    JsonValue::Str(s) => if same_str(s.as_str(), "on") {
                        Some(Method::SetPower(Power::On))
                    } else if same_str(s.as_str(), "off") {
                        Some(Method::SetPower(Power::Off))
                    } else {
                        None
                    },
                    _ => None,
                }
            } else {
                None
            }
        } else if same_str(name.as_str(), "toggle") {
            if items.len() == 0 {
                Some(Method::Toggle)
            } else {
                None
            }
        } else {
            None
        }
    }
}

impl Command {
    /// The command a JSON object describes, if it describes one.
    pub fn from_json(v: &JsonValue) -> (r: Option<Command>)
        ensures
            match r {
                Some(c) => command_of_json(*v) == Some(c@),
                None => command_of_json(*v) is None,
            },
    {
        match v {
            JsonValue::Object(f) => {
                let ii = find_member(f, "id");
                let mi = find_member(f, "method");
                let pi = find_member(f, "params");
                proof {
                    lemma_member_index_bounds(f@, "id"@);
                    lemma_member_index_bounds(f@, "method"@);
                    lemma_member_index_bounds(f@, "params"@);
                }
                match (ii, mi, pi) {
                    (Some(ii), Some(mi), Some(pi)) => match (&f[ii].1, &f[mi].1, &f[pi].1) {
                        (JsonValue::UInt(id), JsonValue::Str(name), JsonValue::Array(items)) => {
                            match Method::from_json(name, items) {
                                Some(m) => Some(Command { id: *id, method: m }),
                                None => None,
                            }
                        },
                        _ => None,
                    },
                    _ => None,
                }
            },
            _ => None,
        }
    }
}

fn i64_from(v: &JsonValue) -> (r: Option<i64>)
    ensures
        r == i64_of(*v),
{
    match v {
        JsonValue::UInt(u) => if *u <= i64::MAX as u64 {
            Some(*u as i64)
        } else {
            None
        },
        JsonValue::Int(i) => Some(*i),
        _ => None,
    }
}

fn result_from(f: &Vec<(String, JsonValue)>) -> (r: Option<ResponseResult>)
    ensures
        match r {
            Some(x) => result_of_members(f@) == Some(x@),
            None => result_of_members(f@) is None,
        },
{
    proof {
        lemma_member_index_bounds(f@, "result"@);
        lemma_member_index_bounds(f@, "error"@);
    }
    match find_member(f, "result") {
        Some(ri) => match &f[ri].1 {
            JsonValue::Array(items) => match strings_from(items) {
                Some(ss) => Some(ResponseResult::Success(ss)),
                None => None,
            },
            _ => None,
        },
        None => match find_member(f, "error") {
            Some(ei) => match &f[ei].1 {
                JsonValue::Object(ef) => {
                    proof {
                        lemma_member_index_bounds(ef@, "code"@);
                        lemma_member_index_bounds(ef@, "message"@);
                    }
                    let code = match find_member(ef, "code") {
                        Some(ci) => i64_from(&ef[ci].1),
                        None => None,
                    };
                    match (code, find_member(ef, "message")) {
                        (Some(code), Some(mi)) => match &ef[mi].1 {
                            JsonValue::Str(m) => Some(ResponseResult::Error { code, message: m.clone() }),
                            _ => None,
                        },
                        _ => None,
                    }
                },
                _ => None,
            },
            None => None,
        },
    }
}

impl Response {
    /// The reply a JSON object describes, if it describes one.
    pub fn from_json(v: &JsonValue) -> (r: Option<Response>)
        ensures
            match r {
                Some(x) => response_of_json(*v) == Some(x@),
                None => response_of_json(*v) is None,
            },
    {
        match v {
            JsonValue::Object(f) => {
                proof {
                    lemma_member_index_bounds(f@, "id"@);
                }
                let id = match find_member(f, "id") {
                    Some(ii) => match &f[ii].1 {
                        JsonValue::UInt(id) => Some(*id),
                        _ => None,
                    },
                    None => None,
                };
                match (id, result_from(f)) {
                    (Some(id), Some(result)) => Some(Response { id, result }),
                    _ => None,
                }
            },
            _ => None,
        }
    }

    /// Reads a reply from its JSON text.
    pub fn from_str(text: &str) -> (r: Result<Response, DecodeError>)
        ensures
            match json_of_text(text@) {
                None => r == Err::<Response, DecodeError>(DecodeError::NotJson),
                Some(v) => match r {
                    Ok(x) => response_of_json(v) == Some(x@),
                    Err(e) => e == DecodeError::WrongShape && response_of_json(v) is None,
                },
            },
    {
        match parse_json(text) {
            None => Err(DecodeError::NotJson),
            Some(v) => match Response::from_json(&v) {
                Some(x) => Ok(x),
                None => Err(DecodeError::WrongShape),
            },
        }
    }
}

impl Notification {
    /// The notification a JSON object describes, if it describes one.
    pub fn from_json(v: JsonValue) -> (r: Option<Notification>)
        ensures
            match r {
                Some(n) => notification_of_json(v) == Some(n@),
                None => notification_of_json(v) is None,
            },
    {
        match v {
            JsonValue::Object(mut f) => {
                proof {
                    lemma_member_index_bounds(f@, "method"@);
                    lemma_member_index_bounds(f@, "params"@);
                }
                let ghost f0 = f@;
                let method = match find_member(&f, "method") {
                    Some(mi) => match &f[mi].1 {
                        JsonValue::Str(m) => m.clone(),
                        _ => {
                            return None;
                        },
                    },
                    None => {
                        return None;
                    },
                };
                match find_member(&f, "params") {
                    Some(pi) => {
                        let (_, pv) = f.remove(pi);
                        match pv {
                            JsonValue::Object(ps) => Some(Notification { method, params: ps }),
                            _ => None,
                        }
                    },
                    None => None,
                }
            },
            _ => None,
        }
    }

    /// Reads a notification from its JSON text.
    pub fn from_str(text: &str) -> (r: Result<Notification, DecodeError>)
        ensures
            match json_of_text(text@) {
                None => r matches Err(DecodeError::NotJson),
                Some(v) => match r {
                    Ok(x) => notification_of_json(v) == Some(x@),
                    Err(e) => e == DecodeError::WrongShape && notification_of_json(v) is None,
                },
            },
    {
        match parse_json(text) {
            None => Err(DecodeError::NotJson),
            Some(v) => match Notification::from_json(v) {
                Some(x) => Ok(x),
                None => Err(DecodeError::WrongShape),
            },
        }
    }

    /// The value of the first parameter named `key`.
    pub fn param(&self, key: &str) -> (r: Option<&JsonValue>)
        ensures
            match r {
                Some(x) => member(self.params@, key@) == Some(*x),
                None => member(self.params@, key@) is None,
            },
    {
        proof {
            lemma_member_index_bounds(self.params@, key@);
        }
        match find_member(&self.params, key) {
            Some(i) => Some(&self.params[i].1),
            None => None,
        }
    }
}

impl YeelightMessage {
    /// Tells a reply from a notification: a JSON object of the reply's shape
    /// is a reply, and otherwise one of the notification's shape is a
    /// notification.
    pub fn from_json(v: JsonValue) -> (r: Option<YeelightMessage>)
        ensures
            match r {
                Some(m) => message_of_json(v) == Some(m@),
                None => message_of_json(v) is None,
            },
    {
        match Response::from_json(&v) {
            Some(x) => Some(YeelightMessage::Response(x)),
            None => match Notification::from_json(v) {
                Some(n) => Some(YeelightMessage::Notification(n)),
                None => None,
            },
        }
    }

    /// Decodes one line received from the lamp; `None` when it is not JSON
    /// of either kind, and such a line is to be discarded.
    pub fn decode_line(line: &str) -> (r: Option<YeelightMessage>)
        ensures
            match r {
                Some(m) => message_of_line(line@) == Some(m@),
                None => message_of_line(line@) is None,
            },
    {
        match parse_json(line) {
            Some(v) => YeelightMessage::from_json(v),
            None => None,
        }
    }
}

/// Decoding the JSON object written for a command gives that command back:
/// the same id, the same method and the same parameters.
pub proof fn lemma_command_round_trip(c: Command, v: JsonValue)
    requires
        encodes_command(v, c@),
    ensures
        command_of_json(v) == Some(c@),
{
    reveal_strlit("id");
    reveal_strlit("method");
    reveal_strlit("params");
    reveal_strlit("get_prop");
    reveal_strlit("set_bright");
    reveal_strlit("set_power");
    reveal_strlit("toggle");
    reveal_strlit("on");
    reveal_strlit("off");
    let f = v->Object_0@;
    assert("id"@.len() == 2 && "method"@.len() == 6 && "params"@.len() == 6);
    assert("method"@[0] != "params"@[0]);
    assert("get_prop"@.len() == 8 && "set_bright"@.len() == 10 && "set_power"@.len() == 9
        && "toggle"@.len() == 6 && "on"@.len() == 2 && "off"@.len() == 3);
    let name = f[1].1->Str_0@;
    assert(f.drop_first()[0] == f[1]);
    assert(f.drop_first().drop_first()[0] == f[2]);
    assert(member_index(f, "id"@) == Some(0int));
    assert(member_index(f.drop_first(), "method"@) == Some(0int));
    assert(member_index(f, "method"@) == Some(1int));
    assert(member_index(f.drop_first().drop_first(), "params"@) == Some(0int));
    assert(member_index(f.drop_first(), "params"@) == Some(1int));
    assert(member_index(f, "params"@) == Some(2int));
    let items = f[2].1->Array_0@;
    match c@.method {
        MethodModel::GetProp(ps) => {
            assert(all_strings(items));
            assert(items.map_values(|x: JsonValue| string_content(x)) =~= ps);
            assert(method_of(name, items) == Some(c@.method));
        },
        MethodModel::SetPower(p) => {
            assert(method_of(name, items) == Some(c@.method));
        },
        MethodModel::SetBright(b) => {
            assert(method_of(name, items) == Some(c@.method));
        },
        MethodModel::Toggle => {
            assert(method_of(name, items) == Some(c@.method));
        },
    }
}

} // verus!
