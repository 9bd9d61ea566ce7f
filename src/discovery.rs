//! Reading the lamps' answers to an SSDP-style search, and keeping each
//! distinct answer once.

use vstd::prelude::*;
use vstd::utf8::{valid_utf8, decode_utf8};
use crate::text::{chars_of, string_of_range, range_is};

verus! {

/// The search datagram, sent to the multicast group below.
pub const DISCOVERY_MESSAGE: &'static str = "M-SEARCH * HTTP/1.1\r\nHOST: 239.255.255.250:1982\r\nMAN: \"ssdp:discover\"\r\nST: wifi_bulb\r\n";

/// The multicast group the lamps listen on, and its port.
pub const MULTICAST_ADDRESS: [u8; 4] = [239, 255, 255, 250];
pub const MULTICAST_PORT: u16 = 1982;

/// One lamp's answer: its model, its id and where its session is opened.
#[derive(Debug, Clone)]
pub struct DiscoveryResponse {
    pub model: String,
    pub id: String,
    pub location: String,
}

pub struct DiscoveryModel {
    pub model: Seq<char>,
    pub id: Seq<char>,
    pub location: Seq<char>,
}

impl View for DiscoveryResponse {
    type V = DiscoveryModel;

    open spec fn view(&self) -> DiscoveryModel {
        DiscoveryModel { model: self.model@, id: self.id@, location: self.location@ }
    }
}

impl PartialEq for DiscoveryResponse {
    fn eq(&self, other: &DiscoveryResponse) -> (r: bool)
        ensures
            r == (self@ == other@),
    {
        self.model == other.model && self.id == other.id && self.location == other.location
    }
}

impl vstd::std_specs::cmp::PartialEqSpecImpl for DiscoveryResponse {
    open spec fn obeys_eq_spec() -> bool {
        true
    }

    open spec fn eq_spec(&self, other: &DiscoveryResponse) -> bool {
        self@ == other@
    }
}

/// Why a datagram is not an answer.
#[derive(Debug, Clone, Copy, PartialEq, Eq, Structural)]
pub enum DiscoveryError {
    NotUtf8,
    MissingModel,
    MissingId,
    MissingLocation,
}

/// The pieces of a text between line feeds; a text without one is one piece.
#[verifier::opaque]
pub open spec fn split_lines(t: Seq<char>) -> Seq<Seq<char>>
    decreases t.len(),
{
    if t.len() == 0 {
        seq![Seq::empty()]
    } else if t.last() == '\n' {
        split_lines(t.drop_last()).push(Seq::empty())
    } else {
        let ls = split_lines(t.drop_last());
        ls.update(ls.len() - 1, ls.last().push(t.last()))
    }
}

/// A line without the carriage return that may end it.
pub open spec fn strip_cr(line: Seq<char>) -> Seq<char> {
    if line.len() > 0 && line.last() == '\r' {
        line.drop_last()
    } else {
        line
    }
}

pub open spec fn separator_at(line: Seq<char>, k: int) -> bool {
    0 <= k && k + 1 < line.len() && line[k] == ':' && line[k + 1] == ' '
}

/// A line `Key: Value` split at the first `": "`.
#[verifier::opaque]
pub open spec fn key_value(line: Seq<char>) -> Option<(Seq<char>, Seq<char>)> {
    if exists|k: int| separator_at(line, k) {
        let k = choose|k: int| separator_at(line, k) && forall|j: int| 0 <= j < k ==> !separator_at(line, j);
        Some((line.take(k), line.skip(k + 2)))
    } else {
        None
    }
}

/// The value of the last line among `lines` whose key is `key`.
pub open spec fn last_value(lines: Seq<Seq<char>>, key: Seq<char>) -> Option<Seq<char>>
    decreases lines.len(),
{
    if lines.len() == 0 {
        None
    } else {
        match key_value(strip_cr(lines.last())) {
            Some((k, v)) if k == key => Some(v),
            _ => last_value(lines.drop_last(), key),
        }
    }
}

/// The value that a header block gives to `key`.
pub open spec fn header(t: Seq<char>, key: Seq<char>) -> Option<Seq<char>> {
    last_value(split_lines(t), key)
}

/// What a datagram of the text `t` answers: all three of `model`, `id` and
/// `Location` must be there.
pub open spec fn parse_text(t: Seq<char>) -> Result<DiscoveryModel, DiscoveryError> {
    match (header(t, "model"@), header(t, "id"@), header(t, "Location"@)) {
        (None, _, _) => Err(DiscoveryError::MissingModel),
        (Some(_), None, _) => Err(DiscoveryError::MissingId),
        (Some(_), Some(_), None) => Err(DiscoveryError::MissingLocation),
        (Some(m), Some(i), Some(l)) => Ok(DiscoveryModel { model: m, id: i, location: l }),
    }
}

/// What a datagram answers; it must be UTF-8 text.
pub open spec fn parse_spec(bytes: Seq<u8>) -> Result<DiscoveryModel, DiscoveryError> {
    if valid_utf8(bytes) {
        parse_text(decode_utf8(bytes))
    } else {
        Err(DiscoveryError::NotUtf8)
    }
}

/// Relies on `std::str::from_utf8`: the text the bytes encode, and an error
/// exactly when they are not UTF-8.
#[verifier::external_body]
fn utf8_text(bytes: &[u8]) -> (r: Option<&str>)
    ensures
        match r {
            Some(s) => valid_utf8(bytes@) && s@ == decode_utf8(bytes@),
            None => !valid_utf8(bytes@),
        },
{
    std::str::from_utf8(bytes).ok()
}

proof fn lemma_first_separator(line: Seq<char>, k: int)
    requires
        separator_at(line, k),
        forall|j: int| 0 <= j < k ==> !separator_at(line, j),
    ensures
        key_value(line) == Some((line.take(k), line.skip(k + 2))),
{
    reveal(key_value);
    let c = choose|c: int| separator_at(line, c) && forall|j: int| 0 <= j < c ==> !separator_at(line, j);
    if c < k {
        assert(!separator_at(line, c));
    } else if c > k {
        assert(!separator_at(line, k));
    }
}

proof fn lemma_no_separator(line: Seq<char>)
    requires
        forall|j: int| !separator_at(line, j),
    ensures
        key_value(line) is None,
{
    reveal(key_value);
}

proof fn lemma_split_empty()
    ensures
        split_lines(Seq::<char>::empty()) == seq![Seq::<char>::empty()],
{
    reveal(split_lines);
}

proof fn lemma_split_step(t: Seq<char>, done: Seq<Seq<char>>, cur: Seq<char>, c: char)
    requires
        split_lines(t) == done.push(cur),
    ensures
        c == '\n' ==> split_lines(t.push(c)) == done.push(cur).push(Seq::<char>::empty()),
        c != '\n' ==> split_lines(t.push(c)) == done.push(cur.push(c)),
{
    reveal(split_lines);
    assert(t.push(c).drop_last() =~= t);
    assert(done.push(cur).update(done.len() as int, cur.push(c)) =~= done.push(cur.push(c)));
}

/// Where the value of the line `cs[from..to]` stands, when the line's key is `key`.
fn line_value(cs: &Vec<char>, from: usize, to: usize, key: &Vec<char>) -> (r: Option<(usize, usize)>)
    requires
        from <= to <= cs@.len(),
    ensures
        match key_value(strip_cr(cs@.subrange(from as int, to as int))) {
            Some((k, v)) if k == key@ => r matches Some((a, b)) && from <= a <= b <= to
                && cs@.subrange(a as int, b as int) == v,
            _ => r is None,
        },
{
    let ghost line = cs@.subrange(from as int, to as int);
    let end = if to > from && cs[to - 1] == '\r' { to - 1 } else { to };
    let ghost stripped = cs@.subrange(from as int, end as int);
    assert(strip_cr(line) =~= stripped);
    let mut k: usize = from;
    while end - k >= 2
        invariant
            from <= k <= end <= to <= cs@.len(),
            stripped == cs@.subrange(from as int, end as int),
            strip_cr(cs@.subrange(from as int, to as int)) == stripped,
            forall|j: int| 0 <= j < k - from ==> !separator_at(stripped, j),
        decreases end - k,
    {
        if cs[k] == ':' && cs[k + 1] == ' ' {
            let ghost kk = (k - from) as int;
            assert(separator_at(stripped, kk));
            proof {
                lemma_first_separator(stripped, kk);
            }
            assert(stripped.take(kk) =~= cs@.subrange(from as int, k as int));
            assert(stripped.skip(kk + 2) =~= cs@.subrange(k + 2, end as int));
            if range_is(cs, from, k, key) {
                return Some((k + 2, end));
            } else {
                return None;
            }
        }
        k = k + 1;
    }
    assert forall|j: int| !separator_at(stripped, j) by {
        if 0 <= j && j + 1 < stripped.len() && j >= k - from {
            assert(false);
        }
    }
    proof {
        lemma_no_separator(stripped);
    }
    None
}

/// The value that the header block `cs` gives to `key`.
fn header_value(cs: &Vec<char>, key: &str) -> (r: Option<String>)
    ensures
        match header(cs@, key@) {
            Some(v) => r matches Some(s) && s@ == v,
            None => r is None,
        },
{
    let key_chars = chars_of(key);
    let mut found: Option<(usize, usize)> = None;
    let mut start: usize = 0;
    let mut i: usize = 0;
    let ghost mut done: Seq<Seq<char>> = Seq::empty();
    assert(cs@.take(0) =~= Seq::<char>::empty());
    proof {
        lemma_split_empty();
    }
    assert(split_lines(cs@.take(0)) =~= done.push(cs@.subrange(0, 0)));
    while i < cs.len()
        invariant
            start <= i <= cs@.len(),
            key_chars@ == key@,
            split_lines(cs@.take(i as int)) == done.push(cs@.subrange(start as int, i as int)),
            match last_value(done, key@) {
                Some(v) => found matches Some((a, b)) && a <= b <= cs@.len() && cs@.subrange(a as int, b as int) == v,
                None => found is None,
            },
        decreases cs@.len() - i,
    {
        let ghost prev = cs@.take(i as int);
        assert(cs@.take(i + 1) =~= prev.push(cs@[i as int]));
        proof {
            lemma_split_step(prev, done, cs@.subrange(start as int, i as int), cs@[i as int]);
        }
        if cs[i] == '\n' {
            let v = line_value(cs, start, i, &key_chars);
            proof {
                let cur = cs@.subrange(start as int, i as int);
                let old_done = done;
                done = done.push(cur);
                assert(done.drop_last() =~= old_done);
                assert(done.last() == cur);
            }
            if v.is_some() {
                found = v;
            }
            i = i + 1;
            start = i;
            assert(cs@.subrange(start as int, i as int) =~= Seq::<char>::empty());
        } else {
            i = i + 1;
            assert(cs@.subrange(start as int, i as int) =~= cs@.subrange(start as int, i - 1).push(cs@[i - 1]));
        }
    }
    assert(cs@.take(i as int) =~= cs@);
    let v = line_value(cs, start, i, &key_chars);
    proof {
        let cur = cs@.subrange(start as int, i as int);
        let all = done.push(cur);
        assert(all.drop_last() =~= done);
        assert(all.last() == cur);
    }
    let v = if v.is_some() { v } else { found };
    match v {
        Some((a, b)) => Some(string_of_range(cs, a, b)),
        None => None,
    }
}

/// Reads one answer to the search.
pub fn parse(response: &[u8]) -> (r: Result<DiscoveryResponse, DiscoveryError>)
    ensures
        match r {
            Ok(d) => parse_spec(response@) == Ok::<DiscoveryModel, DiscoveryError>(d@),
            Err(e) => parse_spec(response@) == Err::<DiscoveryModel, DiscoveryError>(e),
        },
{
    let text = match utf8_text(response) {
        Some(t) => t,
        None => {
            return Err(DiscoveryError::NotUtf8);
        },
    };
    let cs = chars_of(text);
    let model = header_value(&cs, "model");
    let id = header_value(&cs, "id");
    let location = header_value(&cs, "Location");
    match model {
        None => Err(DiscoveryError::MissingModel),
        Some(model) => match id {
            None => Err(DiscoveryError::MissingId),
            Some(id) => match location {
                None => Err(DiscoveryError::MissingLocation),
                Some(location) => Ok(DiscoveryResponse { model, id, location }),
            },
        },
    }
}

pub open spec fn models(l: Seq<DiscoveryResponse>) -> Seq<DiscoveryModel> {
    l.map_values(|d: DiscoveryResponse| d@)
}

/// The answers after `d` arrives: kept in order of first arrival, each once.
pub open spec fn recorded(l: Seq<DiscoveryModel>, d: DiscoveryModel) -> Seq<DiscoveryModel> {
    if l.contains(d) {
        l
    } else {
        l.push(d)
    }
}

/// Adds an answer unless an equal one is already there; tells whether it
/// was added.
pub fn record_response(list: &mut Vec<DiscoveryResponse>, d: DiscoveryResponse) -> (added: bool)
    ensures
        models(final(list)@) == recorded(models(old(list)@), d@),
        added == !models(old(list)@).contains(d@),
{
    let mut i: usize = 0;
    while i < list.len()
        invariant
            i <= list@.len(),
            forall|j: int| 0 <= j < i ==> list@[j]@ != d@,
        decreases list@.len() - i,
    {
        if list[i] == d {
            assert(models(list@)[i as int] == d@);
            return false;
        }
        i = i + 1;
    }
    assert(!models(list@).contains(d@)) by {
        if models(list@).contains(d@) {
            let j = choose|j: int| 0 <= j < models(list@).len() && models(list@)[j] == d@;
            assert(list@[j]@ == d@);
        }
    }
    let ghost before = list@;
    list.push(d);
    assert(models(list@) =~= models(before).push(d@));
    true
}

/// An answer that arrives twice is kept once: recording it again changes
/// nothing, and a list without repeats stays without repeats.
proof fn lemma_record_twice(l: Seq<DiscoveryModel>, d: DiscoveryModel)
    ensures
        recorded(recorded(l, d), d) == recorded(l, d),
        recorded(l, d).contains(d),
        l.no_duplicates() ==> recorded(l, d).no_duplicates(),
{
    if !l.contains(d) {
        let r = l.push(d);
        assert(r[l.len() as int] == d);
        if l.no_duplicates() {
            assert forall|i: int, j: int| 0 <= i < r.len() && 0 <= j < r.len() && i != j implies r[i] != r[j] by {
                if i == l.len() && j < l.len() {
                    assert(l.contains(l[j]));
                } else if j == l.len() && i < l.len() {
                    assert(l.contains(l[i]));
                }
            }
        }
    }
}

/// Takes one datagram received during a search: an answer is recorded
/// unless an equal one is there already; anything else changes nothing.
/// Tells whether an answer was added.
pub fn take_datagram(list: &mut Vec<DiscoveryResponse>, datagram: &[u8]) -> (r: Result<bool, DiscoveryError>)
    ensures
        match parse_spec(datagram@) {
            Ok(d) => r == Ok::<bool, DiscoveryError>(!models(old(list)@).contains(d)) && models(final(list)@)
                == recorded(models(old(list)@), d),
            Err(e) => r == Err::<bool, DiscoveryError>(e) && final(list)@ == old(list)@,
        },
{
    match parse(datagram) {
        Ok(d) => Ok(record_response(list, d)),
        Err(e) => Err(e),
    }
}

/// A datagram that arrives twice leaves one answer: the first time into an
/// empty list it is the one entry, and taking it again changes nothing.
pub proof fn lemma_same_datagram_twice(l: Seq<DiscoveryModel>, datagram: Seq<u8>)
    requires
        parse_spec(datagram) is Ok,
    ensures
        recorded(Seq::empty(), parse_spec(datagram)->Ok_0) == seq![parse_spec(datagram)->Ok_0],
        recorded(recorded(l, parse_spec(datagram)->Ok_0), parse_spec(datagram)->Ok_0) == recorded(
            l,
            parse_spec(datagram)->Ok_0,
        ),
        l.no_duplicates() ==> recorded(recorded(l, parse_spec(datagram)->Ok_0), parse_spec(datagram)->Ok_0).no_duplicates(),
{
    lemma_record_twice(l, parse_spec(datagram)->Ok_0);
    assert(Seq::<DiscoveryModel>::empty().push(parse_spec(datagram)->Ok_0) =~= seq![parse_spec(datagram)->Ok_0]);
}

} // verus!
