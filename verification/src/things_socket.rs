//! The fan-out hub: the events it broadcasts, their wire frames, and the list
//! of subscribed sinks.

use crate::json::{quoted, JsonValue};
use vstd::prelude::*;
use vstd::string::StringExecFns;

verus! {

/// A device went online or offline.
#[derive(Debug, PartialEq)]
pub struct ConnectedMessage {
    id: String,
    data: bool,
}

/// What a [`ConnectedMessage`] says.
pub struct ConnectedView {
    pub id: Seq<char>,
    pub data: bool,
}

impl View for ConnectedMessage {
    type V = ConnectedView;

    closed spec fn view(&self) -> ConnectedView {
        ConnectedView { id: self.id@, data: self.data }
    }
}

impl ConnectedMessage {
    /// The message that device `id` is connected (`data`) or not.
    pub fn new(id: String, data: bool) -> (message: ConnectedMessage)
        ensures
            message@ == (ConnectedView { id: id@, data }),
    {
        Self { id, data }
    }

    /// The device's id.
    pub fn id(&self) -> (id: &String)
        ensures
            id@ == self@.id,
    {
        &self.id
    }

    /// Whether the device is connected.
    pub fn data(&self) -> (data: bool)
        ensures
            data == self@.data,
    {
        self.data
    }
}

/// A property of a device has a new value.
#[derive(Debug, PartialEq)]
pub struct PropertyStatusMessage {
    id: String,
    key: String,
    value: JsonValue,
}

/// What a [`PropertyStatusMessage`] says: the device, the property's name
/// and the text of its new value.
pub struct PropertyStatusView {
    pub id: Seq<char>,
    pub key: Seq<char>,
    pub value: Seq<char>,
}

impl View for PropertyStatusMessage {
    type V = PropertyStatusView;

    closed spec fn view(&self) -> PropertyStatusView {
        PropertyStatusView { id: self.id@, key: self.key@, value: self.value@ }
    }
}

impl PropertyStatusMessage {
    /// The message that property `key` of device `id` is now `value`.
    pub fn new(id: String, key: String, value: JsonValue) -> (message: PropertyStatusMessage)
        ensures
            message@ == (PropertyStatusView { id: id@, key: key@, value: value@ }),
    {
        Self { id, key, value }
    }

    /// The device's id.
    pub fn id(&self) -> (id: &String)
        ensures
            id@ == self@.id,
    {
        &self.id
    }

    /// The property's name.
    pub fn key(&self) -> (key: &String)
        ensures
            key@ == self@.key,
    {
        &self.key
    }

    /// The property's new value.
    pub fn value(&self) -> (value: &JsonValue)
        ensures
            value@ == self@.value,
    {
        &self.value
    }
}

/// The events that the hub broadcasts.
#[derive(Debug, PartialEq)]
pub enum ThingsMessages {
    ConnectedMessage(ConnectedMessage),
    PropertyStatusMessage(PropertyStatusMessage),
}

/// What a [`ThingsMessages`] says.
pub enum ThingsView {
    Connected(ConnectedView),
    PropertyStatus(PropertyStatusView),
}

impl View for ThingsMessages {
    type V = ThingsView;

    open spec fn view(&self) -> ThingsView {
        match self {
            ThingsMessages::ConnectedMessage(m) => ThingsView::Connected(m@),
            ThingsMessages::PropertyStatusMessage(m) => ThingsView::PropertyStatus(m@),
        }
    }
}

/// The request to broadcast an event.
#[derive(Debug, PartialEq)]
pub struct ThingsMessage(pub ThingsMessages);

/// The request to add a sink to the hub.
#[derive(Debug, PartialEq, Eq, Clone, Copy)]
pub struct RegisterSink(pub u64);

/// The request to take a sink off the hub.
#[derive(Debug, PartialEq, Eq, Clone, Copy)]
pub struct UnregisterSink(pub u64);

/// The wire frame of a `connected` event:
/// `{"id":<id>,"data":<true|false>,"messageType":"connected"}`.
pub open spec fn connected_frame(m: ConnectedView) -> Seq<char> {
    "{\"id\":"@ + quoted(m.id) + ",\"data\":"@ + (if m.data {
        "true"@
    } else {
        "false"@
    }) + ",\"messageType\":\"connected\"}"@
}

/// The wire frame of a `propertyStatus` event:
/// `{"id":<id>,"data":{<name>:<value>},"messageType":"propertyStatus"}`.
pub open spec fn property_status_frame(m: PropertyStatusView) -> Seq<char> {
    "{\"id\":"@ + quoted(m.id) + ",\"data\":{"@ + quoted(m.key) + ":"@ + m.value
        + "},\"messageType\":\"propertyStatus\"}"@
}

/// The wire frame of an event.
pub open spec fn frame(event: ThingsView) -> Seq<char> {
    match event {
        ThingsView::Connected(m) => connected_frame(m),
        ThingsView::PropertyStatus(m) => property_status_frame(m),
    }
}

impl ThingsMessages {
    /// The event's wire frame, a JSON object tagged by `messageType`.
    pub fn to_frame(&self) -> (text: String)
        ensures
            text@ == frame(self@),
    {
        match self {
            ThingsMessages::ConnectedMessage(m) => {
                let mut text = "{\"id\":".to_owned();
                let id = JsonValue::string(m.id.as_str());
                text.append(id.as_str());
                text.append(",\"data\":");
                if m.data {
                    text.append("true");
                } else {
                    text.append("false");
                }
                text.append(",\"messageType\":\"connected\"}");
                text
            },
            ThingsMessages::PropertyStatusMessage(m) => {
                let mut text = "{\"id\":".to_owned();
                let id = JsonValue::string(m.id.as_str());
                text.append(id.as_str());
                text.append(",\"data\":{");
                let key = JsonValue::string(m.key.as_str());
                text.append(key.as_str());
                text.append(":");
                text.append(m.value.as_str());
                text.append("},\"messageType\":\"propertyStatus\"}");
                text
            },
        }
    }
}

/// `s` without every occurrence of `x`, the rest in its order.
pub open spec fn without(s: Seq<u64>, x: u64) -> Seq<u64>
    decreases s.len(),
{
    if s.len() == 0 {
        s
    } else if s.last() == x {
        without(s.drop_last(), x)
    } else {
        without(s.drop_last(), x).push(s.last())
    }
}

/// `s` without every occurrence of any member of `gone`.
pub open spec fn without_all(s: Seq<u64>, gone: Seq<u64>) -> Seq<u64>
    decreases gone.len(),
{
    if gone.len() == 0 {
        s
    } else {
        without(without_all(s, gone.drop_last()), gone.last())
    }
}

/// What is in `without(s, x)`: the members of `s` other than `x`, and each
/// no more often than in `s`.
pub proof fn lemma_without(s: Seq<u64>, x: u64)
    ensures
        !without(s, x).contains(x),
        forall|y: u64|
            #![trigger without(s, x).contains(y)]
            #![trigger s.contains(y)]
            y != x ==> (without(s, x).contains(y) <==> s.contains(y)),
        s.no_duplicates() ==> without(s, x).no_duplicates(),
        !s.contains(x) ==> without(s, x) == s,
        without(s, x).len() <= s.len(),
    decreases s.len(),
{
    if s.len() > 0 {
        let init = s.drop_last();
        let last = s.last();
        lemma_without(init, x);
        let w = without(init, x);
        assert(s =~= init.push(last));
        assert forall|y: u64|
            #![trigger without(s, x).contains(y)]
            #![trigger s.contains(y)]
            y != x implies (without(s, x).contains(y) <==> s.contains(y)) by {
            if s.contains(y) {
                let i = choose|i: int| 0 <= i < s.len() && s[i] == y;
                if i < init.len() {
                    assert(init[i] == y);
                    assert(init.contains(y));
                    assert(w.contains(y));
                    let j = choose|j: int| 0 <= j < w.len() && w[j] == y;
                    if last != x {
                        assert(w.push(last)[j] == y);
                    }
                } else {
                    assert(last == y);
                    assert(w.push(last)[w.len() as int] == y);
                }
            }
            if without(s, x).contains(y) {
                let j = choose|j: int| 0 <= j < without(s, x).len() && without(s, x)[j] == y;
                if last != x && j == w.len() {
                    assert(s[s.len() - 1] == y);
                } else {
                    assert(w[j] == y);
                    assert(w.contains(y));
                    assert(init.contains(y));
                    let i = choose|i: int| 0 <= i < init.len() && init[i] == y;
                    assert(s[i] == y);
                }
            }
        }
        if last != x {
            assert(!w.push(last).contains(x)) by {
                if w.push(last).contains(x) {
                    let j = choose|j: int| 0 <= j < w.push(last).len() && w.push(last)[j] == x;
                    assert(w[j] == x);
                }
            }
        }
        if s.no_duplicates() {
            assert(init.no_duplicates());
            if last != x {
                assert(!w.contains(last)) by {
                    if w.contains(last) {
                        assert(init.contains(last));
                        let i = choose|i: int| 0 <= i < init.len() && init[i] == last;
                        assert(s[i] == s[s.len() - 1]);
                    }
                }
                assert(w.push(last).no_duplicates()) by {
                    assert forall|a: int, b: int|
                        0 <= a < w.push(last).len() && 0 <= b < w.push(last).len() && a != b implies w.push(
                        last,
                    )[a] != w.push(last)[b] by {
                        if a == w.len() {
                            assert(w[b] != last);
                        } else if b == w.len() {
                            assert(w[a] != last);
                        }
                    }
                }
            }
        }
        if !s.contains(x) {
            assert(last != x) by {
                if last == x {
                    assert(s[s.len() - 1] == x);
                }
            }
            assert(!init.contains(x)) by {
                if init.contains(x) {
                    let i = choose|i: int| 0 <= i < init.len() && init[i] == x;
                    assert(s[i] == x);
                }
            }
        }
    }
}

/// After the sinks to which a send failed were dropped, none of them is
/// subscribed, every other sink is subscribed as before, and no sink is
/// subscribed twice.
pub proof fn law_failed_sinks_are_dropped(sinks: Seq<u64>, failed: Seq<u64>)
    requires
        sinks.no_duplicates(),
    ensures
        without_all(sinks, failed).no_duplicates(),
        forall|s: u64|
            #![trigger without_all(sinks, failed).contains(s)]
            without_all(sinks, failed).contains(s) <==> sinks.contains(s) && !failed.contains(s),
    decreases failed.len(),
{
    if failed.len() > 0 {
        let init = failed.drop_last();
        let last = failed.last();
        law_failed_sinks_are_dropped(sinks, init);
        lemma_without(without_all(sinks, init), last);
        assert forall|s: u64|
            #![trigger without_all(sinks, failed).contains(s)]
            without_all(sinks, failed).contains(s) <==> sinks.contains(s) && !failed.contains(
                s,
            ) by {
            if failed.contains(s) {
                let i = choose|i: int| 0 <= i < failed.len() && failed[i] == s;
                if i < init.len() {
                    assert(init[i] == s);
                    assert(init.contains(s));
                }
            }
            if init.contains(s) {
                let i = choose|i: int| 0 <= i < init.len() && init[i] == s;
                assert(failed[i] == s);
            }
            if s == last {
                assert(failed[failed.len() - 1] == s);
            }
        }
    }
}

/// What a broadcast asks the caller to do: send `frame` to each of `sinks`.
#[derive(Debug, PartialEq)]
pub struct Broadcast {
    pub frame: String,
    pub sinks: Vec<u64>,
}

/// The hub: the sinks that are subscribed, in the order in which they came.
/// A sink is the number by which the caller knows a subscriber's connection.
pub struct ThingsSocket {
    sinks: Vec<u64>,
}

impl View for ThingsSocket {
    type V = Seq<u64>;

    closed spec fn view(&self) -> Seq<u64> {
        self.sinks@
    }
}

impl ThingsSocket {
    /// The hub's validity, which every hub has: no sink is subscribed twice.
    #[verifier::type_invariant]
    spec fn wf(&self) -> bool {
        self.sinks@.no_duplicates()
    }

    /// A hub without sinks.
    pub fn new() -> (hub: ThingsSocket)
        ensures
            hub@ == Seq::<u64>::empty(),
    {
        ThingsSocket { sinks: Vec::new() }
    }

    /// The number of subscribed sinks.
    pub fn len(&self) -> (n: usize)
        ensures
            n == self@.len(),
            self@.no_duplicates(),
    {
        proof {
            use_type_invariant(self);
        }
        self.sinks.len()
    }

    /// Whether `sink` is subscribed.
    pub fn contains(&self, sink: u64) -> (found: bool)
        ensures
            found == self@.contains(sink),
    {
        let mut i: usize = 0;
        while i < self.sinks.len()
            invariant
                i <= self.sinks@.len(),
                forall|j: int| 0 <= j < i ==> self.sinks@[j] != sink,
            decreases self.sinks@.len() - i,
        {
            if self.sinks[i] == sink {
                return true;
            }
            i += 1;
        }
        false
    }

    /// Subscribes a sink: it is appended, unless it is subscribed already.
    pub fn register_sink(&mut self, msg: RegisterSink)
        ensures
            final(self)@ == if old(self)@.contains(msg.0) {
                old(self)@
            } else {
                old(self)@.push(msg.0)
            },
    {
        proof {
            use_type_invariant(&*self);
        }
        if !self.contains(msg.0) {
            let mut sinks: Vec<u64> = Vec::new();
            core::mem::swap(&mut self.sinks, &mut sinks);
            sinks.push(msg.0);
            self.sinks = sinks;
            proof {
                let s = old(self)@;
                assert forall|a: int, b: int|
                    0 <= a < s.push(msg.0).len() && 0 <= b < s.push(msg.0).len() && a != b implies s.push(
                    msg.0,
                )[a] != s.push(msg.0)[b] by {
                    if a == s.len() {
                        assert(s.contains(s[b]));
                    } else if b == s.len() {
                        assert(s.contains(s[a]));
                    }
                }
            }
        }
    }

    /// Unsubscribes a sink: it is removed by identity, the others keep their
    /// order. A sink that is not subscribed changes nothing.
    pub fn unregister_sink(&mut self, msg: UnregisterSink)
        ensures
            final(self)@ == without(old(self)@, msg.0),
            !final(self)@.contains(msg.0),
    {
        proof {
            use_type_invariant(&*self);
        }
        let mut kept: Vec<u64> = Vec::new();
        let mut i: usize = 0;
        while i < self.sinks.len()
            invariant
                i <= self.sinks@.len(),
                kept@ == without(self.sinks@.take(i as int), msg.0),
            decreases self.sinks@.len() - i,
        {
            let sink = self.sinks[i];
            proof {
                let next = self.sinks@.take(i + 1);
                assert(next.drop_last() =~= self.sinks@.take(i as int));
                assert(next.last() == sink);
            }
            if sink != msg.0 {
                kept.push(sink);
            }
            i += 1;
        }
        proof {
            assert(self.sinks@.take(i as int) =~= self.sinks@);
            lemma_without(self.sinks@, msg.0);
        }
        self.sinks = kept;
    }

    /// Drops every sink to which a send failed.
    pub fn send_failed(&mut self, failed: &Vec<u64>)
        ensures
            final(self)@ == without_all(old(self)@, failed@),
    {
        let mut i: usize = 0;
        while i < failed.len()
            invariant
                i <= failed@.len(),
                self@ == without_all(old(self)@, failed@.take(i as int)),
            decreases failed@.len() - i,
        {
            proof {
                let next = failed@.take(i + 1);
                assert(next.drop_last() =~= failed@.take(i as int));
                assert(next.last() == failed@[i as int]);
            }
            self.unregister_sink(UnregisterSink(failed[i]));
            i += 1;
        }
        proof {
            assert(failed@.take(i as int) =~= failed@);
        }
    }

    /// Broadcasts an event: the event is written out once, and the frame goes
    /// to every subscribed sink, in the order of subscription.
    pub fn things_message(&self, msg: ThingsMessage) -> (broadcast: Broadcast)
        ensures
            broadcast.frame@ == frame(msg.0@),
            broadcast.sinks@ == self@,
    {
        Broadcast { frame: msg.0.to_frame(), sinks: self.sinks.clone() }
    }
}

} // verus!
