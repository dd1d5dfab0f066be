//! The live event feed. Each message body is a JSON list of events; each event
//! has a type and a list of resources, tagged by their `type` member. A tag
//! this library does not know becomes `Unknown` rather than failing the batch;
//! a body that cannot be read becomes an error event, and the feed goes on.
use vstd::prelude::*;
use crate::json::{field_of, get_field, get_str_field, json_decoded, parse_json, str_field_of, Json};

verus! {

/// The message of the error event for a body that is JSON but no batch of events.
pub const EVENT_SHAPE_MSG: &'static str = "expected a list of events";

/// The kind of change an event reports.
#[derive(Debug, Clone, Copy, PartialEq, Eq)]
pub enum EventType {
    Update,
    Add,
    Delete,
    Error,
    Unknown,
}

/// One resource carried by an event, by the tag it came with; the resource is
/// kept as the JSON object it was sent as.
#[derive(Debug)]
pub enum EventData {
    BridgeHome(Json),
    Device(Json),
    GroupedLight(Json),
    Light(Json),
    Room(Json),
    Scene(Json),
    SmartScene(Json),
    Zone(Json),
    Unknown,
}

/// One event of a batch.
#[derive(Debug)]
pub struct Event {
    pub data: Vec<EventData>,
    pub event_type: EventType,
}

/// What the feed yields for one message, or for a failure of the feed.
#[derive(Debug)]
pub enum HueEvent {
    Events(Vec<Event>),
    Error(String),
}

/// The event type that a `type` member names.
pub open spec fn event_type_of(t: Seq<char>) -> Option<EventType> {
    if t == "update"@ {
        Some(EventType::Update)
    } else if t == "add"@ {
        Some(EventType::Add)
    } else if t == "delete"@ {
        Some(EventType::Delete)
    } else if t == "error"@ {
        Some(EventType::Error)
    } else if t == "unknown"@ {
        Some(EventType::Unknown)
    } else {
        None
    }
}

/// Whether `t` is the tag of a resource this library knows.
pub open spec fn is_known_tag(t: Seq<char>) -> bool {
    t == "bridge_home"@ || t == "device"@ || t == "grouped_light"@ || t == "light"@ || t == "room"@
        || t == "scene"@ || t == "smart_scene"@ || t == "zone"@
}

/// The resource that an element of an event's data stands for: an object with
/// a string `type`, by that tag, and `Unknown` for a tag not known here. A
/// record of a known type must carry its string `id`.
pub open spec fn event_data_of(j: Json) -> Option<EventData> {
    match field_of(j, "type"@) {
        Some(Json::Str(t)) => if is_known_tag(t@) && str_field_of(j, "id"@) is None {
            None
        } else {
            Some(
                if t@ == "bridge_home"@ {
                    EventData::BridgeHome(j)
                } else if t@ == "device"@ {
                    EventData::Device(j)
                } else if t@ == "grouped_light"@ {
                    EventData::GroupedLight(j)
                } else if t@ == "light"@ {
                    EventData::Light(j)
                } else if t@ == "room"@ {
                    EventData::Room(j)
                } else if t@ == "scene"@ {
                    EventData::Scene(j)
                } else if t@ == "smart_scene"@ {
                    EventData::SmartScene(j)
                } else if t@ == "zone"@ {
                    EventData::Zone(j)
                } else {
                    EventData::Unknown
                },
            )
        },
        _ => None,
    }
}

/// The tag of an event element, where it has a string one.
pub open spec fn tag_of(j: Json) -> Option<Seq<char>> {
    match field_of(j, "type"@) {
        Some(Json::Str(t)) => Some(t@),
        _ => None,
    }
}

/// An element of event data that can be read.
pub open spec fn readable_data(j: Json) -> bool {
    event_data_of(j) is Some
}

/// An event object that can be read: a known event type and a list of readable data.
pub open spec fn readable_event(j: Json) -> bool {
    &&& tag_of(j) matches Some(t) && event_type_of(t) is Some
    &&& field_of(j, "data"@) matches Some(Json::Array(items))
    &&& forall|i: int| 0 <= i < items@.len() ==> #[trigger] readable_data(items@[i])
}

/// `e` is what the event object `j` holds.
pub open spec fn is_event_of(j: Json, e: Event) -> bool {
    &&& tag_of(j) matches Some(t) && event_type_of(t) == Some(e.event_type)
    &&& field_of(j, "data"@) matches Some(Json::Array(items))
    &&& e.data@.len() == items@.len()
    &&& forall|i: int| 0 <= i < items@.len() ==> event_data_of(items@[i]) == Some(#[trigger] e.data@[i])
}

/// What a decoded message yields: the batch when every event can be read,
/// else one error event.
pub open spec fn batch_outcome(j: Json, r: HueEvent) -> bool {
    match j {
        Json::Array(items) => if forall|i: int| 0 <= i < items@.len() ==> #[trigger] readable_event(items@[i]) {
            r matches HueEvent::Events(es) && es@.len() == items@.len() && forall|i: int|
                0 <= i < items@.len() ==> is_event_of(items@[i], #[trigger] es@[i])
        } else {
            r matches HueEvent::Error(m) && m@ == EVENT_SHAPE_MSG@
        },
        _ => r matches HueEvent::Error(m) && m@ == EVENT_SHAPE_MSG@,
    }
}

fn text_is(s: &String, t: &str) -> (r: bool)
    ensures
        r == (s@ == t@),
{
    *s == t.to_owned()
}

fn tag(j: &Json) -> (r: Option<&String>)
    ensures
        match r {
            Some(t) => tag_of(*j) == Some(t@),
            None => tag_of(*j) is None,
        },
{
    match get_field(j, "type") {
        Some(Json::Str(t)) => Some(t),
        _ => None,
    }
}

/// Reads one element of an event's data.
pub fn decode_event_data(j: Json) -> (r: Option<EventData>)
    ensures
        r == event_data_of(j),
{
    let kind: usize = match tag(&j) {
        None => return None,
        Some(t) => if text_is(t, "bridge_home") {
            0
        } else if text_is(t, "device") {
            1
        } else if text_is(t, "grouped_light") {
            2
        } else if text_is(t, "light") {
            3
        } else if text_is(t, "room") {
            4
        } else if text_is(t, "scene") {
            5
        } else if text_is(t, "smart_scene") {
            6
        } else if text_is(t, "zone") {
            7
        } else {
            8
        },
    };
    if kind < 8 && get_str_field(&j, "id").is_none() {
        return None;
    }
    Some(
        if kind == 0 {
            EventData::BridgeHome(j)
        } else if kind == 1 {
            EventData::Device(j)
        } else if kind == 2 {
            EventData::GroupedLight(j)
        } else if kind == 3 {
            EventData::Light(j)
        } else if kind == 4 {
            EventData::Room(j)
        } else if kind == 5 {
            EventData::Scene(j)
        } else if kind == 6 {
            EventData::SmartScene(j)
        } else if kind == 7 {
            EventData::Zone(j)
        } else {
            EventData::Unknown
        },
    )
}

fn decode_event_type(t: &String) -> (r: Option<EventType>)
    ensures
        r == event_type_of(t@),
{
    if text_is(t, "update") {
        Some(EventType::Update)
    } else if text_is(t, "add") {
        Some(EventType::Add)
    } else if text_is(t, "delete") {
        Some(EventType::Delete)
    } else if text_is(t, "error") {
        Some(EventType::Error)
    } else if text_is(t, "unknown") {
        Some(EventType::Unknown)
    } else {
        None
    }
}

/// Moves the member `key` out of an object's members.
fn take_member(fields: Vec<(String, Json)>, key: &str) -> (r: Option<Json>)
    ensures
        r == crate::json::member_of(fields@, key@),
{
    let ghost all = fields@;
    let mut fields = fields;
    let mut found: Option<Json> = None;
    let mut i: usize = 0;
    let n = fields.len();
    while fields.len() > 0
        invariant
            i + fields@.len() == n,
            n == all.len(),
            fields@ == all.subrange(i as int, n as int),
            found == crate::json::member_of(all.subrange(0, i as int), key@),
        decreases fields@.len(),
    {
        let (k, v) = fields.remove(0);
        assert(all.subrange(0, i + 1).drop_last() =~= all.subrange(0, i as int));
        assert(all[i as int] == (k, v));
        assert(fields@ =~= all.subrange(i + 1, n as int));
        if text_is(&k, key) {
            found = Some(v);
        }
        i = i + 1;
    }
    assert(all.subrange(0, n as int) =~= all);
    found
}

/// Reads one event object.
pub fn decode_event(j: Json) -> (r: Option<Event>)
    ensures
        match r {
            Some(e) => readable_event(j) && is_event_of(j, e),
            None => !readable_event(j),
        },
{
    let event_type = match tag(&j) {
        None => return None,
        Some(t) => match decode_event_type(t) {
            None => return None,
            Some(k) => k,
        },
    };
    let ghost whole = j;
    let fields = match j {
        Json::Object(fields) => fields,
        _ => return None,
    };
    let items = match take_member(fields, "data") {
        Some(Json::Array(items)) => items,
        _ => return None,
    };
    let ghost all = items@;
    let ghost arr = Json::Array(items);
    assert(field_of(whole, "data"@) == Some(arr));
    let mut items = items;
    let mut data: Vec<EventData> = Vec::new();
    while items.len() > 0
        invariant
            whole == j,
            field_of(whole, "data"@) == Some(arr),
            arr matches Json::Array(v) && v@ == all,
            data@.len() + items@.len() == all.len(),
            items@ == all.subrange(data@.len() as int, all.len() as int),
            forall|m: int| 0 <= m < data@.len() ==> event_data_of(all[m]) == Some(#[trigger] data@[m]),
        decreases items@.len(),
    {
        let ghost k: int = data@.len() as int;
        let item = items.remove(0);
        assert(item == all[k]);
        assert(items@ =~= all.subrange(k + 1, all.len() as int));
        match decode_event_data(item) {
            Some(d) => data.push(d),
            None => {
                assert(!readable_data(all[k]));
                return None;
            },
        }
    }
    assert forall|m: int| 0 <= m < all.len() implies #[trigger] readable_data(all[m]) by {
        assert(event_data_of(all[m]) == Some(data@[m]));
    }
    Some(Event { data, event_type })
}

/// Reads a decoded message body as a batch of events; a body of another
/// shape gives one error event.
pub fn decode_events_json(j: Json) -> (r: HueEvent)
    ensures
        batch_outcome(j, r),
{
    let ghost whole = j;
    let items = match j {
        Json::Array(items) => items,
        _ => return HueEvent::Error(EVENT_SHAPE_MSG.to_owned()),
    };
    let ghost all = items@;
    let mut items = items;
    let mut events: Vec<Event> = Vec::new();
    while items.len() > 0
        invariant
            whole == j,
            whole matches Json::Array(v) && v@ == all,
            events@.len() + items@.len() == all.len(),
            items@ == all.subrange(events@.len() as int, all.len() as int),
            forall|m: int| 0 <= m < events@.len() ==> #[trigger] readable_event(all[m]),
            forall|m: int| 0 <= m < events@.len() ==> is_event_of(all[m], #[trigger] events@[m]),
        decreases items@.len(),
    {
        let ghost k: int = events@.len() as int;
        let item = items.remove(0);
        assert(item == all[k]);
        assert(items@ =~= all.subrange(k + 1, all.len() as int));
        match decode_event(item) {
            Some(e) => events.push(e),
            None => {
                assert(!readable_event(all[k]));
                return HueEvent::Error(EVENT_SHAPE_MSG.to_owned());
            },
        }
    }
    HueEvent::Events(events)
}

/// What a message body yields: its batch of events, or one error event
/// carrying the decoder's message.
pub open spec fn message_outcome(body: Seq<char>, r: HueEvent) -> bool {
    match json_decoded(body) {
        Ok(j) => batch_outcome(j, r),
        Err(m) => r matches HueEvent::Error(t) && t@ == m,
    }
}

/// Reads one message body of the feed.
pub fn decode_message(body: &str) -> (r: HueEvent)
    ensures
        message_outcome(body@, r),
{
    match parse_json(body) {
        Ok(j) => decode_events_json(j),
        Err(m) => HueEvent::Error(m),
    }
}

/// What the event source hands over.
#[derive(Debug)]
pub enum FeedItem {
    /// The connection is open.
    Open,
    /// A message with this body.
    Message(String),
    /// The feed failed, with the failure's text.
    Failure(String),
}

/// What the feed does with one item: the event it yields, if any, and whether
/// it goes on.
#[derive(Debug)]
pub struct FeedStep {
    pub emit: Option<HueEvent>,
    pub go_on: bool,
}

/// The feed's handling of an item: the opening yields nothing; a message
/// yields what its body decodes to, readable or not, and the feed goes on; a
/// failure yields one error event and ends the feed, which never reconnects.
pub open spec fn feed_outcome(item: FeedItem, r: FeedStep) -> bool {
    match item {
        FeedItem::Open => r.emit is None && r.go_on,
        FeedItem::Message(body) => r.go_on && (r.emit matches Some(e) && message_outcome(body@, e)),
        FeedItem::Failure(m) => !r.go_on && (r.emit matches Some(HueEvent::Error(t)) && t@ == m@),
    }
}

/// Handles one item of the event source.
pub fn feed_step(item: FeedItem) -> (r: FeedStep)
    ensures
        feed_outcome(item, r),
{
    match item {
        FeedItem::Open => FeedStep { emit: None, go_on: true },
        FeedItem::Message(body) => FeedStep { emit: Some(decode_message(body.as_str())), go_on: true },
        FeedItem::Failure(m) => FeedStep { emit: Some(HueEvent::Error(m)), go_on: false },
    }
}

/// A resource whose tag is not known here is kept as `Unknown`; it does not
/// make its event unreadable.
pub proof fn lemma_unknown_tag_kept(j: Json)
    requires
        tag_of(j) matches Some(t) && !is_known_tag(t),
    ensures
        event_data_of(j) == Some(EventData::Unknown),
        readable_data(j),
{
}

/// A body that is not JSON yields one error event, and the feed goes on to
/// the next message.
pub proof fn lemma_bad_body_keeps_feed(body: String, r: FeedStep)
    requires
        json_decoded(body@) is Err,
        feed_outcome(FeedItem::Message(body), r),
    ensures
        r.go_on,
        r.emit matches Some(HueEvent::Error(_)),
{
}

/// A message never ends the feed; only a failure of the feed does.
pub proof fn lemma_only_failure_ends_feed(item: FeedItem, r: FeedStep)
    requires
        feed_outcome(item, r),
    ensures
        !r.go_on <==> item is Failure,
{
}

} // verus!
