//! The conversation with a cast device: what is sent, and what the answers say.

use crate::cast::frame::{encode_cast_frame, frame_body, length_bytes};
use crate::json::{
    items_of, json_text, member, members, number_of, object, parse_json, parsed_json, text_of,
    trees, write_json, Json, JsonView,
};
use crate::text::{decimal, decimal_text, option_text, owned, text_equal};
use vstd::prelude::*;

verus! {

pub const CAST_DEFAULT_MEDIA_RECEIVER_APP_ID: &'static str = "CC1AD845";

pub const CAST_NAMESPACE_CONNECTION: &'static str = "urn:x-cast:com.google.cast.tp.connection";

pub const CAST_NAMESPACE_HEARTBEAT: &'static str = "urn:x-cast:com.google.cast.tp.heartbeat";

pub const CAST_NAMESPACE_RECEIVER: &'static str = "urn:x-cast:com.google.cast.receiver";

pub const CAST_NAMESPACE_MEDIA: &'static str = "urn:x-cast:com.google.cast.media";

/// A message to a cast device.
#[derive(Debug)]
pub struct Outgoing {
    pub namespace: String,
    pub destination: String,
    pub payload: Json,
}

/// The contents of an [`Outgoing`] message.
#[verifier::ext_equal]
pub struct OutgoingView {
    pub namespace: Seq<char>,
    pub destination: Seq<char>,
    pub payload: JsonView,
}

impl View for Outgoing {
    type V = OutgoingView;

    open spec fn view(&self) -> OutgoingView {
        OutgoingView {
            namespace: self.namespace@,
            destination: self.destination@,
            payload: self.payload.tree(),
        }
    }
}

/// What the player knows of the conversation.
#[derive(Debug, PartialEq, Eq)]
pub struct CastChannel {
    pub receiver_id: String,
    pub sender_id: String,
    pub media_transport_id: String,
    pub receiver_app_session_id: Option<String>,
    pub next_request_id: i64,
}

/// The contents of a [`CastChannel`].
#[verifier::ext_equal]
pub struct ChannelView {
    pub receiver_id: Seq<char>,
    pub sender_id: Seq<char>,
    pub media_transport_id: Seq<char>,
    pub receiver_app_session_id: Option<Seq<char>>,
    pub next_request_id: i64,
}

impl View for CastChannel {
    type V = ChannelView;

    open spec fn view(&self) -> ChannelView {
        ChannelView {
            receiver_id: self.receiver_id@,
            sender_id: self.sender_id@,
            media_transport_id: self.media_transport_id@,
            receiver_app_session_id: option_text(self.receiver_app_session_id),
            next_request_id: self.next_request_id,
        }
    }
}

pub open spec fn text_value(text: Seq<char>) -> JsonView {
    JsonView::Text(text)
}

pub open spec fn number_value(n: nat) -> JsonView {
    JsonView::Number(decimal(n))
}

/// An object with a type alone.
pub open spec fn plain_message(kind: Seq<char>) -> JsonView {
    JsonView::Object(seq![("type"@, text_value(kind))])
}

/// The message that opens a connection.
pub open spec fn connect_payload() -> JsonView {
    JsonView::Object(
        seq![
            ("type"@, text_value("CONNECT"@)),
            ("origin"@, JsonView::Object(Seq::empty())),
        ],
    )
}

/// A numbered request without further contents.
pub open spec fn request_payload(kind: Seq<char>, request_id: nat) -> JsonView {
    JsonView::Object(seq![("type"@, text_value(kind)), ("requestId"@, number_value(request_id))])
}

/// The request that starts the media receiver.
pub open spec fn launch_payload(request_id: nat) -> JsonView {
    JsonView::Object(
        seq![
            ("type"@, text_value("LAUNCH"@)),
            ("appId"@, text_value(CAST_DEFAULT_MEDIA_RECEIVER_APP_ID@)),
            ("requestId"@, number_value(request_id)),
        ],
    )
}

/// What is played: the address of a file and its type.
pub open spec fn media_value(url: Seq<char>, content_type: Seq<char>) -> JsonView {
    JsonView::Object(
        seq![
            ("contentId"@, text_value(url)),
            ("streamType"@, text_value("BUFFERED"@)),
            ("contentType"@, text_value(content_type)),
            (
                "metadata"@,
                JsonView::Object(seq![("metadataType"@, JsonView::Number(decimal(0)))]),
            ),
        ],
    )
}

/// The request that plays a file. The position, if one is given, is written as a number.
pub open spec fn load_payload(
    request_id: nat,
    url: Seq<char>,
    content_type: Seq<char>,
    position: Option<Seq<char>>,
) -> JsonView {
    let start = seq![
        ("type"@, text_value("LOAD"@)),
        ("requestId"@, number_value(request_id)),
        ("autoplay"@, JsonView::Bool(true)),
        ("media"@, media_value(url, content_type)),
    ];
    JsonView::Object(
        match position {
            Some(number) => start.push(("currentTime"@, JsonView::Number(number))),
            None => start,
        },
    )
}

/// The request that moves to a position, which is written as a number.
pub open spec fn seek_payload(request_id: nat, position: Seq<char>) -> JsonView {
    JsonView::Object(
        seq![
            ("type"@, text_value("SEEK"@)),
            ("requestId"@, number_value(request_id)),
            ("currentTime"@, JsonView::Number(position)),
            ("resumeState"@, text_value("PLAYBACK_START"@)),
        ],
    )
}

/// The request that sets the volume, which is written as a number.
pub open spec fn volume_payload(request_id: nat, level: Seq<char>) -> JsonView {
    JsonView::Object(
        seq![
            ("type"@, text_value("SET_VOLUME"@)),
            ("requestId"@, number_value(request_id)),
            ("volume"@, JsonView::Object(seq![("level"@, JsonView::Number(level))])),
        ],
    )
}

/// The request that stops the media receiver.
pub open spec fn stop_app_payload(request_id: nat, session_id: Seq<char>) -> JsonView {
    JsonView::Object(
        seq![
            ("type"@, text_value("STOP"@)),
            ("requestId"@, number_value(request_id)),
            ("sessionId"@, text_value(session_id)),
        ],
    )
}

fn text_json(text: &str) -> (r: Json)
    ensures
        r.tree() == text_value(text@),
{
    Json::Text(owned(text))
}

fn number_json(n: i64) -> (r: Json)
    requires
        n >= 0,
    ensures
        r.tree() == number_value(n as nat),
{
    Json::Number(decimal_text(n as u64))
}

fn put(entries: &mut Vec<(String, Json)>, key: &str, value: Json)
    ensures
        members(final(entries)@) == members(old(entries)@).push((key@, value.tree())),
{
    let ghost before = members(entries@);
    entries.push((owned(key), value));
    assert(members(entries@) =~= before.push((key@, value.tree())));
}

fn no_entries() -> (r: Vec<(String, Json)>)
    ensures
        members(r@) == Seq::<(Seq<char>, JsonView)>::empty(),
{
    let r: Vec<(String, Json)> = Vec::new();
    assert(members(r@) =~= Seq::empty());
    r
}

fn plain(kind: &str) -> (r: Json)
    ensures
        r.tree() == plain_message(kind@),
{
    let mut entries = no_entries();
    put(&mut entries, "type", text_json(kind));
    assert(members(entries@) =~= seq![("type"@, text_value(kind@))]);
    object(entries)
}

fn connect_json() -> (r: Json)
    ensures
        r.tree() == connect_payload(),
{
    let mut entries = no_entries();
    put(&mut entries, "type", text_json("CONNECT"));
    put(&mut entries, "origin", object(no_entries()));
    assert(members(entries@) =~= connect_payload()->Object_0);
    object(entries)
}

fn request_json(kind: &str, request_id: i64) -> (r: Json)
    requires
        request_id >= 0,
    ensures
        r.tree() == request_payload(kind@, request_id as nat),
{
    let mut entries = no_entries();
    put(&mut entries, "type", text_json(kind));
    put(&mut entries, "requestId", number_json(request_id));
    assert(members(entries@) =~= request_payload(kind@, request_id as nat)->Object_0);
    object(entries)
}

/// The messages that stop playback and close the connection, in their order.
pub open spec fn shutdown_messages(c: ChannelView) -> Seq<OutgoingView> {
    let stop_media = OutgoingView {
        namespace: CAST_NAMESPACE_MEDIA@,
        destination: c.media_transport_id,
        payload: request_payload("STOP"@, c.next_request_id as nat),
    };
    let close_media = OutgoingView {
        namespace: CAST_NAMESPACE_CONNECTION@,
        destination: c.media_transport_id,
        payload: plain_message("CLOSE"@),
    };
    let close_receiver = OutgoingView {
        namespace: CAST_NAMESPACE_CONNECTION@,
        destination: c.receiver_id,
        payload: plain_message("CLOSE"@),
    };
    match c.receiver_app_session_id {
        Some(session_id) => seq![
            stop_media,
            OutgoingView {
                namespace: CAST_NAMESPACE_RECEIVER@,
                destination: c.receiver_id,
                payload: stop_app_payload((c.next_request_id + 1) as nat, session_id),
            },
            close_media,
            close_receiver,
        ],
        None => seq![stop_media, close_media, close_receiver],
    }
}

/// A request id can be given out.
pub open spec fn has_request_ids(c: ChannelView, count: int) -> bool {
    0 <= c.next_request_id && c.next_request_id + count <= i64::MAX
}

pub open spec fn after_request(c: ChannelView) -> ChannelView {
    ChannelView { next_request_id: (c.next_request_id + 1) as i64, ..c }
}

pub open spec fn to_media(c: ChannelView, payload: JsonView) -> OutgoingView {
    OutgoingView {
        namespace: CAST_NAMESPACE_MEDIA@,
        destination: c.media_transport_id,
        payload,
    }
}

pub open spec fn to_receiver(c: ChannelView, payload: JsonView) -> OutgoingView {
    OutgoingView { namespace: CAST_NAMESPACE_RECEIVER@, destination: c.receiver_id, payload }
}

/// A request to the media receiver without further contents.
#[derive(Debug, Clone, Copy, PartialEq, Eq, Structural)]
pub enum MediaRequest {
    Play,
    Pause,
    Stop,
    Status,
}

pub open spec fn request_word(request: MediaRequest) -> Seq<char> {
    match request {
        MediaRequest::Play => "PLAY"@,
        MediaRequest::Pause => "PAUSE"@,
        MediaRequest::Stop => "STOP"@,
        MediaRequest::Status => "GET_STATUS"@,
    }
}

impl CastChannel {
    /// A conversation that has just begun.
    pub fn new() -> (r: CastChannel)
        ensures
            r@ == (ChannelView {
                receiver_id: "receiver-0"@,
                sender_id: "sender-roqtune"@,
                media_transport_id: "receiver-0"@,
                receiver_app_session_id: None,
                next_request_id: 1,
            }),
    {
        CastChannel {
            receiver_id: owned("receiver-0"),
            sender_id: owned("sender-roqtune"),
            media_transport_id: owned("receiver-0"),
            receiver_app_session_id: None,
            next_request_id: 1,
        }
    }

    fn alloc_request_id(&mut self) -> (r: i64)
        requires
            has_request_ids(old(self)@, 1),
        ensures
            r == old(self)@.next_request_id,
            final(self)@ == after_request(old(self)@),
    {
        let id: i64 = self.next_request_id;
        self.next_request_id = id + 1;
        id
    }

    fn media_message(&self, payload: Json) -> (r: Outgoing)
        ensures
            r@ == to_media(self@, payload.tree()),
    {
        Outgoing {
            namespace: owned(CAST_NAMESPACE_MEDIA),
            destination: self.media_transport_id.clone(),
            payload,
        }
    }

    fn receiver_message(&self, payload: Json) -> (r: Outgoing)
        ensures
            r@ == to_receiver(self@, payload.tree()),
    {
        Outgoing {
            namespace: owned(CAST_NAMESPACE_RECEIVER),
            destination: self.receiver_id.clone(),
            payload,
        }
    }

    /// Opens the connection with the device.
    pub fn connect_receiver(&self) -> (r: Outgoing)
        ensures
            r@ == (OutgoingView {
                namespace: CAST_NAMESPACE_CONNECTION@,
                destination: self@.receiver_id,
                payload: connect_payload(),
            }),
    {
        Outgoing {
            namespace: owned(CAST_NAMESPACE_CONNECTION),
            destination: self.receiver_id.clone(),
            payload: connect_json(),
        }
    }

    /// Opens the connection with the media receiver.
    pub fn connect_media(&self) -> (r: Outgoing)
        ensures
            r@ == (OutgoingView {
                namespace: CAST_NAMESPACE_CONNECTION@,
                destination: self@.media_transport_id,
                payload: connect_payload(),
            }),
    {
        Outgoing {
            namespace: owned(CAST_NAMESPACE_CONNECTION),
            destination: self.media_transport_id.clone(),
            payload: connect_json(),
        }
    }

    /// Starts the media receiver.
    pub fn launch(&mut self) -> (r: Outgoing)
        requires
            has_request_ids(old(self)@, 1),
        ensures
            final(self)@ == after_request(old(self)@),
            r@ == to_receiver(old(self)@, launch_payload(old(self)@.next_request_id as nat)),
    {
        let id: i64 = self.alloc_request_id();
        let mut entries = no_entries();
        put(&mut entries, "type", text_json("LAUNCH"));
        put(&mut entries, "appId", text_json(CAST_DEFAULT_MEDIA_RECEIVER_APP_ID));
        put(&mut entries, "requestId", number_json(id));
        assert(members(entries@) =~= launch_payload(id as nat)->Object_0);
        self.receiver_message(object(entries))
    }

    /// The media receiver has started.
    pub fn adopt(&mut self, transport_id: String, session_id: String)
        ensures
            final(self)@ == (ChannelView {
                media_transport_id: transport_id@,
                receiver_app_session_id: Some(session_id@),
                ..old(self)@
            }),
    {
        self.media_transport_id = transport_id;
        self.receiver_app_session_id = Some(session_id);
    }

    /// Plays a file. The position, if one is given, is written as a number.
    pub fn load_media(&mut self, url: &str, content_type: &str, position: Option<&str>) -> (r:
        Outgoing)
        requires
            has_request_ids(old(self)@, 1),
        ensures
            final(self)@ == after_request(old(self)@),
            r@ == to_media(
                old(self)@,
                load_payload(
                    old(self)@.next_request_id as nat,
                    url@,
                    content_type@,
                    match position {
                        Some(number) => Some(number@),
                        None => None,
                    },
                ),
            ),
    {
        let id: i64 = self.alloc_request_id();
        let mut metadata = no_entries();
        put(&mut metadata, "metadataType", number_json(0));
        assert(members(metadata@) =~= seq![("metadataType"@, JsonView::Number(decimal(0)))]);
        let mut media = no_entries();
        put(&mut media, "contentId", text_json(url));
        put(&mut media, "streamType", text_json("BUFFERED"));
        put(&mut media, "contentType", text_json(content_type));
        put(&mut media, "metadata", object(metadata));
        assert(members(media@) =~= media_value(url@, content_type@)->Object_0);
        let mut entries = no_entries();
        put(&mut entries, "type", text_json("LOAD"));
        put(&mut entries, "requestId", number_json(id));
        put(&mut entries, "autoplay", Json::Bool(true));
        put(&mut entries, "media", object(media));
        let ghost start = load_payload(id as nat, url@, content_type@, None)->Object_0;
        assert(members(entries@) =~= start);
        match position {
            Some(number) => {
                put(&mut entries, "currentTime", Json::Number(owned(number)));
            },
            None => {},
        }
        self.media_message(object(entries))
    }

    /// A request to the media receiver without further contents.
    pub fn media_request(&mut self, request: MediaRequest) -> (r: Outgoing)
        requires
            has_request_ids(old(self)@, 1),
        ensures
            final(self)@ == after_request(old(self)@),
            r@ == to_media(
                old(self)@,
                request_payload(request_word(request), old(self)@.next_request_id as nat),
            ),
    {
        let id: i64 = self.alloc_request_id();
        let word: &str = match request {
            MediaRequest::Play => "PLAY",
            MediaRequest::Pause => "PAUSE",
            MediaRequest::Stop => "STOP",
            MediaRequest::Status => "GET_STATUS",
        };
        self.media_message(request_json(word, id))
    }

    /// Moves to a position, which is written as a number.
    pub fn seek(&mut self, position: &str) -> (r: Outgoing)
        requires
            has_request_ids(old(self)@, 1),
        ensures
            final(self)@ == after_request(old(self)@),
            r@ == to_media(
                old(self)@,
                seek_payload(old(self)@.next_request_id as nat, position@),
            ),
    {
        let id: i64 = self.alloc_request_id();
        let mut entries = no_entries();
        put(&mut entries, "type", text_json("SEEK"));
        put(&mut entries, "requestId", number_json(id));
        put(&mut entries, "currentTime", Json::Number(owned(position)));
        put(&mut entries, "resumeState", text_json("PLAYBACK_START"));
        assert(members(entries@) =~= seek_payload(id as nat, position@)->Object_0);
        self.media_message(object(entries))
    }

    /// Sets the volume, which is written as a number.
    pub fn set_volume(&mut self, level: &str) -> (r: Outgoing)
        requires
            has_request_ids(old(self)@, 1),
        ensures
            final(self)@ == after_request(old(self)@),
            r@ == to_receiver(
                old(self)@,
                volume_payload(old(self)@.next_request_id as nat, level@),
            ),
    {
        let id: i64 = self.alloc_request_id();
        let mut volume = no_entries();
        put(&mut volume, "level", Json::Number(owned(level)));
        assert(members(volume@) =~= seq![("level"@, JsonView::Number(level@))]);
        let mut entries = no_entries();
        put(&mut entries, "type", text_json("SET_VOLUME"));
        put(&mut entries, "requestId", number_json(id));
        put(&mut entries, "volume", object(volume));
        assert(members(entries@) =~= volume_payload(id as nat, level@)->Object_0);
        self.receiver_message(object(entries))
    }

    /// Stops the media receiver.
    pub fn stop_receiver_app(&mut self) -> (r: Result<Outgoing, String>)
        requires
            has_request_ids(old(self)@, 1),
        ensures
            match old(self)@.receiver_app_session_id {
                Some(session_id) => r is Ok && final(self)@ == after_request(old(self)@)
                    && r->Ok_0@ == to_receiver(
                    old(self)@,
                    stop_app_payload(old(self)@.next_request_id as nat, session_id),
                ),
                None => r is Err && r->Err_0@ == "cast receiver session id is not available"@
                    && final(self)@ == old(self)@,
            },
    {
        let session_id = match &self.receiver_app_session_id {
            Some(session_id) => session_id.clone(),
            None => {
                return Err(owned("cast receiver session id is not available"));
            },
        };
        let id: i64 = self.alloc_request_id();
        let mut entries = no_entries();
        put(&mut entries, "type", text_json("STOP"));
        put(&mut entries, "requestId", number_json(id));
        put(&mut entries, "sessionId", text_json(session_id.as_str()));
        assert(members(entries@) =~= stop_app_payload(id as nat, session_id@)->Object_0);
        Ok(self.receiver_message(object(entries)))
    }

    fn close(&self, destination: &String) -> (r: Outgoing)
        ensures
            r@ == (OutgoingView {
                namespace: CAST_NAMESPACE_CONNECTION@,
                destination: destination@,
                payload: plain_message("CLOSE"@),
            }),
    {
        Outgoing {
            namespace: owned(CAST_NAMESPACE_CONNECTION),
            destination: destination.clone(),
            payload: plain("CLOSE"),
        }
    }

    /// The messages that stop playback and close the connection, in their order.
    pub fn shutdown(&mut self) -> (r: Vec<Outgoing>)
        requires
            has_request_ids(old(self)@, 2),
        ensures
            crate::protocol::views(r@) == shutdown_messages(old(self)@),
            final(self)@ == (ChannelView {
                receiver_app_session_id: None,
                next_request_id: (old(self)@.next_request_id + (if old(
                    self,
                )@.receiver_app_session_id is Some {
                    2int
                } else {
                    1int
                })) as i64,
                ..old(self)@
            }),
    {
        let ghost start = self@;
        let mut out: Vec<Outgoing> = Vec::new();
        out.push(self.media_request(MediaRequest::Stop));
        match self.stop_receiver_app() {
            Ok(message) => {
                out.push(message);
            },
            Err(_) => {},
        }
        out.push(self.close(&self.media_transport_id));
        out.push(self.close(&self.receiver_id));
        self.receiver_app_session_id = None;
        assert(crate::protocol::views(out@) =~= shutdown_messages(start));
        out
    }

    /// The frame that carries a message.
    pub fn frame(&self, message: &Outgoing) -> (r: Result<Vec<u8>, String>)
        ensures
            ({
                let body = frame_body(
                    self@.sender_id,
                    message@.destination,
                    message@.namespace,
                    json_text(message@.payload),
                );
                match r {
                    Ok(frame) => body.len() <= u32::MAX && frame@ == length_bytes(body.len())
                        + body,
                    Err(e) => body.len() > u32::MAX && e@ == "cast frame too large"@,
                }
            }),
    {
        let text = write_json(&message.payload);
        encode_cast_frame(
            self.sender_id.as_str(),
            message.destination.as_str(),
            message.namespace.as_str(),
            text.as_str(),
        )
    }

    /// The answer to a message that asks whether the player is still there.
    pub fn heartbeat_reply(&self, payload: &str) -> (r: Option<Outgoing>)
        ensures
            (match r {
                Some(message) => Some(message@),
                None => None,
            }) == (match parsed_json(payload@) {
                Ok(value) => if is_ping(value) {
                    Some(
                        OutgoingView {
                            namespace: CAST_NAMESPACE_HEARTBEAT@,
                            destination: self@.receiver_id,
                            payload: plain_message("PONG"@),
                        },
                    )
                } else {
                    None
                },
                Err(_) => None,
            }),
    {
        match parse_json(payload) {
            Ok(value) => {
                if asks_for_reply(&value) {
                    Some(
                        Outgoing {
                            namespace: owned(CAST_NAMESPACE_HEARTBEAT),
                            destination: self.receiver_id.clone(),
                            payload: plain("PONG"),
                        },
                    )
                } else {
                    None
                }
            },
            Err(_) => None,
        }
    }
}

/// The message asks whether the player is still there.
pub open spec fn is_ping(value: JsonView) -> bool {
    text_of(member(value, "type"@)) == Some("PING"@)
}

/// Whether a message asks whether the player is still there.
pub fn asks_for_reply(value: &Json) -> (r: bool)
    ensures
        r == is_ping(value.tree()),
{
    match value.text_at("type") {
        Some(kind) => text_equal(kind, "PING"),
        None => false,
    }
}

/// The transport and session of the media receiver among a list of applications.
pub open spec fn app_among(apps: Seq<JsonView>) -> Option<(Seq<char>, Seq<char>)>
    decreases apps.len(),
{
    if apps.len() == 0 {
        None
    } else {
        let app = apps[0];
        match (
            text_of(member(app, "appId"@)) == Some(CAST_DEFAULT_MEDIA_RECEIVER_APP_ID@),
            text_of(member(app, "transportId"@)),
            text_of(member(app, "sessionId"@)),
        ) {
            (true, Some(transport_id), Some(session_id)) => Some((transport_id, session_id)),
            _ => app_among(apps.skip(1)),
        }
    }
}

/// The transport and session of the media receiver, if a status says that it runs.
pub open spec fn launched_app(value: JsonView) -> Option<(Seq<char>, Seq<char>)> {
    match items_of(member(member(value, "status"@), "applications"@)) {
        Some(apps) => app_among(apps),
        None => None,
    }
}

/// The transport and session of the media receiver, if a status says that it runs.
pub fn find_launched_app(value: &Json) -> (r: Option<(String, String)>)
    ensures
        (match r {
            Some((transport_id, session_id)) => Some((transport_id@, session_id@)),
            None => None,
        }) == launched_app(value.tree()),
{
    let status = match value.field("status") {
        Some(status) => status,
        None => {
            return None;
        },
    };
    let apps = match status.array_at("applications") {
        Some(apps) => apps,
        None => {
            return None;
        },
    };
    let ghost all = trees(apps@);
    let mut i: usize = 0;
    assert(all.skip(0) =~= all);
    while i < apps.len()
        invariant
            i <= apps.len(),
            all == trees(apps@),
            launched_app(value.tree()) == app_among(all),
            app_among(all.skip(i as int)) == app_among(all),
        decreases apps.len() - i,
    {
        let app = &apps[i];
        proof {
            assert(all.skip(i as int)[0] == app.tree());
            assert(all.skip(i as int).skip(1) =~= all.skip(i + 1));
        }
        let is_receiver = match app.text_at("appId") {
            Some(id) => text_equal(id, CAST_DEFAULT_MEDIA_RECEIVER_APP_ID),
            None => false,
        };
        if is_receiver {
            if let Some(transport_id) = app.text_at("transportId") {
                if let Some(session_id) = app.text_at("sessionId") {
                    return Some((owned(transport_id), owned(session_id)));
                }
            }
        }
        i += 1;
    }
    assert(all.skip(i as int) =~= Seq::empty());
    None
}

/// The transport and session that a message from the device tells.
pub fn awaited_app(namespace: &str, payload: &str) -> (r: Option<(String, String)>)
    ensures
        (match r {
            Some((transport_id, session_id)) => Some((transport_id@, session_id@)),
            None => None,
        }) == if namespace@ != CAST_NAMESPACE_RECEIVER@ {
            None
        } else {
            match parsed_json(payload@) {
                Ok(value) => launched_app(value),
                Err(_) => None,
            }
        },
{
    if !text_equal(namespace, CAST_NAMESPACE_RECEIVER) {
        return None;
    }
    match parse_json(payload) {
        Ok(value) => find_launched_app(&value),
        Err(_) => None,
    }
}

/// What the device says of the playback. Times are numbers as they are written.
#[derive(Debug, PartialEq, Eq)]
pub struct MediaStatus {
    pub player_state: String,
    pub current_time: Option<String>,
    pub duration: Option<String>,
    pub idle_reason: Option<String>,
}

/// The contents of a [`MediaStatus`].
#[verifier::ext_equal]
pub struct StatusView {
    pub player_state: Seq<char>,
    pub current_time: Option<Seq<char>>,
    pub duration: Option<Seq<char>>,
    pub idle_reason: Option<Seq<char>>,
}

impl View for MediaStatus {
    type V = StatusView;

    open spec fn view(&self) -> StatusView {
        StatusView {
            player_state: self.player_state@,
            current_time: option_text(self.current_time),
            duration: option_text(self.duration),
            idle_reason: option_text(self.idle_reason),
        }
    }
}

/// What a status message says of the playback.
pub open spec fn status_of(value: JsonView) -> Option<StatusView> {
    if text_of(member(value, "type"@)) != Some("MEDIA_STATUS"@) {
        None
    } else {
        match items_of(member(value, "status"@)) {
            Some(items) => if items.len() == 0 {
                None
            } else {
                let status = items[0];
                Some(
                    StatusView {
                        player_state: match text_of(member(status, "playerState"@)) {
                            Some(state) => state,
                            None => "UNKNOWN"@,
                        },
                        current_time: number_of(member(status, "currentTime"@)),
                        duration: number_of(member(member(status, "media"@), "duration"@)),
                        idle_reason: text_of(member(status, "idleReason"@)),
                    },
                )
            },
            None => None,
        }
    }
}

fn owned_option(text: Option<&str>) -> (r: Option<String>)
    ensures
        option_text(r) == (match text {
            Some(t) => Some(t@),
            None => None,
        }),
{
    match text {
        Some(t) => Some(owned(t)),
        None => None,
    }
}

fn number_at(value: &Json, key: &str) -> (r: Option<String>)
    ensures
        option_text(r) == number_of(member(value.tree(), key@)),
{
    match value.field(key) {
        Some(found) => owned_option(found.as_number()),
        None => None,
    }
}

/// What a status message says of the playback.
pub fn media_status(value: &Json) -> (r: Option<MediaStatus>)
    ensures
        (match r {
            Some(status) => Some(status@),
            None => None,
        }) == status_of(value.tree()),
{
    let is_status = match value.text_at("type") {
        Some(kind) => text_equal(kind, "MEDIA_STATUS"),
        None => false,
    };
    if !is_status {
        return None;
    }
    let items = match value.array_at("status") {
        Some(items) => items,
        None => {
            return None;
        },
    };
    assert(trees(items@).len() == items.len());
    if items.len() == 0 {
        return None;
    }
    let status = &items[0];
    assert(trees(items@)[0] == status.tree());
    let player_state = match status.text_at("playerState") {
        Some(state) => owned(state),
        None => owned("UNKNOWN"),
    };
    let duration = match status.field("media") {
        Some(media) => number_at(media, "duration"),
        None => None,
    };
    Some(
        MediaStatus {
            player_state,
            current_time: number_at(status, "currentTime"),
            duration,
            idle_reason: owned_option(status.text_at("idleReason")),
        },
    )
}

/// What a message from the device says of the playback.
pub fn parse_media_status(payload: &str) -> (r: Option<MediaStatus>)
    ensures
        (match r {
            Some(status) => Some(status@),
            None => None,
        }) == (match parsed_json(payload@) {
            Ok(value) => status_of(value),
            Err(_) => None,
        }),
{
    match parse_json(payload) {
        Ok(value) => media_status(&value),
        Err(_) => None,
    }
}

} // verus!
