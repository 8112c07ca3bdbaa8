//! Laws of the cast session: what is sent to the device, and what its answers say.

use crate::cast::session::{
    after_request, app_among, connect_payload, is_ping, launch_payload, launched_app,
    load_payload, media_value, plain_message, request_payload, request_word, seek_payload,
    shutdown_messages, status_of, stop_app_payload, to_media, to_receiver, volume_payload,
    ChannelView, MediaRequest,
};
use crate::json::{items_of, member, number_of, text_of, JsonView};
use crate::text::decimal;
use vstd::prelude::*;

verus! {

/// The entries of an object value hold this one.
pub open spec fn says(message: JsonView, key: Seq<char>, value: JsonView) -> bool {
    message matches JsonView::Object(entries) && entries.contains((key, value))
}

proof fn lemma_says(entries: Seq<(Seq<char>, JsonView)>, i: int)
    requires
        0 <= i < entries.len(),
    ensures
        says(JsonView::Object(entries), entries[i].0, entries[i].1),
{
    assert(entries.contains(entries[i]));
}

/// Each message says its type, and a request its number.
pub proof fn messages_say_their_type(kind: Seq<char>, id: nat)
    ensures
        says(plain_message(kind), "type"@, JsonView::Text(kind)),
        says(connect_payload(), "type"@, JsonView::Text("CONNECT"@)),
        says(request_payload(kind, id), "type"@, JsonView::Text(kind)),
        says(request_payload(kind, id), "requestId"@, JsonView::Number(decimal(id))),
        says(launch_payload(id), "type"@, JsonView::Text("LAUNCH"@)),
        says(launch_payload(id), "appId"@, JsonView::Text("CC1AD845"@)),
        says(launch_payload(id), "requestId"@, JsonView::Number(decimal(id))),
        request_word(MediaRequest::Play) == "PLAY"@,
        request_word(MediaRequest::Pause) == "PAUSE"@,
        request_word(MediaRequest::Stop) == "STOP"@,
        request_word(MediaRequest::Status) == "GET_STATUS"@,
{
    lemma_says(plain_message(kind)->Object_0, 0);
    lemma_says(connect_payload()->Object_0, 0);
    lemma_says(request_payload(kind, id)->Object_0, 0);
    lemma_says(request_payload(kind, id)->Object_0, 1);
    lemma_says(launch_payload(id)->Object_0, 0);
    lemma_says(launch_payload(id)->Object_0, 1);
    lemma_says(launch_payload(id)->Object_0, 2);
}

/// A load names the stream and its type, plays at once, and starts where it was asked to.
pub proof fn loads_name_their_stream(
    id: nat,
    url: Seq<char>,
    content_type: Seq<char>,
    position: Option<Seq<char>>,
)
    ensures
        ({
            let load = load_payload(id, url, content_type, position);
            let media = media_value(url, content_type);
            &&& says(load, "type"@, JsonView::Text("LOAD"@))
            &&& says(load, "requestId"@, JsonView::Number(decimal(id)))
            &&& says(load, "autoplay"@, JsonView::Bool(true))
            &&& says(load, "media"@, media)
            &&& position matches Some(at) ==> says(load, "currentTime"@, JsonView::Number(at))
            &&& position is None ==> load->Object_0.len() == 4
            &&& says(media, "contentId"@, JsonView::Text(url))
            &&& says(media, "contentType"@, JsonView::Text(content_type))
            &&& says(media, "streamType"@, JsonView::Text("BUFFERED"@))
        }),
{
    let load = load_payload(id, url, content_type, position);
    let media = media_value(url, content_type);
    lemma_says(load->Object_0, 0);
    lemma_says(load->Object_0, 1);
    lemma_says(load->Object_0, 2);
    lemma_says(load->Object_0, 3);
    if position is Some {
        lemma_says(load->Object_0, 4);
    }
    lemma_says(media->Object_0, 0);
    lemma_says(media->Object_0, 1);
    lemma_says(media->Object_0, 2);
}

/// A seek names its place, a change of volume its level, and a stop its application.
pub proof fn requests_name_their_value(id: nat, value: Seq<char>)
    ensures
        says(seek_payload(id, value), "type"@, JsonView::Text("SEEK"@)),
        says(seek_payload(id, value), "currentTime"@, JsonView::Number(value)),
        says(seek_payload(id, value), "resumeState"@, JsonView::Text("PLAYBACK_START"@)),
        says(seek_payload(id, value), "requestId"@, JsonView::Number(decimal(id))),
        says(volume_payload(id, value), "type"@, JsonView::Text("SET_VOLUME"@)),
        says(volume_payload(id, value), "requestId"@, JsonView::Number(decimal(id))),
        says(
            volume_payload(id, value),
            "volume"@,
            JsonView::Object(seq![("level"@, JsonView::Number(value))]),
        ),
        says(stop_app_payload(id, value), "type"@, JsonView::Text("STOP"@)),
        says(stop_app_payload(id, value), "sessionId"@, JsonView::Text(value)),
        says(stop_app_payload(id, value), "requestId"@, JsonView::Number(decimal(id))),
{
    lemma_says(seek_payload(id, value)->Object_0, 0);
    lemma_says(seek_payload(id, value)->Object_0, 1);
    lemma_says(seek_payload(id, value)->Object_0, 2);
    lemma_says(seek_payload(id, value)->Object_0, 3);
    lemma_says(volume_payload(id, value)->Object_0, 0);
    lemma_says(volume_payload(id, value)->Object_0, 1);
    lemma_says(volume_payload(id, value)->Object_0, 2);
    lemma_says(stop_app_payload(id, value)->Object_0, 0);
    lemma_says(stop_app_payload(id, value)->Object_0, 1);
    lemma_says(stop_app_payload(id, value)->Object_0, 2);
}

/// What concerns the track goes to the application, what concerns the device to the device,
/// each in its own namespace; and no two requests have the same number.
pub proof fn messages_go_to_their_place(c: ChannelView, payload: JsonView)
    requires
        0 <= c.next_request_id < i64::MAX,
    ensures
        to_media(c, payload).destination == c.media_transport_id,
        to_media(c, payload).namespace == "urn:x-cast:com.google.cast.media"@,
        to_media(c, payload).payload == payload,
        to_receiver(c, payload).destination == c.receiver_id,
        to_receiver(c, payload).namespace == "urn:x-cast:com.google.cast.receiver"@,
        to_receiver(c, payload).payload == payload,
        after_request(c).next_request_id > c.next_request_id,
        after_request(c).media_transport_id == c.media_transport_id,
        after_request(c).receiver_id == c.receiver_id,
{
}

/// At the end the track is stopped, then the application where one runs, then both connections
/// are closed.
pub proof fn sessions_end_in_order(c: ChannelView)
    ensures
        ({
            let out = shutdown_messages(c);
            let n = out.len() as int;
            &&& n == (if c.receiver_app_session_id is Some {
                4int
            } else {
                3
            })
            &&& out[0].destination == c.media_transport_id
            &&& out[0].namespace == "urn:x-cast:com.google.cast.media"@
            &&& out[0].payload == request_payload("STOP"@, c.next_request_id as nat)
            &&& c.receiver_app_session_id matches Some(session) ==> {
                &&& out[1].destination == c.receiver_id
                &&& out[1].namespace == "urn:x-cast:com.google.cast.receiver"@
                &&& out[1].payload == stop_app_payload((c.next_request_id + 1) as nat, session)
            }
            &&& out[n - 2].destination == c.media_transport_id
            &&& out[n - 2].namespace == "urn:x-cast:com.google.cast.tp.connection"@
            &&& out[n - 2].payload == plain_message("CLOSE"@)
            &&& out[n - 1].destination == c.receiver_id
            &&& out[n - 1].namespace == "urn:x-cast:com.google.cast.tp.connection"@
            &&& out[n - 1].payload == plain_message("CLOSE"@)
        }),
{
}

/// The application's item of a list: the media receiver, with the ids to reach it.
pub open spec fn is_receiver(app: JsonView, transport: Seq<char>, session: Seq<char>) -> bool {
    &&& text_of(member(app, "appId"@)) == Some("CC1AD845"@)
    &&& text_of(member(app, "transportId"@)) == Some(transport)
    &&& text_of(member(app, "sessionId"@)) == Some(session)
}

/// A media receiver that says how to reach it.
pub open spec fn is_reachable(app: JsonView) -> bool {
    &&& text_of(member(app, "appId"@)) == Some("CC1AD845"@)
    &&& text_of(member(app, "transportId"@)) is Some
    &&& text_of(member(app, "sessionId"@)) is Some
}

/// The application that was launched is the first media receiver in the list that says how to
/// reach it.
pub proof fn the_media_receiver_is_found(apps: Seq<JsonView>)
    ensures
        app_among(apps) matches Some((transport, session)) ==> exists|i: int|
            0 <= i < apps.len() && is_receiver(#[trigger] apps[i], transport, session)
                && forall|j: int| 0 <= j < i ==> !is_reachable(#[trigger] apps[j]),
        app_among(apps) is None ==> forall|j: int|
            0 <= j < apps.len() ==> !is_reachable(#[trigger] apps[j]),
    decreases apps.len(),
{
    if apps.len() > 0 {
        let rest = apps.skip(1);
        the_media_receiver_is_found(rest);
        match app_among(apps) {
            Some((transport, session)) => {
                if is_reachable(apps[0]) {
                    assert(is_receiver(apps[0], transport, session));
                } else {
                    let i = choose|i: int|
                        0 <= i < rest.len() && is_receiver(#[trigger] rest[i], transport, session)
                            && forall|j: int| 0 <= j < i ==> !is_reachable(#[trigger] rest[j]);
                    assert(apps[i + 1] == rest[i]);
                    assert forall|j: int| 0 <= j < i + 1 implies !is_reachable(
                        #[trigger] apps[j],
                    ) by {
                        if j > 0 {
                            assert(rest[j - 1] == apps[j]);
                        }
                    }
                }
            },
            None => {
                assert forall|j: int| 0 <= j < apps.len() implies !is_reachable(
                    #[trigger] apps[j],
                ) by {
                    if j > 0 {
                        assert(rest[j - 1] == apps[j]);
                    }
                }
            },
        }
    }
}

/// The applications are read from the status of the device's answer.
pub proof fn applications_are_in_the_status(value: JsonView)
    ensures
        items_of(member(member(value, "status"@), "applications"@)) matches Some(apps)
            ==> launched_app(value) == app_among(apps),
        items_of(member(member(value, "status"@), "applications"@)) is None ==> launched_app(value)
            is None,
        is_ping(value) <==> text_of(member(value, "type"@)) == Some("PING"@),
{
}

/// The status of the track: only a media status tells one, by its first item; each of its
/// fields is the member of its name, and an unsaid player state is unknown.
pub proof fn statuses_are_read(value: JsonView)
    ensures
        text_of(member(value, "type"@)) != Some("MEDIA_STATUS"@) ==> status_of(value) is None,
        items_of(member(value, "status"@)) is None ==> status_of(value) is None,
        items_of(member(value, "status"@)) matches Some(items) ==> {
            &&& items.len() == 0 ==> status_of(value) is None
            &&& items.len() > 0 && text_of(member(value, "type"@)) == Some("MEDIA_STATUS"@) ==> {
                &&& status_of(value) matches Some(status)
                &&& text_of(member(items[0], "playerState"@)) matches Some(state)
                    ==> status.player_state == state
                &&& text_of(member(items[0], "playerState"@)) is None ==> status.player_state
                    == "UNKNOWN"@
                &&& status.current_time == number_of(member(items[0], "currentTime"@))
                &&& status.duration == number_of(member(member(items[0], "media"@), "duration"@))
                &&& status.idle_reason == text_of(member(items[0], "idleReason"@))
            }
        },
{
}

} // verus!
