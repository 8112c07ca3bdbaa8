//! Laws of the cast manager: what a device's answers mean for the track that plays.

use crate::cast::devices::device_slot;
use crate::cast::manager::{
    on_connect, on_devices, on_disconnect, on_discover, on_load, on_loaded, on_opened, on_status,
    CastConnectionState, CastPlaybackPathKind, CastView, LoadStage, NextView, NoticeView,
};
use crate::protocol::DeviceView;
use vstd::prelude::*;

verus! {

/// A status whose player state is not IDLE leaves the manager as it is: it tells the progress
/// of the track that plays, and nothing else.
pub proof fn playing_devices_change_nothing(
    s: CastView,
    player_state: Seq<char>,
    idle_reason: Option<Seq<char>>,
    elapsed_ms: u64,
    total_ms: u64,
)
    requires
        player_state != "IDLE"@,
    ensures
        ({
            let (after, step) = on_status(s, player_state, idle_reason, elapsed_ms, total_ms);
            &&& after == s
            &&& step.next is Wait
            &&& forall|i: int|
                0 <= i < step.notices.len() ==> #[trigger] step.notices[i]
                    == (NoticeView::Progress { elapsed_ms, total_ms })
            &&& s.track_id is Some ==> step.notices.len() == 1
            &&& s.track_id is None ==> step.notices.len() == 0
        }),
{
}

/// A track is told as finished only where the device is IDLE, because it finished, failed or
/// was cancelled; and then it is the track that played.
pub proof fn only_ended_tracks_are_finished(
    s: CastView,
    player_state: Seq<char>,
    idle_reason: Option<Seq<char>>,
    elapsed_ms: u64,
    total_ms: u64,
    i: int,
)
    requires
        0 <= i < on_status(
            s,
            player_state,
            idle_reason,
            elapsed_ms,
            total_ms,
        ).1.notices.len(),
        on_status(s, player_state, idle_reason, elapsed_ms, total_ms).1.notices[i]
            is TrackFinished,
    ensures
        player_state == "IDLE"@,
        idle_reason == Some("FINISHED"@) || idle_reason == Some("ERROR"@) || idle_reason == Some(
            "CANCELLED"@,
        ),
        s.track_id == Some(
            on_status(
                s,
                player_state,
                idle_reason,
                elapsed_ms,
                total_ms,
            ).1.notices[i]->TrackFinished_0,
        ),
{
}

/// What an idle device means for the track that plays. Having finished, it is told as finished
/// and forgotten. Having failed or been cancelled, it is loaded once more as WAV where it was
/// cast as it is and transcoding is allowed; otherwise the failure and its end are told, and
/// it is forgotten. For any other reason nothing changes.
pub proof fn idle_devices_end_their_track(
    s: CastView,
    idle_reason: Option<Seq<char>>,
    elapsed_ms: u64,
    total_ms: u64,
    track: Seq<char>,
)
    requires
        s.track_id == Some(track),
    ensures
        ({
            let (after, step) = on_status(s, "IDLE"@, idle_reason, elapsed_ms, total_ms);
            let failed = idle_reason == Some("ERROR"@) || idle_reason == Some("CANCELLED"@);
            let again = s.path_kind == Some(CastPlaybackPathKind::Direct)
                && s.allow_transcode_fallback && s.source_path is Some;
            &&& step.notices.len() > 0
            &&& step.notices[0] == (NoticeView::Progress { elapsed_ms, total_ms })
            &&& idle_reason == Some("FINISHED"@) ==> step.notices.len() == 2 && step.notices[1]
                == NoticeView::TrackFinished(track) && after.track_id is None
                && after.source_path is None && step.next is Wait && after.pending == s.pending
            &&& failed && again ==> step.next == (NextView::Load {
                track_id: track,
                path: s.source_path->Some_0,
                kind: CastPlaybackPathKind::TranscodeWavPcm,
            }) && step.notices.len() == 1 && after.track_id == s.track_id
            &&& failed && !again ==> step.notices.len() == 3 && (step.notices[1] matches
                NoticeView::PlaybackError { track_id, .. } && track_id == track)
                && step.notices[2] == NoticeView::TrackFinished(track) && after.track_id is None
                && after.source_path is None && after.pending is None && step.next is Wait
            &&& idle_reason != Some("FINISHED"@) && !failed ==> after == s && step.notices.len()
                == 1 && step.next is Wait
            &&& after.has_session == s.has_session
            &&& after.connected_device == s.connected_device
            &&& after.devices == s.devices
        }),
{
    reveal_strlit("FINISHED");
    reveal_strlit("ERROR");
    reveal_strlit("CANCELLED");
    assert("FINISHED"@.len() == 8);
    assert("ERROR"@.len() == 5);
    assert("CANCELLED"@.len() == 9);
}

proof fn lemma_slot(devices: Seq<DeviceView>, id: Seq<char>)
    ensures
        device_slot(devices, id) <= devices.len(),
        device_slot(devices, id) < devices.len() ==> devices[device_slot(devices, id) as int].id
            == id,
        forall|k: int| 0 <= k < device_slot(devices, id) ==> (#[trigger] devices[k]).id != id,
    decreases devices.len(),
{
    if devices.len() > 0 && devices[0].id != id {
        let rest = devices.skip(1);
        lemma_slot(rest, id);
        assert forall|k: int| 0 <= k < device_slot(devices, id) implies (#[trigger] devices[k]).id
            != id by {
            if k > 0 {
                assert(rest[k - 1] == devices[k]);
            }
        }
    }
}

/// Asked to connect to a device that is listed, the manager opens the first with that id and
/// says that it is connecting to it. Asked for any other, it says that the device was not
/// found, and nothing changes.
pub proof fn listed_devices_are_opened(s: CastView, id: Seq<char>)
    ensures
        ({
            let (after, step) = on_connect(s, id);
            &&& (exists|i: int| 0 <= i < s.devices.len() && (#[trigger] s.devices[i]).id == id)
                ==> {
                &&& step.next matches NextView::Open(device)
                &&& device.id == id
                &&& s.devices.contains(device)
                &&& after == (CastView { opening: Some(device), ..s })
                &&& step.notices.len() == 1
                &&& step.notices[0] == (NoticeView::ConnectionState {
                    state: CastConnectionState::Connecting,
                    reason: None,
                    device: Some(device),
                })
            }
            &&& (forall|i: int| 0 <= i < s.devices.len() ==> (#[trigger] s.devices[i]).id != id)
                ==> {
                &&& after == s
                &&& step.next is Wait
                &&& step.notices.len() == 1
                &&& step.notices[0] == (NoticeView::ConnectionState {
                    state: CastConnectionState::Disconnected,
                    reason: Some("Selected cast device was not found."@),
                    device: None,
                })
            }
        }),
{
    lemma_slot(s.devices, id);
    let slot = device_slot(s.devices, id) as int;
    if slot < s.devices.len() {
        assert(s.devices[slot].id == id);
        assert(s.devices.contains(s.devices[slot]));
    } else if exists|i: int| 0 <= i < s.devices.len() && (#[trigger] s.devices[i]).id == id {
        let i = choose|i: int| 0 <= i < s.devices.len() && (#[trigger] s.devices[i]).id == id;
        assert(s.devices[i].id != id);
    }
}

/// Once the asked device is open, it is the connected one; where it could not be opened,
/// nothing is connected and the reason is told. Closing ends the session and the track.
pub proof fn opened_devices_are_connected(s: CastView, id: Seq<char>, error: Seq<char>)
    ensures
        on_connect(s, id).1.next matches NextView::Open(device) ==> {
            let (after, step) = on_opened(on_connect(s, id).0, Ok(()));
            &&& after.connected_device == Some(device)
            &&& after.has_session
            &&& after.opening is None
            &&& step.next is Wait
            &&& step.notices.len() == 1
            &&& step.notices[0] == (NoticeView::ConnectionState {
                state: CastConnectionState::Connected,
                reason: None,
                device: Some(device),
            })
        },
        ({
            let (after, step) = on_opened(s, Err(error));
            &&& after.connected_device is None
            &&& !after.has_session
            &&& after.opening is None
            &&& step.next is Wait
            &&& step.notices.len() == 1
            &&& step.notices[0] == (NoticeView::ConnectionState {
                state: CastConnectionState::Disconnected,
                reason: Some("Failed to connect: "@ + error),
                device: None,
            })
        }),
        ({
            let (after, step) = on_disconnect(s);
            &&& !after.has_session
            &&& after.connected_device is None
            &&& after.track_id is None
            &&& after.source_path is None
            &&& after.path_kind is None
            &&& after.devices == s.devices
            &&& step.next is Close
            &&& step.notices.len() == 1
            &&& step.notices[0] == (NoticeView::ConnectionState {
                state: CastConnectionState::Disconnected,
                reason: Some("Cast session closed."@),
                device: None,
            })
        }),
{
}

/// The devices that were found are the ones listed and told, beside whether one is connected.
pub proof fn found_devices_are_listed(s: CastView, devices: Seq<DeviceView>)
    ensures
        ({
            let (after, step) = on_devices(s, devices);
            &&& after == (CastView { devices, ..s })
            &&& step.next is Wait
            &&& step.notices.len() == 2
            &&& step.notices[0] == NoticeView::Devices(devices)
            &&& step.notices[1] matches NoticeView::ConnectionState { state, reason, device }
            &&& reason is None
            &&& device == s.connected_device
            &&& s.has_session ==> state == CastConnectionState::Connected
            &&& !s.has_session ==> state == CastConnectionState::Disconnected
        }),
        on_discover(s).0 == s,
        on_discover(s).1.next is Discover,
        on_discover(s).1.notices.len() == 1,
        on_discover(s).1.notices[0] == (NoticeView::ConnectionState {
            state: CastConnectionState::Discovering,
            reason: None,
            device: None,
        }),
{
}

/// A track is first loaded as it is. Once loaded, it plays from its start, from the file that
/// was asked for, and its path is told.
pub proof fn loaded_tracks_start(s: CastView, track: Seq<char>, path: Seq<char>)
    ensures
        on_load(s, track, path).1.next == (NextView::Load {
            track_id: track,
            path,
            kind: CastPlaybackPathKind::Direct,
        }),
        on_load(s, track, path).1.notices.len() == 0,
        ({
            let (after, step) = on_loaded(on_load(s, track, path).0, Ok(()));
            &&& after.track_id == Some(track)
            &&& after.source_path == Some(path)
            &&& after.path_kind == Some(CastPlaybackPathKind::Direct)
            &&& after.pending is None
            &&& step.next is Wait
            &&& step.notices.len() == 2
            &&& step.notices[0] == (NoticeView::PlaybackPath {
                kind: CastPlaybackPathKind::Direct,
                description: "Casting: Direct (unmodified source stream)"@,
            })
            &&& step.notices[1] == (NoticeView::TrackStarted { id: track, start_offset_ms: 0 })
        }),
{
}

/// A track that could not be loaded as it is, is loaded as WAV where transcoding is allowed,
/// and then plays so; otherwise its failure and its end are told. One that fails as WAV too
/// is given up in the same way.
pub proof fn failed_tracks_are_tried_as_wav(
    s: CastView,
    track: Seq<char>,
    path: Seq<char>,
    first_error: Seq<char>,
    second_error: Seq<char>,
)
    ensures
        s.allow_transcode_fallback ==> {
            let (second, step) = on_loaded(on_load(s, track, path).0, Err(first_error));
            let (playing, started) = on_loaded(second, Ok(()));
            let (given_up, ended) = on_loaded(second, Err(second_error));
            &&& step.next == (NextView::Load {
                track_id: track,
                path,
                kind: CastPlaybackPathKind::TranscodeWavPcm,
            })
            &&& step.notices.len() == 0
            &&& playing.track_id == Some(track)
            &&& playing.source_path == Some(path)
            &&& playing.path_kind == Some(CastPlaybackPathKind::TranscodeWavPcm)
            &&& started.notices.len() == 2
            &&& started.notices[0] == (NoticeView::PlaybackPath {
                kind: CastPlaybackPathKind::TranscodeWavPcm,
                description: "Casting: Transcode (WAV PCM)"@,
            })
            &&& started.notices[1] == (NoticeView::TrackStarted { id: track, start_offset_ms: 0 })
            &&& given_up.pending is None
            &&& given_up.source_path is None
            &&& ended.next is Wait
            &&& ended.notices.len() == 2
            &&& ended.notices[0] == (NoticeView::PlaybackError {
                track_id: track,
                message: "Cast failed after direct and WAV fallback attempts: "@ + second_error,
                can_retry_with_transcode: false,
            })
            &&& ended.notices[1] == NoticeView::TrackFinished(track)
        },
        !s.allow_transcode_fallback ==> {
            let (given_up, ended) = on_loaded(on_load(s, track, path).0, Err(first_error));
            &&& given_up.pending is None
            &&& given_up.source_path is None
            &&& ended.next is Wait
            &&& ended.notices.len() == 2
            &&& ended.notices[0] matches NoticeView::PlaybackError {
                track_id,
                can_retry_with_transcode,
                ..
            }
            &&& track_id == track
            &&& can_retry_with_transcode
            &&& ended.notices[1] == NoticeView::TrackFinished(track)
        },
{
}

/// A track that is loaded once more after it failed on the device plays as WAV and says why;
/// where that fails too, it is forgotten and its end is told.
pub proof fn retried_tracks_play_or_end(s: CastView, error: Seq<char>)
    requires
        s.pending is Some,
        s.pending->Some_0.stage == LoadStage::Retry,
    ensures
        ({
            let track = s.pending->Some_0.track_id;
            let (playing, started) = on_loaded(s, Ok(()));
            let (given_up, ended) = on_loaded(s, Err(error));
            &&& playing.track_id == Some(track)
            &&& playing.path_kind == Some(CastPlaybackPathKind::TranscodeWavPcm)
            &&& started.notices.len() == 3
            &&& started.notices[1] == (NoticeView::TrackStarted { id: track, start_offset_ms: 0 })
            &&& started.notices[2] == (NoticeView::PlaybackError {
                track_id: track,
                message: "Direct cast failed on receiver. Retrying with WAV PCM."@,
                can_retry_with_transcode: false,
            })
            &&& given_up.track_id is None
            &&& given_up.source_path is None
            &&& given_up.pending is None
            &&& ended.next is Wait
            &&& ended.notices.len() == 2
            &&& ended.notices[0] == (NoticeView::PlaybackError {
                track_id: track,
                message: "Cast receiver failed to play this track. Skipping to next track."@,
                can_retry_with_transcode: !s.allow_transcode_fallback,
            })
            &&& ended.notices[1] == NoticeView::TrackFinished(track)
        }),
{
}

} // verus!
