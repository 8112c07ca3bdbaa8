//! The cast component: what it remembers, and what it does when something happens.

use crate::cast::devices::{device_slot, find_device};
use crate::cast::http::{content_type_of, extension_to_content_type};
use crate::library::pages::duplicates;
use crate::protocol::{clone_option_text, unit_result, views, CastDeviceInfo, DeviceView};
use crate::text::{append, option_text, owned, text_equal};
use vstd::prelude::*;

verus! {

/// How long the component waits before it asks for the status again, in milliseconds.
pub const DEFAULT_POLL_INTERVAL_MS: u64 = 900;

/// Whether the player is connected with a cast device.
#[derive(Debug, Clone, Copy, PartialEq, Eq, Structural)]
pub enum CastConnectionState {
    Disconnected,
    Discovering,
    Connecting,
    Connected,
}

/// How a track is sent to a cast device.
#[derive(Debug, Clone, Copy, PartialEq, Eq, Structural)]
pub enum CastPlaybackPathKind {
    Direct,
    TranscodeWavPcm,
}

/// What the component tells the rest of the player.
#[derive(Debug, PartialEq, Eq)]
pub enum CastNotice {
    ConnectionState {
        state: CastConnectionState,
        reason: Option<String>,
        device: Option<CastDeviceInfo>,
    },
    Devices(Vec<CastDeviceInfo>),
    PlaybackPath { kind: CastPlaybackPathKind, description: String },
    PlaybackError { track_id: String, message: String, can_retry_with_transcode: bool },
    TrackStarted { id: String, start_offset_ms: u64 },
    TrackFinished(String),
    Progress { elapsed_ms: u64, total_ms: u64 },
}

/// The contents of a [`CastNotice`].
#[verifier::ext_equal]
pub enum NoticeView {
    ConnectionState {
        state: CastConnectionState,
        reason: Option<Seq<char>>,
        device: Option<DeviceView>,
    },
    Devices(Seq<DeviceView>),
    PlaybackPath { kind: CastPlaybackPathKind, description: Seq<char> },
    PlaybackError { track_id: Seq<char>, message: Seq<char>, can_retry_with_transcode: bool },
    TrackStarted { id: Seq<char>, start_offset_ms: u64 },
    TrackFinished(Seq<char>),
    Progress { elapsed_ms: u64, total_ms: u64 },
}

pub open spec fn option_device(d: Option<CastDeviceInfo>) -> Option<DeviceView> {
    match d {
        Some(device) => Some(device@),
        None => None,
    }
}

impl View for CastNotice {
    type V = NoticeView;

    open spec fn view(&self) -> NoticeView {
        match self {
            CastNotice::ConnectionState { state, reason, device } => NoticeView::ConnectionState {
                state: *state,
                reason: option_text(*reason),
                device: option_device(*device),
            },
            CastNotice::Devices(devices) => NoticeView::Devices(views(devices@)),
            CastNotice::PlaybackPath { kind, description } => NoticeView::PlaybackPath {
                kind: *kind,
                description: description@,
            },
            CastNotice::PlaybackError { track_id, message, can_retry_with_transcode } =>
                NoticeView::PlaybackError {
                track_id: track_id@,
                message: message@,
                can_retry_with_transcode: *can_retry_with_transcode,
            },
            CastNotice::TrackStarted { id, start_offset_ms } => NoticeView::TrackStarted {
                id: id@,
                start_offset_ms: *start_offset_ms,
            },
            CastNotice::TrackFinished(id) => NoticeView::TrackFinished(id@),
            CastNotice::Progress { elapsed_ms, total_ms } => NoticeView::Progress {
                elapsed_ms: *elapsed_ms,
                total_ms: *total_ms,
            },
        }
    }
}

/// What is to be done next.
#[derive(Debug, PartialEq, Eq)]
pub enum CastNext {
    /// Nothing.
    Wait,
    /// Look for devices and hand them in.
    Discover,
    /// Open a conversation with a device and say whether that worked.
    Open(CastDeviceInfo),
    /// End the conversation.
    Close,
    /// Send a track to the device and say whether that worked.
    Load { track_id: String, path: String, kind: CastPlaybackPathKind },
}

/// The contents of a [`CastNext`].
#[verifier::ext_equal]
pub enum NextView {
    Wait,
    Discover,
    Open(DeviceView),
    Close,
    Load { track_id: Seq<char>, path: Seq<char>, kind: CastPlaybackPathKind },
}

impl View for CastNext {
    type V = NextView;

    open spec fn view(&self) -> NextView {
        match self {
            CastNext::Wait => NextView::Wait,
            CastNext::Discover => NextView::Discover,
            CastNext::Open(device) => NextView::Open(device@),
            CastNext::Close => NextView::Close,
            CastNext::Load { track_id, path, kind } => NextView::Load {
                track_id: track_id@,
                path: path@,
                kind: *kind,
            },
        }
    }
}

/// What an event comes to: what is told, and what is to be done next.
#[derive(Debug, PartialEq, Eq)]
pub struct CastMove {
    pub notices: Vec<CastNotice>,
    pub next: CastNext,
}

/// The contents of a [`CastMove`].
#[verifier::ext_equal]
pub struct MoveView {
    pub notices: Seq<NoticeView>,
    pub next: NextView,
}

impl View for CastMove {
    type V = MoveView;

    open spec fn view(&self) -> MoveView {
        MoveView { notices: views(self.notices@), next: self.next@ }
    }
}

/// Why a track is being sent.
#[derive(Debug, Clone, Copy, PartialEq, Eq, Structural)]
pub enum LoadStage {
    /// It was asked for, and goes out as it is.
    Direct,
    /// It was asked for and could not go out as it is.
    Fallback,
    /// The device could not play it as it was.
    Retry,
}

/// A track that is being sent.
#[derive(Debug, PartialEq, Eq)]
pub struct PendingLoad {
    pub track_id: String,
    pub path: String,
    pub stage: LoadStage,
}

/// The contents of a [`PendingLoad`].
#[verifier::ext_equal]
pub struct PendingView {
    pub track_id: Seq<char>,
    pub path: Seq<char>,
    pub stage: LoadStage,
}

impl View for PendingLoad {
    type V = PendingView;

    open spec fn view(&self) -> PendingView {
        PendingView { track_id: self.track_id@, path: self.path@, stage: self.stage }
    }
}

/// What the cast component remembers.
#[derive(Debug, PartialEq, Eq)]
pub struct CastManager {
    pub devices: Vec<CastDeviceInfo>,
    pub connected_device: Option<CastDeviceInfo>,
    /// The device with which a conversation is being opened.
    pub opening: Option<CastDeviceInfo>,
    pub has_session: bool,
    pub allow_transcode_fallback: bool,
    pub current_track_id: Option<String>,
    pub current_track_source_path: Option<String>,
    pub current_path_kind: Option<CastPlaybackPathKind>,
    pub pending: Option<PendingLoad>,
}

/// The contents of a [`CastManager`].
#[verifier::ext_equal]
pub struct CastView {
    pub devices: Seq<DeviceView>,
    pub connected_device: Option<DeviceView>,
    pub opening: Option<DeviceView>,
    pub has_session: bool,
    pub allow_transcode_fallback: bool,
    pub track_id: Option<Seq<char>>,
    pub source_path: Option<Seq<char>>,
    pub path_kind: Option<CastPlaybackPathKind>,
    pub pending: Option<PendingView>,
}

impl View for CastManager {
    type V = CastView;

    open spec fn view(&self) -> CastView {
        CastView {
            devices: views(self.devices@),
            connected_device: option_device(self.connected_device),
            opening: option_device(self.opening),
            has_session: self.has_session,
            allow_transcode_fallback: self.allow_transcode_fallback,
            track_id: option_text(self.current_track_id),
            source_path: option_text(self.current_track_source_path),
            path_kind: self.current_path_kind,
            pending: match self.pending {
                Some(pending) => Some(pending@),
                None => None,
            },
        }
    }
}

pub open spec fn only(notices: Seq<NoticeView>) -> MoveView {
    MoveView { notices, next: NextView::Wait }
}

pub open spec fn state_notice(
    state: CastConnectionState,
    reason: Option<Seq<char>>,
    device: Option<DeviceView>,
) -> NoticeView {
    NoticeView::ConnectionState { state, reason, device }
}

/// The component is asked to look for devices.
pub open spec fn on_discover(s: CastView) -> (CastView, MoveView) {
    (
        s,
        MoveView {
            notices: seq![state_notice(CastConnectionState::Discovering, None, None)],
            next: NextView::Discover,
        },
    )
}

/// Devices were found.
pub open spec fn on_devices(s: CastView, devices: Seq<DeviceView>) -> (CastView, MoveView) {
    (
        CastView { devices, ..s },
        only(
            seq![
                NoticeView::Devices(devices),
                state_notice(
                    if s.has_session {
                        CastConnectionState::Connected
                    } else {
                        CastConnectionState::Disconnected
                    },
                    None,
                    s.connected_device,
                ),
            ],
        ),
    )
}

/// The component is asked to connect with a device.
pub open spec fn on_connect(s: CastView, device_id: Seq<char>) -> (CastView, MoveView) {
    let slot = device_slot(s.devices, device_id) as int;
    if slot < s.devices.len() {
        let device = s.devices[slot];
        (
            CastView { opening: Some(device), ..s },
            MoveView {
                notices: seq![state_notice(CastConnectionState::Connecting, None, Some(device))],
                next: NextView::Open(device),
            },
        )
    } else {
        (
            s,
            only(
                seq![
                    state_notice(
                        CastConnectionState::Disconnected,
                        Some("Selected cast device was not found."@),
                        None,
                    ),
                ],
            ),
        )
    }
}

/// The conversation with a device was opened, or not.
pub open spec fn on_opened(s: CastView, result: Result<(), Seq<char>>) -> (CastView, MoveView) {
    match result {
        Ok(_) => (
            CastView { opening: None, has_session: true, connected_device: s.opening, ..s },
            only(seq![state_notice(CastConnectionState::Connected, None, s.opening)]),
        ),
        Err(e) => (
            CastView { opening: None, has_session: false, connected_device: None, ..s },
            only(
                seq![
                    state_notice(
                        CastConnectionState::Disconnected,
                        Some("Failed to connect: "@ + e),
                        None,
                    ),
                ],
            ),
        ),
    }
}

/// The conversation ends.
pub open spec fn on_disconnect(s: CastView) -> (CastView, MoveView) {
    (
        CastView {
            has_session: false,
            track_id: None,
            source_path: None,
            path_kind: None,
            connected_device: None,
            ..s
        },
        MoveView {
            notices: seq![
                state_notice(
                    CastConnectionState::Disconnected,
                    Some("Cast session closed."@),
                    None,
                ),
            ],
            next: NextView::Close,
        },
    )
}

/// The component is asked to play a track.
pub open spec fn on_load(s: CastView, track_id: Seq<char>, path: Seq<char>) -> (
    CastView,
    MoveView,
) {
    (
        CastView {
            source_path: Some(path),
            pending: Some(PendingView { track_id, path, stage: LoadStage::Direct }),
            ..s
        },
        MoveView {
            notices: Seq::empty(),
            next: NextView::Load { track_id, path, kind: CastPlaybackPathKind::Direct },
        },
    )
}

pub open spec fn path_description(kind: CastPlaybackPathKind) -> Seq<char> {
    match kind {
        CastPlaybackPathKind::Direct => "Casting: Direct (unmodified source stream)"@,
        CastPlaybackPathKind::TranscodeWavPcm => "Casting: Transcode (WAV PCM)"@,
    }
}

pub open spec fn kind_of(stage: LoadStage) -> CastPlaybackPathKind {
    match stage {
        LoadStage::Direct => CastPlaybackPathKind::Direct,
        _ => CastPlaybackPathKind::TranscodeWavPcm,
    }
}

pub open spec fn direct_failure(e: Seq<char>) -> Seq<char> {
    "Direct cast failed: "@ + e
        + ". Enable 'Cast transcode fallback' in Settings > Audio to improve compatibility."@
}

/// The track that the device could not play is given up.
pub open spec fn given_up(s: CastView, track_id: Seq<char>) -> (CastView, Seq<NoticeView>) {
    (
        CastView { track_id: None, source_path: None, pending: None, ..s },
        seq![
            NoticeView::PlaybackError {
                track_id,
                message: "Cast receiver failed to play this track. Skipping to next track."@,
                can_retry_with_transcode: !s.allow_transcode_fallback,
            },
            NoticeView::TrackFinished(track_id),
        ],
    )
}

/// A track was sent, or not.
pub open spec fn on_loaded(s: CastView, result: Result<(), Seq<char>>) -> (CastView, MoveView) {
    match s.pending {
        None => (s, only(Seq::empty())),
        Some(p) => match result {
            Ok(_) => {
                let kind = kind_of(p.stage);
                let started = seq![
                    NoticeView::PlaybackPath { kind, description: path_description(kind) },
                    NoticeView::TrackStarted { id: p.track_id, start_offset_ms: 0 },
                ];
                (
                    CastView {
                        track_id: Some(p.track_id),
                        path_kind: Some(kind),
                        pending: None,
                        ..s
                    },
                    only(
                        if p.stage == LoadStage::Retry {
                            started.push(
                                NoticeView::PlaybackError {
                                    track_id: p.track_id,
                                    message:
                                        "Direct cast failed on receiver. Retrying with WAV PCM."@,
                                    can_retry_with_transcode: false,
                                },
                            )
                        } else {
                            started
                        },
                    ),
                )
            },
            Err(e) => match p.stage {
                LoadStage::Direct => if s.allow_transcode_fallback {
                    (
                        CastView {
                            pending: Some(PendingView { stage: LoadStage::Fallback, ..p }),
                            ..s
                        },
                        MoveView {
                            notices: Seq::empty(),
                            next: NextView::Load {
                                track_id: p.track_id,
                                path: p.path,
                                kind: CastPlaybackPathKind::TranscodeWavPcm,
                            },
                        },
                    )
                } else {
                    (
                        CastView { source_path: None, pending: None, ..s },
                        only(
                            seq![
                                NoticeView::PlaybackError {
                                    track_id: p.track_id,
                                    message: direct_failure(e),
                                    can_retry_with_transcode: true,
                                },
                                NoticeView::TrackFinished(p.track_id),
                            ],
                        ),
                    )
                },
                LoadStage::Fallback => (
                    CastView { source_path: None, pending: None, ..s },
                    only(
                        seq![
                            NoticeView::PlaybackError {
                                track_id: p.track_id,
                                message:
                                    "Cast failed after direct and WAV fallback attempts: "@ + e,
                                can_retry_with_transcode: false,
                            },
                            NoticeView::TrackFinished(p.track_id),
                        ],
                    ),
                ),
                LoadStage::Retry => {
                    let (after, notices) = given_up(s, p.track_id);
                    (after, only(notices))
                },
            },
        },
    }
}

/// The device says how far it has come.
pub open spec fn on_status(
    s: CastView,
    player_state: Seq<char>,
    idle_reason: Option<Seq<char>>,
    elapsed_ms: u64,
    total_ms: u64,
) -> (CastView, MoveView) {
    match s.track_id {
        None => (s, only(Seq::empty())),
        Some(track_id) => {
            let progress = seq![NoticeView::Progress { elapsed_ms, total_ms }];
            if player_state != "IDLE"@ {
                (s, only(progress))
            } else if idle_reason == Some("FINISHED"@) {
                (
                    CastView { track_id: None, source_path: None, ..s },
                    only(progress.push(NoticeView::TrackFinished(track_id))),
                )
            } else if idle_reason == Some("ERROR"@) || idle_reason == Some("CANCELLED"@) {
                if s.path_kind == Some(CastPlaybackPathKind::Direct) && s.allow_transcode_fallback
                    && s.source_path is Some {
                    let path = s.source_path->Some_0;
                    (
                        CastView {
                            pending: Some(
                                PendingView { track_id, path, stage: LoadStage::Retry },
                            ),
                            ..s
                        },
                        MoveView {
                            notices: progress,
                            next: NextView::Load {
                                track_id,
                                path,
                                kind: CastPlaybackPathKind::TranscodeWavPcm,
                            },
                        },
                    )
                } else {
                    let (after, notices) = given_up(s, track_id);
                    (after, only(progress + notices))
                }
            } else {
                (s, only(progress))
            }
        },
    }
}

fn nothing() -> (r: Vec<CastNotice>)
    ensures
        views(r@) == Seq::<NoticeView>::empty(),
{
    let r: Vec<CastNotice> = Vec::new();
    assert(views(r@) =~= Seq::empty());
    r
}

fn tell(notices: &mut Vec<CastNotice>, notice: CastNotice)
    ensures
        views(final(notices)@) == views(old(notices)@).push(notice@),
{
    let ghost before = views(notices@);
    notices.push(notice);
    assert(views(notices@) =~= before.push(notice@));
}

fn tell_state(
    notices: &mut Vec<CastNotice>,
    state: CastConnectionState,
    reason: Option<String>,
    device: Option<CastDeviceInfo>,
)
    ensures
        views(final(notices)@) == views(old(notices)@).push(
            state_notice(state, option_text(reason), option_device(device)),
        ),
{
    tell(notices, CastNotice::ConnectionState { state, reason, device });
}

fn clone_device(device: &Option<CastDeviceInfo>) -> (r: Option<CastDeviceInfo>)
    ensures
        option_device(r) == option_device(*device),
{
    match device {
        Some(device) => Some(device.clone()),
        None => None,
    }
}

/// How the playback of a track is described.
pub fn describe_path(kind: CastPlaybackPathKind) -> (r: String)
    ensures
        r@ == path_description(kind),
{
    match kind {
        CastPlaybackPathKind::Direct => owned("Casting: Direct (unmodified source stream)"),
        CastPlaybackPathKind::TranscodeWavPcm => owned("Casting: Transcode (WAV PCM)"),
    }
}

/// The type under which a track is sent.
pub fn load_content_type(kind: CastPlaybackPathKind, path: &str) -> (r: String)
    ensures
        r@ == (match kind {
            CastPlaybackPathKind::Direct => content_type_of(path@),
            CastPlaybackPathKind::TranscodeWavPcm => "audio/wav"@,
        }),
{
    match kind {
        CastPlaybackPathKind::Direct => extension_to_content_type(path),
        CastPlaybackPathKind::TranscodeWavPcm => owned("audio/wav"),
    }
}

impl CastManager {
    /// The cast component as it starts.
    pub fn new() -> (r: CastManager)
        ensures
            r@ == (CastView {
                devices: Seq::empty(),
                connected_device: None,
                opening: None,
                has_session: false,
                allow_transcode_fallback: false,
                track_id: None,
                source_path: None,
                path_kind: None,
                pending: None,
            }),
    {
        let r = CastManager {
            devices: Vec::new(),
            connected_device: None,
            opening: None,
            has_session: false,
            allow_transcode_fallback: false,
            current_track_id: None,
            current_track_source_path: None,
            current_path_kind: None,
            pending: None,
        };
        assert(r@.devices =~= Seq::empty());
        r
    }

    /// Whether tracks may be transcoded has changed.
    pub fn config_changed(&mut self, allow_transcode_fallback: bool)
        ensures
            final(self)@ == (CastView { allow_transcode_fallback, ..old(self)@ }),
    {
        self.allow_transcode_fallback = allow_transcode_fallback;
    }

    /// The component is asked to look for devices.
    pub fn discover(&self) -> (r: CastMove)
        ensures
            (self@, r@) == on_discover(self@),
    {
        let mut notices = nothing();
        tell_state(&mut notices, CastConnectionState::Discovering, None, None);
        assert(views(notices@) =~= on_discover(self@).1.notices);
        CastMove { notices, next: CastNext::Discover }
    }

    /// Devices were found.
    pub fn devices_found(&mut self, devices: Vec<CastDeviceInfo>) -> (r: CastMove)
        ensures
            (final(self)@, r@) == on_devices(old(self)@, views(devices@)),
    {
        let ghost start = self@;
        let ghost found = views(devices@);
        let mut notices = nothing();
        tell(&mut notices, CastNotice::Devices(duplicates(&devices)));
        let state = if self.has_session {
            CastConnectionState::Connected
        } else {
            CastConnectionState::Disconnected
        };
        tell_state(&mut notices, state, None, clone_device(&self.connected_device));
        self.devices = devices;
        assert(views(notices@) =~= on_devices(start, found).1.notices);
        CastMove { notices, next: CastNext::Wait }
    }

    /// The component is asked to connect with a device.
    pub fn connect(&mut self, device_id: &str) -> (r: CastMove)
        ensures
            (final(self)@, r@) == on_connect(old(self)@, device_id@),
    {
        let ghost start = self@;
        let mut notices = nothing();
        match find_device(&self.devices, device_id) {
            Some(slot) => {
                let device = self.devices[slot].clone();
                assert(start.devices[slot as int] == self.devices@[slot as int]@);
                tell_state(
                    &mut notices,
                    CastConnectionState::Connecting,
                    None,
                    Some(device.clone()),
                );
                self.opening = Some(device.clone());
                assert(views(notices@) =~= on_connect(start, device_id@).1.notices);
                CastMove { notices, next: CastNext::Open(device) }
            },
            None => {
                tell_state(
                    &mut notices,
                    CastConnectionState::Disconnected,
                    Some(owned("Selected cast device was not found.")),
                    None,
                );
                assert(views(notices@) =~= on_connect(start, device_id@).1.notices);
                CastMove { notices, next: CastNext::Wait }
            },
        }
    }

    /// The conversation with a device was opened, or not.
    pub fn opened(&mut self, result: Result<(), String>) -> (r: CastMove)
        ensures
            (final(self)@, r@) == on_opened(
                old(self)@,
                unit_result(result),
            ),
    {
        let ghost start = self@;
        let mut notices = nothing();
        match result {
            Ok(_) => {
                let device = self.opening.take();
                self.has_session = true;
                self.connected_device = clone_device(&device);
                tell_state(&mut notices, CastConnectionState::Connected, None, device);
                assert(views(notices@) =~= on_opened(start, Ok(())).1.notices);
            },
            Err(error) => {
                let mut reason = owned("Failed to connect: ");
                append(&mut reason, error.as_str());
                self.opening = None;
                self.has_session = false;
                self.connected_device = None;
                tell_state(&mut notices, CastConnectionState::Disconnected, Some(reason), None);
                assert(views(notices@) =~= on_opened(start, Err(error@)).1.notices);
            },
        }
        CastMove { notices, next: CastNext::Wait }
    }

    /// The conversation ends.
    pub fn disconnect(&mut self) -> (r: CastMove)
        ensures
            (final(self)@, r@) == on_disconnect(old(self)@),
    {
        let ghost start = self@;
        let mut notices = nothing();
        tell_state(
            &mut notices,
            CastConnectionState::Disconnected,
            Some(owned("Cast session closed.")),
            None,
        );
        self.has_session = false;
        self.current_track_id = None;
        self.current_track_source_path = None;
        self.current_path_kind = None;
        self.connected_device = None;
        assert(views(notices@) =~= on_disconnect(start).1.notices);
        CastMove { notices, next: CastNext::Close }
    }

    /// The component is asked to play a track.
    pub fn load_track(&mut self, track_id: &str, path: &str) -> (r: CastMove)
        ensures
            (final(self)@, r@) == on_load(old(self)@, track_id@, path@),
    {
        self.current_track_source_path = Some(owned(path));
        self.pending = Some(
            PendingLoad { track_id: owned(track_id), path: owned(path), stage: LoadStage::Direct },
        );
        CastMove {
            notices: nothing(),
            next: CastNext::Load {
                track_id: owned(track_id),
                path: owned(path),
                kind: CastPlaybackPathKind::Direct,
            },
        }
    }

    /// The device to which a track is sent.
    pub fn load_device(&self) -> (r: Result<&CastDeviceInfo, String>)
        ensures
            match self@.connected_device {
                Some(device) => r is Ok && r->Ok_0@ == device,
                None => r is Err && r->Err_0@ == "No cast device connected"@,
            },
    {
        match &self.connected_device {
            Some(device) => Ok(device),
            None => Err(owned("No cast device connected")),
        }
    }

    fn give_up(&mut self, track_id: String, notices: &mut Vec<CastNotice>)
        ensures
            final(self)@ == given_up(old(self)@, track_id@).0,
            views(final(notices)@) == views(old(notices)@) + given_up(old(self)@, track_id@).1,
    {
        let ghost before = views(notices@);
        let ghost start = self@;
        self.current_track_id = None;
        self.current_track_source_path = None;
        self.pending = None;
        tell(
            notices,
            CastNotice::PlaybackError {
                track_id: track_id.clone(),
                message: owned(
                    "Cast receiver failed to play this track. Skipping to next track.",
                ),
                can_retry_with_transcode: !self.allow_transcode_fallback,
            },
        );
        tell(notices, CastNotice::TrackFinished(track_id));
        assert(views(notices@) =~= before + given_up(start, track_id@).1);
    }

    /// A track was sent, or not.
    pub fn loaded(&mut self, result: Result<(), String>) -> (r: CastMove)
        ensures
            (final(self)@, r@) == on_loaded(
                old(self)@,
                unit_result(result),
            ),
    {
        let ghost start = self@;
        let mut notices = nothing();
        let pending = match self.pending.take() {
            Some(pending) => pending,
            None => {
                return CastMove { notices, next: CastNext::Wait };
            },
        };
        match result {
            Ok(_) => {
                let kind = match pending.stage {
                    LoadStage::Direct => CastPlaybackPathKind::Direct,
                    LoadStage::Fallback => CastPlaybackPathKind::TranscodeWavPcm,
                    LoadStage::Retry => CastPlaybackPathKind::TranscodeWavPcm,
                };
                tell(
                    &mut notices,
                    CastNotice::PlaybackPath { kind, description: describe_path(kind) },
                );
                tell(
                    &mut notices,
                    CastNotice::TrackStarted {
                        id: pending.track_id.clone(),
                        start_offset_ms: 0,
                    },
                );
                if pending.stage == LoadStage::Retry {
                    tell(
                        &mut notices,
                        CastNotice::PlaybackError {
                            track_id: pending.track_id.clone(),
                            message: owned(
                                "Direct cast failed on receiver. Retrying with WAV PCM.",
                            ),
                            can_retry_with_transcode: false,
                        },
                    );
                }
                self.current_track_id = Some(pending.track_id);
                self.current_path_kind = Some(kind);
                assert(views(notices@) =~= on_loaded(start, Ok(())).1.notices);
                CastMove { notices, next: CastNext::Wait }
            },
            Err(error) => match pending.stage {
                LoadStage::Direct => {
                    if self.allow_transcode_fallback {
                        let next = CastNext::Load {
                            track_id: pending.track_id.clone(),
                            path: pending.path.clone(),
                            kind: CastPlaybackPathKind::TranscodeWavPcm,
                        };
                        self.pending = Some(
                            PendingLoad {
                                track_id: pending.track_id,
                                path: pending.path,
                                stage: LoadStage::Fallback,
                            },
                        );
                        CastMove { notices, next }
                    } else {
                        let mut message = owned("Direct cast failed: ");
                        append(&mut message, error.as_str());
                        append(
                            &mut message,
                            ". Enable 'Cast transcode fallback' in Settings > Audio to improve compatibility.",
                        );
                        tell(
                            &mut notices,
                            CastNotice::PlaybackError {
                                track_id: pending.track_id.clone(),
                                message,
                                can_retry_with_transcode: true,
                            },
                        );
                        tell(&mut notices, CastNotice::TrackFinished(pending.track_id));
                        self.current_track_source_path = None;
                        assert(views(notices@) =~= on_loaded(start, Err(error@)).1.notices);
                        CastMove { notices, next: CastNext::Wait }
                    }
                },
                LoadStage::Fallback => {
                    let mut message = owned("Cast failed after direct and WAV fallback attempts: ");
                    append(&mut message, error.as_str());
                    tell(
                        &mut notices,
                        CastNotice::PlaybackError {
                            track_id: pending.track_id.clone(),
                            message,
                            can_retry_with_transcode: false,
                        },
                    );
                    tell(&mut notices, CastNotice::TrackFinished(pending.track_id));
                    self.current_track_source_path = None;
                    assert(views(notices@) =~= on_loaded(start, Err(error@)).1.notices);
                    CastMove { notices, next: CastNext::Wait }
                },
                LoadStage::Retry => {
                    self.give_up(pending.track_id, &mut notices);
                    assert(views(notices@) =~= on_loaded(start, Err(error@)).1.notices);
                    CastMove { notices, next: CastNext::Wait }
                },
            },
        }
    }

    /// The device says how far it has come.
    pub fn status(
        &mut self,
        player_state: &str,
        idle_reason: &Option<String>,
        elapsed_ms: u64,
        total_ms: u64,
    ) -> (r: CastMove)
        ensures
            (final(self)@, r@) == on_status(
                old(self)@,
                player_state@,
                option_text(*idle_reason),
                elapsed_ms,
                total_ms,
            ),
    {
        let ghost start = self@;
        let mut notices = nothing();
        let track_id = match &self.current_track_id {
            Some(track_id) => track_id.clone(),
            None => {
                return CastMove { notices, next: CastNext::Wait };
            },
        };
        tell(&mut notices, CastNotice::Progress { elapsed_ms, total_ms });
        let ghost progress = seq![NoticeView::Progress { elapsed_ms, total_ms }];
        assert(views(notices@) =~= progress);
        if !text_equal(player_state, "IDLE") {
            return CastMove { notices, next: CastNext::Wait };
        }
        let reason: &str = match idle_reason {
            Some(reason) => reason.as_str(),
            None => {
                return CastMove { notices, next: CastNext::Wait };
            },
        };
        if text_equal(reason, "FINISHED") {
            self.current_track_id = None;
            self.current_track_source_path = None;
            tell(&mut notices, CastNotice::TrackFinished(track_id));
            return CastMove { notices, next: CastNext::Wait };
        }
        if !text_equal(reason, "ERROR") && !text_equal(reason, "CANCELLED") {
            return CastMove { notices, next: CastNext::Wait };
        }
        let direct = match self.current_path_kind {
            Some(CastPlaybackPathKind::Direct) => true,
            _ => false,
        };
        if direct && self.allow_transcode_fallback {
            if let Some(path) = clone_option_text(&self.current_track_source_path) {
                self.pending = Some(
                    PendingLoad {
                        track_id: track_id.clone(),
                        path: path.clone(),
                        stage: LoadStage::Retry,
                    },
                );
                return CastMove {
                    notices,
                    next: CastNext::Load {
                        track_id,
                        path,
                        kind: CastPlaybackPathKind::TranscodeWavPcm,
                    },
                };
            }
        }
        self.give_up(track_id, &mut notices);
        CastMove { notices, next: CastNext::Wait }
    }

    /// The status is asked for in a conversation, after a while.
    pub fn poll_due(&self, elapsed_ms: u64) -> (r: bool)
        ensures
            r == (self@.has_session && elapsed_ms >= DEFAULT_POLL_INTERVAL_MS),
    {
        self.has_session && elapsed_ms >= DEFAULT_POLL_INTERVAL_MS
    }
}

/// A track that is asked for is either played or reported as finished: whatever comes of sending
/// it as it is and of sending it transcoded, in the end it is the current track or its end is
/// told.
pub proof fn asked_tracks_end_or_play(
    s: CastView,
    track_id: Seq<char>,
    path: Seq<char>,
    first: Result<(), Seq<char>>,
    second: Result<(), Seq<char>>,
)
    ensures
        ({
            let (asked, _) = on_load(s, track_id, path);
            let (after, one) = on_loaded(asked, first);
            if one.next is Load {
                let (end, two) = on_loaded(after, second);
                &&& two.next is Wait && end.pending is None
                &&& end.track_id == Some(track_id) || two.notices.contains(
                    NoticeView::TrackFinished(track_id),
                )
            } else {
                &&& one.next is Wait && after.pending is None
                &&& after.track_id == Some(track_id) || one.notices.contains(
                    NoticeView::TrackFinished(track_id),
                )
            }
        }),
{
    let (asked, _) = on_load(s, track_id, path);
    let (after, one) = on_loaded(asked, first);
    if one.next is Load {
        let (end, two) = on_loaded(after, second);
        if second is Err {
            assert(two.notices[1] == NoticeView::TrackFinished(track_id));
        }
    } else if first is Err {
        assert(one.notices[1] == NoticeView::TrackFinished(track_id));
    }
}

/// Without leave to transcode, no track is ever sent transcoded.
pub proof fn nothing_is_transcoded_without_leave(
    s: CastView,
    track_id: Seq<char>,
    path: Seq<char>,
    result: Result<(), Seq<char>>,
    player_state: Seq<char>,
    idle_reason: Option<Seq<char>>,
    elapsed_ms: u64,
    total_ms: u64,
)
    requires
        !s.allow_transcode_fallback,
    ensures
        on_load(s, track_id, path).1.next == (NextView::Load {
            track_id,
            path,
            kind: CastPlaybackPathKind::Direct,
        }),
        !(on_loaded(s, result).1.next is Load),
        !(on_status(s, player_state, idle_reason, elapsed_ms, total_ms).1.next is Load),
{
}

} // verus!
