use roqtune::cast::devices::{
    cast_device_from_service, cast_instance_name_from_fullname, collect_devices, find_device,
    CastService,
};
use roqtune::cast::frame::{
    decode_cast_frame, encode_cast_frame, frame_length, read_varint, write_varint,
    write_varint_field,
};
use roqtune::cast::http::{
    extension_to_content_type, is_end_of_headers, media_url, next_read, not_found,
    parse_header_line, parse_http_request, parse_range_header, parse_request_line, stream_plan,
    stream_step, token_from_nanos, transcode_key, wav_file_name, StreamPlan, StreamResource,
    StreamStep, StreamTable,
};
use roqtune::cast::manager::{
    describe_path, load_content_type, CastConnectionState, CastManager, CastNext, CastNotice,
    CastPlaybackPathKind,
};
use roqtune::cast::session::{awaited_app, parse_media_status, CastChannel, MediaRequest, Outgoing};
use roqtune::cast::wav::{stream_format, wav_header};
use roqtune::protocol::CastDeviceInfo;

fn sent(channel: &CastChannel, message: &Outgoing) -> (String, String, String) {
    let frame = channel.frame(message).expect("message fits a frame");
    let head = frame[..4].to_vec();
    let body = frame[4..].to_vec();
    assert_eq!(frame_length(&head) as usize, body.len());
    let decoded = decode_cast_frame(&body).expect("own frame decodes");
    assert_eq!(decoded.source_id, channel.sender_id);
    (
        decoded.namespace,
        message.destination.clone(),
        decoded.payload_utf8,
    )
}

fn device(id: &str, name: &str) -> CastDeviceInfo {
    CastDeviceInfo {
        id: id.to_string(),
        name: name.to_string(),
        model: "Model".to_string(),
        host: "host.local".to_string(),
        address: "192.168.0.9".to_string(),
        port: 8009,
    }
}

#[test]
fn varints_come_back() {
    for value in [0u64, 1, 127, 128, 300, 16_384, u32::MAX as u64, u64::MAX] {
        let mut out = Vec::new();
        write_varint(&mut out, value);
        let mut cursor = 0usize;
        assert_eq!(read_varint(&out, &mut cursor), Some(value));
        assert_eq!(cursor, out.len());
    }
    let mut out = Vec::new();
    write_varint(&mut out, 300);
    assert_eq!(out, vec![0xac, 0x02]);
    let mut cursor = 0usize;
    assert_eq!(read_varint(&vec![0x80], &mut cursor), None);
    assert_eq!(cursor, 1);
    cursor = 0;
    assert_eq!(read_varint(&vec![0x80; 12], &mut cursor), None);
    assert_eq!(cursor, 10);
    cursor = 7;
    assert_eq!(read_varint(&vec![1, 2], &mut cursor), None);
    assert_eq!(cursor, 7);
    let mut field = Vec::new();
    write_varint_field(&mut field, 5, 0);
    assert_eq!(field, vec![0x28, 0x00]);
}

#[test]
fn frames_come_back() {
    let frame = encode_cast_frame("s", "d", "ns", "{}").expect("small frame");
    assert_eq!(
        frame,
        vec![
            0, 0, 0, 18, 0x08, 0, 0x12, 1, b's', 0x1a, 1, b'd', 0x22, 2, b'n', b's', 0x28, 0, 0x32,
            2, b'{', b'}'
        ]
    );
    let decoded = decode_cast_frame(&frame[4..].to_vec()).expect("own frame decodes");
    assert_eq!(decoded.source_id, "s");
    assert_eq!(decoded.namespace, "ns");
    assert_eq!(decoded.payload_utf8, "{}");
}

#[test]
fn broken_frames_are_refused() {
    let failure = |bytes: Vec<u8>| match decode_cast_frame(&bytes) {
        Ok(_) => String::new(),
        Err(text) => text,
    };
    assert_eq!(failure(vec![0x80]), "invalid cast protobuf key");
    assert_eq!(failure(vec![0x08]), "invalid cast protobuf varint field");
    assert_eq!(failure(vec![0x12]), "invalid cast protobuf length");
    assert_eq!(
        failure(vec![0x12, 5, b'a']),
        "cast protobuf string out of bounds"
    );
    assert_eq!(
        failure(vec![0x12, 1, 0xff]),
        "cast protobuf invalid utf8"
    );
    assert_eq!(
        failure(vec![0x11]),
        "unsupported cast protobuf wire type"
    );
    assert!(decode_cast_frame(&Vec::new()).is_ok());
}

#[test]
fn requests_are_parsed() {
    assert_eq!(
        parse_header_line(" Range : bytes=0-1\r\n"),
        Some(("Range".to_string(), "bytes=0-1".to_string()))
    );
    assert_eq!(parse_header_line("no colon"), None);
    assert!(is_end_of_headers("\r\n"));
    assert!(is_end_of_headers("\n"));
    assert!(is_end_of_headers(""));
    assert!(!is_end_of_headers("a"));
    assert_eq!(
        parse_request_line("GET /cast/abc HTTP/1.1\r\n"),
        Ok(("GET".to_string(), "/cast/abc".to_string()))
    );
    assert_eq!(
        parse_request_line(" \r\n"),
        Err("empty request".to_string())
    );
    assert_eq!(
        parse_request_line("GET\r\n"),
        Err("missing request path".to_string())
    );
    let request = parse_http_request(
        "GET /cast/abc HTTP/1.1\r\n",
        &vec![
            "Host: a\r\n".to_string(),
            "RANGE: bytes=1-\r\n".to_string(),
            "range: bytes=2-\r\n".to_string(),
        ],
    )
    .expect("request parses");
    assert_eq!(request.method, "GET");
    assert_eq!(request.path, "/cast/abc");
    assert_eq!(request.header("range").map(|v| v.as_str()), Some("bytes=2-"));
    assert_eq!(request.header("missing"), None);
}

#[test]
fn ranges_lie_in_the_file() {
    assert_eq!(parse_range_header(None, 10), None);
    assert_eq!(parse_range_header(Some("bytes=2-5"), 10), Some((2, 5)));
    assert_eq!(parse_range_header(Some("bytes=2-"), 10), Some((2, 9)));
    assert_eq!(parse_range_header(Some("bytes=-5"), 10), Some((0, 5)));
    assert_eq!(parse_range_header(Some("bytes=-"), 10), Some((0, 9)));
    assert_eq!(parse_range_header(Some("bytes=5-10"), 10), None);
    assert_eq!(parse_range_header(Some("bytes=6-5"), 10), None);
    assert_eq!(parse_range_header(Some("bytes=x-5"), 10), None);
    assert_eq!(parse_range_header(Some("items=0-1"), 10), None);
    assert_eq!(parse_range_header(Some("bytes=+1- 3 "), 10), Some((1, 3)));
    assert_eq!(
        parse_range_header(Some("bytes=0-99999999999999999999"), 10),
        None
    );
}

#[test]
fn extensions_tell_the_content_type() {
    for (path, kind) in [
        ("/m/a.flac", "audio/flac"),
        ("/m/a.MP3", "audio/mpeg"),
        ("/m/a.wav", "audio/wav"),
        ("/m/a.ogg", "audio/ogg"),
        ("/m/a.m4a", "audio/mp4"),
        ("/m/a.mp4", "audio/mp4"),
        ("/m/a.aac", "audio/aac"),
        ("/m/a.b.xyz", "application/octet-stream"),
        ("/m/flac", "application/octet-stream"),
        ("/m/.flac", "application/octet-stream"),
    ] {
        assert_eq!(extension_to_content_type(path), kind, "{}", path);
        let std_extension = std::path::Path::new(path)
            .extension()
            .and_then(|ext| ext.to_str())
            .unwrap_or("")
            .to_ascii_lowercase();
        assert_eq!(
            std_extension.is_empty() || std_extension == "xyz",
            kind == "application/octet-stream"
        );
    }
}

#[test]
fn registered_files_are_found_until_they_expire() {
    let mut table = StreamTable::new();
    let resource = |path: &str, created_ms: u64| StreamResource {
        path: path.to_string(),
        content_type: "audio/flac".to_string(),
        allowed_ip: "10.0.0.1".to_string(),
        created_ms,
    };
    table.register("a".to_string(), resource("/a", 0));
    table.register("b".to_string(), resource("/b", 500));
    table.register("a".to_string(), resource("/c", 100));
    assert_eq!(table.find("a").map(|r| r.path.as_str()), Some("/c"));
    assert!(table.find("x").is_none());
    table.prune(1_800_100);
    assert!(table.find("a").is_some());
    table.prune(1_800_101);
    assert!(table.find("a").is_none());
    assert!(table.find("b").is_some());
}

#[test]
fn stream_requests_are_answered() {
    assert_eq!(
        media_url("10.0.0.2", 4711, "tok"),
        "http://10.0.0.2:4711/cast/tok"
    );
    let StreamStep::Respond(refused) = stream_step("POST", "/cast/a") else {
        panic!("only GET is served");
    };
    assert_eq!(
        refused.head(),
        "HTTP/1.1 405 Method Not Allowed\r\nContent-Type: text/plain; charset=utf-8\r\nContent-Length: 19\r\nConnection: close\r\n\r\n"
    );
    assert_eq!(refused.body, "Method Not Allowed\n");
    assert_eq!(
        stream_step("GET", "/cast/ abc "),
        StreamStep::LookUp("abc".to_string())
    );
    assert_eq!(
        stream_step("GET", "/cast/"),
        StreamStep::Fail("invalid cast stream path".to_string())
    );
    assert_eq!(
        stream_step("GET", "/other/abc"),
        StreamStep::Fail("invalid cast stream path".to_string())
    );
    assert_eq!(not_found().status_line, "HTTP/1.1 404 Not Found");
    assert_eq!(not_found().body, "Not Found\n");
}

#[test]
fn stream_plans_tell_what_is_served() {
    let StreamPlan::Respond(empty) = stream_plan("audio/flac", None, 0) else {
        panic!("an empty file has no content");
    };
    assert_eq!(empty.status_line, "HTTP/1.1 204 No Content");
    assert_eq!(empty.content_type, "audio/flac");
    assert_eq!(
        stream_plan("audio/flac", None, 100),
        StreamPlan::Serve {
            start: 0,
            length: 100,
            head: "HTTP/1.1 200 OK\r\nContent-Type: audio/flac\r\nAccept-Ranges: bytes\r\nContent-Length: 100\r\nConnection: close\r\n\r\n".to_string(),
        }
    );
    assert_eq!(
        stream_plan("audio/flac", Some("bytes=10-19"), 100),
        StreamPlan::Serve {
            start: 10,
            length: 10,
            head: "HTTP/1.1 206 Partial Content\r\nContent-Type: audio/flac\r\nAccept-Ranges: bytes\r\nContent-Length: 10\r\nConnection: close\r\nContent-Range: bytes 10-19/100\r\n\r\n".to_string(),
        }
    );
    assert_eq!(next_read(100, 64), 64);
    assert_eq!(next_read(10, 64), 10);
    assert_eq!(next_read(0, 64), 0);
}

#[test]
fn names_are_written_in_hexadecimal() {
    assert_eq!(token_from_nanos(0), "00000000000000000000000000000000");
    assert_eq!(
        token_from_nanos(1_700_000_000_123_456_789),
        format!("{:032x}", 1_700_000_000_123_456_789u128)
    );
    assert_eq!(token_from_nanos(u128::MAX), format!("{:032x}", u128::MAX));
    assert_eq!(wav_file_name(0xab), "00000000000000ab.wav");
    assert_eq!(wav_file_name(u64::MAX), "ffffffffffffffff.wav");
    assert_eq!(transcode_key("/m/a.ape", 12, 34), "/m/a.ape:12:34");
}

#[test]
fn wav_headers_tell_their_data() {
    let header = wav_header(44_100, 2, 1000);
    assert_eq!(header.len(), 44);
    assert_eq!(&header[0..4], b"RIFF");
    assert_eq!(header[4..8], 1036u32.to_le_bytes());
    assert_eq!(&header[8..16], b"WAVEfmt ");
    assert_eq!(header[16..20], 16u32.to_le_bytes());
    assert_eq!(header[20..22], 1u16.to_le_bytes());
    assert_eq!(header[22..24], 2u16.to_le_bytes());
    assert_eq!(header[24..28], 44_100u32.to_le_bytes());
    assert_eq!(header[28..32], 176_400u32.to_le_bytes());
    assert_eq!(header[32..34], 4u16.to_le_bytes());
    assert_eq!(header[34..36], 16u16.to_le_bytes());
    assert_eq!(&header[36..40], b"data");
    assert_eq!(header[40..44], 1000u32.to_le_bytes());
    let long = wav_header(192_000, 8, u64::MAX);
    assert_eq!(long[4..8], (u64::MAX as u32).to_le_bytes());
    assert_eq!(long[40..44], (u64::MAX as u32).to_le_bytes());
    assert_eq!(stream_format(None, None), (44_100, 2));
    assert_eq!(stream_format(Some(48_000), Some(0)), (48_000, 1));
    assert_eq!(stream_format(Some(96_000), Some(6)), (96_000, 6));
}

fn service() -> CastService {
    CastService {
        addresses: vec![0xC0A8_0014, 0xC0A8_0009],
        hostname: "tv.local.".to_string(),
        fullname: "Living Room._googlecast._tcp.local.".to_string(),
        port: 8009,
        friendly_name: None,
        model: None,
        id: None,
    }
}

#[test]
fn services_become_devices() {
    let plain = cast_device_from_service(&service()).expect("service has an address");
    assert_eq!(plain.id, "tv.local:192.168.0.9:8009");
    assert_eq!(plain.name, "Living Room");
    assert_eq!(plain.model, "");
    assert_eq!(plain.host, "tv.local");
    assert_eq!(plain.address, "192.168.0.9");
    assert_eq!(plain.port, 8009);

    let mut named = service();
    named.friendly_name = Some(" TV ".to_string());
    named.model = Some("Chromecast".to_string());
    named.id = Some("x1".to_string());
    let named = cast_device_from_service(&named).expect("service has an address");
    assert_eq!(named.id, "x1");
    assert_eq!(named.name, "TV");
    assert_eq!(named.model, "Chromecast");

    let mut nowhere = service();
    nowhere.addresses = Vec::new();
    assert!(cast_device_from_service(&nowhere).is_none());

    assert_eq!(
        cast_instance_name_from_fullname("._googlecast._tcp.local."),
        "_googlecast._tcp.local"
    );
    assert_eq!(cast_instance_name_from_fullname(".Plain."), "Plain");
}

#[test]
fn devices_are_listed_once_and_by_name() {
    let found = vec![
        device("1", "beta"),
        device("2", "Alpha"),
        device("1", "Gamma"),
        device("3", "ÄHNLICH"),
        device("4", "ähnlicher"),
    ];
    let devices = collect_devices(&found);
    let names: Vec<&str> = devices.iter().map(|d| d.name.as_str()).collect();
    assert_eq!(names, vec!["Alpha", "Gamma", "ÄHNLICH", "ähnlicher"]);
    assert_eq!(find_device(&devices, "1"), Some(1));
    assert_eq!(find_device(&devices, "9"), None);
}

#[test]
fn sessions_speak_the_protocol() {
    let mut channel = CastChannel::new();
    let (namespace, destination, payload) = sent(&channel, &channel.connect_receiver());
    assert_eq!(namespace, "urn:x-cast:com.google.cast.tp.connection");
    assert_eq!(destination, "receiver-0");
    assert_eq!(payload, "{\"origin\":{},\"type\":\"CONNECT\"}");

    let launch = channel.launch();
    let (namespace, destination, payload) = sent(&channel, &launch);
    assert_eq!(namespace, "urn:x-cast:com.google.cast.receiver");
    assert_eq!(destination, "receiver-0");
    assert_eq!(
        payload,
        "{\"appId\":\"CC1AD845\",\"requestId\":1,\"type\":\"LAUNCH\"}"
    );

    let app = awaited_app(
        "urn:x-cast:com.google.cast.receiver",
        "{\"status\":{\"applications\":[{\"appId\":\"other\"},{\"appId\":\"CC1AD845\",\"transportId\":\"t-1\",\"sessionId\":\"s-1\"}]}}",
    );
    assert_eq!(app, Some(("t-1".to_string(), "s-1".to_string())));
    assert_eq!(
        awaited_app(
            "urn:x-cast:com.google.cast.media",
            "{\"status\":{\"applications\":[{\"appId\":\"CC1AD845\",\"transportId\":\"t-1\",\"sessionId\":\"s-1\"}]}}",
        ),
        None
    );
    assert_eq!(
        awaited_app("urn:x-cast:com.google.cast.receiver", "not json"),
        None
    );

    assert_eq!(
        channel.stop_receiver_app().err(),
        Some("cast receiver session id is not available".to_string())
    );
    channel.adopt("t-1".to_string(), "s-1".to_string());
    let (_, destination, _) = sent(&channel, &channel.connect_media());
    assert_eq!(destination, "t-1");

    let load = channel.load_media("http://a/cast/x", "audio/flac", None);
    let (namespace, destination, payload) = sent(&channel, &load);
    assert_eq!(namespace, "urn:x-cast:com.google.cast.media");
    assert_eq!(destination, "t-1");
    assert_eq!(
        payload,
        "{\"autoplay\":true,\"media\":{\"contentId\":\"http://a/cast/x\",\"contentType\":\"audio/flac\",\"metadata\":{\"metadataType\":0},\"streamType\":\"BUFFERED\"},\"requestId\":2,\"type\":\"LOAD\"}"
    );

    for (request, word, id) in [
        (MediaRequest::Play, "PLAY", 3),
        (MediaRequest::Pause, "PAUSE", 4),
        (MediaRequest::Status, "GET_STATUS", 5),
        (MediaRequest::Stop, "STOP", 6),
    ] {
        let message = channel.media_request(request);
        let (_, _, payload) = sent(&channel, &message);
        assert_eq!(
            payload,
            format!("{{\"requestId\":{},\"type\":\"{}\"}}", id, word)
        );
    }
    let seek = channel.seek("1.5");
    let (_, _, payload) = sent(&channel, &seek);
    assert_eq!(
        payload,
        "{\"currentTime\":1.5,\"requestId\":7,\"resumeState\":\"PLAYBACK_START\",\"type\":\"SEEK\"}"
    );
    let volume = channel.set_volume("0.25");
    let (namespace, destination, payload) = sent(&channel, &volume);
    assert_eq!(namespace, "urn:x-cast:com.google.cast.receiver");
    assert_eq!(destination, "receiver-0");
    assert_eq!(
        payload,
        "{\"requestId\":8,\"type\":\"SET_VOLUME\",\"volume\":{\"level\":0.25}}"
    );

    let farewell = channel.shutdown();
    let texts: Vec<(String, String, String)> =
        farewell.iter().map(|m| sent(&channel, m)).collect();
    assert_eq!(texts.len(), 4);
    assert_eq!(texts[0].2, "{\"requestId\":9,\"type\":\"STOP\"}");
    assert_eq!(
        texts[1].2,
        "{\"requestId\":10,\"sessionId\":\"s-1\",\"type\":\"STOP\"}"
    );
    assert_eq!(texts[2].1, "t-1");
    assert_eq!(texts[3].1, "receiver-0");
    assert_eq!(texts[3].2, "{\"type\":\"CLOSE\"}");
    assert_eq!(channel.receiver_app_session_id, None);
}

#[test]
fn pings_are_answered() {
    let channel = CastChannel::new();
    let reply = channel
        .heartbeat_reply("{\"type\":\"PING\"}")
        .expect("a ping has a reply");
    let (namespace, destination, payload) = sent(&channel, &reply);
    assert_eq!(namespace, "urn:x-cast:com.google.cast.tp.heartbeat");
    assert_eq!(destination, "receiver-0");
    assert_eq!(payload, "{\"type\":\"PONG\"}");
    assert!(channel.heartbeat_reply("{\"type\":\"PONG\"}").is_none());
    assert!(channel.heartbeat_reply("broken").is_none());
}

#[test]
fn media_status_is_read() {
    let status = parse_media_status(
        "{\"type\":\"MEDIA_STATUS\",\"status\":[{\"playerState\":\"IDLE\",\"currentTime\":12.5,\"media\":{\"duration\":200},\"idleReason\":\"FINISHED\"}]}",
    )
    .expect("a status is there");
    assert_eq!(status.player_state, "IDLE");
    assert_eq!(status.current_time.as_deref(), Some("12.5"));
    assert_eq!(status.duration.as_deref(), Some("200"));
    assert_eq!(status.idle_reason.as_deref(), Some("FINISHED"));

    let bare = parse_media_status("{\"type\":\"MEDIA_STATUS\",\"status\":[{}]}")
        .expect("an empty status is one");
    assert_eq!(bare.player_state, "UNKNOWN");
    assert_eq!(bare.current_time, None);
    assert_eq!(bare.duration, None);
    assert_eq!(bare.idle_reason, None);

    assert!(parse_media_status("{\"type\":\"MEDIA_STATUS\",\"status\":[]}").is_none());
    assert!(parse_media_status("{\"type\":\"OTHER\",\"status\":[{}]}").is_none());
    assert!(parse_media_status("[").is_none());
}

fn connected() -> CastManager {
    let mut manager = CastManager::new();
    let _ = manager.devices_found(vec![device("d", "TV")]);
    let moved = manager.connect("d");
    assert_eq!(moved.next, CastNext::Open(device("d", "TV")));
    let _ = manager.opened(Ok(()));
    manager
}

#[test]
fn devices_are_discovered_and_connected() {
    let mut manager = CastManager::new();
    let moved = manager.discover();
    assert_eq!(moved.next, CastNext::Discover);
    let moved = manager.devices_found(vec![device("d", "TV")]);
    assert_eq!(
        moved.notices,
        vec![
            CastNotice::Devices(vec![device("d", "TV")]),
            CastNotice::ConnectionState {
                state: CastConnectionState::Disconnected,
                reason: None,
                device: None,
            },
        ]
    );
    let moved = manager.connect("missing");
    assert_eq!(
        moved.notices,
        vec![CastNotice::ConnectionState {
            state: CastConnectionState::Disconnected,
            reason: Some("Selected cast device was not found.".to_string()),
            device: None,
        }]
    );
    let moved = manager.connect("d");
    assert_eq!(moved.next, CastNext::Open(device("d", "TV")));
    let moved = manager.opened(Err("refused".to_string()));
    assert_eq!(
        moved.notices,
        vec![CastNotice::ConnectionState {
            state: CastConnectionState::Disconnected,
            reason: Some("Failed to connect: refused".to_string()),
            device: None,
        }]
    );
    let manager = connected();
    assert!(manager.has_session);
    assert!(!manager.poll_due(0));
}

#[test]
fn direct_failures_ask_for_the_fallback() {
    let mut manager = connected();
    let moved = manager.load_track("t", "/m/a.flac");
    assert_eq!(
        moved.next,
        CastNext::Load {
            track_id: "t".to_string(),
            path: "/m/a.flac".to_string(),
            kind: CastPlaybackPathKind::Direct,
        }
    );
    let moved = manager.loaded(Err("no".to_string()));
    assert_eq!(
        moved.notices,
        vec![
            CastNotice::PlaybackError {
                track_id: "t".to_string(),
                message: "Direct cast failed: no. Enable 'Cast transcode fallback' in Settings > Audio to improve compatibility.".to_string(),
                can_retry_with_transcode: true,
            },
            CastNotice::TrackFinished("t".to_string()),
        ]
    );
    assert_eq!(moved.next, CastNext::Wait);
}

#[test]
fn fallbacks_are_tried_where_they_are_allowed() {
    let mut manager = connected();
    manager.config_changed(true);
    let _ = manager.load_track("t", "/m/a.ape");
    let moved = manager.loaded(Err("no".to_string()));
    assert_eq!(
        moved.next,
        CastNext::Load {
            track_id: "t".to_string(),
            path: "/m/a.ape".to_string(),
            kind: CastPlaybackPathKind::TranscodeWavPcm,
        }
    );
    let moved = manager.loaded(Err("still no".to_string()));
    assert_eq!(
        moved.notices,
        vec![
            CastNotice::PlaybackError {
                track_id: "t".to_string(),
                message: "Cast failed after direct and WAV fallback attempts: still no"
                    .to_string(),
                can_retry_with_transcode: false,
            },
            CastNotice::TrackFinished("t".to_string()),
        ]
    );
    assert_eq!(describe_path(CastPlaybackPathKind::Direct), "Casting: Direct (unmodified source stream)");
    assert_eq!(
        describe_path(CastPlaybackPathKind::TranscodeWavPcm),
        "Casting: Transcode (WAV PCM)"
    );
    assert_eq!(
        load_content_type(CastPlaybackPathKind::Direct, "/a.mp3"),
        "audio/mpeg"
    );
    assert_eq!(
        load_content_type(CastPlaybackPathKind::TranscodeWavPcm, "/a.mp3"),
        "audio/wav"
    );
}

#[test]
fn status_moves_the_playback() {
    let mut manager = connected();
    manager.config_changed(true);
    let _ = manager.load_track("t", "/m/a.flac");
    let moved = manager.loaded(Ok(()));
    assert_eq!(
        moved.notices,
        vec![
            CastNotice::PlaybackPath {
                kind: CastPlaybackPathKind::Direct,
                description: "Casting: Direct (unmodified source stream)".to_string(),
            },
            CastNotice::TrackStarted {
                id: "t".to_string(),
                start_offset_ms: 0,
            },
        ]
    );
    let moved = manager.status("PLAYING", &None, 1000, 9000);
    assert_eq!(
        moved.notices,
        vec![CastNotice::Progress {
            elapsed_ms: 1000,
            total_ms: 9000,
        }]
    );
    let moved = manager.status("IDLE", &Some("ERROR".to_string()), 1000, 9000);
    assert_eq!(
        moved.next,
        CastNext::Load {
            track_id: "t".to_string(),
            path: "/m/a.flac".to_string(),
            kind: CastPlaybackPathKind::TranscodeWavPcm,
        }
    );
    let moved = manager.loaded(Ok(()));
    assert!(moved.notices.contains(&CastNotice::PlaybackError {
        track_id: "t".to_string(),
        message: "Direct cast failed on receiver. Retrying with WAV PCM.".to_string(),
        can_retry_with_transcode: false,
    }));
    let moved = manager.status("IDLE", &Some("FINISHED".to_string()), 9000, 9000);
    assert!(moved
        .notices
        .contains(&CastNotice::TrackFinished("t".to_string())));
    let moved = manager.status("IDLE", &Some("FINISHED".to_string()), 9000, 9000);
    assert!(moved.notices.is_empty());

    let moved = manager.disconnect();
    assert_eq!(moved.next, CastNext::Close);
    assert!(manager.load_device().is_err());
}

#[test]
fn receiver_errors_skip_the_track() {
    let mut manager = connected();
    let _ = manager.load_track("t", "/m/a.flac");
    let _ = manager.loaded(Ok(()));
    let moved = manager.status("IDLE", &Some("CANCELLED".to_string()), 0, 0);
    assert_eq!(
        moved.notices,
        vec![
            CastNotice::Progress {
                elapsed_ms: 0,
                total_ms: 0,
            },
            CastNotice::PlaybackError {
                track_id: "t".to_string(),
                message: "Cast receiver failed to play this track. Skipping to next track."
                    .to_string(),
                can_retry_with_transcode: true,
            },
            CastNotice::TrackFinished("t".to_string()),
        ]
    );
    assert!(manager.poll_due(1_000_000));
    assert!(!CastManager::new().poll_due(1_000_000));
}
