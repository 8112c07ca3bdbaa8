use roqtune::integration::uri::{
    encode_opensubsonic_track_uri, is_remote_track_path, parse_opensubsonic_track_uri,
    strip_trailing_slash,
};

#[test]
fn integration_uri_test_encode_decode_round_trip() {
    let uri = encode_opensubsonic_track_uri(
        "home-profile",
        "track-001",
        "https://music.example.com/",
        "alice",
        Some("flac"),
    );
    let decoded = parse_opensubsonic_track_uri(&uri).expect("encoded uri should decode");
    assert_eq!(decoded.profile_id, "home-profile");
    assert_eq!(decoded.song_id, "track-001");
    assert_eq!(decoded.endpoint, "https://music.example.com");
    assert_eq!(decoded.username, "alice");
    assert_eq!(decoded.format_hint.as_deref(), Some("flac"));

    let uri = encode_opensubsonic_track_uri(
        "home-profile",
        "track-001",
        "https://music.example.com/",
        "alice",
        None,
    );
    let decoded = parse_opensubsonic_track_uri(&uri).expect("encoded uri should decode");
    assert_eq!(decoded.profile_id, "home-profile");
    assert_eq!(decoded.song_id, "track-001");
    assert_eq!(decoded.endpoint, "https://music.example.com");
    assert_eq!(decoded.username, "alice");
}

#[test]
fn integration_uri_test_remote_track_path_detection() {
    let uri = encode_opensubsonic_track_uri(
        "home-profile",
        "track-001",
        "https://music.example.com",
        "alice",
        None,
    );
    assert!(is_remote_track_path(&uri));
    assert!(!is_remote_track_path("/music/local.flac"));
}

#[test]
fn test_decode_accepts_legacy_uppercase_query_keys() {
    let uri = "rtq://open_subsonic/home-profile/track-001?ENDPOINT=https%3A%2F%2Fmusic.example.com&USERNAME=alice&FORMAT=FLAC";
    let decoded = parse_opensubsonic_track_uri(uri).expect("legacy uri should decode");
    assert_eq!(decoded.profile_id, "home-profile");
    assert_eq!(decoded.song_id, "track-001");
    assert_eq!(decoded.endpoint, "https://music.example.com");
    assert_eq!(decoded.username, "alice");
    assert_eq!(decoded.format_hint.as_deref(), Some("flac"));
}

#[test]
fn test_decode_accepts_opensubsonic_host_variant() {
    let uri = "rtq://opensubsonic/home-profile/track-001?endpoint=https%3A%2F%2Fmusic.example.com&username=alice";
    let decoded =
        parse_opensubsonic_track_uri(uri).expect("opensubsonic host variant should decode");
    assert_eq!(decoded.profile_id, "home-profile");
    assert_eq!(decoded.song_id, "track-001");
    assert_eq!(decoded.endpoint, "https://music.example.com");
    assert_eq!(decoded.username, "alice");
}

#[test]
fn reserved_characters_are_escaped_and_come_back() {
    let uri = encode_opensubsonic_track_uri(
        "home/work",
        "a b?c",
        "https://music.example.com:4040/base/",
        "al&ce=ü",
        Some("ogg"),
    );
    assert_eq!(
        uri,
        "rtq://open_subsonic/home%2Fwork/a%20b%3Fc?endpoint=https%3A%2F%2Fmusic.example.com%3A4040%2Fbase&username=al%26ce%3D%C3%BC&format=ogg"
    );
    let decoded = parse_opensubsonic_track_uri(&uri).expect("encoded uri should decode");
    assert_eq!(decoded.profile_id, "home/work");
    assert_eq!(decoded.song_id, "a b?c");
    assert_eq!(decoded.endpoint, "https://music.example.com:4040/base");
    assert_eq!(decoded.username, "al&ce=ü");
    assert_eq!(decoded.format_hint.as_deref(), Some("ogg"));
}

#[test]
fn incomplete_uris_are_refused() {
    for uri in [
        "/music/local.flac",
        "rtq://elsewhere/home/track?endpoint=a&username=b",
        "rtq://open_subsonic/home?endpoint=a&username=b",
        "rtq://open_subsonic//track?endpoint=a&username=b",
        "rtq://open_subsonic/home/%20?endpoint=a&username=b",
        "rtq://open_subsonic/%FF/track?endpoint=a&username=b",
    ] {
        assert!(parse_opensubsonic_track_uri(uri).is_none(), "{}", uri);
    }
}

#[test]
fn aliases_and_unknown_keys_are_read() {
    let decoded = parse_opensubsonic_track_uri(
        "RTQ://OpenSubsonic/home/track/1?server=https%3A%2F%2Fa%2F&&u=%20bob%20&suffix=+&x=1&format=%FF",
    )
    .expect("uri should decode");
    assert_eq!(decoded.profile_id, "home");
    assert_eq!(decoded.song_id, "track/1");
    assert_eq!(decoded.endpoint, "https://a");
    assert_eq!(decoded.username, "bob");
    assert_eq!(decoded.format_hint.as_deref(), Some("%ff"));

    let bare = parse_opensubsonic_track_uri("rtq://opensubsonic/home/track").expect("no query");
    assert_eq!(bare.endpoint, "");
    assert_eq!(bare.username, "");
    assert_eq!(bare.format_hint, None);
}

#[test]
fn endpoints_lose_their_trailing_slashes() {
    assert_eq!(strip_trailing_slash("https://a/"), "https://a");
    assert_eq!(strip_trailing_slash(" https://a// "), "https://a");
    assert_eq!(strip_trailing_slash(""), "");
}
