use roqtune::integration::uri::encode_opensubsonic_track_uri;
use roqtune::library::enrichment::LibraryEnrichmentManager;
use roqtune::library::matching::{word_overlap, word_overlap_points};
use roqtune::single::Single;

#[test]
fn white_space_is_what_the_standard_library_takes_it_for() {
    for code in 0..=0x10ffffu32 {
        if let Some(c) = char::from_u32(code) {
            let text = format!("a{}b", c);
            let expected = text.split_whitespace().collect::<Vec<_>>().join(" ");
            if c.is_whitespace() || code < 0x3100 || code % 97 == 0 {
                assert_eq!(
                    LibraryEnrichmentManager::collapse_whitespace(&text),
                    expected,
                    "{:x}",
                    code
                );
            }
        }
    }
}

#[test]
fn escapes_agree_with_the_codec() {
    for text in ["", "abc-_.~XYZ019", "a b/c?d=e&f%g+h", "ü€😀", "\u{0}\u{7f}"] {
        let uri = encode_opensubsonic_track_uri(text, "s", "e", "u", None);
        assert_eq!(
            uri,
            format!(
                "rtq://open_subsonic/{}/s?endpoint=e&username=u",
                urlencoding::encode(text)
            )
        );
    }
}

#[test]
fn words_are_cased_and_cut() {
    assert_eq!(
        LibraryEnrichmentManager::title_case_words("the qUICK fox"),
        "The Quick Fox"
    );
    assert_eq!(
        LibraryEnrichmentManager::truncate_blurb(" a  b ", 10),
        "a b"
    );
    let long = "x".repeat(400);
    assert_eq!(
        LibraryEnrichmentManager::truncate_blurb(&long, 360).chars().count(),
        361
    );
}

#[test]
fn shares_of_words_agree_with_single_precision() {
    for shared in 0..12usize {
        for most in shared.max(1)..13usize {
            let left: Vec<char> = (0..most)
                .map(|i| format!("w{}", i))
                .collect::<Vec<_>>()
                .join(" ")
                .chars()
                .collect();
            let right: Vec<char> = (0..most)
                .map(|i| {
                    if i < shared {
                        format!("w{}", i)
                    } else {
                        format!("v{}", i)
                    }
                })
                .collect::<Vec<_>>()
                .join(" ")
                .chars()
                .collect();
            let ratio = shared as f32 / most as f32;
            for factor in [24u32, 32, 40, 45] {
                assert_eq!(
                    word_overlap_points(&left, &right, factor),
                    (ratio * factor as f32).round() as u32
                );
            }
            let share = word_overlap(&left, &right);
            let value = share.mantissa as f64 * 2f64.powi(share.exponent);
            assert_eq!(value, ratio as f64);
        }
    }
    for n in [1u64, 2, 3, 16_777_215, 16_777_216, 16_777_217, 16_777_219, u64::MAX] {
        let single = Single::of(n);
        assert_eq!(
            single.mantissa as f64 * 2f64.powi(single.exponent),
            n as f32 as f64
        );
    }
}

#[test]
fn titles_are_taken_apart() {
    assert_eq!(
        LibraryEnrichmentManager::title_parenthetical("Sample (band)").as_deref(),
        Some("band")
    );
    assert_eq!(LibraryEnrichmentManager::title_parenthetical("Sample"), None);
    assert_eq!(
        LibraryEnrichmentManager::normalized_title_head("Sample-Group (South Korean band)"),
        "sample group"
    );
}
