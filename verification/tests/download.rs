use acoustid_tagger::download::{download_arguments, is_white_space, playlist_paths, track_path};
use acoustid_tagger::fpcalc::{Fpcalc, FpcalcError};

const OUTPUTS: [&str; 16] = [
    "",
    "\n",
    "\"/music/Artist - Song.mp3\"\n",
    "  \"/music/a.mp3\"  ",
    "\"/music/a.mp3\"\n\"/music/b.mp3\"\n",
    "\"/music/a.mp3\"\r\n\"/music/b.mp3\"\r\n",
    "\"/music/a.mp3\"\n\n\"/music/c.mp3\"",
    "a\rb\nc\r",
    "a\r\r\nb",
    "\"\n\"",
    "\u{00a0}\u{3000}x y\u{2003}\t\r\n",
    "\u{200b}x\u{200b}",
    "no quotes at all",
    "\"quoted \"inside\" quotes\"",
    "\n\nfirst\n\nsecond\n\n",
    "\"a\"\n \"b\" \n\"c\"",
];

#[test]
fn track_path_is_trimmed_and_unquoted() {
    assert_eq!(track_path("\"/music/Artist - Song.mp3\"\n"), "/music/Artist - Song.mp3");
    assert_eq!(track_path("  \"/music/a.mp3\"  "), "/music/a.mp3");
    assert_eq!(track_path(""), "");
    assert_eq!(track_path(" \n\t "), "");
}

#[test]
fn track_path_agrees_with_trim_and_replace() {
    for output in OUTPUTS {
        assert_eq!(track_path(output), output.trim().replace("\"", ""), "{:?}", output);
    }
}

#[test]
fn white_space_is_what_trimming_takes_away() {
    for code in 0..=0x10ffffu32 {
        if let Some(ch) = char::from_u32(code) {
            assert_eq!(is_white_space(ch), ch.is_whitespace(), "U+{:04X}", code);
        }
    }
}

#[test]
fn white_space_at_the_edges_of_the_list() {
    for ch in ['\t', '\n', '\u{b}', '\u{c}', '\r', ' ', '\u{85}', '\u{a0}', '\u{2000}', '\u{200a}'] {
        assert!(is_white_space(ch), "{:?}", ch);
    }
    for ch in ['\u{8}', '\u{e}', '"', 'a', '\u{180e}', '\u{1fff}', '\u{200b}', '\u{feff}'] {
        assert!(!is_white_space(ch), "{:?}", ch);
    }
}

#[test]
fn track_path_keeps_space_inside_quotes() {
    assert_eq!(track_path("\" a \"\n"), " a ");
}

#[test]
fn playlist_paths_are_the_lines() {
    assert_eq!(
        playlist_paths("\"/music/a.mp3\"\n\"/music/b.mp3\"\n"),
        vec!["/music/a.mp3".to_string(), "/music/b.mp3".to_string()]
    );
    assert_eq!(
        playlist_paths("\"/music/a.mp3\"\r\n\"/music/b.mp3\"\r\n"),
        vec!["/music/a.mp3".to_string(), "/music/b.mp3".to_string()]
    );
}

#[test]
fn playlist_of_nothing_has_no_path() {
    assert_eq!(playlist_paths(""), Vec::<String>::new());
    assert_eq!(playlist_paths("\n \n"), Vec::<String>::new());
    assert_eq!(playlist_paths("\"\""), Vec::<String>::new());
}

#[test]
fn playlist_keeps_empty_lines_between_paths() {
    assert_eq!(
        playlist_paths("a\n\nb"),
        vec!["a".to_string(), "".to_string(), "b".to_string()]
    );
}

#[test]
fn playlist_keeps_a_lone_carriage_return() {
    assert_eq!(playlist_paths("a\rb\nc\rd"), vec!["a\rb".to_string(), "c\rd".to_string()]);
    assert_eq!(playlist_paths("x\"\r\"\ny"), vec!["x".to_string(), "y".to_string()]);
    assert_eq!(playlist_paths("a\r\r\nb"), vec!["a\r".to_string(), "b".to_string()]);
}

#[test]
fn playlist_paths_agree_with_lines() {
    for output in OUTPUTS {
        let expected: Vec<String> =
            output.trim().replace("\"", "").lines().map(|line| line.to_string()).collect();
        assert_eq!(playlist_paths(output), expected, "{:?}", output);
    }
}

#[test]
fn download_arguments_are_exact() {
    assert_eq!(
        download_arguments("/home/lf/test_music", "https://example.org/watch?v=1"),
        vec![
            "--print",
            "after_move:\"%(filepath)s\"",
            "-x",
            "-f",
            "bestaudio",
            "--audio-format",
            "mp3",
            "--audio-quality",
            "0",
            "-P",
            "/home/lf/test_music",
            "https://example.org/watch?v=1",
        ]
    );
}

#[test]
fn fingerprint_is_read_from_the_output() {
    let report =
        Fpcalc::from_output("{\"duration\": 245.37, \"fingerprint\": \"AQADtEmS\"}\n", 245)
            .unwrap();
    assert_eq!(report.duration, 245);
    assert_eq!(report.fingerprint, "AQADtEmS");
}

#[test]
fn fingerprint_is_the_string_as_it_is() {
    assert_eq!(Fpcalc::from_output("{\"fingerprint\": \"\"}", 1).unwrap().fingerprint, "");
    assert_eq!(
        Fpcalc::from_output("{\"fingerprint\": \"a\\\"b\\u0041 c\"}", 0).unwrap().fingerprint,
        "a\"bA c"
    );
    assert_eq!(
        Fpcalc::from_output("{\"fingerprint\": \"first\", \"fingerprint\": \"last\"}", 0)
            .unwrap()
            .fingerprint,
        "last"
    );
}

#[test]
fn output_without_a_fingerprint_is_refused() {
    for output in [
        "{\"duration\": 10.0}",
        "{}",
        "null",
        "[1, 2]",
        "\"AQAD\"",
        "{\"fingerprint\": 12}",
        "{\"fingerprint\": null}",
        "{\"fingerprint\": [\"AQAD\"]}",
        "{\"fingerprint\": {\"text\": \"AQAD\"}}",
        "{\"Fingerprint\": \"AQAD\"}",
    ] {
        assert_eq!(
            Fpcalc::from_output(output, 10).err(),
            Some(FpcalcError::NoFingerprint),
            "{}",
            output
        );
    }
}

#[test]
fn output_that_is_no_json_is_refused() {
    for output in [
        "",
        "ERROR: could not open",
        "{\"fingerprint\": \"abc\"",
        "{\"fingerprint\": \"abc\"} trailing",
    ] {
        assert_eq!(
            Fpcalc::from_output(output, 1).err(),
            Some(FpcalcError::InvalidJson),
            "{}",
            output
        );
    }
}

#[test]
fn report_is_made_of_a_string_only() {
    let report = Fpcalc::from_member(Some(Some("AQAD".to_string())), 9).unwrap();
    assert_eq!(report.duration, 9);
    assert_eq!(report.fingerprint, "AQAD");
    assert_eq!(Fpcalc::from_member(Some(None), 9).err(), Some(FpcalcError::NoFingerprint));
    assert_eq!(Fpcalc::from_member(None, 9).err(), Some(FpcalcError::InvalidJson));
}
