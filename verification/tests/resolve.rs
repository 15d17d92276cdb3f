use acoustid_tagger::metadata::{Error, Metadata};
use acoustid_tagger::response::{
    Artist, OkResponse, Recording, ReleaseGroup, ReleaseType, ResResult, Status,
};

fn artist(name: &str) -> Artist {
    Artist { id: 7, name: name.to_string() }
}

fn group(release_type: ReleaseType, title: &str, by: &str) -> ReleaseGroup {
    ReleaseGroup {
        id: 11,
        artists: vec![artist(by)],
        secondary_types: None,
        title: title.to_string(),
        release_type,
    }
}

fn tagged(release_type: ReleaseType, title: &str, tags: &[&str]) -> ReleaseGroup {
    ReleaseGroup {
        id: 12,
        artists: vec![artist("Tagger")],
        secondary_types: Some(tags.iter().map(|t| t.to_string()).collect()),
        title: title.to_string(),
        release_type,
    }
}

fn recording(by: &[&str], title: &str, groups: Vec<ReleaseGroup>) -> Recording {
    Recording {
        id: 13,
        artists: Some(by.iter().map(|a| artist(a)).collect()),
        releasegroups: Some(groups),
        title: Some(title.to_string()),
    }
}

fn answer(recordings: Vec<Vec<Recording>>) -> OkResponse {
    OkResponse {
        results: recordings
            .into_iter()
            .map(|r| ResResult { id: 17, recordings: Some(r) })
            .collect(),
        status: Status::Success,
    }
}

fn resolved(response: OkResponse) -> Metadata {
    match Metadata::from_response(response) {
        Ok(Some(metadata)) => metadata,
        other => panic!("no record: {:?}", other),
    }
}

#[test]
fn empty_results_resolve_to_nothing() {
    let response = OkResponse { results: vec![], status: Status::Success };
    assert!(matches!(Metadata::from_response(response), Ok(None)));
}

#[test]
fn result_without_recordings_resolves_to_nothing() {
    let response = OkResponse {
        results: vec![ResResult { id: 1, recordings: None }],
        status: Status::Success,
    };
    assert!(matches!(Metadata::from_response(response), Ok(None)));
}

#[test]
fn result_with_no_recording_resolves_to_nothing() {
    let response = answer(vec![vec![]]);
    assert!(matches!(Metadata::from_response(response), Ok(None)));
}

#[test]
fn incomplete_recordings_resolve_to_nothing() {
    let mut no_artists = recording(&["A"], "T", vec![group(ReleaseType::Album, "R", "A")]);
    no_artists.artists = None;
    let mut no_title = recording(&["A"], "T", vec![group(ReleaseType::Album, "R", "A")]);
    no_title.title = None;
    let mut no_groups = recording(&["A"], "T", vec![]);
    no_groups.releasegroups = None;
    let response = answer(vec![vec![no_artists, no_title], vec![no_groups]]);
    assert!(matches!(Metadata::from_response(response), Ok(None)));
}

#[test]
fn recording_with_empty_release_groups_is_dropped() {
    let response = answer(vec![vec![recording(&["A"], "T", vec![])]]);
    assert!(matches!(Metadata::from_response(response), Ok(None)));
}

#[test]
fn recording_with_only_remixes_is_dropped() {
    let response = answer(vec![vec![recording(
        &["A"],
        "T",
        vec![
            tagged(ReleaseType::Album, "R1", &["Remix"]),
            tagged(ReleaseType::Single, "R2", &["Live", "Remix"]),
        ],
    )]]);
    assert!(matches!(Metadata::from_response(response), Ok(None)));
}

#[test]
fn recording_with_only_remixes_is_passed_over() {
    let response = answer(vec![vec![
        recording(&["Remixer"], "Mix", vec![tagged(ReleaseType::Album, "R1", &["Remix"])]),
        recording(&["Band"], "Song", vec![group(ReleaseType::Single, "R2", "Band")]),
    ]]);
    let metadata = resolved(response);
    assert_eq!(metadata.artist_names, vec!["Band".to_string()]);
    assert_eq!(metadata.track_title, "Song");
    assert_eq!(metadata.release_title, "R2");
    assert_eq!(metadata.release_type, ReleaseType::Single);
}

#[test]
fn remix_tag_excludes_a_release_group() {
    assert!(tagged(ReleaseType::Album, "R", &["Remix"]).is_remix());
    assert!(tagged(ReleaseType::Album, "R", &["Remix", "Live"]).is_remix());
    assert!(tagged(ReleaseType::Album, "R", &["Live", "Remix"]).is_remix());
    assert!(!group(ReleaseType::Album, "R", "A").is_remix());
    assert!(!tagged(ReleaseType::Album, "R", &[]).is_remix());
    assert!(!tagged(ReleaseType::Album, "R", &["Live"]).is_remix());
}

#[test]
fn remix_tag_is_matched_exactly() {
    assert!(!tagged(ReleaseType::Album, "R", &["remix"]).is_remix());
    assert!(!tagged(ReleaseType::Album, "R", &["Remixes"]).is_remix());
    assert!(!tagged(ReleaseType::Album, "R", &["Remix "]).is_remix());
    assert!(!tagged(ReleaseType::Album, "R", &[""]).is_remix());
}

#[test]
fn remix_album_does_not_lock() {
    let response = answer(vec![vec![recording(
        &["A"],
        "T",
        vec![
            group(ReleaseType::Single, "S", "A"),
            tagged(ReleaseType::Album, "Remixed", &["Remix"]),
            group(ReleaseType::Other, "O", "B"),
        ],
    )]]);
    let metadata = resolved(response);
    assert_eq!(metadata.release_title, "O");
    assert_eq!(metadata.release_type, ReleaseType::Other);
    assert_eq!(metadata.release_artists, vec!["B".to_string()]);
}

#[test]
fn album_after_single_wins() {
    let response = answer(vec![vec![recording(
        &["A"],
        "T",
        vec![group(ReleaseType::Single, "A", "X"), group(ReleaseType::Album, "B", "Y")],
    )]]);
    let metadata = resolved(response);
    assert_eq!(metadata.release_title, "B");
    assert_eq!(metadata.release_type, ReleaseType::Album);
    assert_eq!(metadata.release_artists, vec!["Y".to_string()]);
}

#[test]
fn album_locks_against_later_groups() {
    let response = answer(vec![
        vec![recording(
            &["A"],
            "T",
            vec![
                group(ReleaseType::Single, "A", "X"),
                group(ReleaseType::Album, "B", "Y"),
                group(ReleaseType::Single, "C", "Z"),
                group(ReleaseType::Other, "D", "Z"),
            ],
        )],
        vec![recording(
            &["E"],
            "U",
            vec![group(ReleaseType::EP, "F", "Z"), group(ReleaseType::Album, "G", "Z")],
        )],
    ]);
    let metadata = resolved(response);
    assert_eq!(metadata.release_title, "B");
    assert_eq!(metadata.release_type, ReleaseType::Album);
    assert_eq!(metadata.release_artists, vec!["Y".to_string()]);
}

#[test]
fn ep_locks_like_an_album() {
    let response = answer(vec![vec![recording(
        &["A"],
        "T",
        vec![
            group(ReleaseType::Other, "O", "X"),
            group(ReleaseType::EP, "E", "Y"),
            group(ReleaseType::Album, "L", "Z"),
        ],
    )]]);
    let metadata = resolved(response);
    assert_eq!(metadata.release_title, "E");
    assert_eq!(metadata.release_type, ReleaseType::EP);
}

#[test]
fn last_single_wins() {
    let response = answer(vec![vec![recording(
        &["A"],
        "T",
        vec![group(ReleaseType::Single, "A", "X"), group(ReleaseType::Single, "B", "Y")],
    )]]);
    let metadata = resolved(response);
    assert_eq!(metadata.release_title, "B");
    assert_eq!(metadata.release_type, ReleaseType::Single);
    assert_eq!(metadata.release_artists, vec!["Y".to_string()]);
}

#[test]
fn last_group_wins_across_recordings_and_results() {
    let response = answer(vec![
        vec![
            recording(&["A"], "T", vec![group(ReleaseType::Single, "One", "X")]),
            recording(&["B"], "U", vec![group(ReleaseType::Other, "Two", "Y")]),
        ],
        vec![recording(&["C"], "V", vec![group(ReleaseType::Single, "Three", "Z")])],
    ]);
    let metadata = resolved(response);
    assert_eq!(metadata.release_title, "Three");
    assert_eq!(metadata.release_artists, vec!["Z".to_string()]);
    assert_eq!(metadata.artist_names, vec!["A".to_string()]);
    assert_eq!(metadata.track_title, "T");
}

#[test]
fn first_survivor_names_the_track() {
    let mut unnamed = recording(&["Nobody"], "Lost", vec![group(ReleaseType::Album, "Z", "Z")]);
    unnamed.title = None;
    let response = answer(vec![
        vec![unnamed],
        vec![
            recording(&["First", "Second"], "Song", vec![group(ReleaseType::Single, "S", "X")]),
            recording(&["Third"], "Other song", vec![group(ReleaseType::Album, "L", "Y")]),
        ],
        vec![recording(&["Fourth"], "Last song", vec![group(ReleaseType::Album, "M", "W")])],
    ]);
    let metadata = resolved(response);
    assert_eq!(metadata.artist_names, vec!["First".to_string(), "Second".to_string()]);
    assert_eq!(metadata.track_title, "Song");
    assert_eq!(metadata.release_title, "L");
    assert_eq!(metadata.release_type, ReleaseType::Album);
    assert_eq!(metadata.release_artists, vec!["Y".to_string()]);
}

#[test]
fn release_artists_are_all_named_in_order() {
    let mut both = group(ReleaseType::Album, "Split", "One");
    both.artists.push(artist("Two"));
    let response = answer(vec![vec![recording(&["A"], "T", vec![both])]]);
    let metadata = resolved(response);
    assert_eq!(metadata.release_artists, vec!["One".to_string(), "Two".to_string()]);
}

#[test]
fn surviving_recording_never_fails() {
    let response = answer(vec![vec![recording(
        &["A"],
        "T",
        vec![tagged(ReleaseType::Single, "Kept", &["Live"])],
    )]]);
    let outcome = Metadata::from_response(response);
    assert!(matches!(outcome, Ok(Some(_))));
}

#[test]
fn empty_artist_list_is_still_set() {
    let response =
        answer(vec![vec![recording(&[], "T", vec![group(ReleaseType::Single, "S", "X")])]]);
    let metadata = resolved(response);
    assert!(metadata.artist_names.is_empty());
    assert_eq!(metadata.track_title, "T");
}

#[test]
fn unset_artist_names_are_reported_first() {
    let outcome = Metadata::assemble(None, None, None, None, None);
    assert_eq!(outcome.err(), Some(Error::InvalidArtistName));
}

#[test]
fn unset_release_type_is_reported() {
    let outcome = Metadata::assemble(Some(vec!["A".to_string()]), None, None, None, None);
    assert_eq!(outcome.err(), Some(Error::InvalidReleaseType));
}

#[test]
fn unset_track_title_is_reported() {
    let outcome =
        Metadata::assemble(Some(vec!["A".to_string()]), Some(ReleaseType::EP), None, None, None);
    assert_eq!(outcome.err(), Some(Error::InvalidTrackTitle));
}

#[test]
fn unset_release_title_is_reported() {
    let outcome = Metadata::assemble(
        Some(vec!["A".to_string()]),
        Some(ReleaseType::EP),
        Some("T".to_string()),
        None,
        None,
    );
    assert_eq!(outcome.err(), Some(Error::InvalidReleaseTitle));
}

#[test]
fn unset_release_artists_are_reported() {
    let outcome = Metadata::assemble(
        Some(vec!["A".to_string()]),
        Some(ReleaseType::EP),
        Some("T".to_string()),
        Some("R".to_string()),
        None,
    );
    assert_eq!(outcome.err(), Some(Error::InvalidReleaseArtistNames));
}

#[test]
fn five_set_fields_make_a_record() {
    let metadata = Metadata::assemble(
        Some(vec!["A".to_string(), "B".to_string()]),
        Some(ReleaseType::Other),
        Some("T".to_string()),
        Some("R".to_string()),
        Some(vec!["C".to_string()]),
    )
    .unwrap();
    assert_eq!(metadata.artist_names, vec!["A".to_string(), "B".to_string()]);
    assert_eq!(metadata.release_type, ReleaseType::Other);
    assert_eq!(metadata.track_title, "T");
    assert_eq!(metadata.release_title, "R");
    assert_eq!(metadata.release_artists, vec!["C".to_string()]);
}
