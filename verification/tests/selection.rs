use acoustid_tagger::metadata::Error;
use acoustid_tagger::resolve::Draft;
use acoustid_tagger::response::{Artist, Recording, ReleaseGroup, ReleaseType};
use acoustid_tagger::selection::{names_of, Release, Selection};

fn group(release_type: ReleaseType, title: &str) -> ReleaseGroup {
    ReleaseGroup {
        id: 1,
        artists: vec![Artist { id: 2, name: format!("{} artist", title) }],
        secondary_types: None,
        title: title.to_string(),
        release_type,
    }
}

fn remix(release_type: ReleaseType, title: &str) -> ReleaseGroup {
    ReleaseGroup { secondary_types: Some(vec!["Remix".to_string()]), ..group(release_type, title) }
}

fn title_of(selection: Selection) -> Option<String> {
    selection.into_release().map(|release| release.title)
}

#[test]
fn empty_selection_holds_no_release() {
    assert!(!Selection::Empty.is_locked());
    assert!(Selection::Empty.into_release().is_none());
}

#[test]
fn single_is_taken_but_does_not_lock() {
    let selection = Selection::Empty.offer(&group(ReleaseType::Single, "S"));
    assert!(!selection.is_locked());
    assert!(matches!(&selection, Selection::Unlocked(release) if release.title == "S"));
}

#[test]
fn other_is_taken_but_does_not_lock() {
    let selection = Selection::Empty.offer(&group(ReleaseType::Other, "O"));
    assert!(matches!(&selection, Selection::Unlocked(release) if release.title == "O"));
}

#[test]
fn album_and_ep_lock() {
    let album = Selection::Empty.offer(&group(ReleaseType::Album, "A"));
    assert!(album.is_locked());
    let ep = Selection::Empty.offer(&group(ReleaseType::EP, "E"));
    assert!(ep.is_locked());
    assert_eq!(title_of(ep), Some("E".to_string()));
}

#[test]
fn unlocked_selection_is_overwritten() {
    let selection = Selection::Empty
        .offer(&group(ReleaseType::Single, "first"))
        .offer(&group(ReleaseType::Other, "second"))
        .offer(&group(ReleaseType::Single, "third"));
    assert!(!selection.is_locked());
    assert_eq!(title_of(selection), Some("third".to_string()));
}

#[test]
fn locked_selection_is_kept() {
    let selection = Selection::Empty
        .offer(&group(ReleaseType::Single, "first"))
        .offer(&group(ReleaseType::EP, "second"))
        .offer(&group(ReleaseType::Album, "third"))
        .offer(&group(ReleaseType::Single, "fourth"));
    assert!(selection.is_locked());
    let release = selection.into_release().unwrap();
    assert_eq!(release.title, "second");
    assert_eq!(release.release_type, ReleaseType::EP);
    assert_eq!(release.artists, vec!["second artist".to_string()]);
}

#[test]
fn offered_groups_skip_remixes() {
    let groups = vec![
        group(ReleaseType::Single, "kept"),
        remix(ReleaseType::Album, "remixed album"),
        remix(ReleaseType::Single, "remixed single"),
    ];
    let selection = Selection::Empty.offer_groups(&groups);
    assert!(!selection.is_locked());
    assert_eq!(title_of(selection), Some("kept".to_string()));
    assert!(Selection::Empty.offer_groups(&vec![]).into_release().is_none());
}

#[test]
fn release_is_made_of_a_group() {
    let mut both = group(ReleaseType::Other, "Split");
    both.artists.push(Artist { id: 9, name: "Guest".to_string() });
    let release = Release::from_group(&both);
    assert_eq!(release.release_type, ReleaseType::Other);
    assert_eq!(release.title, "Split");
    assert_eq!(release.artists, vec!["Split artist".to_string(), "Guest".to_string()]);
    assert_eq!(names_of(&vec![]), Vec::<String>::new());
}

#[test]
fn preferred_release_types() {
    assert!(ReleaseType::Album.is_preferred());
    assert!(ReleaseType::EP.is_preferred());
    assert!(!ReleaseType::Single.is_preferred());
    assert!(!ReleaseType::Other.is_preferred());
}

fn usable(artist: &str, title: &str, groups: Vec<ReleaseGroup>) -> Recording {
    Recording {
        id: 5,
        artists: Some(vec![Artist { id: 6, name: artist.to_string() }]),
        releasegroups: Some(groups),
        title: Some(title.to_string()),
    }
}

#[test]
fn blank_draft_lacks_the_artist_names() {
    let draft = Draft::new();
    assert!(draft.is_blank());
    assert_eq!(draft.finish().err(), Some(Error::InvalidArtistName));
}

#[test]
fn draft_without_release_lacks_the_release_type() {
    let draft = Draft {
        artist_names: Some(vec!["A".to_string()]),
        track_title: None,
        selection: Selection::Empty,
    };
    assert!(!draft.is_blank());
    assert_eq!(draft.finish().err(), Some(Error::InvalidReleaseType));
}

#[test]
fn draft_without_title_lacks_the_track_title() {
    let draft = Draft {
        artist_names: Some(vec!["A".to_string()]),
        track_title: None,
        selection: Selection::Empty.offer(&group(ReleaseType::Album, "R")),
    };
    assert_eq!(draft.finish().err(), Some(Error::InvalidTrackTitle));
}

#[test]
fn draft_reads_usable_recordings_only() {
    let mut untitled = usable("Nobody", "Lost", vec![group(ReleaseType::Album, "Skipped")]);
    untitled.title = None;
    let only_remixes = usable("Remixer", "Mix", vec![remix(ReleaseType::Album, "Remixed")]);
    assert!(!untitled.is_usable());
    assert!(!only_remixes.is_usable());
    let draft = Draft::new().read(&untitled).read(&only_remixes);
    assert!(draft.is_blank());

    let first = usable("First", "One", vec![group(ReleaseType::Single, "S")]);
    let second = usable("Second", "Two", vec![group(ReleaseType::Other, "O")]);
    assert!(first.is_usable());
    let metadata = draft.read(&first).read(&second).finish().unwrap();
    assert_eq!(metadata.artist_names, vec!["First".to_string()]);
    assert_eq!(metadata.track_title, "One");
    assert_eq!(metadata.release_title, "O");
    assert_eq!(metadata.release_type, ReleaseType::Other);
    assert_eq!(metadata.release_artists, vec!["O artist".to_string()]);
}
