use acoustid_tagger::metadata::{Error, Metadata};
use acoustid_tagger::response::ReleaseType;
use acoustid_tagger::tags::TagField;
use lofty::tag::{ItemKey, ItemValue, Tag, TagItem, TagType};

fn sample() -> Metadata {
    Metadata {
        artist_names: vec!["First".to_string(), "Second".to_string()],
        release_type: ReleaseType::Album,
        track_title: "Song".to_string(),
        release_title: "Record".to_string(),
        release_artists: vec!["Various".to_string(), "Others".to_string()],
    }
}

#[test]
fn record_is_written_into_an_empty_tag() {
    let mut tag = Tag::new(TagType::Id3v2);
    let refused = sample().write_into(&mut tag);
    assert!(refused.is_empty());
    assert_eq!(tag.get_string(ItemKey::TrackArtist), Some("First, Second"));
    assert_eq!(tag.get_string(ItemKey::TrackTitle), Some("Song"));
    assert_eq!(tag.get_string(ItemKey::AlbumTitle), Some("Record"));
    assert_eq!(tag.get_string(ItemKey::AlbumArtist), Some("Various, Others"));
    assert_eq!(tag.get_string(ItemKey::MusicBrainzReleaseType), Some("Album"));
    assert_eq!(tag.item_count(), 5);
}

#[test]
fn record_replaces_what_the_tag_held() {
    let mut tag = Tag::new(TagType::VorbisComments);
    tag.push(TagItem::new(ItemKey::TrackTitle, ItemValue::Text("Old".to_string())));
    tag.push(TagItem::new(ItemKey::TrackTitle, ItemValue::Text("Older".to_string())));
    tag.push(TagItem::new(ItemKey::Genre, ItemValue::Text("Jazz".to_string())));
    let refused = sample().write_into(&mut tag);
    assert!(refused.is_empty());
    assert_eq!(tag.get_string(ItemKey::TrackTitle), Some("Song"));
    assert_eq!(tag.get_strings(ItemKey::TrackTitle).count(), 1);
    assert_eq!(tag.get_string(ItemKey::Genre), Some("Jazz"));
    assert_eq!(tag.item_count(), 6);
}

#[test]
fn field_without_a_place_is_refused() {
    let mut tag = Tag::new(TagType::Id3v1);
    tag.push(TagItem::new(ItemKey::AlbumTitle, ItemValue::Text("Old".to_string())));
    let refused = sample().write_into(&mut tag);
    assert_eq!(refused, vec![TagField::AlbumArtist, TagField::ReleaseType]);
    assert_eq!(tag.get_string(ItemKey::TrackArtist), Some("First, Second"));
    assert_eq!(tag.get_string(ItemKey::TrackTitle), Some("Song"));
    assert_eq!(tag.get_string(ItemKey::AlbumTitle), Some("Record"));
    assert_eq!(tag.get_string(ItemKey::AlbumArtist), None);
    assert_eq!(tag.get_string(ItemKey::MusicBrainzReleaseType), None);
    assert_eq!(tag.item_count(), 3);
}

#[test]
fn release_types_are_written_by_their_names() {
    assert_eq!(ReleaseType::Single.to_text(), "Single");
    assert_eq!(ReleaseType::Album.to_text(), "Album");
    assert_eq!(ReleaseType::EP.to_text(), "EP");
    assert_eq!(ReleaseType::Other.to_text(), "Other");
}

#[test]
fn errors_are_shown_by_their_names() {
    assert_eq!(Error::InvalidArtistName.to_text(), "InvalidArtistName");
    assert_eq!(Error::InvalidReleaseType.to_text(), "InvalidReleaseType");
    assert_eq!(Error::InvalidTrackTitle.to_text(), "InvalidTrackTitle");
    assert_eq!(Error::InvalidReleaseTitle.to_text(), "InvalidReleaseTitle");
    assert_eq!(Error::InvalidReleaseArtistNames.to_text(), "InvalidReleaseArtistNames");
    assert_eq!(Error::NoPrimaryTag.to_text(), "NoPrimaryTag");
    assert_eq!(format!("{:?}", Error::NoPrimaryTag), Error::NoPrimaryTag.to_text());
}

#[test]
fn written_fields_hold_one_item_each_and_others_stay() {
    let mut tag = Tag::new(TagType::Id3v2);
    tag.push(TagItem::new(ItemKey::Genre, ItemValue::Text("Jazz".to_string())));
    tag.push(TagItem::new(ItemKey::AlbumArtist, ItemValue::Text("Old".to_string())));
    tag.push(TagItem::new(ItemKey::Comment, ItemValue::Text("kept".to_string())));
    tag.push(TagItem::new(ItemKey::AlbumArtist, ItemValue::Locator("older".to_string())));
    let refused = sample().write_into(&mut tag);
    assert!(refused.is_empty());
    let keys: Vec<ItemKey> = tag.items().map(|item| item.key()).collect();
    assert_eq!(
        keys,
        vec![
            ItemKey::Genre,
            ItemKey::Comment,
            ItemKey::TrackArtist,
            ItemKey::TrackTitle,
            ItemKey::AlbumTitle,
            ItemKey::AlbumArtist,
            ItemKey::MusicBrainzReleaseType,
        ]
    );
    assert_eq!(tag.get_string(ItemKey::Genre), Some("Jazz"));
    assert_eq!(tag.get_string(ItemKey::Comment), Some("kept"));
    assert_eq!(tag.get_strings(ItemKey::AlbumArtist).collect::<Vec<_>>(), vec!["Various, Others"]);
}

#[test]
fn refused_fields_leave_their_items_as_they_were() {
    let mut tag = Tag::new(TagType::Id3v1);
    tag.push(TagItem::new(ItemKey::Comment, ItemValue::Text("kept".to_string())));
    tag.push_unchecked(TagItem::new(ItemKey::AlbumArtist, ItemValue::Text("Old".to_string())));
    let refused = sample().write_into(&mut tag);
    assert_eq!(refused, vec![TagField::AlbumArtist, TagField::ReleaseType]);
    assert_eq!(tag.get_string(ItemKey::AlbumArtist), Some("Old"));
    assert_eq!(tag.get_string(ItemKey::Comment), Some("kept"));
    assert_eq!(tag.item_count(), 5);
}
