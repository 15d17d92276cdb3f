//! The metadata record of a track.

use crate::response::ReleaseType;
use crate::text::{join, joined};
use vstd::prelude::*;
use vstd::string::StringExecFns;

verus! {

/// Why no metadata record could be made or written.
#[derive(Clone, Copy, Debug, PartialEq, Eq, Structural)]
pub enum Error {
    InvalidArtistName,
    InvalidReleaseType,
    InvalidTrackTitle,
    InvalidReleaseTitle,
    InvalidReleaseArtistNames,
    NoPrimaryTag,
}

impl Error {
    /// The name of the error, as it is shown to a user.
    pub open spec fn name(self) -> Seq<char> {
        match self {
            Error::InvalidArtistName => "InvalidArtistName"@,
            Error::InvalidReleaseType => "InvalidReleaseType"@,
            Error::InvalidTrackTitle => "InvalidTrackTitle"@,
            Error::InvalidReleaseTitle => "InvalidReleaseTitle"@,
            Error::InvalidReleaseArtistNames => "InvalidReleaseArtistNames"@,
            Error::NoPrimaryTag => "NoPrimaryTag"@,
        }
    }

    /// The text that stands for the error where it is shown.
    pub fn to_text(&self) -> (text: String)
        ensures
            text@ == self.name(),
    {
        match self {
            Error::InvalidArtistName => String::from_str("InvalidArtistName"),
            Error::InvalidReleaseType => String::from_str("InvalidReleaseType"),
            Error::InvalidTrackTitle => String::from_str("InvalidTrackTitle"),
            Error::InvalidReleaseTitle => String::from_str("InvalidReleaseTitle"),
            Error::InvalidReleaseArtistNames => String::from_str("InvalidReleaseArtistNames"),
            Error::NoPrimaryTag => String::from_str("NoPrimaryTag"),
        }
    }
}

/// What is known of a track once its fingerprint has been resolved.
#[derive(Debug)]
pub struct Metadata {
    pub artist_names: Vec<String>,
    pub release_type: ReleaseType,
    pub track_title: String,
    pub release_title: String,
    pub release_artists: Vec<String>,
}

pub ghost struct MetadataView {
    pub artist_names: Seq<Seq<char>>,
    pub release_type: ReleaseType,
    pub track_title: Seq<char>,
    pub release_title: Seq<char>,
    pub release_artists: Seq<Seq<char>>,
}

impl View for Metadata {
    type V = MetadataView;

    open spec fn view(&self) -> MetadataView {
        MetadataView {
            artist_names: self.artist_names.deep_view(),
            release_type: self.release_type,
            track_title: self.track_title@,
            release_title: self.release_title@,
            release_artists: self.release_artists.deep_view(),
        }
    }
}

impl MetadataView {
    /// The name of the track's file with the given extension: the artists
    /// joined by a comma and a space, then space, hyphen, space, the title, a
    /// dot and the extension.
    pub open spec fn file_name(self, extension: Seq<char>) -> Seq<char> {
        joined(self.artist_names, ", "@) + " - "@ + self.track_title + "."@ + extension
    }

    /// Whether no list and no title of the record is empty.
    pub open spec fn populated(self) -> bool {
        &&& self.artist_names.len() > 0
        &&& self.track_title.len() > 0
        &&& self.release_title.len() > 0
        &&& self.release_artists.len() > 0
    }
}

impl Metadata {
    /// The name of the track's file, as an MP3 file.
    pub fn file_name(&self) -> (name: String)
        ensures
            name@ == self@.file_name("mp3"@),
    {
        self.file_name_with_extension("mp3")
    }

    /// The name of the track's file with the extension `extension`.
    pub fn file_name_with_extension(&self, extension: &str) -> (name: String)
        ensures
            name@ == self@.file_name(extension@),
    {
        let mut name = join(&self.artist_names, ", ");
        name.append(" - ");
        name.append(self.track_title.as_str());
        name.append(".");
        name.append(extension);
        name
    }

    /// Makes a record of five fields that may each be unset. Fails with the
    /// error of the first field that is unset, in the order artist names,
    /// release type, track title, release title, release artists.
    pub fn assemble(
        artist_names: Option<Vec<String>>,
        release_type: Option<ReleaseType>,
        track_title: Option<String>,
        release_title: Option<String>,
        release_artists: Option<Vec<String>>,
    ) -> (result: Result<Metadata, Error>)
        ensures
            match result {
                Ok(metadata) => {
                    &&& artist_names == Some(metadata.artist_names)
                    &&& release_type == Some(metadata.release_type)
                    &&& track_title == Some(metadata.track_title)
                    &&& release_title == Some(metadata.release_title)
                    &&& release_artists == Some(metadata.release_artists)
                },
                Err(error) => {
                    if artist_names is None {
                        error == Error::InvalidArtistName
                    } else if release_type is None {
                        error == Error::InvalidReleaseType
                    } else if track_title is None {
                        error == Error::InvalidTrackTitle
                    } else if release_title is None {
                        error == Error::InvalidReleaseTitle
                    } else {
                        release_artists is None && error == Error::InvalidReleaseArtistNames
                    }
                },
            },
    {
        let artist_names = match artist_names {
            Some(names) => names,
            None => {
                return Err(Error::InvalidArtistName);
            },
        };
        let release_type = match release_type {
            Some(release_type) => release_type,
            None => {
                return Err(Error::InvalidReleaseType);
            },
        };
        let track_title = match track_title {
            Some(title) => title,
            None => {
                return Err(Error::InvalidTrackTitle);
            },
        };
        let release_title = match release_title {
            Some(title) => title,
            None => {
                return Err(Error::InvalidReleaseTitle);
            },
        };
        let release_artists = match release_artists {
            Some(artists) => artists,
            None => {
                return Err(Error::InvalidReleaseArtistNames);
            },
        };
        Ok(Metadata { artist_names, release_type, track_title, release_title, release_artists })
    }
}

} // verus!
