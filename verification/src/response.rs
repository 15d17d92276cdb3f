//! The payload of a fingerprint lookup, as plain data.
//!
//! Every type has a mathematical view: strings become `Seq<char>`, vectors
//! become `Seq`, and each struct becomes a ghost struct with the same fields.
//! The contracts of the resolver are stated over these views.

use vstd::prelude::*;
use vstd::string::StringExecFns;

verus! {

/// The kind of release a release group stands for.
#[derive(Clone, Copy, Debug, PartialEq, Eq, Structural)]
pub enum ReleaseType {
    Single,
    Album,
    EP,
    Other,
}

impl ReleaseType {
    /// An album or an EP is preferred over every other kind of release.
    pub open spec fn preferred(self) -> bool {
        self == ReleaseType::Album || self == ReleaseType::EP
    }

    pub fn is_preferred(&self) -> (result: bool)
        ensures
            result == self.preferred(),
    {
        match self {
            ReleaseType::Album => true,
            ReleaseType::EP => true,
            _ => false,
        }
    }

    /// The name of the kind, as the lookup service writes it.
    pub open spec fn name(self) -> Seq<char> {
        match self {
            ReleaseType::Single => "Single"@,
            ReleaseType::Album => "Album"@,
            ReleaseType::EP => "EP"@,
            ReleaseType::Other => "Other"@,
        }
    }

    /// The name of the kind, as the lookup service writes it.
    pub fn to_text(&self) -> (text: String)
        ensures
            text@ == self.name(),
    {
        match self {
            ReleaseType::Single => String::from_str("Single"),
            ReleaseType::Album => String::from_str("Album"),
            ReleaseType::EP => String::from_str("EP"),
            ReleaseType::Other => String::from_str("Other"),
        }
    }
}

/// Whether the lookup service accepted the request.
#[derive(Clone, Copy, Debug, PartialEq, Eq, Structural)]
pub enum Status {
    Success,
    Error,
}

/// The failure that the lookup service reports in place of results.
#[derive(Debug)]
pub struct Error {
    pub code: i32,
    pub message: String,
}

pub ghost struct ErrorView {
    pub code: i32,
    pub message: Seq<char>,
}

impl View for Error {
    type V = ErrorView;

    open spec fn view(&self) -> ErrorView {
        ErrorView { code: self.code, message: self.message@ }
    }
}

/// An artist, named, with the 128 bits of its identifier.
#[derive(Debug)]
pub struct Artist {
    pub id: u128,
    pub name: String,
}

pub ghost struct ArtistView {
    pub id: u128,
    pub name: Seq<char>,
}

impl View for Artist {
    type V = ArtistView;

    open spec fn view(&self) -> ArtistView {
        ArtistView { id: self.id, name: self.name@ }
    }
}

impl DeepView for Artist {
    type V = ArtistView;

    open spec fn deep_view(&self) -> ArtistView {
        self@
    }
}

/// The names of a list of artists, in order.
pub open spec fn artist_names(artists: Seq<ArtistView>) -> Seq<Seq<char>> {
    Seq::new(artists.len(), |i: int| artists[i].name)
}

/// One release (album, single, ...) that a recording appears on.
#[derive(Debug)]
pub struct ReleaseGroup {
    pub id: u128,
    pub artists: Vec<Artist>,
    pub secondary_types: Option<Vec<String>>,
    pub title: String,
    pub release_type: ReleaseType,
}

pub ghost struct ReleaseGroupView {
    pub id: u128,
    pub artists: Seq<ArtistView>,
    pub secondary_types: Option<Seq<Seq<char>>>,
    pub title: Seq<char>,
    pub release_type: ReleaseType,
}

impl View for ReleaseGroup {
    type V = ReleaseGroupView;

    open spec fn view(&self) -> ReleaseGroupView {
        ReleaseGroupView {
            id: self.id,
            artists: self.artists.deep_view(),
            secondary_types: self.secondary_types.deep_view(),
            title: self.title@,
            release_type: self.release_type,
        }
    }
}

impl DeepView for ReleaseGroup {
    type V = ReleaseGroupView;

    open spec fn deep_view(&self) -> ReleaseGroupView {
        self@
    }
}

/// One recording that the fingerprint may belong to. Any of its parts may be
/// missing from the service's answer.
#[derive(Debug)]
pub struct Recording {
    pub id: u128,
    pub artists: Option<Vec<Artist>>,
    pub releasegroups: Option<Vec<ReleaseGroup>>,
    pub title: Option<String>,
}

pub ghost struct RecordingView {
    pub id: u128,
    pub artists: Option<Seq<ArtistView>>,
    pub releasegroups: Option<Seq<ReleaseGroupView>>,
    pub title: Option<Seq<char>>,
}

impl View for Recording {
    type V = RecordingView;

    open spec fn view(&self) -> RecordingView {
        RecordingView {
            id: self.id,
            artists: self.artists.deep_view(),
            releasegroups: self.releasegroups.deep_view(),
            title: self.title.deep_view(),
        }
    }
}

impl DeepView for Recording {
    type V = RecordingView;

    open spec fn deep_view(&self) -> RecordingView {
        self@
    }
}

/// One match of the fingerprint, with the recordings it may be.
#[derive(Debug)]
pub struct ResResult {
    pub id: u128,
    pub recordings: Option<Vec<Recording>>,
}

pub ghost struct ResResultView {
    pub id: u128,
    pub recordings: Option<Seq<RecordingView>>,
}

impl View for ResResult {
    type V = ResResultView;

    open spec fn view(&self) -> ResResultView {
        ResResultView { id: self.id, recordings: self.recordings.deep_view() }
    }
}

impl DeepView for ResResult {
    type V = ResResultView;

    open spec fn deep_view(&self) -> ResResultView {
        self@
    }
}

/// What the lookup service answers when it accepted the request.
#[derive(Debug)]
pub struct OkResponse {
    pub results: Vec<ResResult>,
    pub status: Status,
}

pub ghost struct OkResponseView {
    pub results: Seq<ResResultView>,
    pub status: Status,
}

impl View for OkResponse {
    type V = OkResponseView;

    open spec fn view(&self) -> OkResponseView {
        OkResponseView { results: self.results.deep_view(), status: self.status }
    }
}

/// Either kind of answer of the lookup service.
#[derive(Debug)]
pub enum Response {
    Success(OkResponse),
    Error { error: Error, status: Status },
}

pub ghost enum ResponseView {
    Success(OkResponseView),
    Error { error: ErrorView, status: Status },
}

impl View for Response {
    type V = ResponseView;

    open spec fn view(&self) -> ResponseView {
        match self {
            Response::Success(response) => ResponseView::Success(response@),
            Response::Error { error, status } => ResponseView::Error {
                error: error@,
                status: *status,
            },
        }
    }
}

} // verus!
