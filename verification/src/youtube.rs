//! Runs over tracks that are downloaded first.

use crate::session::{Kind, Run, RunView};
use crate::text::copy_of;
use vstd::prelude::*;
use vstd::string::StringExecFns;

verus! {

/// What the URLs of a run stand for.
#[derive(Clone, Copy, Debug, PartialEq, Eq, Structural)]
pub enum Source {
    /// The first URL is a playlist; the others are not used.
    Playlist,
    /// Each URL is one track.
    Tracklist,
}

impl Source {
    /// The kind of run that works on such URLs.
    pub open spec fn kind(self) -> Kind {
        match self {
            Source::Playlist => Kind::Playlist,
            Source::Tracklist => Kind::Tracklist,
        }
    }
}

/// What a run over downloads is asked with.
#[derive(Debug)]
pub struct YoutubeArgs {
    /// The key by which the lookup service knows the client.
    pub client: String,
    /// Whether records are written into the files' tags.
    pub metadata: bool,
    pub source: Source,
    pub url_list: Vec<String>,
}

impl YoutubeArgs {
    /// The run over the URLs, with downloads written into `directory`.
    pub fn run(&self, directory: &str) -> (run: Run)
        ensures
            run@ == RunView::new(
                self.client@,
                self.metadata,
                directory@,
                self.source.kind(),
                self.url_list.deep_view(),
            ),
    {
        let kind = match self.source {
            Source::Playlist => Kind::Playlist,
            Source::Tracklist => Kind::Tracklist,
        };
        Run::new(
            self.client.clone(),
            self.metadata,
            String::from_str(directory),
            kind,
            copy_of(&self.url_list),
        )
    }
}

} // verus!
