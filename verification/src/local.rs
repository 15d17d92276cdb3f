//! Runs over audio files that are on disk already.

use crate::session::{Kind, Run, RunView};
use crate::text::copy_of;
use vstd::prelude::*;

verus! {

/// What a run over local files is asked with.
#[derive(Debug)]
pub struct LocalArgs {
    /// The key by which the lookup service knows the client.
    pub client: String,
    /// The audio files, in the order in which they are worked on.
    pub paths: Vec<String>,
    /// Whether records are written into the files' tags.
    pub metadata: bool,
}

impl LocalArgs {
    /// The run over the files. Nothing is downloaded, so the run has no
    /// directory for downloads.
    pub fn run(&self) -> (run: Run)
        ensures
            run@ == RunView::new(
                self.client@,
                self.metadata,
                Seq::empty(),
                Kind::Files,
                self.paths.deep_view(),
            ),
    {
        Run::new(
            self.client.clone(),
            self.metadata,
            String::new(),
            Kind::Files,
            copy_of(&self.paths),
        )
    }
}

} // verus!
