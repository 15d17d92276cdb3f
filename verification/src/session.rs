//! The course of one run over a list of tracks.
//!
//! A run decides; its caller acts. The caller reports what has happened as
//! an event, and is told what to do next: download, take a fingerprint, look
//! it up, write tags, show a record, or stop. Tracks are worked on one after the other. A
//! track whose tags cannot be written does not stop the run; an answer that
//! is an error, or an extractor's output that cannot be read, does.

use crate::acoustid_api::{lookup_url, AcoustIdApi, Request};
use crate::download::{
    arguments, download_arguments, playlist_paths, printed_path, printed_paths, track_path,
};
use crate::fpcalc::{json_member_string, report_of, Fpcalc, FpcalcError};
use crate::metadata::{Metadata, MetadataView};
use crate::resolve::resolution;
use crate::response::{ErrorView, Response, ResponseView, Status};
use crate::text::{decimal, push_decimal};
use vstd::prelude::*;
use vstd::string::StringExecFns;

verus! {

/// Where the tracks of a run come from.
#[derive(Clone, Copy, Debug, PartialEq, Eq, Structural)]
pub enum Kind {
    /// Files that are there already.
    Files,
    /// One URL, which is downloaded first and gives any number of files.
    Playlist,
    /// URLs, each of which is downloaded when its turn comes and gives one file.
    Tracklist,
}

/// What a run waits for.
#[derive(Clone, Copy, Debug, PartialEq, Eq, Structural)]
pub enum Stage {
    /// To be begun.
    Ready,
    /// The files of the playlist.
    Listing,
    /// The file of the track in work.
    Downloading,
    /// The extractor's output for the track in work.
    Fingerprinting,
    /// The lookup service's answer for the track in work.
    LookingUp,
    /// Word of whether the tags of the track in work were written.
    Saving,
    /// Word that the record of the track in work was shown.
    Showing,
    /// Nothing: the run is over.
    Over,
}

/// Why a run has stopped before its end.
#[derive(Debug)]
pub enum Failure {
    /// The caller could not do what it was asked to, for the reason that
    /// `message` gives.
    Collaborator { message: String },
    /// The extractor's output cannot be read.
    Fingerprint(FpcalcError),
    /// The lookup service has answered with an error.
    Service(crate::response::Error),
    /// The answer could not be made into a record.
    Resolution(crate::metadata::Error),
    /// An event was reported that the run did not wait for.
    OutOfTurn,
}

pub ghost enum FailureView {
    Collaborator { message: Seq<char> },
    Fingerprint(FpcalcError),
    Service(ErrorView),
    Resolution(crate::metadata::Error),
    OutOfTurn,
}

impl View for Failure {
    type V = FailureView;

    open spec fn view(&self) -> FailureView {
        match self {
            Failure::Collaborator { message } => FailureView::Collaborator { message: message@ },
            Failure::Fingerprint(error) => FailureView::Fingerprint(*error),
            Failure::Service(error) => FailureView::Service(error@),
            Failure::Resolution(error) => FailureView::Resolution(*error),
            Failure::OutOfTurn => FailureView::OutOfTurn,
        }
    }
}

/// What the caller reports to a run.
#[derive(Debug)]
pub enum Event {
    /// The run is to begin.
    Begin,
    /// The downloader has ended and has printed `output`.
    Downloaded { output: String },
    /// The extractor has ended and has printed `output`, in which the
    /// duration, rounded down to whole seconds, is `duration`.
    Fingerprinted { output: String, duration: u64 },
    /// The lookup service has answered.
    Answered { response: Response },
    /// The tags were written, and the file is now at `path`.
    Saved { path: String },
    /// The tags could not be written, for the reason that `message` gives.
    NotSaved { message: String },
    /// What was to be shown has been shown.
    Shown,
    /// The download, the fingerprint or the lookup that was asked for could
    /// not be had, for the reason that `message` gives.
    Failed { message: String },
}

pub ghost enum EventView {
    Begin,
    Downloaded { output: Seq<char> },
    Fingerprinted { output: Seq<char>, duration: u64 },
    Answered { response: ResponseView },
    Saved { path: Seq<char> },
    NotSaved { message: Seq<char> },
    Shown,
    Failed { message: Seq<char> },
}

impl View for Event {
    type V = EventView;

    open spec fn view(&self) -> EventView {
        match self {
            Event::Begin => EventView::Begin,
            Event::Downloaded { output } => EventView::Downloaded { output: output@ },
            Event::Fingerprinted { output, duration } => EventView::Fingerprinted {
                output: output@,
                duration: *duration,
            },
            Event::Answered { response } => EventView::Answered { response: response@ },
            Event::Saved { path } => EventView::Saved { path: path@ },
            Event::NotSaved { message } => EventView::NotSaved { message: message@ },
            Event::Shown => EventView::Shown,
            Event::Failed { message } => EventView::Failed { message: message@ },
        }
    }
}

/// What a run asks of its caller.
#[derive(Debug)]
pub enum Action {
    /// To call the downloader with these arguments, and to report
    /// `Downloaded`, or `Failed` if that cannot be done.
    Download { arguments: Vec<String> },
    /// To call the extractor on the file at `path`, and to report
    /// `Fingerprinted`, or `Failed` if that cannot be done.
    Fingerprint { path: String },
    /// To send the request, and to report `Answered`, or `Failed` if no
    /// answer can be had.
    Lookup { request: Request },
    /// To write the record into the tags of the file at `path` and to rename
    /// the file after the record, and to report `Saved` or `NotSaved`.
    Save { path: String, metadata: Metadata },
    /// To show what the answer for the track in work has resolved to, which
    /// may be nothing, and to report `Shown`.
    Show { found: Option<Metadata> },
    /// To end: every track has had its turn.
    Finish,
    /// To end with a failure.
    Fail { failure: Failure },
}

pub ghost enum ActionView {
    Download { arguments: Seq<Seq<char>> },
    Fingerprint { path: Seq<char> },
    Lookup { url: Seq<char> },
    Save { path: Seq<char>, metadata: MetadataView },
    Show { found: Option<MetadataView> },
    Finish,
    Fail { failure: FailureView },
}

impl View for Action {
    type V = ActionView;

    open spec fn view(&self) -> ActionView {
        match self {
            Action::Download { arguments } => ActionView::Download {
                arguments: arguments.deep_view(),
            },
            Action::Fingerprint { path } => ActionView::Fingerprint { path: path@ },
            Action::Lookup { request } => ActionView::Lookup { url: request@ },
            Action::Save { path, metadata } => ActionView::Save {
                path: path@,
                metadata: metadata@,
            },
            Action::Show { found } => ActionView::Show {
                found: match found {
                    Some(metadata) => Some(metadata@),
                    None => None,
                },
            },
            Action::Finish => ActionView::Finish,
            Action::Fail { failure } => ActionView::Fail { failure: failure@ },
        }
    }
}

/// One answer of a run: a line to print, if any, and then what to do.
#[derive(Debug)]
pub struct Step {
    pub say: Option<String>,
    pub action: Action,
}

pub ghost struct StepView {
    pub say: Option<Seq<char>>,
    pub action: ActionView,
}

impl View for Step {
    type V = StepView;

    open spec fn view(&self) -> StepView {
        StepView { say: self.say.deep_view(), action: self.action@ }
    }
}

/// A run: what it was made with, and how far it has come.
#[derive(Debug)]
pub struct Run {
    api: AcoustIdApi,
    write_tags: bool,
    show: bool,
    directory: String,
    kind: Kind,
    given: Vec<String>,
    paths: Vec<String>,
    begun: usize,
    path: String,
    stage: Stage,
}

pub ghost struct RunView {
    /// The key by which the lookup service knows the client.
    pub client: Seq<char>,
    /// Whether records are written into the files' tags.
    pub write_tags: bool,
    /// Whether what each answer resolves to is shown, and nothing else is
    /// done with it.
    pub show: bool,
    /// The directory that downloads are written into.
    pub directory: Seq<char>,
    pub kind: Kind,
    /// The paths or URLs that the run was made with.
    pub given: Seq<Seq<char>>,
    /// The files of the playlist, once they are known.
    pub paths: Seq<Seq<char>>,
    /// How many tracks have had or have their turn.
    pub begun: nat,
    /// The file of the track in work.
    pub path: Seq<char>,
    pub stage: Stage,
}

impl View for Run {
    type V = RunView;

    closed spec fn view(&self) -> RunView {
        RunView {
            client: self.api@,
            write_tags: self.write_tags,
            show: self.show,
            directory: self.directory@,
            kind: self.kind,
            given: self.given.deep_view(),
            paths: self.paths.deep_view(),
            begun: self.begun as nat,
            path: self.path@,
            stage: self.stage,
        }
    }
}

/// The line that tells of a file whose tags were written: its place among
/// the tracks, counted from one, their number, and the file's new path.
pub open spec fn saved_line(place: nat, total: nat, path: Seq<char>) -> Seq<char> {
    "Saved "@ + decimal(place) + " out of "@ + decimal(total) + ". Path: "@ + path
}

impl Stage {
    /// Whether the run waits for a download, a fingerprint or an answer.
    pub open spec fn asks_a_collaborator(self) -> bool {
        self == Stage::Listing || self == Stage::Downloading || self == Stage::Fingerprinting
            || self == Stage::LookingUp
    }
}

impl RunView {
    /// A run that has not begun.
    pub open spec fn new(
        client: Seq<char>,
        write_tags: bool,
        directory: Seq<char>,
        kind: Kind,
        given: Seq<Seq<char>>,
    ) -> RunView {
        RunView {
            client,
            write_tags,
            show: false,
            directory,
            kind,
            given,
            paths: Seq::empty(),
            begun: 0,
            path: Seq::empty(),
            stage: Stage::Ready,
        }
    }

    /// A run that has not begun, which downloads each of `urls` as a track
    /// and shows what the answer for it resolves to.
    pub open spec fn showing(
        client: Seq<char>,
        directory: Seq<char>,
        urls: Seq<Seq<char>>,
    ) -> RunView {
        RunView { show: true, ..RunView::new(client, false, directory, Kind::Tracklist, urls) }
    }

    /// The tracks of the run: files, or URLs still to be downloaded.
    pub open spec fn tracks(self) -> Seq<Seq<char>> {
        match self.kind {
            Kind::Playlist => self.paths,
            _ => self.given,
        }
    }

    /// The run stops with a failure.
    pub open spec fn fail(self, failure: FailureView) -> (RunView, StepView) {
        (
            RunView { stage: Stage::Over, ..self },
            StepView { say: None, action: ActionView::Fail { failure } },
        )
    }

    /// The run says `say` and turns to the next track: it ends if there is
    /// none, downloads it if it is a URL, and else takes its fingerprint.
    pub open spec fn advance(self, say: Option<Seq<char>>) -> (RunView, StepView) {
        if self.begun >= self.tracks().len() {
            (RunView { stage: Stage::Over, ..self }, StepView { say, action: ActionView::Finish })
        } else if self.kind == Kind::Tracklist {
            (
                RunView { begun: self.begun + 1, stage: Stage::Downloading, ..self },
                StepView {
                    say,
                    action: ActionView::Download {
                        arguments: arguments(self.directory, self.tracks()[self.begun as int]),
                    },
                },
            )
        } else {
            (
                RunView {
                    begun: self.begun + 1,
                    path: self.tracks()[self.begun as int],
                    stage: Stage::Fingerprinting,
                    ..self
                },
                StepView {
                    say,
                    action: ActionView::Fingerprint { path: self.tracks()[self.begun as int] },
                },
            )
        }
    }

    /// The run begins: a playlist is downloaded first, if its URL was
    /// given; every other run turns to its first track.
    pub open spec fn begin(self) -> (RunView, StepView) {
        if self.kind == Kind::Playlist && self.given.len() > 0 {
            (
                RunView { stage: Stage::Listing, ..self },
                StepView {
                    say: None,
                    action: ActionView::Download {
                        arguments: arguments(self.directory, self.given[0]),
                    },
                },
            )
        } else {
            self.advance(None)
        }
    }

    /// The extractor has printed `output`: the fingerprint in it is looked
    /// up, with the duration that the caller has read. Output that is no
    /// JSON text, or that holds no fingerprint, stops the run.
    pub open spec fn fingerprinted(self, output: Seq<char>, duration: u64) -> (RunView, StepView) {
        match report_of(json_member_string(output, "fingerprint"@), duration) {
            Ok(report) => (
                RunView { stage: Stage::LookingUp, ..self },
                StepView {
                    say: None,
                    action: ActionView::Lookup {
                        url: lookup_url(self.client, report.duration as nat, report.fingerprint),
                    },
                },
            ),
            Err(error) => self.fail(FailureView::Fingerprint(error)),
        }
    }

    /// The lookup service has answered. An error stops the run. In a run
    /// that shows, what the answer resolves to is shown. Else an answer that
    /// resolves to a record has the record written, if the run writes tags.
    /// In every other case the run turns to the next track.
    pub open spec fn answered(self, response: ResponseView) -> (RunView, StepView) {
        match response {
            ResponseView::Error { error, status } => self.fail(FailureView::Service(error)),
            ResponseView::Success(answer) => if self.show {
                (
                    RunView { stage: Stage::Showing, ..self },
                    StepView {
                        say: None,
                        action: ActionView::Show { found: resolution(answer) },
                    },
                )
            } else {
                self.written_or_passed(resolution(answer))
            },
        }
    }

    /// What a run that does not show does with what an answer has resolved
    /// to: a record is written if the run writes tags; else, and where there
    /// is no record, the run turns to the next track.
    pub open spec fn written_or_passed(self, found: Option<MetadataView>) -> (RunView, StepView) {
        match found {
            Some(metadata) => if self.write_tags {
                (
                    RunView { stage: Stage::Saving, ..self },
                    StepView { say: None, action: ActionView::Save { path: self.path, metadata } },
                )
            } else {
                self.advance(None)
            },
            None => self.advance(None),
        }
    }

    /// The run after `event`, and its answer to it. A download, a
    /// fingerprint or an answer that could not be had stops the run, and so
    /// does an event that the run does not wait for.
    pub open spec fn step(self, event: EventView) -> (RunView, StepView) {
        match (self.stage, event) {
            (Stage::Ready, EventView::Begin) => self.begin(),
            (Stage::Listing, EventView::Downloaded { output }) => (RunView {
                paths: printed_paths(output),
                ..self
            }).advance(None),
            (Stage::Downloading, EventView::Downloaded { output }) => (
                RunView { path: printed_path(output), stage: Stage::Fingerprinting, ..self },
                StepView {
                    say: None,
                    action: ActionView::Fingerprint { path: printed_path(output) },
                },
            ),
            (Stage::Fingerprinting, EventView::Fingerprinted { output, duration }) => {
                self.fingerprinted(output, duration)
            },
            (Stage::LookingUp, EventView::Answered { response }) => self.answered(response),
            (Stage::Saving, EventView::Saved { path }) => self.advance(
                Some(saved_line(self.begun, self.tracks().len(), path)),
            ),
            (Stage::Saving, EventView::NotSaved { message }) => self.advance(Some(message)),
            (Stage::Showing, EventView::Shown) => self.advance(None),
            (_, EventView::Failed { message }) => if self.stage.asks_a_collaborator() {
                self.fail(FailureView::Collaborator { message })
            } else {
                self.fail(FailureView::OutOfTurn)
            },
            _ => self.fail(FailureView::OutOfTurn),
        }
    }
}

/// A run that is over stays over: whatever is reported to it is out of turn.
pub proof fn lemma_over_stays_over(run: RunView, event: EventView)
    requires
        run.stage == Stage::Over,
    ensures
        run.step(event).0 == run,
        run.step(event).1 == (StepView {
            say: None,
            action: ActionView::Fail { failure: FailureView::OutOfTurn },
        }),
{
}

/// Tags are written only in a run that was asked to write them, and only
/// after an answer that resolves to the record that is written.
pub proof fn lemma_tags_are_written_on_request(run: RunView, event: EventView)
    requires
        run.step(event).1.action is Save,
    ensures
        run.write_tags,
        !run.show,
        run.stage == Stage::LookingUp,
        event matches EventView::Answered { response: ResponseView::Success(answer) }
            && resolution(answer) == Some(run.step(event).1.action->Save_metadata)
            && run.step(event).1.action->Save_path == run.path,
{
}

/// A run that shows writes no tags, and shows what each answer resolves
/// to, a record or nothing.
pub proof fn lemma_showing_run_shows(run: RunView, answer: crate::response::OkResponseView)
    requires
        run.show,
        run.stage == Stage::LookingUp,
    ensures
        run.step(EventView::Answered { response: ResponseView::Success(answer) }).1.action == (
        ActionView::Show { found: resolution(answer) }),
        forall|event: EventView| !(#[trigger] run.step(event).1.action is Save),
{
}

/// A download, a fingerprint or an answer that could not be had stops the
/// run, and the reason is handed on as it was given.
pub proof fn lemma_collaborator_failure_stops(run: RunView, message: Seq<char>)
    requires
        run.stage.asks_a_collaborator(),
    ensures
        run.step(EventView::Failed { message }).0.stage == Stage::Over,
        run.step(EventView::Failed { message }).1.action == (ActionView::Fail {
            failure: FailureView::Collaborator { message },
        }),
{
}

/// Tags that could not be written do not stop a run: the reason is said, and
/// the run turns to the next track or ends in good order.
pub proof fn lemma_unwritten_tags_do_not_stop(run: RunView, message: Seq<char>)
    requires
        run.stage == Stage::Saving,
    ensures
        run.step(EventView::NotSaved { message }).1.say == Some(message),
        !(run.step(EventView::NotSaved { message }).1.action is Fail),
        !(run.step(EventView::NotSaved { message }).1.action is Save),
{
}

/// An answer of the lookup service that is an error stops the run with that
/// error, whatever tracks are left.
pub proof fn lemma_service_error_stops(run: RunView, error: ErrorView, status: Status)
    requires
        run.stage == Stage::LookingUp,
    ensures
        run.step(EventView::Answered { response: ResponseView::Error { error, status } }).0.stage
            == Stage::Over,
        run.step(EventView::Answered { response: ResponseView::Error { error, status } }).1.action
            == (ActionView::Fail { failure: FailureView::Service(error) }),
{
}

impl Run {
    /// A run over `given`, which holds files, the URL of a playlist, or the
    /// URLs of tracks, as `kind` tells. Downloads go to `directory`.
    pub fn new(
        client: String,
        write_tags: bool,
        directory: String,
        kind: Kind,
        given: Vec<String>,
    ) -> (run: Run)
        ensures
            run@ == RunView::new(client@, write_tags, directory@, kind, given.deep_view()),
    {
        let run = Run {
            api: AcoustIdApi::new(client),
            write_tags,
            show: false,
            directory,
            kind,
            given,
            paths: Vec::new(),
            begun: 0,
            path: String::new(),
            stage: Stage::Ready,
        };
        assert(run.paths.deep_view() =~= Seq::<Seq<char>>::empty());
        run
    }

    /// A run that downloads each of `urls` as a track into `directory` and
    /// shows what the answer for it resolves to. It writes no tags.
    pub fn showing(client: String, directory: String, urls: Vec<String>) -> (run: Run)
        ensures
            run@ == RunView::showing(client@, directory@, urls.deep_view()),
    {
        let mut run = Run::new(client, false, directory, Kind::Tracklist, urls);
        run.show = true;
        run
    }

    /// Whether the run is over.
    pub fn is_over(&self) -> (over: bool)
        ensures
            over == (self@.stage == Stage::Over),
    {
        self.stage == Stage::Over
    }

    fn fail(&mut self, failure: Failure) -> (step: Step)
        ensures
            (final(self)@, step@) == old(self)@.fail(failure@),
    {
        self.stage = Stage::Over;
        Step { say: None, action: Action::Fail { failure } }
    }

    fn advance(&mut self, say: Option<String>) -> (step: Step)
        ensures
            (final(self)@, step@) == old(self)@.advance(say.deep_view()),
    {
        let total = match self.kind {
            Kind::Playlist => self.paths.len(),
            _ => self.given.len(),
        };
        if self.begun >= total {
            self.stage = Stage::Over;
            return Step { say, action: Action::Finish };
        }
        let track = match self.kind {
            Kind::Playlist => self.paths[self.begun].clone(),
            _ => self.given[self.begun].clone(),
        };
        assert(track@ == old(self)@.tracks()[old(self)@.begun as int]);
        self.begun = self.begun + 1;
        match self.kind {
            Kind::Tracklist => {
                self.stage = Stage::Downloading;
                let arguments = download_arguments(self.directory.as_str(), track.as_str());
                Step { say, action: Action::Download { arguments } }
            },
            _ => {
                self.stage = Stage::Fingerprinting;
                self.path = track.clone();
                Step { say, action: Action::Fingerprint { path: track } }
            },
        }
    }

    fn begin(&mut self) -> (step: Step)
        ensures
            (final(self)@, step@) == old(self)@.begin(),
    {
        if self.kind == Kind::Playlist && self.given.len() > 0 {
            self.stage = Stage::Listing;
            let arguments = download_arguments(self.directory.as_str(), self.given[0].as_str());
            Step { say: None, action: Action::Download { arguments } }
        } else {
            self.advance(None)
        }
    }

    fn fingerprinted(&mut self, output: String, duration: u64) -> (step: Step)
        ensures
            (final(self)@, step@) == old(self)@.fingerprinted(output@, duration),
    {
        match Fpcalc::from_output(output.as_str(), duration) {
            Ok(report) => {
                self.stage = Stage::LookingUp;
                let request = self.api.request(report.duration, report.fingerprint);
                Step { say: None, action: Action::Lookup { request } }
            },
            Err(error) => self.fail(Failure::Fingerprint(error)),
        }
    }

    fn answered(&mut self, response: Response) -> (step: Step)
        ensures
            (final(self)@, step@) == old(self)@.answered(response@),
    {
        match response {
            Response::Error { error, status } => self.fail(Failure::Service(error)),
            Response::Success(answer) => match Metadata::from_response(answer) {
                Ok(found) => {
                    if self.show {
                        self.stage = Stage::Showing;
                        Step { say: None, action: Action::Show { found } }
                    } else {
                        self.written_or_passed(found)
                    }
                },
                Err(error) => self.fail(Failure::Resolution(error)),
            },
        }
    }

    fn written_or_passed(&mut self, found: Option<Metadata>) -> (step: Step)
        ensures
            (final(self)@, step@) == old(self)@.written_or_passed(
                match found {
                    Some(metadata) => Some(metadata@),
                    None => None,
                },
            ),
    {
        match found {
            Some(metadata) => {
                if self.write_tags {
                    self.stage = Stage::Saving;
                    Step { say: None, action: Action::Save { path: self.path.clone(), metadata } }
                } else {
                    self.advance(None)
                }
            },
            None => self.advance(None),
        }
    }

    fn saved(&mut self, path: String) -> (step: Step)
        ensures
            (final(self)@, step@) == old(self)@.advance(
                Some(saved_line(old(self)@.begun, old(self)@.tracks().len(), path@)),
            ),
    {
        let total = match self.kind {
            Kind::Playlist => self.paths.len(),
            _ => self.given.len(),
        };
        let mut line = String::from_str("Saved ");
        push_decimal(&mut line, self.begun as u64);
        line.append(" out of ");
        push_decimal(&mut line, total as u64);
        line.append(". Path: ");
        line.append(path.as_str());
        self.advance(Some(line))
    }

    /// Takes an event and answers with what to do next.
    pub fn step(&mut self, event: Event) -> (step: Step)
        ensures
            (final(self)@, step@) == old(self)@.step(event@),
    {
        match (self.stage, event) {
            (Stage::Ready, Event::Begin) => self.begin(),
            (Stage::Listing, Event::Downloaded { output }) => {
                self.paths = playlist_paths(output.as_str());
                self.advance(None)
            },
            (Stage::Downloading, Event::Downloaded { output }) => {
                let path = track_path(output.as_str());
                self.path = path.clone();
                self.stage = Stage::Fingerprinting;
                Step { say: None, action: Action::Fingerprint { path } }
            },
            (Stage::Fingerprinting, Event::Fingerprinted { output, duration }) => {
                self.fingerprinted(output, duration)
            },
            (Stage::LookingUp, Event::Answered { response }) => self.answered(response),
            (Stage::Saving, Event::Saved { path }) => self.saved(path),
            (Stage::Saving, Event::NotSaved { message }) => self.advance(Some(message)),
            (Stage::Showing, Event::Shown) => self.advance(None),
            (stage, Event::Failed { message }) => match stage {
                Stage::Listing | Stage::Downloading | Stage::Fingerprinting | Stage::LookingUp => {
                    self.fail(Failure::Collaborator { message })
                },
                _ => self.fail(Failure::OutOfTurn),
            },
            (_, _) => self.fail(Failure::OutOfTurn),
        }
    }
}

} // verus!
