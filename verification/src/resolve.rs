//! From a lookup answer to one metadata record.
//!
//! The track's artists and title are those of the first recording that
//! survives the filtering. Its release is chosen among the release groups of
//! all surviving recordings, in the order of the answer. Where no recording
//! survives there is no record, which is no failure.

use crate::filtering::{
    candidates, lemma_candidate_origin, lemma_candidates, lemma_candidates_concat,
    lemma_candidates_push, lemma_survivor_origin, lemma_survivors_are_usable,
    lemma_survivors_are_none, lemma_survivors_concat, lemma_survivors_push, survivors,
    usable_recordings, without_remixes,
};
use crate::metadata::{Error, Metadata, MetadataView};
use crate::response::{
    artist_names, OkResponse, OkResponseView, Recording, RecordingView, ReleaseGroup,
    ReleaseGroupView, ResResultView,
};
use crate::selection::{
    chosen, has_preferred, lemma_album_or_ep_locks, lemma_chosen_is_offered,
    lemma_offer_all_chooses, lemma_offer_all_concat, names_of, release_of, Release, ReleaseView,
    Selection, SelectionView,
};
use vstd::prelude::*;

verus! {

/// The record that a lookup answer resolves to: none where no recording
/// survives; else the artists and title of the first survivor, with the
/// release chosen among the candidates of all survivors.
pub open spec fn resolution(response: OkResponseView) -> Option<MetadataView> {
    let recordings = survivors(response.results);
    if recordings.len() == 0 {
        None
    } else {
        let release = chosen(candidates(recordings))->0;
        Some(
            MetadataView {
                artist_names: artist_names(recordings[0].artists->0),
                release_type: release.release_type,
                track_title: recordings[0].title->0,
                release_title: release.title,
                release_artists: release.artists,
            },
        )
    }
}

impl RecordingView {
    /// Whether the recording lacks its artists, its title or its release groups.
    pub open spec fn incomplete(self) -> bool {
        self.artists is None || self.title is None || self.releasegroups is None
    }
}

impl OkResponseView {
    /// Whether every recording of every result is incomplete.
    pub open spec fn all_incomplete(self) -> bool {
        forall|i: int, j: int|
            0 <= i < self.results.len() && self.results[i].recordings is Some && 0 <= j
                < self.results[i].recordings->0.len() ==> (
            #[trigger] self.results[i].recordings->0[j]).incomplete()
    }
}

/// The fields of a record while the answer is read. Each is unset until a
/// surviving recording sets it.
#[derive(Debug)]
pub struct Draft {
    pub artist_names: Option<Vec<String>>,
    pub track_title: Option<String>,
    pub selection: Selection,
}

pub ghost struct DraftView {
    pub artist_names: Option<Seq<Seq<char>>>,
    pub track_title: Option<Seq<char>>,
    pub selection: SelectionView,
}

impl View for Draft {
    type V = DraftView;

    open spec fn view(&self) -> DraftView {
        DraftView {
            artist_names: self.artist_names.deep_view(),
            track_title: self.track_title.deep_view(),
            selection: self.selection@,
        }
    }
}

impl DraftView {
    /// The draft after the surviving recordings `recordings` have been read:
    /// artists and title are those of the first, and every kept release group
    /// has been offered to the selection.
    pub open spec fn of(recordings: Seq<RecordingView>) -> DraftView {
        DraftView {
            artist_names: if recordings.len() == 0 {
                None
            } else {
                Some(artist_names(recordings[0].artists->0))
            },
            track_title: if recordings.len() == 0 {
                None
            } else {
                Some(recordings[0].title->0)
            },
            selection: SelectionView::Empty.offer_all(candidates(recordings)),
        }
    }

    /// The draft after one more recording has been read. A recording that is
    /// not usable changes nothing. A usable one sets artists and title if
    /// they are unset, and offers its kept release groups to the selection.
    pub open spec fn read(self, recording: RecordingView) -> DraftView {
        if recording.usable() {
            DraftView {
                artist_names: if self.artist_names is Some {
                    self.artist_names
                } else {
                    Some(artist_names(recording.artists->0))
                },
                track_title: if self.track_title is Some {
                    self.track_title
                } else {
                    recording.title
                },
                selection: self.selection.offer_all(recording.kept_groups()),
            }
        } else {
            self
        }
    }
}

/// Reading one more usable recording extends the list that the draft stands for.
pub proof fn lemma_draft_read(recordings: Seq<RecordingView>, recording: RecordingView)
    requires
        recording.usable(),
    ensures
        DraftView::of(recordings).read(recording) == DraftView::of(recordings.push(recording)),
{
    lemma_candidates_push(recordings, recording);
    lemma_offer_all_concat(
        SelectionView::Empty,
        candidates(recordings),
        recording.kept_groups(),
    );
    if recordings.len() > 0 {
        assert(recordings.push(recording)[0] == recordings[0]);
    }
}

/// Where every recording lacks its artists, its title or its release groups,
/// no recording survives and the answer resolves to nothing.
pub proof fn lemma_incomplete_recordings_resolve_to_nothing(response: OkResponseView)
    requires
        response.all_incomplete(),
    ensures
        survivors(response.results).len() == 0,
        resolution(response) is None,
{
    let usable = |recording: RecordingView| recording.usable();
    assert forall|i: int| 0 <= i < response.results.len() implies (
    #[trigger] response.results[i]).usable_recordings().len() == 0 by {
        if let Some(recordings) = response.results[i].recordings {
            let kept = recordings.filter(usable);
            if kept.len() > 0 {
                recordings.lemma_filter_pred(usable, 0);
                assert(kept.contains(kept[0]));
                recordings.lemma_filter_contains_rev(usable, kept[0]);
                let j = choose|j: int| 0 <= j < recordings.len() && recordings[j] == kept[0];
                assert(response.results[i].recordings->0[j].incomplete());
            }
        }
    }
    lemma_survivors_are_none(response.results);
}

/// Where a recording survives, a release is chosen: the candidates are not
/// empty, so no field of the record stays unset.
pub proof fn lemma_survivors_have_a_release(results: Seq<ResResultView>)
    requires
        survivors(results).len() > 0,
    ensures
        candidates(survivors(results)).len() > 0,
        chosen(candidates(survivors(results))) is Some,
        SelectionView::Empty.offer_all(candidates(survivors(results))).release() == chosen(
            candidates(survivors(results)),
        ),
        survivors(results)[0].artists is Some,
        survivors(results)[0].title is Some,
{
    let recordings = survivors(results);
    lemma_survivors_are_usable(results);
    assert(recordings.last().usable());
    assert(recordings[0].usable());
    lemma_candidates(recordings);
    lemma_offer_all_chooses(candidates(recordings));
}

impl OkResponseView {
    /// The answer with the results `more` after its own.
    pub open spec fn followed_by(self, more: Seq<ResResultView>) -> OkResponseView {
        OkResponseView { results: self.results + more, status: self.status }
    }

    /// Whether no list of artists and no title that the answer holds is empty.
    pub open spec fn filled(self) -> bool {
        forall|i: int, j: int|
            0 <= i < self.results.len() && self.results[i].recordings is Some && 0 <= j
                < self.results[i].recordings->0.len() ==> (
            #[trigger] self.results[i].recordings->0[j]).filled()
    }
}

impl RecordingView {
    /// Whether the artists and the title of the recording, where it has them,
    /// and the artists and the title of each of its release groups are not empty.
    pub open spec fn filled(self) -> bool {
        &&& self.artists matches Some(artists) ==> artists.len() > 0
        &&& self.title matches Some(title) ==> title.len() > 0
        &&& self.releasegroups matches Some(groups) ==> forall|k: int|
            0 <= k < groups.len() ==> (#[trigger] groups[k]).title.len() > 0
                && groups[k].artists.len() > 0
    }
}

/// The artists and the title of a record are those of the first surviving
/// recording, whatever results follow.
pub proof fn lemma_first_survivor_names_the_track(
    response: OkResponseView,
    more: Seq<ResResultView>,
)
    requires
        survivors(response.results).len() > 0,
    ensures
        ({
            &&& resolution(response) matches Some(record)
            &&& resolution(response.followed_by(more)) matches Some(longer)
            &&& longer.artist_names == record.artist_names
            &&& longer.track_title == record.track_title
            &&& survivors(response.results)[0].artists matches Some(artists)
            &&& record.artist_names == artist_names(artists)
            &&& survivors(response.results)[0].title == Some(record.track_title)
        }),
{
    lemma_survivors_concat(response.results, more);
    lemma_survivors_have_a_release(response.results);
}

/// Once an album or an EP is among the candidates of an answer, the record is
/// settled: no result that follows changes any of its fields.
pub proof fn lemma_locked_resolution_is_final(response: OkResponseView, more: Seq<ResResultView>)
    requires
        has_preferred(candidates(survivors(response.results))),
    ensures
        resolution(response) is Some,
        resolution(response.followed_by(more)) == resolution(response),
{
    let recordings = survivors(response.results);
    lemma_candidates(recordings);
    lemma_survivors_concat(response.results, more);
    lemma_candidates_concat(recordings, survivors(more));
    lemma_album_or_ep_locks(candidates(recordings), candidates(survivors(more)));
}

/// The release of a record is that of a release group of a surviving
/// recording, and never of a remix.
pub proof fn lemma_resolved_release_is_a_candidate(response: OkResponseView)
    requires
        resolution(response) is Some,
    ensures
        exists|k: int|
            0 <= k < candidates(survivors(response.results)).len() && !(#[trigger] candidates(
                survivors(response.results),
            )[k]).is_remix() && release_of(candidates(survivors(response.results))[k]) == (
            ReleaseView {
                release_type: resolution(response)->0.release_type,
                title: resolution(response)->0.release_title,
                artists: resolution(response)->0.release_artists,
            }),
{
    let groups = candidates(survivors(response.results));
    lemma_survivors_have_a_release(response.results);
    lemma_chosen_is_offered(groups);
    lemma_candidates(survivors(response.results));
    let k = choose|k: int|
        0 <= k < groups.len() && chosen(groups) == Some(release_of(#[trigger] groups[k]));
    assert(!groups[k].is_remix());
}

/// Where no list of artists and no title in the answer is empty, none is in
/// the record either.
pub proof fn lemma_filled_answer_resolves_populated(response: OkResponseView)
    requires
        response.filled(),
    ensures
        resolution(response) matches Some(record) ==> record.populated(),
{
    let recordings = survivors(response.results);
    if recordings.len() > 0 {
        lemma_survivors_have_a_release(response.results);
        lemma_survivor_origin(response.results, 0);
        let i = choose|i: int|
            0 <= i < response.results.len() && (#[trigger] response.results[i]).recordings is Some
                && response.results[i].recordings->0.contains(recordings[0]);
        let j = choose|j: int|
            0 <= j < response.results[i].recordings->0.len() && response.results[i].recordings->0[j]
                == recordings[0];
        assert(response.results[i].recordings->0[j].filled());

        let groups = candidates(recordings);
        lemma_chosen_is_offered(groups);
        let k = choose|k: int|
            0 <= k < groups.len() && chosen(groups) == Some(release_of(#[trigger] groups[k]));
        lemma_candidate_origin(recordings, k);
        let r = choose|r: int|
            0 <= r < recordings.len() && (#[trigger] recordings[r]).releasegroups is Some
                && recordings[r].releasegroups->0.contains(groups[k]);
        lemma_survivor_origin(response.results, r);
        let i2 = choose|i2: int|
            0 <= i2 < response.results.len() && (#[trigger] response.results[i2]).recordings is Some
                && response.results[i2].recordings->0.contains(recordings[r]);
        let j2 = choose|j2: int|
            0 <= j2 < response.results[i2].recordings->0.len()
                && response.results[i2].recordings->0[j2] == recordings[r];
        assert(response.results[i2].recordings->0[j2].filled());
        let g = choose|g: int|
            0 <= g < recordings[r].releasegroups->0.len() && recordings[r].releasegroups->0[g]
                == groups[k];
        assert(recordings[r].releasegroups->0[g].title.len() > 0);
    }
}

impl Selection {
    /// Offers every release group of `groups` that is no remix, in order.
    pub fn offer_groups(self, groups: &Vec<ReleaseGroup>) -> (next: Selection)
        ensures
            next@ == self@.offer_all(without_remixes(groups.deep_view())),
    {
        let ghost all = groups.deep_view();
        let ghost start = self@;
        let ghost kept = |group: ReleaseGroupView| !group.is_remix();
        let mut selection = self;
        let mut i: usize = 0;
        assert(all.take(0).filter(kept) =~= Seq::<ReleaseGroupView>::empty()) by {
            all.take(0).lemma_filter_len(kept);
        }
        while i < groups.len()
            invariant
                i <= groups.len(),
                all == groups.deep_view(),
                kept == (|group: ReleaseGroupView| !group.is_remix()),
                selection@ == start.offer_all(all.take(i as int).filter(kept)),
            decreases groups.len() - i,
        {
            proof {
                all.take(i as int).lemma_filter_push(all[i as int], kept);
                assert(all.take(i as int).push(all[i as int]) =~= all.take(i + 1));
                let before = all.take(i as int).filter(kept);
                assert(before.push(all[i as int]).drop_last() =~= before);
            }
            if !groups[i].is_remix() {
                selection = selection.offer(&groups[i]);
            }
            i += 1;
        }
        assert(all.take(i as int) =~= all);
        selection
    }
}

impl Draft {
    /// The draft in which nothing is set.
    pub fn new() -> (draft: Draft)
        ensures
            draft@ == DraftView::of(Seq::empty()),
    {
        proof {
            lemma_candidates(Seq::empty());
        }
        Draft { artist_names: None, track_title: None, selection: Selection::Empty }
    }

    /// Whether nothing is set.
    pub fn is_blank(&self) -> (blank: bool)
        ensures
            blank == (self@.artist_names is None && self@.track_title is None
                && self@.selection is Empty),
    {
        self.artist_names.is_none() && self.track_title.is_none() && match self.selection {
            Selection::Empty => true,
            _ => false,
        }
    }

    /// Reads one recording. One that is not usable leaves the draft as it is.
    pub fn read(self, recording: &Recording) -> (draft: Draft)
        ensures
            draft@ == self@.read(recording@),
    {
        if !recording.is_usable() {
            return self;
        }
        let Draft { artist_names, track_title, selection } = self;
        let artist_names = match artist_names {
            Some(names) => Some(names),
            None => match &recording.artists {
                Some(artists) => Some(names_of(artists)),
                None => None,
            },
        };
        let track_title = match track_title {
            Some(title) => Some(title),
            None => recording.title.clone(),
        };
        let selection = match &recording.releasegroups {
            Some(groups) => selection.offer_groups(groups),
            None => selection,
        };
        Draft { artist_names, track_title, selection }
    }

    /// Ends the reading: a record if every field is set, else the error of
    /// the first field that is not.
    pub fn finish(self) -> (result: Result<Metadata, Error>)
        ensures
            match result {
                Ok(metadata) => {
                    &&& self@.artist_names == Some(metadata@.artist_names)
                    &&& self@.track_title == Some(metadata@.track_title)
                    &&& self@.selection.release() matches Some(release)
                    &&& release.release_type == metadata@.release_type
                    &&& release.title == metadata@.release_title
                    &&& release.artists == metadata@.release_artists
                },
                Err(error) => {
                    if self@.artist_names is None {
                        error == Error::InvalidArtistName
                    } else if self@.selection is Empty {
                        error == Error::InvalidReleaseType
                    } else {
                        self@.track_title is None && error == Error::InvalidTrackTitle
                    }
                },
            },
    {
        let Draft { artist_names, track_title, selection } = self;
        let (release_type, release_title, release_artists) = match selection.into_release() {
            Some(release) => {
                let Release { release_type, title, artists } = release;
                (Some(release_type), Some(title), Some(artists))
            },
            None => (None, None, None),
        };
        Metadata::assemble(artist_names, release_type, track_title, release_title, release_artists)
    }
}

impl Metadata {
    /// Resolves a lookup answer. The result is never an error: where no
    /// recording survives the filtering it is `Ok(None)`, and else every field
    /// of the record has been set by a surviving recording.
    pub fn from_response(res: OkResponse) -> (result: Result<Option<Metadata>, Error>)
        ensures
            match result {
                Ok(Some(metadata)) => resolution(res@) == Some(metadata@),
                Ok(None) => resolution(res@) is None,
                Err(_) => false,
            },
            res@.results.len() == 0 ==> result matches Ok(None),
            res@.all_incomplete() ==> result matches Ok(None),
            survivors(res@.results).len() > 0 ==> result matches Ok(Some(_)),
    {
        let ghost all = res@.results;
        proof {
            if res@.all_incomplete() {
                lemma_incomplete_recordings_resolve_to_nothing(res@);
            }
        }
        if res.results.len() == 0 {
            proof {
                lemma_survivors_are_none(all);
            }
            return Ok(None);
        }
        let mut draft = Draft::new();
        let mut i: usize = 0;
        assert(survivors(all.take(0)) =~= Seq::<RecordingView>::empty()) by {
            lemma_survivors_are_none(all.take(0));
        }
        while i < res.results.len()
            invariant
                i <= res.results.len(),
                all == res.results.deep_view(),
                draft@ == DraftView::of(survivors(all.take(i as int))),
            decreases res.results.len() - i,
        {
            let ghost before = survivors(all.take(i as int));
            proof {
                lemma_survivors_push(all.take(i as int), all[i as int]);
                assert(all.take(i as int).push(all[i as int]) =~= all.take(i + 1));
            }
            match &res.results[i].recordings {
                None => {
                    assert(before + all[i as int].usable_recordings() =~= before);
                },
                Some(recordings) => {
                    let ghost here = recordings.deep_view();
                    let mut j: usize = 0;
                    assert(before + usable_recordings(here.take(0)) =~= before) by {
                        here.take(0).lemma_filter_len(
                            |recording: RecordingView| recording.usable(),
                        );
                    }
                    while j < recordings.len()
                        invariant
                            j <= recordings.len(),
                            here == recordings.deep_view(),
                            draft@ == DraftView::of(
                                before + usable_recordings(here.take(j as int)),
                            ),
                        decreases recordings.len() - j,
                    {
                        proof {
                            let read = usable_recordings(here.take(j as int));
                            let next = here[j as int];
                            here.take(j as int).lemma_filter_push(
                                next,
                                |recording: RecordingView| recording.usable(),
                            );
                            assert(here.take(j as int).push(next) =~= here.take(j + 1));
                            if next.usable() {
                                lemma_draft_read(before + read, next);
                                assert((before + read).push(next) =~= before + read.push(next));
                            }
                        }
                        draft = draft.read(&recordings[j]);
                        j += 1;
                    }
                    assert(here.take(j as int) =~= here);
                },
            }
            i += 1;
        }
        assert(all.take(i as int) =~= all);
        if draft.is_blank() {
            return Ok(None);
        }
        proof {
            lemma_survivors_have_a_release(all);
        }
        match draft.finish() {
            Ok(metadata) => Ok(Some(metadata)),
            Err(error) => Err(error),
        }
    }
}

} // verus!
