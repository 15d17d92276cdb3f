//! Which parts of a lookup answer are used at all.
//!
//! A release group tagged `Remix` is never used. A recording is usable only if
//! it names its artists, has a title, and appears on at least one release
//! group that is no remix.

use crate::response::{
    Recording, RecordingView, ReleaseGroup, ReleaseGroupView, ResResultView,
};
use vstd::prelude::*;
use vstd::string::StringExecFns;

verus! {

/// The secondary type that marks a release group as a remix.
pub open spec fn remix_tag() -> Seq<char> {
    "Remix"@
}

impl ReleaseGroupView {
    /// Whether one of the group's secondary types is exactly `Remix`. A group
    /// without secondary types is no remix.
    pub open spec fn is_remix(self) -> bool {
        match self.secondary_types {
            Some(tags) => tags.contains(remix_tag()),
            None => false,
        }
    }
}

/// The groups among `groups` that are no remix, in order.
pub open spec fn without_remixes(groups: Seq<ReleaseGroupView>) -> Seq<ReleaseGroupView> {
    groups.filter(|group: ReleaseGroupView| !group.is_remix())
}

impl RecordingView {
    /// The release groups of the recording that are no remix.
    pub open spec fn kept_groups(self) -> Seq<ReleaseGroupView> {
        match self.releasegroups {
            Some(groups) => without_remixes(groups),
            None => Seq::empty(),
        }
    }

    /// Whether the recording takes part in the resolution.
    pub open spec fn usable(self) -> bool {
        &&& self.artists is Some
        &&& self.title is Some
        &&& self.releasegroups is Some
        &&& self.kept_groups().len() > 0
    }
}

/// The usable recordings among `recordings`, in order.
pub open spec fn usable_recordings(recordings: Seq<RecordingView>) -> Seq<RecordingView> {
    recordings.filter(|recording: RecordingView| recording.usable())
}

impl ResResultView {
    /// The usable recordings of one result; none where the result has no
    /// recordings at all.
    pub open spec fn usable_recordings(self) -> Seq<RecordingView> {
        match self.recordings {
            Some(recordings) => usable_recordings(recordings),
            None => Seq::empty(),
        }
    }
}

/// The recordings that survive the filtering: the usable recordings of each
/// result, results in order and recordings in order.
pub open spec fn survivors(results: Seq<ResResultView>) -> Seq<RecordingView> {
    results.flat_map(|result: ResResultView| result.usable_recordings())
}

/// The release groups that are offered to the selection: the kept groups of
/// each of `recordings`, in order.
pub open spec fn candidates(recordings: Seq<RecordingView>) -> Seq<ReleaseGroupView> {
    recordings.flat_map(|recording: RecordingView| recording.kept_groups())
}

/// The survivors of a list of results that is one result longer.
pub proof fn lemma_survivors_push(results: Seq<ResResultView>, result: ResResultView)
    ensures
        survivors(results.push(result)) == survivors(results) + result.usable_recordings(),
{
    results.lemma_flat_map_push(|result: ResResultView| result.usable_recordings(), result);
}

/// The candidates of a list of recordings that is one recording longer.
pub proof fn lemma_candidates_push(recordings: Seq<RecordingView>, recording: RecordingView)
    ensures
        candidates(recordings.push(recording)) == candidates(recordings)
            + recording.kept_groups(),
{
    recordings.lemma_flat_map_push(|recording: RecordingView| recording.kept_groups(), recording);
}

/// The survivors of two lists of results, one after the other.
pub proof fn lemma_survivors_concat(first: Seq<ResResultView>, second: Seq<ResResultView>)
    ensures
        survivors(first + second) == survivors(first) + survivors(second),
    decreases second.len(),
{
    if second.len() == 0 {
        assert(first + second =~= first);
        assert(survivors(second) =~= Seq::<RecordingView>::empty());
    } else {
        let shorter = second.drop_last();
        lemma_survivors_concat(first, shorter);
        lemma_survivors_push(first + shorter, second.last());
        lemma_survivors_push(shorter, second.last());
        assert((first + shorter).push(second.last()) =~= first + second);
        assert(shorter.push(second.last()) =~= second);
        assert(survivors(first + second) =~= survivors(first) + survivors(second));
    }
}

/// The candidates of two lists of recordings, one after the other.
pub proof fn lemma_candidates_concat(first: Seq<RecordingView>, second: Seq<RecordingView>)
    ensures
        candidates(first + second) == candidates(first) + candidates(second),
    decreases second.len(),
{
    if second.len() == 0 {
        assert(first + second =~= first);
        assert(candidates(second) =~= Seq::<ReleaseGroupView>::empty());
    } else {
        let shorter = second.drop_last();
        lemma_candidates_concat(first, shorter);
        lemma_candidates_push(first + shorter, second.last());
        lemma_candidates_push(shorter, second.last());
        assert((first + shorter).push(second.last()) =~= first + second);
        assert(shorter.push(second.last()) =~= second);
        assert(candidates(first + second) =~= candidates(first) + candidates(second));
    }
}

/// Every survivor is usable.
pub proof fn lemma_survivors_are_usable(results: Seq<ResResultView>)
    ensures
        forall|i: int|
            0 <= i < survivors(results).len() ==> (#[trigger] survivors(results)[i]).usable(),
    decreases results.len(),
{
    if results.len() == 0 {
        assert(survivors(results) =~= Seq::<RecordingView>::empty());
    } else {
        let shorter = results.drop_last();
        let last = results.last();
        lemma_survivors_are_usable(shorter);
        lemma_survivors_push(shorter, last);
        assert(shorter.push(last) =~= results);
        assert forall|i: int| 0 <= i < last.usable_recordings().len() implies (
        #[trigger] last.usable_recordings()[i]).usable() by {
            last.recordings->0.lemma_filter_pred(|recording: RecordingView| recording.usable(), i);
        }
    }
}

/// No candidate is a remix, and where every recording is usable there is a
/// candidate as soon as there is a recording.
pub proof fn lemma_candidates(recordings: Seq<RecordingView>)
    ensures
        forall|i: int|
            0 <= i < candidates(recordings).len() ==> !(#[trigger] candidates(
                recordings,
            )[i]).is_remix(),
        recordings.len() > 0 && recordings.last().usable() ==> candidates(recordings).len() > 0,
        recordings.len() == 0 ==> candidates(recordings).len() == 0,
    decreases recordings.len(),
{
    if recordings.len() == 0 {
        assert(candidates(recordings) =~= Seq::<ReleaseGroupView>::empty());
    } else {
        let shorter = recordings.drop_last();
        let last = recordings.last();
        lemma_candidates(shorter);
        lemma_candidates_push(shorter, last);
        assert(shorter.push(last) =~= recordings);
        assert forall|i: int| 0 <= i < last.kept_groups().len() implies !(
        #[trigger] last.kept_groups()[i]).is_remix() by {
            last.releasegroups->0.lemma_filter_pred(|group: ReleaseGroupView| !group.is_remix(), i);
        }
    }
}

/// A release group is kept exactly if it is one of the recording's groups and
/// no remix. So a remix is never kept, and a group without secondary types
/// always is.
pub proof fn lemma_kept_groups(recording: RecordingView, group: ReleaseGroupView)
    ensures
        recording.kept_groups().contains(group) <==> (recording.releasegroups matches Some(groups)
            && groups.contains(group) && !group.is_remix()),
        group.secondary_types is None ==> !group.is_remix(),
        group.secondary_types matches Some(tags) && tags.contains(remix_tag())
            ==> !recording.kept_groups().contains(group),
{
    let kept = |group: ReleaseGroupView| !group.is_remix();
    if let Some(groups) = recording.releasegroups {
        if groups.filter(kept).contains(group) {
            groups.lemma_filter_contains_rev(kept, group);
            let k = choose|k: int|
                0 <= k < groups.filter(kept).len() && groups.filter(kept)[k] == group;
            groups.lemma_filter_pred(kept, k);
        }
        if groups.contains(group) && !group.is_remix() {
            let j = choose|j: int| 0 <= j < groups.len() && groups[j] == group;
            groups.lemma_filter_contains(kept, j);
        }
    }
}

/// Every survivor is a usable recording of one of the results.
pub proof fn lemma_survivor_origin(results: Seq<ResResultView>, k: int)
    requires
        0 <= k < survivors(results).len(),
    ensures
        survivors(results)[k].usable(),
        exists|i: int|
            0 <= i < results.len() && (#[trigger] results[i]).recordings is Some
                && results[i].recordings->0.contains(survivors(results)[k]),
    decreases results.len(),
{
    if results.len() == 0 {
        assert(survivors(results) =~= Seq::<RecordingView>::empty());
    } else {
        let shorter = results.drop_last();
        let last = results.last();
        lemma_survivors_push(shorter, last);
        assert(shorter.push(last) =~= results);
        lemma_survivors_are_usable(results);
        if k < survivors(shorter).len() {
            lemma_survivor_origin(shorter, k);
            let i = choose|i: int|
                0 <= i < shorter.len() && (#[trigger] shorter[i]).recordings is Some
                    && shorter[i].recordings->0.contains(survivors(shorter)[k]);
            assert(results[i] == shorter[i]);
        } else {
            let usable = |recording: RecordingView| recording.usable();
            let here = last.usable_recordings();
            let at = k - survivors(shorter).len();
            assert(here[at] == survivors(results)[k]);
            assert(here.contains(here[at]));
            last.recordings->0.lemma_filter_contains_rev(usable, here[at]);
            assert(results[results.len() - 1].recordings is Some);
        }
    }
}

/// Every candidate is a release group of one of the recordings, and no remix.
pub proof fn lemma_candidate_origin(recordings: Seq<RecordingView>, k: int)
    requires
        0 <= k < candidates(recordings).len(),
    ensures
        !candidates(recordings)[k].is_remix(),
        exists|i: int|
            0 <= i < recordings.len() && (#[trigger] recordings[i]).releasegroups is Some
                && recordings[i].releasegroups->0.contains(candidates(recordings)[k]),
    decreases recordings.len(),
{
    lemma_candidates(recordings);
    if recordings.len() > 0 {
        let shorter = recordings.drop_last();
        let last = recordings.last();
        lemma_candidates_push(shorter, last);
        assert(shorter.push(last) =~= recordings);
        if k < candidates(shorter).len() {
            lemma_candidate_origin(shorter, k);
            let i = choose|i: int|
                0 <= i < shorter.len() && (#[trigger] shorter[i]).releasegroups is Some
                    && shorter[i].releasegroups->0.contains(candidates(shorter)[k]);
            assert(recordings[i] == shorter[i]);
        } else {
            let here = last.kept_groups();
            let at = k - candidates(shorter).len();
            assert(here[at] == candidates(recordings)[k]);
            assert(here.contains(here[at]));
            lemma_kept_groups(last, here[at]);
            assert(recordings[recordings.len() - 1].releasegroups is Some);
        }
    }
}

/// No recording is usable among recordings none of which is.
pub proof fn lemma_none_usable(recordings: Seq<RecordingView>)
    requires
        forall|j: int| 0 <= j < recordings.len() ==> !(#[trigger] recordings[j]).usable(),
    ensures
        usable_recordings(recordings).len() == 0,
    decreases recordings.len(),
{
    let usable = |recording: RecordingView| recording.usable();
    if recordings.len() == 0 {
        recordings.lemma_filter_len(usable);
    } else {
        let shorter = recordings.drop_last();
        assert forall|j: int| 0 <= j < shorter.len() implies !(#[trigger] shorter[j]).usable() by {
            assert(shorter[j] == recordings[j]);
        }
        lemma_none_usable(shorter);
        shorter.lemma_filter_push(recordings.last(), usable);
        assert(shorter.push(recordings.last()) =~= recordings);
    }
}

/// The first survivor is the first usable recording of the answer: the one
/// before which, in its own result and in the results before that, no
/// recording is usable.
pub proof fn lemma_first_survivor(results: Seq<ResResultView>, i: int, j: int)
    requires
        0 <= i < results.len(),
        results[i].recordings is Some,
        0 <= j < results[i].recordings->0.len(),
        results[i].recordings->0[j].usable(),
        forall|k: int| 0 <= k < j ==> !(#[trigger] results[i].recordings->0[k]).usable(),
        forall|h: int, k: int|
            0 <= h < i && results[h].recordings is Some && 0 <= k < results[h].recordings->0.len()
                ==> !(#[trigger] results[h].recordings->0[k]).usable(),
    ensures
        survivors(results).len() > 0,
        survivors(results)[0] == results[i].recordings->0[j],
{
    let usable = |recording: RecordingView| recording.usable();
    let here = results[i].recordings->0;
    let earlier = results.take(i);

    assert forall|h: int| 0 <= h < earlier.len() implies (
    #[trigger] earlier[h]).usable_recordings().len() == 0 by {
        assert(earlier[h] == results[h]);
        if let Some(recordings) = results[h].recordings {
            assert forall|k: int| 0 <= k < recordings.len() implies !(
            #[trigger] recordings[k]).usable() by {
                assert(recordings[k] == results[h].recordings->0[k]);
            }
            lemma_none_usable(recordings);
        }
    }
    lemma_survivors_are_none(earlier);

    let before = here.take(j);
    assert forall|k: int| 0 <= k < before.len() implies !(#[trigger] before[k]).usable() by {
        assert(before[k] == here[k]);
    }
    lemma_none_usable(before);
    before.lemma_filter_push(here[j], usable);
    assert(before.push(here[j]) =~= here.take(j + 1));
    assert(usable_recordings(here.take(j + 1)) =~= seq![here[j]]);
    Seq::filter_distributes_over_add(here.take(j + 1), here.skip(j + 1), usable);
    assert(here.take(j + 1) + here.skip(j + 1) =~= here);
    assert(usable_recordings(here)[0] == here[j]);

    lemma_survivors_push(earlier, results[i]);
    assert(earlier.push(results[i]) =~= results.take(i + 1));
    lemma_survivors_concat(results.take(i + 1), results.skip(i + 1));
    assert(results.take(i + 1) + results.skip(i + 1) =~= results);
}

/// Results none of whose recordings is usable leave no survivor.
pub proof fn lemma_survivors_are_none(results: Seq<ResResultView>)
    requires
        forall|i: int|
            0 <= i < results.len() ==> (#[trigger] results[i]).usable_recordings().len() == 0,
    ensures
        survivors(results).len() == 0,
    decreases results.len(),
{
    if results.len() == 0 {
        assert(survivors(results) =~= Seq::<RecordingView>::empty());
    } else {
        let shorter = results.drop_last();
        assert forall|i: int| 0 <= i < shorter.len() implies (
        #[trigger] shorter[i]).usable_recordings().len() == 0 by {
            assert(shorter[i] == results[i]);
        }
        lemma_survivors_are_none(shorter);
        lemma_survivors_push(shorter, results.last());
        assert(shorter.push(results.last()) =~= results);
    }
}

impl ReleaseGroup {
    /// Whether one of the group's secondary types is exactly `Remix`.
    pub fn is_remix(&self) -> (result: bool)
        ensures
            result == self@.is_remix(),
    {
        match &self.secondary_types {
            None => false,
            Some(tags) => {
                let remix = String::from_str("Remix");
                let mut i: usize = 0;
                while i < tags.len()
                    invariant
                        i <= tags.len(),
                        self@.secondary_types == Some(tags.deep_view()),
                        remix@ == remix_tag(),
                        forall|j: int| 0 <= j < i ==> tags[j]@ != remix_tag(),
                    decreases tags.len() - i,
                {
                    if tags[i] == remix {
                        assert(tags.deep_view()[i as int] == remix_tag());
                        return true;
                    }
                    i += 1;
                }
                assert(!tags.deep_view().contains(remix_tag())) by {
                    if tags.deep_view().contains(remix_tag()) {
                        let j = choose|j: int|
                            0 <= j < tags.deep_view().len() && tags.deep_view()[j] == remix_tag();
                        assert(tags[j]@ != remix_tag());
                    }
                }
                false
            },
        }
    }
}

impl Recording {
    /// Whether the recording takes part in the resolution: it names its
    /// artists, has a title, and one of its release groups is no remix.
    pub fn is_usable(&self) -> (result: bool)
        ensures
            result == self@.usable(),
    {
        if self.artists.is_none() || self.title.is_none() {
            return false;
        }
        match &self.releasegroups {
            None => false,
            Some(groups) => {
                let ghost all = groups.deep_view();
                let mut i: usize = 0;
                while i < groups.len()
                    invariant
                        i <= groups.len(),
                        all == groups.deep_view(),
                        self@.releasegroups == Some(all),
                        self@.artists is Some,
                        self@.title is Some,
                        without_remixes(all.take(i as int)).len() == 0,
                    decreases groups.len() - i,
                {
                    proof {
                        all.take(i as int).lemma_filter_push(
                            all[i as int],
                            |group: ReleaseGroupView| !group.is_remix(),
                        );
                        assert(all.take(i as int).push(all[i as int]) =~= all.take(i + 1));
                    }
                    if !groups[i].is_remix() {
                        proof {
                            all.take(i + 1).lemma_filter_monotone(
                                all,
                                |group: ReleaseGroupView| !group.is_remix(),
                            );
                        }
                        return true;
                    }
                    i += 1;
                }
                assert(all.take(i as int) =~= all);
                false
            },
        }
    }
}

} // verus!
