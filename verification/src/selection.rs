//! Which release a track is filed under.
//!
//! Release groups are offered one by one. The first album or EP is taken and
//! kept; as long as none has come, every group replaces the one before it. So
//! the release that is chosen from a list of groups is the first album or EP
//! of the list, or its last group if it holds neither.

use crate::response::{artist_names, Artist, ReleaseGroup, ReleaseGroupView, ReleaseType};
use vstd::prelude::*;

verus! {

/// What a metadata record keeps of a release group.
#[derive(Debug)]
pub struct Release {
    pub release_type: ReleaseType,
    pub title: String,
    pub artists: Vec<String>,
}

pub ghost struct ReleaseView {
    pub release_type: ReleaseType,
    pub title: Seq<char>,
    pub artists: Seq<Seq<char>>,
}

impl View for Release {
    type V = ReleaseView;

    open spec fn view(&self) -> ReleaseView {
        ReleaseView {
            release_type: self.release_type,
            title: self.title@,
            artists: self.artists.deep_view(),
        }
    }
}

/// The release that a release group describes.
pub open spec fn release_of(group: ReleaseGroupView) -> ReleaseView {
    ReleaseView {
        release_type: group.release_type,
        title: group.title,
        artists: artist_names(group.artists),
    }
}

/// The index of the first album or EP among `groups`, or their number if
/// there is none.
pub open spec fn first_preferred(groups: Seq<ReleaseGroupView>) -> int
    decreases groups.len(),
{
    if groups.len() == 0 {
        0
    } else if groups[0].release_type.preferred() {
        0
    } else {
        1 + first_preferred(groups.drop_first())
    }
}

/// Whether an album or an EP is among `groups`.
pub open spec fn has_preferred(groups: Seq<ReleaseGroupView>) -> bool {
    exists|i: int| 0 <= i < groups.len() && (#[trigger] groups[i]).release_type.preferred()
}

/// The release chosen from `groups`: that of the first album or EP, or of the
/// last group where there is neither; none for an empty list.
pub open spec fn chosen(groups: Seq<ReleaseGroupView>) -> Option<ReleaseView> {
    if groups.len() == 0 {
        None
    } else if first_preferred(groups) < groups.len() {
        Some(release_of(groups[first_preferred(groups)]))
    } else {
        Some(release_of(groups.last()))
    }
}

/// `first_preferred` is the least index of an album or EP.
pub proof fn lemma_first_preferred(groups: Seq<ReleaseGroupView>)
    ensures
        0 <= first_preferred(groups) <= groups.len(),
        first_preferred(groups) < groups.len() ==> groups[first_preferred(
            groups,
        )].release_type.preferred(),
        forall|j: int|
            0 <= j < first_preferred(groups) ==> !(#[trigger] groups[j]).release_type.preferred(),
        has_preferred(groups) <==> first_preferred(groups) < groups.len(),
    decreases groups.len(),
{
    if groups.len() > 0 && !groups[0].release_type.preferred() {
        let rest = groups.drop_first();
        lemma_first_preferred(rest);
        assert forall|j: int| 0 <= j < first_preferred(groups) implies !(
        #[trigger] groups[j]).release_type.preferred() by {
            if j > 0 {
                assert(groups[j] == rest[j - 1]);
            }
        }
        if first_preferred(groups) < groups.len() {
            assert(groups[first_preferred(groups)] == rest[first_preferred(rest)]);
        }
    }
}

/// What has been chosen so far, while release groups are offered in order.
#[derive(Debug)]
pub enum Selection {
    /// No group has been offered.
    Empty,
    /// The last group that was offered; none so far was an album or an EP.
    Unlocked(Release),
    /// The first album or EP that was offered. Nothing replaces it.
    Locked(Release),
}

pub ghost enum SelectionView {
    Empty,
    Unlocked(ReleaseView),
    Locked(ReleaseView),
}

impl View for Selection {
    type V = SelectionView;

    open spec fn view(&self) -> SelectionView {
        match self {
            Selection::Empty => SelectionView::Empty,
            Selection::Unlocked(release) => SelectionView::Unlocked(release@),
            Selection::Locked(release) => SelectionView::Locked(release@),
        }
    }
}

impl SelectionView {
    /// The selection after `group` has been offered to it.
    pub open spec fn offer(self, group: ReleaseGroupView) -> SelectionView {
        match self {
            SelectionView::Locked(_) => self,
            _ => if group.release_type.preferred() {
                SelectionView::Locked(release_of(group))
            } else {
                SelectionView::Unlocked(release_of(group))
            },
        }
    }

    /// The selection after each of `groups` has been offered to it, in order.
    pub open spec fn offer_all(self, groups: Seq<ReleaseGroupView>) -> SelectionView
        decreases groups.len(),
    {
        if groups.len() == 0 {
            self
        } else {
            self.offer_all(groups.drop_last()).offer(groups.last())
        }
    }

    /// The release that the selection holds, if any.
    pub open spec fn release(self) -> Option<ReleaseView> {
        match self {
            SelectionView::Empty => None,
            SelectionView::Unlocked(release) => Some(release),
            SelectionView::Locked(release) => Some(release),
        }
    }

    /// The selection that is reached from the empty one by offering `groups`.
    pub open spec fn after(groups: Seq<ReleaseGroupView>) -> SelectionView {
        if groups.len() == 0 {
            SelectionView::Empty
        } else if first_preferred(groups) < groups.len() {
            SelectionView::Locked(release_of(groups[first_preferred(groups)]))
        } else {
            SelectionView::Unlocked(release_of(groups.last()))
        }
    }
}

/// Offering two lists one after the other is offering their concatenation.
pub proof fn lemma_offer_all_concat(
    start: SelectionView,
    first: Seq<ReleaseGroupView>,
    second: Seq<ReleaseGroupView>,
)
    ensures
        start.offer_all(first + second) == start.offer_all(first).offer_all(second),
    decreases second.len(),
{
    if second.len() == 0 {
        assert(first + second =~= first);
    } else {
        lemma_offer_all_concat(start, first, second.drop_last());
        assert((first + second).drop_last() =~= first + second.drop_last());
        assert((first + second).last() == second.last());
    }
}

/// A locked selection stays as it is, whatever is offered to it.
pub proof fn lemma_locked_is_kept(release: ReleaseView, groups: Seq<ReleaseGroupView>)
    ensures
        SelectionView::Locked(release).offer_all(groups) == SelectionView::Locked(release),
    decreases groups.len(),
{
    if groups.len() > 0 {
        lemma_locked_is_kept(release, groups.drop_last());
    }
}

/// One more group at the end moves the first album or EP only if there was none.
proof fn lemma_first_preferred_push(groups: Seq<ReleaseGroupView>, group: ReleaseGroupView)
    ensures
        first_preferred(groups.push(group)) == if first_preferred(groups) < groups.len() {
            first_preferred(groups)
        } else if group.release_type.preferred() {
            groups.len() as int
        } else {
            groups.len() as int + 1
        },
    decreases groups.len(),
{
    let longer = groups.push(group);
    if groups.len() == 0 {
        assert(longer[0] == group);
        assert(longer.drop_first().len() == 0);
        assert(first_preferred(longer.drop_first()) == 0);
    } else {
        assert(longer[0] == groups[0]);
        assert(longer.drop_first() =~= groups.drop_first().push(group));
        if !groups[0].release_type.preferred() {
            lemma_first_preferred_push(groups.drop_first(), group);
        }
    }
}

/// Offering groups one by one to the empty selection ends with the first album
/// or EP locked, or with the last group where there was neither.
pub proof fn lemma_offer_all_chooses(groups: Seq<ReleaseGroupView>)
    ensures
        SelectionView::Empty.offer_all(groups) == SelectionView::after(groups),
        SelectionView::Empty.offer_all(groups).release() == chosen(groups),
    decreases groups.len(),
{
    if groups.len() > 0 {
        let before = groups.drop_last();
        lemma_offer_all_chooses(before);
        lemma_first_preferred(before);
        lemma_first_preferred_push(before, groups.last());
        assert(before.push(groups.last()) =~= groups);
        if first_preferred(before) < before.len() {
            assert(groups[first_preferred(before)] == before[first_preferred(before)]);
        }
    }
}

/// Once an album or an EP is among the groups, no group that follows changes
/// the release that is chosen.
pub proof fn lemma_album_or_ep_locks(groups: Seq<ReleaseGroupView>, more: Seq<ReleaseGroupView>)
    requires
        has_preferred(groups),
    ensures
        chosen(groups + more) == chosen(groups),
        chosen(groups) == Some(release_of(groups[first_preferred(groups)])),
        groups[first_preferred(groups)].release_type.preferred(),
    decreases more.len(),
{
    lemma_first_preferred(groups);
    if more.len() == 0 {
        assert(groups + more =~= groups);
    } else {
        let shorter = groups + more.drop_last();
        lemma_album_or_ep_locks(groups, more.drop_last());
        lemma_first_preferred(shorter);
        lemma_first_preferred_push(shorter, more.last());
        assert(shorter.push(more.last()) =~= groups + more);
        assert(shorter[first_preferred(groups)] == groups[first_preferred(groups)]);
        assert(has_preferred(shorter));
        assert((groups + more)[first_preferred(shorter)] == shorter[first_preferred(shorter)]);
    }
}

/// Where no group is an album or an EP, the last group is the one chosen.
pub proof fn lemma_last_group_wins(groups: Seq<ReleaseGroupView>)
    requires
        groups.len() > 0,
        !has_preferred(groups),
    ensures
        chosen(groups) == Some(release_of(groups.last())),
{
    lemma_first_preferred(groups);
}

/// The release that is chosen is that of one of the groups.
pub proof fn lemma_chosen_is_offered(groups: Seq<ReleaseGroupView>)
    requires
        groups.len() > 0,
    ensures
        chosen(groups) is Some,
        exists|i: int|
            0 <= i < groups.len() && chosen(groups) == Some(release_of(#[trigger] groups[i])),
{
    lemma_first_preferred(groups);
    if first_preferred(groups) < groups.len() {
        assert(chosen(groups) == Some(release_of(groups[first_preferred(groups)])));
    } else {
        assert(chosen(groups) == Some(release_of(groups[groups.len() - 1])));
    }
}

/// The names of `artists`, in order.
pub fn names_of(artists: &Vec<Artist>) -> (names: Vec<String>)
    ensures
        names.deep_view() == artist_names(artists.deep_view()),
{
    let mut names: Vec<String> = Vec::new();
    let mut i: usize = 0;
    while i < artists.len()
        invariant
            i <= artists.len(),
            names.len() == i,
            forall|j: int| 0 <= j < i ==> names[j]@ == artists[j].name@,
        decreases artists.len() - i,
    {
        names.push(artists[i].name.clone());
        i += 1;
    }
    assert(names.deep_view() =~= artist_names(artists.deep_view()));
    names
}

impl Release {
    /// What a metadata record keeps of `group`.
    pub fn from_group(group: &ReleaseGroup) -> (release: Release)
        ensures
            release@ == release_of(group@),
    {
        Release {
            release_type: group.release_type,
            title: group.title.clone(),
            artists: names_of(&group.artists),
        }
    }
}

impl Selection {
    /// Whether an album or an EP has been taken.
    pub fn is_locked(&self) -> (locked: bool)
        ensures
            locked == (self@ is Locked),
    {
        match self {
            Selection::Locked(_) => true,
            _ => false,
        }
    }

    /// Offers one more release group. A locked selection stays as it is; any
    /// other is replaced by the group, which locks it if it is an album or an EP.
    pub fn offer(self, group: &ReleaseGroup) -> (next: Selection)
        ensures
            next@ == self@.offer(group@),
    {
        match self {
            Selection::Locked(release) => Selection::Locked(release),
            _ => {
                let release = Release::from_group(group);
                if group.release_type.is_preferred() {
                    Selection::Locked(release)
                } else {
                    Selection::Unlocked(release)
                }
            },
        }
    }

    /// Gives up the release that was chosen, if any.
    pub fn into_release(self) -> (release: Option<Release>)
        ensures
            match release {
                Some(r) => self@.release() == Some(r@),
                None => self@.release() is None,
            },
    {
        match self {
            Selection::Empty => None,
            Selection::Unlocked(release) => Some(release),
            Selection::Locked(release) => Some(release),
        }
    }
}

} // verus!
