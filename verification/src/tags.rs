//! Writing a record into the tag of an audio file.
//!
//! A record fills five fields of a tag: the artists and the title of the
//! track, and the title, the artists and the type of its release. Lists of
//! artists are joined by a comma and a space. A tag takes a text only if its
//! format has a place for the field.

use crate::metadata::{Metadata, MetadataView};
use crate::text::{join, joined};
use vstd::prelude::*;

verus! {

/// `lofty`'s `Tag`: the items of an audio file's tag, whatever the format of
/// the file. Nothing of it is seen here but through `tag_items` and
/// `tag_places`.
#[verifier::external_type_specification]
#[verifier::external_body]
pub struct ExTag(lofty::tag::Tag);

/// `lofty`'s `TagItem`: one item of a tag, which stands under a key and has
/// a value. Nothing of it is seen here but through `item_field` and
/// `item_text`.
#[verifier::external_type_specification]
#[verifier::external_body]
pub struct ExTagItem(lofty::tag::TagItem);

/// A field of an audio file's tag that a record fills.
#[derive(Clone, Copy, Debug, PartialEq, Eq, Structural)]
pub enum TagField {
    TrackArtist,
    TrackTitle,
    AlbumTitle,
    AlbumArtist,
    ReleaseType,
}

/// The text that a record puts into one field of an audio file's tag.
#[derive(Debug)]
pub struct TagEntry {
    pub field: TagField,
    pub text: String,
}

pub ghost struct TagEntryView {
    pub field: TagField,
    pub text: Seq<char>,
}

impl View for TagEntry {
    type V = TagEntryView;

    open spec fn view(&self) -> TagEntryView {
        TagEntryView { field: self.field, text: self.text@ }
    }
}

impl DeepView for TagEntry {
    type V = TagEntryView;

    open spec fn deep_view(&self) -> TagEntryView {
        self@
    }
}

/// The items of a tag, in the order in which the tag holds them.
pub uninterp spec fn tag_items(tag: lofty::tag::Tag) -> Seq<lofty::tag::TagItem>;

/// The fields for which the format of a tag has a place: those whose key
/// the tag's type maps to a key of its own.
pub uninterp spec fn tag_places(tag: lofty::tag::Tag) -> Set<TagField>;

/// The field under whose key an item stands, if that is one of the five.
pub uninterp spec fn item_field(item: lofty::tag::TagItem) -> Option<TagField>;

/// The text of an item, if its value is text.
pub uninterp spec fn item_text(item: lofty::tag::TagItem) -> Option<Seq<char>>;

/// Whether an item stands under the key of one of `fields`.
pub open spec fn under(item: lofty::tag::TagItem, fields: Set<TagField>) -> bool {
    item_field(item) matches Some(field) && fields.contains(field)
}

/// The items that stand under the key of none of `fields`, in order.
pub open spec fn without_fields(
    items: Seq<lofty::tag::TagItem>,
    fields: Set<TagField>,
) -> Seq<lofty::tag::TagItem>
    decreases items.len(),
{
    if items.len() == 0 {
        items
    } else if under(items.last(), fields) {
        without_fields(items.drop_last(), fields)
    } else {
        without_fields(items.drop_last(), fields).push(items.last())
    }
}

/// `lofty`'s `Tag::insert_text`, called with the `ItemKey` of the same name
/// as the field, which for the type of the release is
/// `MusicBrainzReleaseType`. Whether the tag takes the text depends on its
/// type and the key alone, and the call does not change the tag's type.
/// Where the tag takes it, every item under the key is removed, the others
/// stay as they are and in their order, and one item under the key, which
/// holds the text, is put after them. Where it does not, no item changes.
/// The result tells which of the two it was.
#[verifier::external_body]
fn insert_text(tag: &mut lofty::tag::Tag, field: TagField, text: String) -> (inserted: bool)
    ensures
        inserted == tag_places(*old(tag)).contains(field),
        tag_places(*final(tag)) == tag_places(*old(tag)),
        !inserted ==> tag_items(*final(tag)) == tag_items(*old(tag)),
        inserted ==> {
            &&& tag_items(*final(tag)).len() > 0
            &&& tag_items(*final(tag)).drop_last() == without_fields(
                tag_items(*old(tag)),
                set![field],
            )
            &&& item_field(tag_items(*final(tag)).last()) == Some(field)
            &&& item_text(tag_items(*final(tag)).last()) == Some(text@)
        },
{
    let key = match field {
        TagField::TrackArtist => lofty::tag::ItemKey::TrackArtist,
        TagField::TrackTitle => lofty::tag::ItemKey::TrackTitle,
        TagField::AlbumTitle => lofty::tag::ItemKey::AlbumTitle,
        TagField::AlbumArtist => lofty::tag::ItemKey::AlbumArtist,
        TagField::ReleaseType => lofty::tag::ItemKey::MusicBrainzReleaseType,
    };
    tag.insert_text(key, text)
}

impl MetadataView {
    /// What the record writes into a tag, in the order of writing.
    pub open spec fn tag_entries(self) -> Seq<TagEntryView> {
        seq![
            TagEntryView { field: TagField::TrackArtist, text: joined(self.artist_names, ", "@) },
            TagEntryView { field: TagField::TrackTitle, text: self.track_title },
            TagEntryView { field: TagField::AlbumTitle, text: self.release_title },
            TagEntryView {
                field: TagField::AlbumArtist,
                text: joined(self.release_artists, ", "@),
            },
            TagEntryView { field: TagField::ReleaseType, text: self.release_type.name() },
        ]
    }
}

/// The entries that a tag takes: those for whose field it has a place.
pub open spec fn taken_entries(entries: Seq<TagEntryView>, places: Set<TagField>) -> Seq<
    TagEntryView,
>
    decreases entries.len(),
{
    if entries.len() == 0 {
        entries
    } else if places.contains(entries.last().field) {
        taken_entries(entries.drop_last(), places).push(entries.last())
    } else {
        taken_entries(entries.drop_last(), places)
    }
}

/// The fields of the entries that a tag refuses: those for which it has no
/// place.
pub open spec fn refused_fields(entries: Seq<TagEntryView>, places: Set<TagField>) -> Seq<
    TagField,
>
    decreases entries.len(),
{
    if entries.len() == 0 {
        Seq::empty()
    } else if places.contains(entries.last().field) {
        refused_fields(entries.drop_last(), places)
    } else {
        refused_fields(entries.drop_last(), places).push(entries.last().field)
    }
}

/// The fields of `entries`.
pub open spec fn fields_of(entries: Seq<TagEntryView>) -> Set<TagField>
    decreases entries.len(),
{
    if entries.len() == 0 {
        Set::empty()
    } else {
        fields_of(entries.drop_last()).insert(entries.last().field)
    }
}

/// Whether no two of `entries` have the same field.
pub open spec fn distinct_fields(entries: Seq<TagEntryView>) -> bool {
    forall|i: int, j: int|
        0 <= i < j < entries.len() ==> (#[trigger] entries[i]).field != (
        #[trigger] entries[j]).field
}

/// Whether `after` holds the items of a tag into which `entries` were
/// written, when it held `before`: first the items of `before` that stand
/// under the field of no entry, as they were and in their order, then for
/// each entry, in order, one item under the entry's field that holds the
/// entry's text.
pub open spec fn written(
    before: Seq<lofty::tag::TagItem>,
    after: Seq<lofty::tag::TagItem>,
    entries: Seq<TagEntryView>,
) -> bool {
    let others = without_fields(before, fields_of(entries));
    let fresh = after.skip(others.len() as int);
    &&& after.len() == others.len() + entries.len()
    &&& after.take(others.len() as int) == others
    &&& forall|i: int|
        0 <= i < entries.len() ==> item_field(#[trigger] fresh[i]) == Some(entries[i].field)
            && item_text(fresh[i]) == Some(entries[i].text)
}

/// Every field of `entries` is the field of one of them, and the other way
/// round.
pub proof fn lemma_fields_of(entries: Seq<TagEntryView>, field: TagField)
    ensures
        fields_of(entries).contains(field) <==> exists|i: int|
            0 <= i < entries.len() && (#[trigger] entries[i]).field == field,
    decreases entries.len(),
{
    if entries.len() > 0 {
        let shorter = entries.drop_last();
        lemma_fields_of(shorter, field);
        if fields_of(entries).contains(field) {
            if entries.last().field == field {
                assert(entries[entries.len() - 1].field == field);
            } else {
                let i = choose|i: int|
                    0 <= i < shorter.len() && (#[trigger] shorter[i]).field == field;
                assert(entries[i].field == field);
            }
        }
        if exists|i: int| 0 <= i < entries.len() && (#[trigger] entries[i]).field == field {
            let i = choose|i: int| 0 <= i < entries.len() && (#[trigger] entries[i]).field == field;
            if i < shorter.len() {
                assert(shorter[i].field == field);
            }
        }
    }
}

/// No item that is left stands under one of the fields, and there are no
/// more items than before.
pub proof fn lemma_without_fields(items: Seq<lofty::tag::TagItem>, fields: Set<TagField>)
    ensures
        without_fields(items, fields).len() <= items.len(),
        forall|i: int|
            0 <= i < without_fields(items, fields).len() ==> !under(
                #[trigger] without_fields(items, fields)[i],
                fields,
            ),
    decreases items.len(),
{
    if items.len() > 0 {
        lemma_without_fields(items.drop_last(), fields);
    }
}

/// Items none of which stands under one of the fields are all left.
pub proof fn lemma_without_fields_of_others(items: Seq<lofty::tag::TagItem>, fields: Set<TagField>)
    requires
        forall|i: int| 0 <= i < items.len() ==> !under(#[trigger] items[i], fields),
    ensures
        without_fields(items, fields) == items,
    decreases items.len(),
{
    if items.len() > 0 {
        let shorter = items.drop_last();
        assert forall|i: int| 0 <= i < shorter.len() implies !under(
            #[trigger] shorter[i],
            fields,
        ) by {
            assert(shorter[i] == items[i]);
        }
        lemma_without_fields_of_others(shorter, fields);
        assert(!under(items[items.len() - 1], fields));
        assert(shorter.push(items.last()) =~= items);
    }
}

/// Items all of which stand under one of the fields are all left out.
pub proof fn lemma_without_fields_of_those(items: Seq<lofty::tag::TagItem>, fields: Set<TagField>)
    requires
        forall|i: int| 0 <= i < items.len() ==> under(#[trigger] items[i], fields),
    ensures
        without_fields(items, fields).len() == 0,
    decreases items.len(),
{
    if items.len() > 0 {
        let shorter = items.drop_last();
        assert forall|i: int| 0 <= i < shorter.len() implies under(
            #[trigger] shorter[i],
            fields,
        ) by {
            assert(shorter[i] == items[i]);
        }
        lemma_without_fields_of_those(shorter, fields);
        assert(under(items[items.len() - 1], fields));
    }
}

/// Leaving out goes item by item: what is left of two lists, one after the
/// other, is what is left of each.
pub proof fn lemma_without_fields_concat(
    first: Seq<lofty::tag::TagItem>,
    second: Seq<lofty::tag::TagItem>,
    fields: Set<TagField>,
)
    ensures
        without_fields(first + second, fields) == without_fields(first, fields) + without_fields(
            second,
            fields,
        ),
    decreases second.len(),
{
    if second.len() == 0 {
        assert(first + second =~= first);
        assert(without_fields(first, fields) + without_fields(second, fields) =~= without_fields(
            first,
            fields,
        ));
    } else {
        let shorter = second.drop_last();
        lemma_without_fields_concat(first, shorter, fields);
        assert((first + second).drop_last() =~= first + shorter);
        assert((first + second).last() == second.last());
        assert(without_fields(first + second, fields) =~= without_fields(first, fields)
            + without_fields(second, fields));
    }
}

/// Leaving out the items of some fields and then those of others leaves out
/// the items of all of them.
pub proof fn lemma_without_fields_twice(
    items: Seq<lofty::tag::TagItem>,
    fields: Set<TagField>,
    more: Set<TagField>,
)
    ensures
        without_fields(without_fields(items, fields), more) == without_fields(
            items,
            fields.union(more),
        ),
    decreases items.len(),
{
    if items.len() > 0 {
        let shorter = items.drop_last();
        lemma_without_fields_twice(shorter, fields, more);
        if !under(items.last(), fields) {
            assert(without_fields(items, fields).drop_last() =~= without_fields(shorter, fields));
            assert(without_fields(items, fields).last() == items.last());
        }
    }
}

/// Each entry that is taken is one of the entries, with a field for which
/// there is a place; and the entries that are taken are in the order of the
/// entries.
pub proof fn lemma_taken_entries(entries: Seq<TagEntryView>, places: Set<TagField>)
    ensures
        taken_entries(entries, places).len() <= entries.len(),
        forall|k: int|
            0 <= k < taken_entries(entries, places).len() ==> places.contains(
                (#[trigger] taken_entries(entries, places)[k]).field,
            ) && exists|i: int|
                0 <= i < entries.len() && #[trigger] entries[i] == taken_entries(
                    entries,
                    places,
                )[k],
        distinct_fields(entries) ==> distinct_fields(taken_entries(entries, places)),
    decreases entries.len(),
{
    if entries.len() > 0 {
        let shorter = entries.drop_last();
        let taken = taken_entries(entries, places);
        let before = taken_entries(shorter, places);
        lemma_taken_entries(shorter, places);
        assert forall|k: int| 0 <= k < taken.len() implies places.contains(
            (#[trigger] taken[k]).field,
        ) && exists|i: int| 0 <= i < entries.len() && #[trigger] entries[i] == taken[k] by {
            if k < before.len() {
                assert(taken[k] == before[k]);
                let i = choose|i: int| 0 <= i < shorter.len() && #[trigger] shorter[i] == before[k];
                assert(entries[i] == taken[k]);
            } else {
                assert(entries[entries.len() - 1] == taken[k]);
            }
        }
        if distinct_fields(entries) {
            assert(distinct_fields(shorter)) by {
                assert forall|i: int, j: int| 0 <= i < j < shorter.len() implies (
                #[trigger] shorter[i]).field != (#[trigger] shorter[j]).field by {
                    assert(shorter[i] == entries[i] && shorter[j] == entries[j]);
                }
            }
            assert forall|i: int, j: int| 0 <= i < j < taken.len() implies (
            #[trigger] taken[i]).field != (#[trigger] taken[j]).field by {
                if j < before.len() {
                    assert(taken[i] == before[i] && taken[j] == before[j]);
                } else {
                    assert(taken[i] == before[i]);
                    let h = choose|h: int|
                        0 <= h < shorter.len() && #[trigger] shorter[h] == before[i];
                    assert(entries[h].field != entries[entries.len() - 1].field);
                }
            }
        }
    }
}

/// A tag that has a place for the field of every entry takes every entry
/// and refuses none.
pub proof fn lemma_all_entries_taken(entries: Seq<TagEntryView>, places: Set<TagField>)
    requires
        forall|i: int| 0 <= i < entries.len() ==> places.contains((#[trigger] entries[i]).field),
    ensures
        taken_entries(entries, places) == entries,
        refused_fields(entries, places).len() == 0,
    decreases entries.len(),
{
    if entries.len() > 0 {
        let shorter = entries.drop_last();
        assert forall|i: int| 0 <= i < shorter.len() implies places.contains(
            (#[trigger] shorter[i]).field,
        ) by {
            assert(shorter[i] == entries[i]);
        }
        lemma_all_entries_taken(shorter, places);
        assert(places.contains(entries[entries.len() - 1].field));
        assert(shorter.push(entries.last()) =~= entries);
    }
}

/// After a writing, each entry's field holds exactly one item, which holds
/// the entry's text: whatever stood under the field before is gone.
pub proof fn lemma_written_once(
    before: Seq<lofty::tag::TagItem>,
    after: Seq<lofty::tag::TagItem>,
    entries: Seq<TagEntryView>,
    i: int,
)
    requires
        written(before, after, entries),
        distinct_fields(entries),
        0 <= i < entries.len(),
    ensures
        ({
            let at = without_fields(before, fields_of(entries)).len() + i;
            &&& 0 <= at < after.len()
            &&& item_field(after[at]) == Some(entries[i].field)
            &&& item_text(after[at]) == Some(entries[i].text)
            &&& forall|j: int|
                0 <= j < after.len() && item_field(#[trigger] after[j]) == Some(entries[i].field)
                    ==> j == at
        }),
{
    let fields = fields_of(entries);
    let others = without_fields(before, fields);
    let fresh = after.skip(others.len() as int);
    let at = others.len() + i;
    lemma_without_fields(before, fields);
    lemma_fields_of(entries, entries[i].field);
    assert(fresh[i] == after[at]);
    assert forall|j: int|
        0 <= j < after.len() && item_field(#[trigger] after[j]) == Some(entries[i].field) implies j
        == at by {
        if j < others.len() {
            assert(after.take(others.len() as int)[j] == after[j]);
            assert(!under(others[j], fields));
        } else {
            let k = j - others.len();
            assert(fresh[k] == after[j]);
            if k < i {
                assert(entries[k].field != entries[i].field);
            } else if k > i {
                assert(entries[i].field != entries[k].field);
            }
        }
    }
}

/// A writing changes no item under another key: the items that stand under
/// the field of no entry are the same after it as before, in the same order.
pub proof fn lemma_written_keeps_others(
    before: Seq<lofty::tag::TagItem>,
    after: Seq<lofty::tag::TagItem>,
    entries: Seq<TagEntryView>,
)
    requires
        written(before, after, entries),
    ensures
        without_fields(after, fields_of(entries)) == without_fields(before, fields_of(entries)),
{
    let fields = fields_of(entries);
    let others = without_fields(before, fields);
    let fresh = after.skip(others.len() as int);
    assert(after =~= others + fresh);
    lemma_without_fields_concat(others, fresh, fields);
    lemma_without_fields(before, fields);
    lemma_without_fields_of_others(others, fields);
    assert forall|k: int| 0 <= k < fresh.len() implies under(#[trigger] fresh[k], fields) by {
        lemma_fields_of(entries, entries[k].field);
    }
    lemma_without_fields_of_those(fresh, fields);
    assert(others + without_fields(fresh, fields) =~= others);
}

/// One more entry written after others: the items of its field go, and one
/// item that holds its text comes last.
proof fn lemma_written_push(
    before: Seq<lofty::tag::TagItem>,
    now: Seq<lofty::tag::TagItem>,
    next: Seq<lofty::tag::TagItem>,
    entries: Seq<TagEntryView>,
    entry: TagEntryView,
)
    requires
        written(before, now, entries),
        !fields_of(entries).contains(entry.field),
        next.len() > 0,
        next.drop_last() == without_fields(now, set![entry.field]),
        item_field(next.last()) == Some(entry.field),
        item_text(next.last()) == Some(entry.text),
    ensures
        written(before, next, entries.push(entry)),
{
    let fields = fields_of(entries);
    let one = set![entry.field];
    let longer = entries.push(entry);
    let others = without_fields(before, fields);
    let fresh = now.skip(others.len() as int);
    assert(longer.drop_last() =~= entries);
    assert(fields_of(longer) =~= fields.union(one));
    let left = without_fields(before, fields_of(longer));

    assert(now =~= others + fresh);
    lemma_without_fields_concat(others, fresh, one);
    lemma_without_fields_twice(before, fields, one);
    assert forall|k: int| 0 <= k < fresh.len() implies !under(#[trigger] fresh[k], one) by {
        lemma_fields_of(entries, entries[k].field);
    }
    lemma_without_fields_of_others(fresh, one);
    assert(next =~= (left + fresh).push(next.last()));

    let newer = next.skip(left.len() as int);
    assert(next.take(left.len() as int) =~= left);
    assert(newer =~= fresh.push(next.last()));
    assert forall|k: int| 0 <= k < longer.len() implies item_field(#[trigger] newer[k]) == Some(
        longer[k].field,
    ) && item_text(newer[k]) == Some(longer[k].text) by {
        if k < entries.len() {
            assert(newer[k] == fresh[k]);
            assert(longer[k] == entries[k]);
        }
    }
}

impl Metadata {
    /// What the record writes into the tag of the track's file: artists and
    /// title of the track, then title, artists and type of the release.
    pub fn tag_entries(&self) -> (entries: Vec<TagEntry>)
        ensures
            entries.deep_view() == self@.tag_entries(),
    {
        let mut entries: Vec<TagEntry> = Vec::new();
        entries.push(
            TagEntry { field: TagField::TrackArtist, text: join(&self.artist_names, ", ") },
        );
        entries.push(TagEntry { field: TagField::TrackTitle, text: self.track_title.clone() });
        entries.push(TagEntry { field: TagField::AlbumTitle, text: self.release_title.clone() });
        entries.push(
            TagEntry { field: TagField::AlbumArtist, text: join(&self.release_artists, ", ") },
        );
        entries.push(TagEntry { field: TagField::ReleaseType, text: self.release_type.to_text() });
        assert(entries.deep_view() =~= self@.tag_entries());
        entries
    }

    /// Writes the record into `tag`, entry by entry, and tells which fields
    /// the tag has no place for. Every other entry is written: whatever the
    /// tag held under its field is replaced by one item that holds the
    /// entry's text. Items under other keys, and those of refused fields,
    /// stay as they are.
    pub fn write_into(&self, tag: &mut lofty::tag::Tag) -> (refused: Vec<TagField>)
        ensures
            tag_places(*final(tag)) == tag_places(*old(tag)),
            refused@ == refused_fields(self@.tag_entries(), tag_places(*old(tag))),
            written(
                tag_items(*old(tag)),
                tag_items(*final(tag)),
                taken_entries(self@.tag_entries(), tag_places(*old(tag))),
            ),
    {
        let entries = self.tag_entries();
        let ghost all = entries.deep_view();
        let ghost places = tag_places(*tag);
        let ghost before = tag_items(*tag);
        let mut refused: Vec<TagField> = Vec::new();
        let mut i: usize = 0;
        proof {
            assert(all.len() == 5);
            assert(distinct_fields(all));
            assert(before.skip(before.len() as int) =~= Seq::empty());
            assert(before.take(before.len() as int) =~= before);
            lemma_without_fields_of_others(before, Set::empty());
        }
        while i < entries.len()
            invariant
                i <= entries.len() == 5,
                all == entries.deep_view(),
                distinct_fields(all),
                places == tag_places(*old(tag)),
                before == tag_items(*old(tag)),
                tag_places(*tag) == places,
                refused@ == refused_fields(all.take(i as int), places),
                written(before, tag_items(*tag), taken_entries(all.take(i as int), places)),
            decreases entries.len() - i,
        {
            let ghost now = tag_items(*tag);
            let ghost taken = taken_entries(all.take(i as int), places);
            let inserted = insert_text(tag, entries[i].field, entries[i].text.clone());
            proof {
                assert(all.take(i + 1).drop_last() =~= all.take(i as int));
                assert(all.take(i + 1).last() == all[i as int]);
                if inserted {
                    assert(!fields_of(taken).contains(all[i as int].field)) by {
                        lemma_fields_of(taken, all[i as int].field);
                        lemma_taken_entries(all.take(i as int), places);
                        if fields_of(taken).contains(all[i as int].field) {
                            let k = choose|k: int|
                                0 <= k < taken.len() && (#[trigger] taken[k]).field
                                    == all[i as int].field;
                            let h = choose|h: int|
                                0 <= h < all.take(i as int).len() && #[trigger] all.take(
                                    i as int,
                                )[h] == taken[k];
                            assert(all[h].field != all[i as int].field);
                        }
                    }
                    lemma_written_push(before, now, tag_items(*tag), taken, all[i as int]);
                }
            }
            if !inserted {
                refused.push(entries[i].field);
            }
            i += 1;
        }
        assert(all.take(i as int) =~= all);
        refused
    }
}

} // verus!
