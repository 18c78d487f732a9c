//! Inbound events: which group each is for, and the order in which they are
//! handed to the group engine.

use crate::error::Error;
use crate::event::{RelayEvent, RelayEventView};
use crate::groups::{catalog_wf, has_nostr_id, index_of_nostr_id, Catalog, Group};
use vstd::prelude::*;

verus! {

/// The name of the tag that routes an event to a group.
pub open spec fn group_tag_name() -> Seq<char> {
    seq!['h']
}

/// The group that an event is routed to: the first value of its first tag
/// named `h`, if that tag has a value.
pub open spec fn group_tag_spec(tags: Seq<Seq<Seq<char>>>) -> Option<Seq<char>>
    decreases tags.len(),
{
    if tags.len() == 0 {
        None
    } else if tags[0].len() > 0 && tags[0][0] == group_tag_name() {
        if tags[0].len() > 1 {
            Some(tags[0][1])
        } else {
            None
        }
    } else {
        group_tag_spec(tags.skip(1))
    }
}

/// The group that an event with the tags `tags` is routed to.
pub fn group_tag(tags: &Vec<Vec<String>>) -> (tag: Option<String>)
    ensures
        tag is Some <==> group_tag_spec(tags.deep_view()) is Some,
        tag matches Some(t) ==> group_tag_spec(tags.deep_view()) == Some(t@),
{
    let name = String::from_str("h");
    proof {
        reveal_strlit("h");
        assert(name@ =~= group_tag_name());
    }
    let ghost all = tags.deep_view();
    let mut i: usize = 0;
    assert(all.skip(0) =~= all);
    while i < tags.len()
        invariant
            i <= tags.len(),
            all == tags.deep_view(),
            name@ == group_tag_name(),
            group_tag_spec(all) == group_tag_spec(all.skip(i as int)),
        decreases tags.len() - i,
    {
        let tag = &tags[i];
        proof {
            let rest = all.skip(i as int);
            assert(rest[0] == tag.deep_view());
            assert(rest.skip(1) =~= all.skip(i + 1));
            assert(tag.deep_view().len() == tag.len());
            if tag.len() > 0 {
                assert(tag.deep_view()[0] == tag[0]@);
            }
            if tag.len() > 1 {
                assert(tag.deep_view()[1] == tag[1]@);
            }
        }
        if tag.len() > 0 && tag[0] == name {
            if tag.len() > 1 {
                return Some(tag[1].clone());
            } else {
                return None;
            }
        }
        i += 1;
    }
    assert(all.skip(i as int).len() == 0);
    None
}

/// The order of byte strings: by the first byte that differs, a prefix first.
pub open spec fn lex_le(a: Seq<u8>, b: Seq<u8>) -> bool
    decreases a.len(),
{
    if a.len() == 0 {
        true
    } else if b.len() == 0 {
        false
    } else if a[0] != b[0] {
        a[0] < b[0]
    } else {
        lex_le(a.skip(1), b.skip(1))
    }
}

/// Of two byte strings one is not after the other.
pub proof fn lemma_lex_total(a: Seq<u8>, b: Seq<u8>)
    ensures
        lex_le(a, b) || lex_le(b, a),
    decreases a.len(),
{
    if a.len() > 0 && b.len() > 0 && a[0] == b[0] {
        lemma_lex_total(a.skip(1), b.skip(1));
    }
}

/// The order of byte strings is transitive.
pub proof fn lemma_lex_transitive(a: Seq<u8>, b: Seq<u8>, c: Seq<u8>)
    requires
        lex_le(a, b),
        lex_le(b, c),
    ensures
        lex_le(a, c),
    decreases a.len(),
{
    if a.len() > 0 && b.len() > 0 && c.len() > 0 && a[0] == b[0] && b[0] == c[0] {
        lemma_lex_transitive(a.skip(1), b.skip(1), c.skip(1));
    }
}

/// Whether `a` is not after `b` in the order of byte strings.
pub fn bytes_le(a: &Vec<u8>, b: &Vec<u8>) -> (le: bool)
    ensures
        le == lex_le(a@, b@),
{
    let mut i: usize = 0;
    assert(a@.skip(0) =~= a@ && b@.skip(0) =~= b@);
    while i < a.len() && i < b.len()
        invariant
            i <= a.len(),
            i <= b.len(),
            lex_le(a@, b@) == lex_le(a@.skip(i as int), b@.skip(i as int)),
        decreases a.len() - i,
    {
        proof {
            assert(a@.skip(i as int)[0] == a[i as int]);
            assert(b@.skip(i as int)[0] == b[i as int]);
            assert(a@.skip(i as int).skip(1) =~= a@.skip(i + 1));
            assert(b@.skip(i as int).skip(1) =~= b@.skip(i + 1));
        }
        if a[i] != b[i] {
            return a[i] < b[i];
        }
        i += 1;
    }
    i == a.len()
}

/// An inbound event with the place of its group in the catalog.
pub struct WorkItem {
    pub group_index: usize,
    pub event: RelayEvent,
}

/// What a [`WorkItem`] holds.
pub struct WorkItemView {
    pub group_index: int,
    pub event: RelayEventView,
}

impl View for WorkItem {
    type V = WorkItemView;

    open spec fn view(&self) -> WorkItemView {
        WorkItemView { group_index: self.group_index as int, event: self.event@ }
    }
}

impl DeepView for WorkItem {
    type V = WorkItemView;

    open spec fn deep_view(&self) -> WorkItemView {
        self.view()
    }
}

/// The order of processing: by group, then by time of creation, then by id.
pub open spec fn item_le(a: WorkItemView, b: WorkItemView) -> bool {
    if a.group_index != b.group_index {
        a.group_index < b.group_index
    } else if a.event.created_at != b.event.created_at {
        a.event.created_at < b.event.created_at
    } else {
        lex_le(a.event.id, b.event.id)
    }
}

/// Every item is not after those that follow it.
pub open spec fn ordered(items: Seq<WorkItemView>) -> bool {
    forall|i: int, j: int| 0 <= i < j < items.len() ==> item_le(#[trigger] items[i], #[trigger] items[j])
}

/// Of two items one is not after the other.
pub proof fn lemma_item_total(a: WorkItemView, b: WorkItemView)
    ensures
        item_le(a, b) || item_le(b, a),
{
    lemma_lex_total(a.event.id, b.event.id);
}

/// The order of processing is transitive.
pub proof fn lemma_item_transitive(a: WorkItemView, b: WorkItemView, c: WorkItemView)
    requires
        item_le(a, b),
        item_le(b, c),
    ensures
        item_le(a, c),
{
    if a.group_index == b.group_index && b.group_index == c.group_index && a.event.created_at
        == b.event.created_at && b.event.created_at == c.event.created_at {
        lemma_lex_transitive(a.event.id, b.event.id, c.event.id);
    }
}

/// Whether `a` is not after `b` in the order of processing.
pub fn item_not_after(a: &WorkItem, b: &WorkItem) -> (le: bool)
    ensures
        le == item_le(a@, b@),
{
    if a.group_index != b.group_index {
        a.group_index < b.group_index
    } else if a.event.created_at != b.event.created_at {
        a.event.created_at < b.event.created_at
    } else {
        bytes_le(&a.event.id, &b.event.id)
    }
}

/// The same items in the order of processing.
pub fn sort_items(items: Vec<WorkItem>) -> (sorted: Vec<WorkItem>)
    ensures
        ordered(sorted.deep_view()),
        sorted.deep_view().to_multiset() == items.deep_view().to_multiset(),
        forall|i: int|
            0 <= i < sorted.deep_view().len() ==> items.deep_view().contains(
                #[trigger] sorted.deep_view()[i],
            ),
{
    broadcast use {
        vstd::seq_lib::to_multiset_build,
        vstd::seq_lib::to_multiset_insert,
        vstd::multiset::group_multiset_axioms,
    };

    let ghost all = items.deep_view();
    let mut input = items;
    let mut sorted: Vec<WorkItem> = Vec::new();
    assert(sorted.deep_view() =~= Seq::<WorkItemView>::empty());
    assert(all.to_multiset().add(Seq::<WorkItemView>::empty().to_multiset()) =~= all.to_multiset()) by {
        Seq::<WorkItemView>::empty().to_multiset_ensures();
    }
    while input.len() > 0
        invariant
            ordered(sorted.deep_view()),
            input.deep_view().to_multiset().add(sorted.deep_view().to_multiset()) == all.to_multiset(),
        decreases input.len(),
    {
        let ghost input_before = input.deep_view();
        let ghost sorted_before = sorted.deep_view();
        let item = input.pop().unwrap();
        let ghost moved = item@;
        assert(input_before =~= input.deep_view().push(moved));
        let mut p: usize = 0;
        while p < sorted.len() && !item_not_after(&item, &sorted[p])
            invariant
                p <= sorted.len(),
                sorted.deep_view() == sorted_before,
                forall|k: int| 0 <= k < p ==> !item_le(item@, #[trigger] sorted_before[k]),
            decreases sorted.len() - p,
        {
            p += 1;
        }
        sorted.insert(p, item);
        assert(sorted.deep_view() =~= sorted_before.insert(p as int, moved));
        assert forall|i: int, j: int| 0 <= i < j < sorted.deep_view().len() implies item_le(
            #[trigger] sorted.deep_view()[i],
            #[trigger] sorted.deep_view()[j],
        ) by {
            let after = sorted.deep_view();
            if j < p {
                assert(after[i] == sorted_before[i] && after[j] == sorted_before[j]);
            } else if j == p {
                assert(after[i] == sorted_before[i]);
                lemma_item_total(moved, sorted_before[i]);
            } else if i < p {
                assert(after[i] == sorted_before[i] && after[j] == sorted_before[j - 1]);
            } else if i == p {
                assert(after[j] == sorted_before[j - 1]);
                if j - 1 > p {
                    lemma_item_transitive(moved, sorted_before[p as int], sorted_before[j - 1]);
                }
            } else {
                assert(after[i] == sorted_before[i - 1] && after[j] == sorted_before[j - 1]);
            }
        }
        proof {
            vstd::seq_lib::to_multiset_build(input.deep_view(), moved);
            vstd::seq_lib::to_multiset_insert(sorted_before, p as int, moved);
        }
        assert(input_before.to_multiset() =~= input.deep_view().to_multiset().insert(moved));
        assert(sorted.deep_view().to_multiset() =~= sorted_before.to_multiset().insert(moved));
        assert(input.deep_view().to_multiset().add(sorted.deep_view().to_multiset())
            =~= input_before.to_multiset().add(sorted_before.to_multiset()));
    }
    assert(input.deep_view() =~= Seq::<WorkItemView>::empty());
    assert(sorted.deep_view().to_multiset() =~= all.to_multiset()) by {
        Seq::<WorkItemView>::empty().to_multiset_ensures();
    }
    assert forall|i: int| 0 <= i < sorted.deep_view().len() implies all.contains(
        #[trigger] sorted.deep_view()[i],
    ) by {
        let item = sorted.deep_view()[i];
        assert(sorted.deep_view().contains(item));
        vstd::seq_lib::to_multiset_contains(sorted.deep_view(), item);
        vstd::seq_lib::to_multiset_contains(all, item);
    }
    sorted
}

/// Every item of a list of events stands for one of the events, and names
/// the place of the group that the event is routed to.
pub proof fn lemma_work_items(catalog: Catalog, events: Seq<RelayEventView>)
    ensures
        forall|k: int|
            0 <= k < work_items(catalog, events).len() ==> {
                let item = #[trigger] work_items(catalog, events)[k];
                &&& events.contains(item.event)
                &&& work_item(catalog, item.event) == Some(item)
                &&& 0 <= item.group_index < catalog.len()
                &&& Some(catalog[item.group_index].nostr_group_id) == group_tag_spec(item.event.tags)
            },
    decreases events.len(),
{
    if events.len() > 0 {
        let rest = events.drop_last();
        lemma_work_items(catalog, rest);
        assert forall|k: int| 0 <= k < work_items(catalog, events).len() implies {
            let item = #[trigger] work_items(catalog, events)[k];
            &&& events.contains(item.event)
            &&& work_item(catalog, item.event) == Some(item)
            &&& 0 <= item.group_index < catalog.len()
            &&& Some(catalog[item.group_index].nostr_group_id) == group_tag_spec(item.event.tags)
        } by {
            let item = work_items(catalog, events)[k];
            if k < work_items(catalog, rest).len() {
                assert(item == work_items(catalog, rest)[k]);
                let j = choose|j: int| 0 <= j < rest.len() && rest[j] == item.event;
                assert(events[j] == item.event);
            } else {
                assert(events[events.len() - 1] == item.event);
            }
        }
    }
}

/// The item that an event becomes: none where it names no group, or one
/// that the catalog does not hold.
pub open spec fn work_item(catalog: Catalog, event: RelayEventView) -> Option<WorkItemView> {
    match group_tag_spec(event.tags) {
        Some(tag) => if has_nostr_id(catalog, tag) {
            Some(WorkItemView { group_index: index_of_nostr_id(catalog, tag), event })
        } else {
            None
        },
        None => None,
    }
}

/// Whether an event names a group that the catalog does not hold.
pub open spec fn is_stray(catalog: Catalog, event: RelayEventView) -> bool {
    group_tag_spec(event.tags) matches Some(tag) && !has_nostr_id(catalog, tag)
}

/// The items of a list of events, in the order of the events.
pub open spec fn work_items(catalog: Catalog, events: Seq<RelayEventView>) -> Seq<WorkItemView>
    decreases events.len(),
{
    if events.len() == 0 {
        Seq::empty()
    } else {
        let rest = work_items(catalog, events.drop_last());
        match work_item(catalog, events.last()) {
            Some(item) => rest.push(item),
            None => rest,
        }
    }
}

/// Where the group with the overlay's id `id` stands among `groups`.
fn position_of(groups: &Vec<Group>, id: &String) -> (found: Option<usize>)
    requires
        catalog_wf(groups.deep_view()),
    ensures
        found is Some <==> has_nostr_id(groups.deep_view(), id@),
        found matches Some(i) ==> i == index_of_nostr_id(groups.deep_view(), id@) && i < groups.len(),
{
    let mut i: usize = 0;
    while i < groups.len()
        invariant
            i <= groups.len(),
            groups.deep_view().len() == groups.len(),
            catalog_wf(groups.deep_view()),
            forall|j: int| 0 <= j < i ==> (#[trigger] groups.deep_view()[j]).nostr_group_id != id@,
        decreases groups.len() - i,
    {
        if groups[i].nostr_group_id == *id {
            assert(groups.deep_view()[i as int].nostr_group_id == id@);
            return Some(i);
        }
        i += 1;
    }
    None
}

/// Gives each event the place of its group. Events that name no group are
/// left out; one that names an unknown group fails the whole list.
pub fn resolve(groups: &Vec<Group>, events: &Vec<RelayEvent>) -> (result: Result<Vec<WorkItem>, Error>)
    requires
        catalog_wf(groups.deep_view()),
    ensures
        result is Err <==> exists|i: int|
            0 <= i < events.len() && is_stray(groups.deep_view(), #[trigger] events.deep_view()[i]),
        result matches Err(e) ==> e == Error::NotFound,
        result matches Ok(items) ==> items.deep_view() == work_items(
            groups.deep_view(),
            events.deep_view(),
        ),
{
    let ghost catalog = groups.deep_view();
    let ghost all = events.deep_view();
    let mut items: Vec<WorkItem> = Vec::new();
    let mut i: usize = 0;
    assert(all.take(0) =~= Seq::<RelayEventView>::empty());
    assert(items.deep_view() =~= Seq::<WorkItemView>::empty());
    while i < events.len()
        invariant
            i <= events.len(),
            all == events.deep_view(),
            catalog == groups.deep_view(),
            catalog_wf(catalog),
            items.deep_view() == work_items(catalog, all.take(i as int)),
            forall|j: int| 0 <= j < i ==> !is_stray(catalog, #[trigger] all[j]),
        decreases events.len() - i,
    {
        let event = &events[i];
        proof {
            assert(all.take(i + 1).drop_last() =~= all.take(i as int));
            assert(all.take(i + 1).last() == all[i as int]);
            assert(all[i as int] == event@);
        }
        match group_tag(&event.tags) {
            None => {},
            Some(tag) => match position_of(groups, &tag) {
                None => {
                    assert(is_stray(catalog, all[i as int]));
                    return Err(Error::NotFound);
                },
                Some(index) => {
                    let ghost before = items.deep_view();
                    let item = WorkItem { group_index: index, event: event.duplicate() };
                    items.push(item);
                    assert(items.deep_view() =~= before.push(
                        WorkItemView { group_index: index as int, event: event@ },
                    ));
                },
            },
        }
        i += 1;
    }
    assert(all.take(i as int) =~= all);
    Ok(items)
}

} // verus!
