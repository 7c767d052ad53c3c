//! One render of the layout: which pages have a sliding container, how the
//! transition group is put together from the navigation state, and the pass
//! that reconciles every container with it.

use crate::collection::{snapshot_view, Collection, CollectionView};
use crate::navigation::{Navigation, NavigationState};
use crate::page::{
    canonical_text, lemma_canonical_text_nonempty, lemma_slide_in_text_separates, slide_in_text,
    PageId, Pages,
};
use crate::transition::{
    lemma_first_element_unique, style_of, ElementView, GroupView, MissingElement, PageElement,
    Transition, TransitionGroup,
};
use vstd::prelude::*;

verus! {

/// A list of pages as a mathematical value.
pub open spec fn pages_view(pages: Seq<Pages>) -> Seq<PageId> {
    pages.map_values(|p: Pages| p@)
}

/// The pages that have a sliding container in the layout: the page of each
/// collection, in the order of the list, and then the download progress.
pub open spec fn layout_pages(collections: Seq<CollectionView>) -> Seq<PageId> {
    collections.map_values(|c: CollectionView| PageId::CollectionPage(c.id)).push(
        PageId::DownloadProgress,
    )
}

/// The container of a page before any reconciliation: tagged for the page
/// and dormant.
pub open spec fn fresh_element(page: PageId) -> ElementView {
    ElementView { id: slide_in_text(page), style: style_of(Transition::Dormant) }
}

/// The transition group as the layout renders it: the markers say which
/// page the state shows and which one it showed before, and every page of
/// `pages` has its container.
pub open spec fn rendered_group(state: Navigation, pages: Seq<PageId>) -> GroupView {
    GroupView {
        selected: state.selected_marker(),
        previous: state.previous_marker(),
        elements: pages.map_values(|p: PageId| fresh_element(p)),
    }
}

impl GroupView {
    /// Whether every page of `pages` has a container in the group.
    pub open spec fn holds_all(self, pages: Seq<PageId>) -> bool {
        forall|i: int| 0 <= i < pages.len() ==> self.has_element(slide_in_text(#[trigger] pages[i]))
    }

    /// Whether `pages[k]` is the first page of `pages` without a container
    /// in the group.
    pub open spec fn is_first_missing(self, pages: Seq<PageId>, k: int) -> bool {
        &&& 0 <= k < pages.len()
        &&& !self.has_element(slide_in_text(pages[k]))
        &&& forall|i: int| 0 <= i < k ==> self.has_element(slide_in_text(#[trigger] pages[i]))
    }

    /// The group after the containers of `pages` are reconciled one after
    /// another.
    pub open spec fn reconciled_all(self, pages: Seq<PageId>) -> GroupView
        decreases pages.len(),
    {
        if pages.len() == 0 {
            self
        } else {
            self.reconciled_all(pages.drop_last()).reconciled(pages.last())
        }
    }
}

/// Reconciling a container changes styles only: the markers, the number of
/// elements and their tags stay, and so does which tags the group holds.
pub proof fn lemma_reconciled_keeps_tags(group: GroupView, page: PageId)
    ensures
        group.reconciled(page).selected == group.selected,
        group.reconciled(page).previous == group.previous,
        group.reconciled(page).elements.len() == group.elements.len(),
        forall|i: int|
            0 <= i < group.elements.len() ==> (#[trigger] group.reconciled(page).elements[i]).id
                == group.elements[i].id,
        forall|id: Seq<char>| group.reconciled(page).has_element(id) == group.has_element(id),
{
    let after = group.reconciled(page);
    let tag = slide_in_text(page);
    if group.has_element(tag) {
        let k = choose|i: int| 0 <= i < group.elements.len() && #[trigger] group.elements[i].id == tag;
        lemma_has_first(group, tag, k);
        let first = group.element_index(tag);
        assert(group.is_first_element(tag, first));
        assert forall|i: int| 0 <= i < group.elements.len() implies (#[trigger] after.elements[i]).id
            == group.elements[i].id by {}
    }
    assert forall|id: Seq<char>| after.has_element(id) == group.has_element(id) by {
        if group.has_element(id) {
            let i = choose|i: int| 0 <= i < group.elements.len() && #[trigger] group.elements[i].id == id;
            assert(after.elements[i].id == id);
        }
        if after.has_element(id) {
            let i = choose|i: int| 0 <= i < after.elements.len() && #[trigger] after.elements[i].id == id;
            assert(group.elements[i].id == id);
        }
    }
}

/// A group that holds a tag holds a first element with it.
pub proof fn lemma_has_first(group: GroupView, id: Seq<char>, k: int)
    requires
        0 <= k < group.elements.len(),
        group.elements[k].id == id,
    ensures
        exists|i: int| group.is_first_element(id, i),
        group.is_first_element(id, group.element_index(id)),
        group.element_index(id) <= k,
    decreases k,
{
    if exists|j: int| 0 <= j < k && #[trigger] group.elements[j].id == id {
        let j = choose|j: int| 0 <= j < k && #[trigger] group.elements[j].id == id;
        lemma_has_first(group, id, j);
    } else {
        assert(group.is_first_element(id, k));
    }
    let first = group.element_index(id);
    if first > k {
        assert(group.elements[k].id != id);
    }
}

/// The pages that have a sliding container in the layout.
pub fn sliding_pages(collections: &Vec<Collection>) -> (pages: Vec<Pages>)
    ensures
        pages_view(pages@) == layout_pages(snapshot_view(collections@)),
{
    let mut pages: Vec<Pages> = Vec::new();
    let mut i: usize = 0;
    while i < collections.len()
        invariant
            i <= collections.len(),
            pages@.len() == i,
            forall|j: int|
                0 <= j < i ==> (#[trigger] pages@[j])@ == PageId::CollectionPage(
                    collections@[j]@.id,
                ),
        decreases collections.len() - i,
    {
        pages.push(Pages::new_collection_page(collections[i].get_collection_id()));
        i += 1;
    }
    pages.push(Pages::DownloadProgress);
    assert(pages_view(pages@) =~= layout_pages(snapshot_view(collections@)));
    pages
}

impl TransitionGroup {
    /// Puts the transition group together as the layout renders it.
    pub fn render(state: &NavigationState, pages: &Vec<Pages>) -> (group: TransitionGroup)
        ensures
            group@ == rendered_group(state@, pages_view(pages@)),
    {
        let mut elements: Vec<PageElement> = Vec::new();
        let mut i: usize = 0;
        while i < pages.len()
            invariant
                i <= pages.len(),
                elements@.len() == i,
                forall|j: int| 0 <= j < i ==> (#[trigger] elements@[j])@ == fresh_element(pages@[j]@),
            decreases pages.len() - i,
        {
            elements.push(
                PageElement { id: pages[i].slide_in_id(), style: Transition::Dormant.style() },
            );
            i += 1;
        }
        let group = TransitionGroup {
            selected: state.selected_marker(),
            previous: state.previous_marker(),
            elements,
        };
        assert(group@.elements =~= rendered_group(state@, pages_view(pages@)).elements);
        group
    }
}

/// Reconciles the containers of `pages` one after another, and stops at the
/// first page whose container is missing from the group.
pub fn reconcile_pages(pages: &Vec<Pages>, group: &mut TransitionGroup) -> (result: Result<
    (),
    MissingElement,
>)
    ensures
        result is Ok <==> old(group)@.holds_all(pages_view(pages@)),
        result is Ok ==> final(group)@ == old(group)@.reconciled_all(pages_view(pages@)),
        result matches Err(missing) ==> exists|k: int|
            {
                &&& #[trigger] old(group)@.is_first_missing(pages_view(pages@), k)
                &&& missing.id@ == slide_in_text(pages@[k]@)
                &&& final(group)@ == old(group)@.reconciled_all(pages_view(pages@).take(k))
            },
{
    let ghost all = pages_view(pages@);
    let mut i: usize = 0;
    assert(all.take(0) =~= Seq::<PageId>::empty());
    while i < pages.len()
        invariant
            i <= pages.len(),
            all == pages_view(pages@),
            group@ == old(group)@.reconciled_all(all.take(i as int)),
            forall|id: Seq<char>| group@.has_element(id) == old(group)@.has_element(id),
            forall|j: int| 0 <= j < i ==> old(group)@.has_element(slide_in_text(#[trigger] all[j])),
        decreases pages.len() - i,
    {
        let ghost before = group@;
        proof {
            lemma_reconciled_keeps_tags(before, all[i as int]);
            assert(all.take(i + 1).drop_last() =~= all.take(i as int));
            assert(all.take(i + 1).last() == all[i as int]);
        }
        match pages[i].apply_slide_in(group) {
            Ok(_) => {},
            Err(missing) => {
                assert(old(group)@.is_first_missing(all, i as int));
                return Err(missing);
            },
        }
        i += 1;
    }
    assert(all.take(i as int) =~= all);
    Ok(())
}

/// Renders the transition group of the layout and reconciles the container
/// of every page in it: the page of each collection, then the download
/// progress. The layout tags a container for each of these pages, so none
/// is ever missing.
pub fn reconcile_layout(state: &NavigationState, collections: &Vec<Collection>) -> (group:
    TransitionGroup)
    ensures
        ({
            let pages = layout_pages(snapshot_view(collections@));
            group@ == rendered_group(state@, pages).reconciled_all(pages)
        }),
{
    let pages = sliding_pages(collections);
    let mut group = TransitionGroup::render(state, &pages);
    proof {
        lemma_rendered_holds_all(state@, pages_view(pages@));
    }
    let _ = reconcile_pages(&pages, &mut group);
    group
}

/// The rendered group holds a container for each of its pages.
pub proof fn lemma_rendered_holds_all(state: Navigation, pages: Seq<PageId>)
    ensures
        rendered_group(state, pages).holds_all(pages),
{
    let group = rendered_group(state, pages);
    assert forall|i: int| 0 <= i < pages.len() implies group.has_element(
        slide_in_text(#[trigger] pages[i]),
    ) by {
        assert(group.elements[i].id == slide_in_text(pages[i]));
    }
}

/// Whether no two pages of `pages` have the same canonical text.
pub open spec fn distinct_texts(pages: Seq<PageId>) -> bool {
    forall|i: int, j: int|
        0 <= i < j < pages.len() ==> canonical_text(#[trigger] pages[i]) != canonical_text(
            #[trigger] pages[j],
        )
}

/// At most one page is flagged as selected and at most one as previous:
/// two pages with the same flag have the same canonical text. While the
/// state has no previous page, no page is flagged as previous.
pub proof fn lemma_flags_single(state: Navigation, pages: Seq<PageId>, a: PageId, b: PageId)
    ensures
        ({
            let group = rendered_group(state, pages);
            &&& group.flags_selected(a) <==> canonical_text(a) == canonical_text(state.current)
            &&& group.flags_selected(a) && group.flags_selected(b) ==> canonical_text(a)
                == canonical_text(b)
            &&& group.flags_previous(a) && group.flags_previous(b) ==> canonical_text(a)
                == canonical_text(b)
            &&& group.flags_previous(a) <==> state.previous is Some && canonical_text(a)
                == canonical_text(state.previous->0)
        }),
{
    lemma_canonical_text_nonempty(a);
}

/// What a pass leaves on each container. Where no two pages have the same
/// canonical text, the container of every page that the pass has reached
/// carries the style of that page's transition, and the others are as the
/// layout rendered them.
pub proof fn lemma_pass_styles(state: Navigation, pages: Seq<PageId>, k: int)
    requires
        distinct_texts(pages),
        0 <= k <= pages.len(),
    ensures
        ({
            let group = rendered_group(state, pages);
            let after = group.reconciled_all(pages.take(k));
            &&& after.selected == group.selected
            &&& after.previous == group.previous
            &&& after.elements.len() == pages.len()
            &&& forall|i: int|
                0 <= i < pages.len() ==> #[trigger] after.elements[i] == (ElementView {
                    id: slide_in_text(pages[i]),
                    style: if i < k {
                        style_of(group.transition(pages[i]))
                    } else {
                        style_of(Transition::Dormant)
                    },
                })
        }),
    decreases k,
{
    let group = rendered_group(state, pages);
    if k == 0 {
        assert(pages.take(0) =~= Seq::<PageId>::empty());
    } else {
        lemma_pass_styles(state, pages, k - 1);
        let before = group.reconciled_all(pages.take(k - 1));
        let page = pages[k - 1];
        let tag = slide_in_text(page);
        assert(pages.take(k).drop_last() =~= pages.take(k - 1));
        assert(pages.take(k).last() == page);
        assert(before.is_first_element(tag, k - 1)) by {
            assert(before.elements[k - 1].id == tag);
            assert forall|j: int| 0 <= j < k - 1 implies #[trigger] before.elements[j].id != tag by {
                assert(before.elements[j].id == slide_in_text(pages[j]));
                if slide_in_text(pages[j]) == tag {
                    lemma_slide_in_text_separates(pages[j], page);
                }
            }
        }
        lemma_first_element_unique(before, tag, k - 1);
        assert(before.transition(page) == group.transition(page));
    }
}

/// After a full pass over pages of which no two have the same canonical
/// text, at most one container slides in and at most one slides out. The
/// one that slides in belongs to the page that is shown, the one that
/// slides out to the page that was shown before it.
pub proof fn lemma_pass_exclusive(state: Navigation, pages: Seq<PageId>, i: int, j: int)
    requires
        distinct_texts(pages),
        0 <= i < pages.len(),
        0 <= j < pages.len(),
    ensures
        ({
            let after = rendered_group(state, pages).reconciled_all(pages);
            let slide_in = style_of(Transition::SlideIn);
            let slide_out = style_of(Transition::SlideOut);
            &&& after.elements[i].style == slide_in && after.elements[j].style == slide_in ==> i
                == j
            &&& after.elements[i].style == slide_out && after.elements[j].style == slide_out
                ==> i == j
            &&& after.elements[i].style == slide_in ==> canonical_text(pages[i])
                == canonical_text(state.current)
            &&& after.elements[i].style == slide_out ==> state.previous is Some && canonical_text(
                pages[i],
            ) == canonical_text(state.previous->0)
        }),
{
    lemma_pass_styles(state, pages, pages.len() as int);
    assert(pages.take(pages.len() as int) =~= pages);
    lemma_flags_single(state, pages, pages[i], pages[j]);
    lemma_flags_single(state, pages, pages[j], pages[i]);
    let after = rendered_group(state, pages).reconciled_all(pages);
    assert(after.elements[i].style == style_of(rendered_group(state, pages).transition(pages[i])));
    assert(after.elements[j].style == style_of(rendered_group(state, pages).transition(pages[j])));
}

} // verus!
