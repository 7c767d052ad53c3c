use view_state::collection::Collection;
use view_state::layout::reconcile_pages;
use view_state::navigation::NavigationState;
use view_state::page::{CollectionId, Pages};
use view_state::sync::{CollectionSyncLoop, SyncAction, SyncEvent, DEFAULT_INTERVAL_MS};
use view_state::transition::{Transition, TransitionGroup};

fn collection(id: &str) -> Collection {
    Collection { id: CollectionId(id.to_string()), content: id.as_bytes().to_vec() }
}

#[test]
fn end_to_end() {
    let x = collection("X");
    let y = collection("Y");
    let z = collection("Z");
    let all = vec![x.clone(), y.clone(), z.clone()];

    let mut state = NavigationState::new();
    assert_eq!(*state.current(), Pages::MainPage);
    assert!(state.previous().is_none());
    let mut sync = CollectionSyncLoop::new(Some(all.clone()), DEFAULT_INTERVAL_MS);
    assert_eq!(*sync.collections(), all);

    let page_y = Pages::new_collection_page(y.get_collection_id());
    state.activate(page_y.clone());
    assert_eq!(*state.current(), page_y);
    assert_eq!(state.previous(), Some(&Pages::MainPage));

    let mut pages = vec![Pages::MainPage];
    for c in sync.collections() {
        pages.push(Pages::new_collection_page(c.get_collection_id()));
    }
    let mut group = TransitionGroup::render(&state, &pages);
    assert!(reconcile_pages(&pages, &mut group).is_ok());
    assert_eq!(group.elements[0].id, "flyinout-main-page");
    assert_eq!(group.elements[0].style, Transition::SlideOut.style());
    assert_eq!(group.elements[1].style, Transition::Dormant.style());
    assert_eq!(group.elements[2].id, page_y.slide_in_id());
    assert_eq!(group.elements[2].style, Transition::SlideIn.style());
    assert_eq!(group.elements[3].style, Transition::Dormant.style());

    assert_eq!(sync.step(SyncEvent::Wake), SyncAction::Read);
    sync.step(SyncEvent::Snapshot(all.clone()));
    assert_eq!(*sync.collections(), all);
    assert_eq!(sync.step(SyncEvent::Wake), SyncAction::Read);
    assert_eq!(sync.step(SyncEvent::Snapshot(all.clone())), SyncAction::Sleep(500));
    assert_eq!(*sync.collections(), all);

    let fewer = vec![x.clone(), y.clone()];
    assert_eq!(sync.step(SyncEvent::Wake), SyncAction::Read);
    assert_eq!(
        sync.step(SyncEvent::Snapshot(fewer.clone())),
        SyncAction::PublishThenSleep(500)
    );
    assert_eq!(*sync.collections(), fewer);
}
