use view_state::navigation::NavigationState;
use view_state::page::Pages;

fn collection(id: &str) -> Pages {
    Pages::CollectionPage(id.to_string())
}

#[test]
fn starts_on_the_main_page() {
    let state = NavigationState::new();
    assert_eq!(*state.current(), Pages::MainPage);
    assert!(state.previous().is_none());
}

#[test]
fn activation_shows_the_page_and_remembers_the_one_before() {
    let mut state = NavigationState::new();
    state.activate(Pages::Explore);
    assert_eq!(*state.current(), Pages::Explore);
    assert_eq!(state.previous(), Some(&Pages::MainPage));
    state.activate(collection("alpha"));
    assert_eq!(*state.current(), collection("alpha"));
    assert_eq!(state.previous(), Some(&Pages::Explore));
}

#[test]
fn every_call_of_a_sequence_updates_current_and_previous() {
    let sequence = vec![
        Pages::Collections,
        Pages::Collections,
        collection("a"),
        collection("b"),
        collection("b"),
        Pages::MainPage,
        Pages::DownloadProgress,
    ];
    let mut state = NavigationState::new();
    for page in sequence {
        let current_before = state.current().clone();
        let previous_before = state.previous().cloned();
        state.activate(page.clone());
        assert_eq!(*state.current(), page);
        if page == current_before {
            assert_eq!(state.previous().cloned(), previous_before);
        } else {
            assert_eq!(state.previous(), Some(&current_before));
        }
    }
}

#[test]
fn activating_the_shown_page_changes_nothing() {
    let mut state = NavigationState::new();
    state.activate(Pages::MainPage);
    assert_eq!(*state.current(), Pages::MainPage);
    assert!(state.previous().is_none());
}

#[test]
fn activating_twice_is_activating_once() {
    let mut once = NavigationState::new();
    once.activate(Pages::Explore);
    let mut twice = NavigationState::new();
    twice.activate(Pages::Explore);
    twice.activate(Pages::Explore);
    assert_eq!(twice.current(), once.current());
    assert_eq!(twice.previous(), once.previous());
    assert_eq!(twice.previous(), Some(&Pages::MainPage));
}

#[test]
fn back_and_forth() {
    let mut state = NavigationState::new();
    state.activate(Pages::Collections);
    assert_eq!(*state.current(), Pages::Collections);
    assert_eq!(state.previous(), Some(&Pages::MainPage));
    state.activate(Pages::MainPage);
    assert_eq!(*state.current(), Pages::MainPage);
    assert_eq!(state.previous(), Some(&Pages::Collections));
}

#[test]
fn history_holds_one_page_only() {
    let mut state = NavigationState::new();
    state.activate(Pages::Explore);
    state.activate(Pages::Collections);
    state.activate(Pages::DownloadProgress);
    assert_eq!(state.previous(), Some(&Pages::Collections));
    assert!(state.go_back());
    assert_eq!(*state.current(), Pages::Collections);
    assert_eq!(state.previous(), Some(&Pages::DownloadProgress));
}

#[test]
fn going_back_swaps_current_and_previous() {
    let mut state = NavigationState::new();
    state.activate(collection("alpha"));
    assert!(state.go_back());
    assert_eq!(*state.current(), Pages::MainPage);
    assert_eq!(state.previous(), Some(&collection("alpha")));
    assert!(state.go_back());
    assert_eq!(*state.current(), collection("alpha"));
    assert_eq!(state.previous(), Some(&Pages::MainPage));
}

#[test]
fn going_back_without_history_does_nothing() {
    let mut state = NavigationState::new();
    assert!(!state.go_back());
    assert_eq!(*state.current(), Pages::MainPage);
    assert!(state.previous().is_none());
}

#[test]
fn only_the_shown_page_is_active() {
    let mut state = NavigationState::new();
    assert!(state.is_active(&Pages::MainPage));
    assert!(!state.is_active(&Pages::Explore));
    state.activate(collection("alpha"));
    assert!(state.is_active(&collection("alpha")));
    assert!(!state.is_active(&collection("beta")));
    assert!(!state.is_active(&Pages::MainPage));
}

#[test]
fn markers_are_the_canonical_texts() {
    let mut state = NavigationState::new();
    assert_eq!(state.selected_marker(), "main-page");
    assert_eq!(state.previous_marker(), "");
    state.activate(Pages::DownloadProgress);
    assert_eq!(state.selected_marker(), "progress");
    assert_eq!(state.previous_marker(), "main-page");
    state.activate(collection("alpha"));
    assert_eq!(state.selected_marker(), collection("alpha").to_string());
    assert_eq!(state.previous_marker(), "progress");
}
