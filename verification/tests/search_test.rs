use ytm_rs::response_types::{YTIEKey, YTSearchEntry};
use ytm_rs::search_window::{SWMessage, SearchEntry, SearchType, SearchWindow};
use ytm_rs::user_input::SelectionMode;

fn entry(id: &str, kind: YTIEKey) -> YTSearchEntry {
    YTSearchEntry { id: id.to_string(), title: Some(format!("title {id}")), ie_key: kind, url: format!("u/{id}") }
}

fn keys(v: Vec<&String>) -> Vec<String> {
    v.into_iter().cloned().collect()
}

#[test]
fn search_entry_kinds() {
    assert!(matches!(SearchEntry::new(entry("a", YTIEKey::Youtube)),
        Ok(SearchEntry::Song { id, title: Some(t), url }) if id == "a" && t == "title a" && url == "u/a"));
    assert!(matches!(SearchEntry::new(entry("b", YTIEKey::YoutubeTab)), Ok(SearchEntry::Tab { id, .. }) if id == "b"));
    assert!(SearchEntry::new(entry("c", YTIEKey::YoutubeMusicSearchURL)).is_err());
}

#[test]
fn tab_keys() {
    let tab = SearchType::new_tab(vec!["a".to_string(), "b".to_string(), "c".to_string()]);
    assert_eq!(keys(tab.used_keys()), vec!["a", "b", "c"]);
    assert!(tab.selected_keys().is_none());

    let tab = SearchType::Tab(vec!["a".to_string(), "b".to_string()], SelectionMode::Single(1));
    assert_eq!(keys(tab.selected_keys().unwrap()), vec!["b"]);
    let tab = SearchType::Tab(vec!["a".to_string(), "b".to_string()], SelectionMode::Single(2));
    assert!(tab.selected_keys().is_none());
    let tab = SearchType::Tab(vec!["a".to_string(), "b".to_string(), "c".to_string()], SelectionMode::Multiple(vec![2, 9, 0]));
    assert_eq!(keys(tab.selected_keys().unwrap()), vec!["c", "a"]);
    let tab = SearchType::Tab(vec!["a".to_string(), "b".to_string(), "c".to_string()], SelectionMode::Range { first: 2, r: 1..=4 });
    assert_eq!(keys(tab.selected_keys().unwrap()), vec!["b", "c"]);
}

#[test]
fn song_and_search_keys() {
    let s = SearchType::Song("x".to_string());
    assert_eq!(keys(s.used_keys()), vec!["x"]);
    assert_eq!(keys(s.selected_keys().unwrap()), vec!["x"]);

    let results = SearchType::Search(vec![
        SearchEntry::Song { id: "a".to_string(), title: None, url: String::new() },
        SearchEntry::Tab { id: "t".to_string(), title: None, url: String::new() },
        SearchEntry::Song { id: "b".to_string(), title: None, url: String::new() },
    ]);
    assert_eq!(keys(results.used_keys()), vec!["a", "b"]);
    assert!(results.selected_keys().is_none());
}

#[test]
fn search_results_are_shown_with_their_song_keys_once() {
    let mut w = SearchWindow::default();
    w.query = "q".to_string();
    let found = w.show_search_results(vec![
        entry("a", YTIEKey::Youtube),
        entry("t", YTIEKey::YoutubeTab),
        entry("a", YTIEKey::Youtube),
        entry("b", YTIEKey::Youtube),
    ]);
    assert_eq!(found, vec!["a".to_string(), "b".to_string()]);
    assert_eq!(w.query, "q");
    match &w.search_type {
        SearchType::Search(v) => {
            assert_eq!(v.len(), 4);
            assert!(matches!(&v[1], SearchEntry::Tab { id, .. } if id == "t"));
        },
        other => panic!("unexpected {:?}", other),
    }
    assert_eq!(keys(w.used_keys()), vec!["a", "a", "b"]);
}

#[test]
fn window_messages() {
    let mut w = SearchWindow::default();
    assert!(w.query.is_empty());
    w.update(SWMessage::SearchQueryChanged("hello".to_string()), false, false);
    assert_eq!(w.query, "hello");
    w.update(SWMessage::SearchQuerySubmitted, false, false);
    assert_eq!(w.query, "hello");

    w.search_type = SearchType::new_tab(vec!["a".to_string(), "b".to_string(), "c".to_string(), "d".to_string()]);
    w.update(SWMessage::SimpleSelectSong(1), false, false);
    assert_eq!(keys(w.selected_keys().unwrap()), vec!["b"]);
    w.update(SWMessage::SelectSong(3), true, false);
    assert_eq!(keys(w.selected_keys().unwrap()), vec!["b", "c", "d"]);
    // a simple click leaves a span alone
    w.update(SWMessage::SimpleSelectSong(0), false, false);
    assert_eq!(keys(w.selected_keys().unwrap()), vec!["b", "c", "d"]);
    w.update(SWMessage::SelectSong(2), false, true);
    assert_eq!(keys(w.selected_keys().unwrap()), vec!["b", "d"]);
}

#[test]
fn exhausted_span_selects_no_keys() {
    let mut r = 0..=1;
    for _ in r.by_ref() {}
    let tab = SearchType::Tab(vec!["a".to_string(), "b".to_string()], SelectionMode::Range { first: 0, r });
    assert_eq!(tab.selected_keys().map(keys), Some(vec![]));
    let tab = SearchType::Tab(vec!["a".to_string(), "b".to_string()], SelectionMode::Range { first: 0, r: 0..=1 });
    assert_eq!(tab.selected_keys().map(keys), Some(vec!["a".to_string(), "b".to_string()]));
}
