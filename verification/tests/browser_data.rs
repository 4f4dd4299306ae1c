use spotlight::browser::chromium::{
    chromium_browsers, chromium_profiles, load_bookmarks_json, load_entries as chromium_entries, load_history,
    walk_bookmark_node, BookmarkNode, BookmarkRoots, ChromiumProfile,
};
use spotlight::browser::firefox::{
    bookmark_entry, history_entry, load_entries as firefox_entries, profile_paths, BookmarkRow, ProfilePlaces,
};
use spotlight::browser::{
    browser_icon_candidates, browser_icon_name, history_limit, known_browsers, make_entry, url_domain, BrowserEntryKind,
    BrowserIcon, BrowserIndex, HistoryRow,
};
use spotlight::search::ranking::HistoryStats;
use spotlight::search::types::ResultKind;

fn url_node(name: &str, url: &str) -> BookmarkNode {
    BookmarkNode {
        node_type: Some("url".to_string()),
        name: Some(name.to_string()),
        url: Some(url.to_string()),
        children: Vec::new(),
    }
}

fn folder(children: Vec<BookmarkNode>) -> BookmarkNode {
    BookmarkNode { node_type: Some("folder".to_string()), name: Some("f".to_string()), url: None, children }
}

fn hrow(id: i64, title: &str, url: &str, visits: i64) -> HistoryRow {
    HistoryRow { id, title: title.to_string(), url: url.to_string(), visit_count: visits }
}

#[test]
fn domains_of_urls() {
    assert_eq!(url_domain("https://www.rust-lang.org/learn"), "www.rust-lang.org");
    assert_eq!(url_domain("example.com/path"), "example.com");
    assert_eq!(url_domain("file:///etc/hosts"), "");
    assert_eq!(url_domain("https://a.b"), "a.b");
}

#[test]
fn entries_carry_search_text() {
    let e = make_entry(
        "browser:x:1".to_string(),
        BrowserEntryKind::History,
        "Rust Docs".to_string(),
        "https://doc.rust-lang.org/std".to_string(),
        "Chrome".to_string(),
        7,
    );
    assert_eq!(e.domain(), "doc.rust-lang.org");
    assert_eq!(e.title(), "Rust Docs");
    assert_eq!(e.url(), "https://doc.rust-lang.org/std");
    assert_eq!(e.source(), "Chrome");
}

#[test]
fn firefox_profiles_ini_names_directories() {
    let ini = "[General]\nStartWithLastProfile=1\n\n[Profile0]\nName=default\nIsRelative=1\nPath=abc.default\n\n[Profile1]\nName=other\nPath= /opt/ff/xyz \nPath=/opt/ff/last\n\n[Install4F96]\nDefault=abc\n";
    let dirs = profile_paths(ini, "/home/u/.mozilla/firefox");
    assert_eq!(dirs, vec![
        "/home/u/.mozilla/firefox/abc.default".to_string(),
        "/opt/ff/last".to_string(),
    ]);
    assert!(profile_paths("", "/x").is_empty());
}

#[test]
fn firefox_rows_become_entries() {
    let b = bookmark_entry(&BookmarkRow { id: 12, title: "Docs".to_string(), url: "https://docs.rs/".to_string() });
    assert_eq!(b.id, "bookmark:firefox:12");
    assert_eq!(b.kind, BrowserEntryKind::Bookmark);
    assert_eq!(b.source, "Firefox");
    assert_eq!(b.visit_count, 0);
    let h = history_entry(&hrow(-3, "Home", "https://example.com/", 4));
    assert_eq!(h.id, "browser:firefox:-3");
    assert_eq!(h.visit_count, 4);
    let all = firefox_entries(vec![
        ProfilePlaces {
            bookmarks: vec![BookmarkRow { id: 1, title: "a".to_string(), url: "u1".to_string() }],
            history: vec![hrow(2, "b", "u2", 1)],
        },
        ProfilePlaces { bookmarks: vec![], history: vec![hrow(3, "c", "u3", 9)] },
    ]);
    let ids: Vec<&str> = all.iter().map(|e| e.id.as_str()).collect();
    assert_eq!(ids, vec!["bookmark:firefox:1", "browser:firefox:2", "browser:firefox:3"]);
}

#[test]
fn chromium_profiles_sorted_without_repeats() {
    let p = chromium_profiles(
        "/home/u/.config/chromium",
        true,
        vec!["Profile 2".to_string(), "Crashpad".to_string(), "Default".to_string(), "Profile 1".to_string()],
    );
    assert_eq!(p, vec![
        "/home/u/.config/chromium".to_string(),
        "/home/u/.config/chromium/Default".to_string(),
        "/home/u/.config/chromium/Profile 1".to_string(),
        "/home/u/.config/chromium/Profile 2".to_string(),
    ]);
    let q = chromium_profiles("/b", false, vec!["Default".to_string(), "Default".to_string()]);
    assert_eq!(q, vec!["/b/Default".to_string()]);
    assert_eq!(chromium_browsers().len(), 5);
    assert_eq!(chromium_browsers()[2], ("Brave", ".config/BraveSoftware/Brave-Browser"));
}

#[test]
fn bookmark_tree_walked_depth_first() {
    let tree = folder(vec![
        url_node("One", "https://one.example/"),
        folder(vec![url_node("", "https://two.example/"), url_node("Skip", "")]),
        url_node("Three", "https://three.example/"),
    ]);
    let mut out = Vec::new();
    walk_bookmark_node(&tree, "Brave", &mut out);
    let titles: Vec<&str> = out.iter().map(|e| e.title.as_str()).collect();
    assert_eq!(titles, vec!["One", "https://two.example/", "Three"]);
    assert!(out[0].id.starts_with("bookmark:Brave:"));
    assert_ne!(out[0].id, out[1].id);
    assert!(out.iter().all(|e| e.kind == BrowserEntryKind::Bookmark && e.source == "Brave"));
    let roots = BookmarkRoots {
        bookmark_bar: Some(url_node("Bar", "https://bar.example/")),
        other: None,
        synced: Some(tree),
    };
    let all = load_bookmarks_json(&roots, "Chrome");
    assert_eq!(all.len(), 4);
    assert_eq!(all[0].title, "Bar");
}

#[test]
fn chromium_history_and_profiles() {
    let h = load_history(&vec![hrow(5, "T", "https://t.example/", 3)], "Edge");
    assert_eq!(h[0].id, "browser:Edge:5");
    assert_eq!(h[0].kind, BrowserEntryKind::History);
    let all = chromium_entries(vec![
        ChromiumProfile {
            browser: "Chrome".to_string(),
            history: Some(vec![hrow(1, "a", "https://a.example/", 1)]),
            bookmarks: Some(BookmarkRoots { bookmark_bar: Some(url_node("b", "https://b.example/")), other: None, synced: None }),
        },
        ChromiumProfile { browser: "Vivaldi".to_string(), history: None, bookmarks: None },
    ]);
    assert_eq!(all.len(), 2);
    assert_eq!(all[0].id, "browser:Chrome:1");
    assert_eq!(all[1].kind, BrowserEntryKind::Bookmark);
    assert_eq!(history_limit(), 500);
}

#[test]
fn index_search_splits_bookmarks_and_history() {
    let mut idx = BrowserIndex::new(vec![BrowserIcon { source: "Firefox".to_string(), path: Some("/icons/ff.svg".to_string()) }]);
    idx.replace(vec![
        make_entry("bookmark:firefox:1".to_string(), BrowserEntryKind::Bookmark, "Rust Book".to_string(), "https://doc.rust-lang.org/book".to_string(), "Firefox".to_string(), 0),
        make_entry("browser:firefox:2".to_string(), BrowserEntryKind::History, "Rust Blog".to_string(), "https://blog.rust-lang.org/".to_string(), "Firefox".to_string(), 40),
        make_entry("browser:firefox:3".to_string(), BrowserEntryKind::History, "Rust Blog".to_string(), "https://blog.rust-lang.org/".to_string(), "Firefox".to_string(), 10),
        make_entry("browser:firefox:4".to_string(), BrowserEntryKind::History, "Cooking".to_string(), "https://food.example/".to_string(), "Firefox".to_string(), 99),
    ]);
    let h = HistoryStats { entries: Vec::new() };
    let (bookmarks, history) = idx.search("rust", &h, 5, 5);
    assert_eq!(bookmarks.len(), 1);
    assert_eq!(bookmarks[0].kind, ResultKind::Bookmark);
    assert_eq!(bookmarks[0].subtitle.as_deref(), Some("Firefox · doc.rust-lang.org"));
    assert_eq!(bookmarks[0].icon.as_deref(), Some("/icons/ff.svg"));
    assert_eq!(history.len(), 1);
    assert_eq!(history[0].id, "browser:firefox:2");
    assert_eq!(history[0].kind, ResultKind::Browser);
    assert_eq!(idx.get_url("browser:firefox:4").as_deref(), Some("https://food.example/"));
    assert!(idx.get_url("browser:firefox:3").is_none());
    let (b2, h2) = idx.search("ru", &h, 5, 5);
    assert!(b2.is_empty() && h2.is_empty());
}

#[test]
fn browser_icons() {
    assert_eq!(browser_icon_name("Chrome"), "google-chrome");
    assert_eq!(browser_icon_name("Lynx"), "web-browser");
    assert_eq!(browser_icon_candidates("Brave")[1], "/usr/share/pixmaps/brave-browser.png");
    assert_eq!(known_browsers().len(), 6);
}
