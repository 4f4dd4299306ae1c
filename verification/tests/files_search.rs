use spotlight::files::{
    after_index, fd_args, fd_paths, file_icon, file_roots, file_search_roots, files_queried, index_entry, index_queried,
    is_image, merge_disk_results, preview_text, recent_result, search_index, should_skip, FileSearchStep, IndexedFile,
};
use spotlight::search::ranking::HistoryStats;
use spotlight::search::types::ResultKind;

fn h() -> HistoryStats {
    HistoryStats { entries: Vec::new() }
}

fn file(path: &str, name: &str, parent: &str) -> IndexedFile {
    IndexedFile { path: path.to_string(), name: name.to_string(), parent: parent.to_string() }
}

#[test]
fn index_asked_for_two_bytes_or_more() {
    assert!(index_queried(true, " ab "));
    assert!(!index_queried(true, " a "));
    assert!(!index_queried(false, "abc"));
    assert!(files_queried("abc"));
    assert!(!files_queried(" ab "));
}

#[test]
fn index_rows_matched_by_name() {
    let rows = vec![
        file("/d/report.pdf", "report.pdf", "/d"),
        file("/d/photo.png", "photo.png", "/d"),
        file("/e/rep.txt", "rep.txt", "/e"),
    ];
    let r = search_index(true, rows.clone(), "rep", &h(), 10);
    assert_eq!(r.len(), 2);
    assert!(r.iter().all(|x| x.kind == ResultKind::File));
    assert!(r.iter().any(|x| x.id == "file:/d/report.pdf"));
    assert_eq!(r.iter().find(|x| x.id == "file:/e/rep.txt").unwrap().subtitle.as_deref(), Some("/e"));
    assert!(r[0].score >= r[1].score);
    assert_eq!(search_index(true, rows.clone(), "rep", &h(), 1).len(), 1);
    assert!(search_index(false, rows.clone(), "rep", &h(), 10).is_empty());
    assert!(search_index(true, rows, "r", &h(), 10).is_empty());
}

#[test]
fn mime_types_by_extension() {
    assert!(is_image("/x/photo.PNG") || is_image("/x/photo.png"));
    assert!(is_image("/x/a.jpg"));
    assert!(!is_image("/x/a.txt"));
    assert!(!is_image("/x/noext"));
    assert_eq!(file_icon("/x/a.txt").as_deref(), Some("/x/a.txt"));
    assert_eq!(file_icon("/x/noext"), None);
}

#[test]
fn disk_search_only_when_index_falls_short() {
    let indexed = search_index(true, vec![file("/d/notes.md", "notes.md", "/d")], "notes", &h(), 5);
    match after_index("notes", indexed.clone(), 5) {
        FileSearchStep::SearchDisk { indexed: v, remaining } => {
            assert_eq!(v.len(), 1);
            assert_eq!(remaining, 4);
        }
        FileSearchStep::Done(_) => panic!("disk search expected"),
    }
    assert!(matches!(after_index("not", indexed.clone(), 5), FileSearchStep::Done(_)));
    assert!(matches!(after_index("notes", indexed.clone(), 1), FileSearchStep::Done(_)));
    let merged = merge_disk_results(
        "notes",
        indexed,
        4,
        vec!["/d/notes.md".to_string(), "/w/notes-old.md".to_string(), "/w/zzz.bin".to_string()],
        &h(),
    );
    let ids: Vec<&str> = merged.iter().map(|r| r.id.as_str()).collect();
    assert_eq!(ids, vec!["file:/d/notes.md", "file:/w/notes-old.md"]);
    assert_eq!(merged[1].subtitle.as_deref(), Some("/w"));
}

#[test]
fn fd_runs_and_output() {
    let args = fd_args("report", 7, "/home/u/Documents");
    assert_eq!(args, vec![
        "-i", "report", "--type", "f", "--max-results", "7", "--exclude", ".git", "--exclude", "node_modules",
        "--exclude", "target", "--exclude", ".cache", "/home/u/Documents",
    ]);
    assert_eq!(fd_paths(" /a/b.txt \n/c d/e\r\n"), vec!["/a/b.txt".to_string(), "/c d/e".to_string()]);
    assert!(fd_paths("").is_empty());
}

#[test]
fn previews_of_small_files() {
    assert_eq!(preview_text(10, "l1\nl2\nl3", 2).as_deref(), Some("l1\nl2"));
    assert_eq!(preview_text(512_000, "x", 40).as_deref(), Some("x"));
    assert_eq!(preview_text(512_001, "x", 40), None);
}

#[test]
fn skipped_paths_and_roots() {
    let ex = vec![".git".to_string(), "node_modules".to_string()];
    assert!(should_skip("/p/.git/config", &ex));
    assert!(!should_skip("/p/src/main.rs", &ex));
    assert_eq!(file_roots(&vec![], Some("/home/u".to_string())), vec![
        "/home/u/Documents".to_string(),
        "/home/u/Downloads".to_string(),
        "/home/u/Desktop".to_string(),
    ]);
    assert_eq!(file_roots(&vec!["/data".to_string()], Some("/home/u".to_string())), vec!["/data".to_string()]);
    assert!(file_roots(&vec![], None).is_empty());
    let roots = file_search_roots("/home/u/");
    assert_eq!(roots.len(), 8);
    assert_eq!(roots[7], "/home/u/Projetos");
}

#[test]
fn index_entries_and_recent_rows() {
    let f = index_entry("/home/u/doc.txt").unwrap();
    assert_eq!(f.name, "doc.txt");
    assert_eq!(f.parent, "/home/u");
    assert!(index_entry("/").is_none());
    let r = recent_result("setting:wifi".to_string(), "setting", "Wi-Fi".to_string(), String::new(), "icon".to_string());
    assert_eq!(r.kind, ResultKind::Setting);
    assert_eq!(r.subtitle, None);
    assert_eq!(r.icon.as_deref(), Some("icon"));
    assert_eq!(r.score, 2000);
    let a = recent_result("x".to_string(), "other", "X".to_string(), "sub".to_string(), String::new());
    assert_eq!(a.kind, ResultKind::App);
    assert_eq!(a.icon, None);
}
