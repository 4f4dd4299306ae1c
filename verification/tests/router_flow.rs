use spotlight::apps::{AppEntry, AppIndex};
use spotlight::browser::BrowserIndex;
use spotlight::contacts::{ContactEntry, ContactsIndex};
use spotlight::quicklinks::{default_entries, QuicklinksIndex};
use spotlight::scripts::ScriptsIndex;
use spotlight::search::ranking::HistoryStats;
use spotlight::search::router::{plan_search, OpenAction, PreviewStep, SearchIndexes, SearchPlan};
use spotlight::search::types::{QuickAnswer, ResultKind, SearchResult};
use spotlight::settings::{static_gnome_panels, SettingsIndex};
use spotlight::snippets::{SnippetEntry, SnippetMode, SnippetsIndex};
use spotlight::system_commands::SystemAction;
use spotlight::windows::{WindowAction, WindowInfo, WindowService};

fn h() -> HistoryStats {
    HistoryStats { entries: Vec::new() }
}

fn indexes() -> SearchIndexes {
    let mut contacts = ContactsIndex::new();
    contacts.replace(vec![ContactEntry {
        id: "contact:ana".to_string(),
        name: "Ana".to_string(),
        email: None,
        phone: Some("123".to_string()),
    }]);
    SearchIndexes {
        apps: AppIndex::new(vec![AppEntry {
            id: "org.gnome.Calculator".to_string(),
            name: "Calculadora".to_string(),
            command: "gnome-calculator".to_string(),
            icon: Some("calc".to_string()),
            desktop_path: "/usr/share/applications/org.gnome.Calculator.desktop".to_string(),
            comment: None,
        }]),
        settings: SettingsIndex::new(static_gnome_panels()),
        quicklinks: QuicklinksIndex::new(default_entries()),
        snippets: SnippetsIndex::new(vec![SnippetEntry {
            keyword: ";hi".to_string(),
            name: "Hello".to_string(),
            text: "Olá!".to_string(),
            mode: SnippetMode::Copy,
        }]),
        scripts: ScriptsIndex::new(Vec::new()),
        browser: BrowserIndex::new(Vec::new()),
        contacts,
        windows: WindowService::new("gnome"),
    }
}

fn section_ids(sections: &[spotlight::search::types::ResultSection]) -> Vec<&str> {
    sections.iter().map(|s| s.id.as_str()).collect()
}

#[test]
fn plans_by_query_shape() {
    assert!(matches!(plan_search("   "), SearchPlan::Suggestions));
    assert!(matches!(plan_search(" > lock "), SearchPlan::Commands(q) if q == "lock"));
    assert!(matches!(plan_search("clipboard:  foo"), SearchPlan::Clipboard(q) if q == "foo"));
    assert!(matches!(plan_search("SETTINGS"), SearchPlan::OpenSettings));
    match plan_search("  git status ") {
        SearchPlan::Full(p) => {
            assert_eq!(p.query, "git status");
            assert_eq!(p.ext_root.as_deref(), Some("git"));
            assert_eq!(p.ext_query, "status");
            assert!(!p.quick_answers && !p.files && !p.clipboard && !p.windows && !p.window_commands);
        }
        _ => panic!("full search expected"),
    }
    match plan_search("calc") {
        SearchPlan::Full(p) => {
            assert_eq!(p.ext_root, None);
            assert_eq!(p.ext_query, "calc");
            assert!(p.quick_answers && p.files && p.clipboard && p.windows && !p.window_commands);
        }
        _ => panic!("full search expected"),
    }
    match plan_search("window") {
        SearchPlan::Full(p) => assert!(p.windows && p.window_commands),
        _ => panic!("full search expected"),
    }
}

#[test]
fn suggestions_then_apps() {
    let idx = indexes();
    let recent = vec![SearchResult {
        id: "file:/a".to_string(),
        kind: ResultKind::File,
        title: "a".to_string(),
        subtitle: None,
        icon: None,
        score: 2000,
        match_ranges: Vec::new(),
    }];
    let r = idx.suggestions(recent, &h());
    assert_eq!(section_ids(&r.sections), vec!["suggestions", "apps"]);
    assert!(r.quick_answer.is_none());
    let r = idx.suggestions(Vec::new(), &h());
    assert_eq!(section_ids(&r.sections), vec!["apps"]);
    assert_eq!(r.sections[0].results[0].title, "Calculadora");
}

#[test]
fn commands_and_settings_responses() {
    let idx = indexes();
    let r = idx.commands("lock", Vec::new(), &h());
    assert_eq!(section_ids(&r.sections), vec!["commands"]);
    assert_eq!(r.sections[0].results[0].title, "Bloquear tela");
    assert!(idx.commands("zzzzzz", Vec::new(), &h()).sections.is_empty());
    let s = idx.open_settings("settings", &h());
    assert_eq!(s.sections[0].results[0].id, "setting:spotlight-settings");
}

#[test]
fn full_search_orders_sections() {
    let idx = indexes();
    let plan = match plan_search("calc") {
        SearchPlan::Full(p) => p,
        _ => panic!("full search expected"),
    };
    let quick = QuickAnswer {
        kind: "calculator".to_string(),
        label: "=".to_string(),
        value: "4".to_string(),
        hint: None,
    };
    let r = idx.full(&plan, &h(), Some(quick), "Google", Vec::new(), Vec::new(), Vec::new(), Vec::new());
    assert_eq!(r.quick_answer.as_ref().unwrap().value, "4");
    assert_eq!(section_ids(&r.sections), vec!["quick_answer", "apps"]);
    let r = idx.full(&plan, &h(), None, "Google", Vec::new(), Vec::new(), Vec::new(), Vec::new());
    assert_eq!(section_ids(&r.sections), vec!["web", "apps"]);
    assert_eq!(r.sections[0].results[0].subtitle.as_deref(), Some("Google"));
    assert!(r.sections.iter().all(|s| !s.results.is_empty()));
}

#[test]
fn opening_results() {
    let idx = indexes();
    let p = idx.open_result("app:org.gnome.Calculator", None).unwrap();
    assert!(matches!(p.action, OpenAction::LaunchApp(ref a) if a.command == "gnome-calculator"));
    assert_eq!(p.meta.unwrap().title, "Calculadora");
    assert_eq!(idx.open_result("app:missing", None).err().unwrap(), "Aplicativo não encontrado");
    assert_eq!(idx.open_result("nonsense", None).err().unwrap(), "Resultado inválido");
    assert!(matches!(idx.open_result("file:/tmp/x.txt", None).unwrap().action, OpenAction::OpenFile(ref k) if k == "/tmp/x.txt"));
    assert!(matches!(idx.open_result("setting:syscmd:suspend", None).unwrap().action, OpenAction::System(SystemAction::Suspend)));
    assert!(matches!(idx.open_result("setting:syscmd:settings", None).unwrap().action, OpenAction::ShowSettingsWindow));
    assert!(matches!(idx.open_result("setting:wifi", None).unwrap().action, OpenAction::OpenSetting(ref k) if k == "wifi"));
    assert!(matches!(
        idx.open_result("quicklink:!g", Some("!g verus proofs")).unwrap().action,
        OpenAction::OpenUrl(ref u) if u == "https://www.google.com/search?q=verus+proofs"
    ));
    assert!(matches!(idx.open_result("snippet:;hi", None).unwrap().action, OpenAction::Snippet(ref t, SnippetMode::Copy) if t == "Olá!"));
    assert!(matches!(idx.open_result("contact:ana", None).unwrap().action, OpenAction::OpenContact(Ok(ref u)) if u == "tel:123"));
    assert!(matches!(idx.open_result("window:window:close", None).unwrap().action, OpenAction::Window(WindowAction::CloseActive)));
    match idx.open_result("extension:emoji:x", Some("q")).unwrap().action {
        OpenAction::Extension { extension_id, action, args } => {
            assert_eq!(extension_id, "emoji");
            assert_eq!(action, "emoji:x");
            assert_eq!(args, "q");
        }
        _ => panic!("extension expected"),
    }
    let recent = idx.open_result("recent:file:/tmp/y", None).unwrap();
    assert_eq!(recent.kind, ResultKind::File);
    assert_eq!(recent.id, "file:/tmp/y");
    assert_eq!(idx.open_result("bookmark:x", None).err().unwrap(), "URL não encontrada");
}

#[test]
fn script_preview_describes_command_and_arguments() {
    let mut idx = indexes();
    idx.scripts = ScriptsIndex::new(vec![spotlight::scripts::ScriptEntry {
        id: "greet".to_string(),
        title: "Greet".to_string(),
        command: "/bin/echo".to_string(),
        args: vec!["hello".to_string(), "{query}".to_string()],
        keyword: Some("gr".to_string()),
        icon: None,
        needs_query: false,
    }]);
    match idx.get_preview("script:greet", "google", "Google") {
        PreviewStep::Done(Some(p)) => {
            assert_eq!(p.title, "Greet");
            assert_eq!(p.description.as_deref(), Some("/bin/echo [\"hello\", \"{query}\"]"));
            assert_eq!(p.icon.as_deref(), Some("utilities-terminal"));
        }
        other => panic!("unexpected preview step: {other:?}"),
    }
}

#[test]
fn blanks_around_a_query_change_no_plan() {
    for q in ["> docker", "clipboard: foo", "Settings", "firefox", "", "2+2"] {
        let padded = format!("  {q}\t ");
        assert_eq!(format!("{:?}", plan_search(&padded)), format!("{:?}", plan_search(q)));
    }
}

#[test]
fn plain_query_lists_matching_window() {
    let idx = indexes();
    let plan = match plan_search("Firefox") {
        SearchPlan::Full(p) => p,
        _ => panic!("full search expected"),
    };
    let wins = vec![
        WindowInfo { id: "0x01".to_string(), title: "Mozilla Firefox".to_string(), app: Some("firefox".to_string()) },
        WindowInfo { id: "0x02".to_string(), title: "Terminal".to_string(), app: None },
    ];
    let r = idx.full(&plan, &h(), None, "Google", Vec::new(), wins, Vec::new(), Vec::new());
    let hits: Vec<&SearchResult> = r
        .sections
        .iter()
        .flat_map(|s| s.results.iter())
        .filter(|x| x.kind == ResultKind::Window)
        .collect();
    assert_eq!(hits.len(), 1);
    assert_eq!(hits[0].title, "Mozilla Firefox");
    assert!(!r.sections.iter().flat_map(|s| s.results.iter()).any(|x| x.id.starts_with("window:window:")));
}
