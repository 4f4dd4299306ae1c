use spotlight::quicklinks::{default_entries, QuicklinkEntry, QuicklinksIndex};
use spotlight::scripts::{with_default_id, ScriptEntry, ScriptsIndex};
use spotlight::search::ranking::HistoryStats;
use spotlight::search::types::ResultKind;
use spotlight::snippets::{SnippetEntry, SnippetMode, SnippetsIndex};
use spotlight::system_commands::{commands, run, search, systemctl_verb, SystemAction};
use spotlight::windows::{
    desktop_from_env, hyprland_windows, parse_wmctrl_line, parse_wmctrl_output, window_commands, HyprClient,
    HyprlandWindowManager, WindowAction, WindowBackend, WindowInfo, WindowManager, WindowService, WmctrlManager,
};

fn h() -> HistoryStats {
    HistoryStats { entries: Vec::new() }
}

fn script(id: &str, title: &str, args: &[&str], needs_query: bool) -> ScriptEntry {
    ScriptEntry {
        id: id.to_string(),
        title: title.to_string(),
        command: "/bin/echo".to_string(),
        args: args.iter().map(|s| s.to_string()).collect(),
        keyword: None,
        icon: None,
        needs_query,
    }
}

#[test]
fn system_commands_listed_and_run() {
    let c = commands();
    assert_eq!(c.len(), 8);
    assert_eq!(c[0].id, "lock");
    assert_eq!(c[7].id, "empty_trash");
    assert_eq!(run("shutdown").unwrap(), SystemAction::PowerOff);
    assert_eq!(run("settings").unwrap(), SystemAction::Nothing);
    assert_eq!(run("format-disk"), Err("Comando desconhecido: format-disk".to_string()));
    assert_eq!(systemctl_verb(SystemAction::Suspend), Some("suspend"));
    assert_eq!(systemctl_verb(SystemAction::Reboot), Some("reboot"));
    assert_eq!(systemctl_verb(SystemAction::PowerOff), Some("poweroff"));
    assert_eq!(systemctl_verb(SystemAction::Lock), None);
    let r = search("reinic", &h(), 5);
    assert_eq!(r.len(), 1);
    assert_eq!(r[0].title, "Reiniciar");
}

#[test]
fn quicklinks_resolve_query_urls() {
    let d = default_entries();
    assert_eq!(d[0].keyword, "!g");
    assert_eq!(d[1].url, "https://www.youtube.com/results?search_query={query}");
    let idx = QuicklinksIndex::new(vec![
        QuicklinkEntry {
            keyword: "!w".to_string(),
            title: "Wikipedia".to_string(),
            url: "https://pt.wikipedia.org/w/index.php?search={query}&q={query}".to_string(),
            icon: None,
            alias: Some("wiki".to_string()),
        },
    ]);
    assert_eq!(
        idx.resolve_url("!w", "!w  rust lang ").as_deref(),
        Some("https://pt.wikipedia.org/w/index.php?search=rust+lang&q=rust+lang")
    );
    assert_eq!(
        idx.resolve_url("!w", "wiki verus").as_deref(),
        Some("https://pt.wikipedia.org/w/index.php?search=verus&q=verus")
    );
    assert_eq!(idx.resolve_url("!x", "!x a"), None);
    assert_eq!(idx.get("!w").unwrap().title, "Wikipedia");
}

#[test]
fn snippets_apply_by_keyword() {
    let idx = SnippetsIndex::new(vec![
        SnippetEntry { keyword: ";sig".to_string(), name: "Assinatura".to_string(), text: "Abraços".to_string(), mode: SnippetMode::Copy },
        SnippetEntry { keyword: ";addr".to_string(), name: "Endereço".to_string(), text: "Rua A".to_string(), mode: SnippetMode::default() },
    ]);
    assert_eq!(idx.apply(";sig"), Ok(("Abraços".to_string(), SnippetMode::Copy)));
    assert_eq!(idx.apply(";addr"), Ok(("Rua A".to_string(), SnippetMode::Paste)));
    assert_eq!(idx.apply(";none"), Err("Snippet não encontrado".to_string()));
    let r = idx.search(";sig", &h(), 5);
    assert_eq!(r[0].id, "snippet:;sig");
    assert_eq!(r[0].kind, ResultKind::Snippet);
}

#[test]
fn scripts_ordered_and_run_with_query() {
    let idx = ScriptsIndex::new(vec![
        script("b", "Zeta", &["--name={query}"], true),
        script("a", "Alpha", &[], false),
    ]);
    assert_eq!(idx.entries[0].title, "Alpha");
    let (cmd, args) = idx.run("b", "x y").unwrap();
    assert_eq!(cmd, "/bin/echo");
    assert_eq!(args, vec!["--name=x y".to_string(), "x y".to_string()]);
    let (_, args) = idx.run("b", "").unwrap();
    assert_eq!(args, vec!["--name=".to_string()]);
    assert_eq!(idx.run("zzz", ""), Err("Script não encontrado".to_string()));
    let s = with_default_id(script("", "T", &[], false), Some("backup".to_string()));
    assert_eq!(s.id, "backup");
    let s = with_default_id(script("", "T", &[], false), None);
    assert_eq!(s.id, "script");
    let s = with_default_id(script("keep", "T", &[], false), Some("x".to_string()));
    assert_eq!(s.id, "keep");
}

#[test]
fn desktop_and_backend() {
    assert_eq!(desktop_from_env(true, "GNOME").as_deref(), Some("hyprland"));
    assert_eq!(desktop_from_env(false, "ubuntu:GNOME").as_deref(), Some("gnome"));
    assert_eq!(desktop_from_env(false, "KDE").as_deref(), Some("kde"));
    assert_eq!(desktop_from_env(false, "sway"), None);
    assert_eq!(WindowService::new("kde").backend(), WindowBackend::Kde);
    assert_eq!(WindowService::new("xfce").backend(), WindowBackend::Wmctrl);
}

#[test]
fn window_actions_and_commands() {
    let s = WindowService::new("gnome");
    assert!(matches!(s.run_action("window:focus:0x01", ""), Ok(WindowAction::Focus(id)) if id == "0x01"));
    assert!(matches!(s.run_action("window:left", ""), Ok(WindowAction::Move(d)) if d == "left"));
    assert!(matches!(s.run_action("window:close", ""), Ok(WindowAction::CloseActive)));
    assert!(matches!(s.run_action("0x2a", ""), Ok(WindowAction::Focus(id)) if id == "0x2a"));
    assert!(matches!(s.run_action("window:0x3", ""), Ok(WindowAction::Focus(id)) if id == "0x3"));
    assert!(matches!(s.run_action("bogus", ""), Err(e) if e == "Ação de janela desconhecida: bogus"));
    assert_eq!(WmctrlManager.list_command(), vec!["wmctrl".to_string(), "-l".to_string()]);
    assert_eq!(
        WmctrlManager.action_command(&WindowAction::Move("right".to_string())),
        Ok(vec!["wmctrl", "-r", ":ACTIVE:", "-e", "0,50%,0,50%,100%"].into_iter().map(String::from).collect())
    );
    assert_eq!(
        WmctrlManager.action_command(&WindowAction::Move("diagonal".to_string())),
        Err("Direção inválida".to_string())
    );
    assert_eq!(
        HyprlandWindowManager.action_command(&WindowAction::Focus("0xabc".to_string())),
        Ok(vec!["hyprctl", "dispatch", "focuswindow", "address:0xabc"].into_iter().map(String::from).collect())
    );
    assert_eq!(HyprlandWindowManager.list_command(), vec!["hyprctl".to_string(), "clients".to_string(), "-j".to_string()]);
}

#[test]
fn window_lists_parsed() {
    let w = parse_wmctrl_line("0x03a00007  0 host  Terminal  - bash").unwrap();
    assert_eq!(w.id, "0x03a00007");
    assert_eq!(w.title, "Terminal - bash");
    assert_eq!(w.app, None);
    assert!(parse_wmctrl_line("0x1 0").is_none());
    assert_eq!(parse_wmctrl_output("0x1 0 h A\nbad\n0x2 1 h B C\n").len(), 2);
    let ws = hyprland_windows(vec![
        HyprClient { address: Some("0xa".to_string()), title: None, class: Some("kitty".to_string()) },
        HyprClient { address: None, title: Some("x".to_string()), class: None },
    ]);
    assert_eq!(ws.len(), 1);
    assert_eq!(ws[0].id, "0xa");
    assert_eq!(ws[0].title, "");
    assert_eq!(ws[0].app.as_deref(), Some("kitty"));
}

#[test]
fn window_results_and_commands() {
    let s = WindowService::new("gnome");
    let wins = vec![
        WindowInfo { id: "0x1".to_string(), title: "Firefox — Docs".to_string(), app: Some("firefox".to_string()) },
        WindowInfo { id: "0x2".to_string(), title: "Terminal".to_string(), app: None },
    ];
    let r = s.search(wins.clone(), "term", &h(), 5);
    assert_eq!(r.len(), 1);
    assert_eq!(r[0].id, "window:0x2");
    assert_eq!(s.search(wins, "", &h(), 1).len(), 1);
    let cmds = window_commands(&h(), "", 10);
    assert_eq!(cmds.len(), 5);
    assert_eq!(cmds[0].id, "window:window:left");
    let all = window_commands(&h(), "wind", 10);
    assert_eq!(all.len(), 5);
    let fs = window_commands(&h(), "tela", 10);
    assert_eq!(fs.len(), 1);
    assert_eq!(fs[0].title, "Tela cheia");
}
