use spotlight::apps::{icon_path_candidates, launch_target, parse_desktop_file, AppEntry, AppIndex};
use spotlight::desktop_file::{normalize_exec, split_key_value, strip_field_codes};
use spotlight::search::ranking::HistoryStats;
use spotlight::settings::{
    panel_desktop_file, parse_settings_desktop, setting_icon_candidates, setting_openers, static_gnome_panels,
    SettingEntry, SettingsIndex,
};

fn chars(s: &str) -> Vec<char> {
    s.chars().collect()
}

fn text(v: &[char]) -> String {
    v.iter().collect()
}

fn app(id: &str, name: &str, command: &str) -> AppEntry {
    AppEntry {
        id: id.to_string(),
        name: name.to_string(),
        command: command.to_string(),
        icon: None,
        desktop_path: format!("/usr/share/applications/{id}.desktop"),
        comment: None,
    }
}

const FIREFOX: &str = "[Desktop Entry]\nType=Application\nName=Firefox\nExec=firefox %u\nIcon=firefox\nComment=Browse the web\n\n[Desktop Action new]\nName=New Window\nExec=firefox --new-window\n";

#[test]
fn desktop_file_gives_application() {
    let e = parse_desktop_file(FIREFOX, "firefox", "/usr/share/applications/firefox.desktop").unwrap();
    assert_eq!(e.id, "firefox");
    assert_eq!(e.name, "Firefox");
    assert_eq!(e.command, "firefox");
    assert_eq!(e.icon.as_deref(), Some("firefox"));
    assert_eq!(e.comment.as_deref(), Some("Browse the web"));
    assert_eq!(e.desktop_path, "/usr/share/applications/firefox.desktop");
}

#[test]
fn hidden_settings_and_non_applications_are_refused() {
    let hidden = "[Desktop Entry]\nType=Application\nName=X\nExec=x\nNoDisplay=true\n";
    assert!(parse_desktop_file(hidden, "x", "x.desktop").is_none());
    let link = "[Desktop Entry]\nType=Link\nName=X\nExec=x\n";
    assert!(parse_desktop_file(link, "x", "x.desktop").is_none());
    let settings = "[Desktop Entry]\nType=Application\nName=X\nExec=x\nCategories=GTK;Settings;\n";
    assert!(parse_desktop_file(settings, "x", "x.desktop").is_none());
    let panel = "[Desktop Entry]\nType=Application\nName=X\nExec=x\nX-GNOME-Settings-Panel=wifi\n";
    assert!(parse_desktop_file(panel, "x", "x.desktop").is_none());
    let empty_exec = "[Desktop Entry]\nType=Application\nName=X\nExec=%U\n";
    assert!(parse_desktop_file(empty_exec, "x", "x.desktop").is_none());
}

#[test]
fn field_codes_are_removed() {
    assert_eq!(text(&strip_field_codes(&chars("code %F --x %k %%"))), "code  --x  %%");
    assert_eq!(text(&normalize_exec(&chars("  gimp %U  "))), "gimp");
    let (k, v) = split_key_value(&chars(" Name = Files = Nautilus ")).unwrap();
    assert_eq!(text(&k), "Name");
    assert_eq!(text(&v), "Files = Nautilus");
    assert!(split_key_value(&chars("no pair")).is_none());
}

#[test]
fn index_is_ordered_by_lowercase_name_without_repeats() {
    let idx = AppIndex::new(vec![
        app("zed", "zed", "zed"),
        app("b", "Beta", "beta"),
        app("a", "alpha", "alpha"),
        app("b2", "Beta", "beta"),
        app("c", "Charlie", "charlie"),
    ]);
    let all = idx.search_results("", &HistoryStats { entries: Vec::new() }, 10);
    let names: Vec<&str> = all.iter().map(|r| r.title.as_str()).collect();
    assert_eq!(names, vec!["alpha", "Beta", "Charlie", "zed"]);
    assert_eq!(all[0].id, "app:a");
    assert_eq!(all[0].score, 600);
    assert!(idx.get_by_id("b2").is_none());
    assert_eq!(idx.get_by_id("c").unwrap().name, "Charlie");
}

#[test]
fn search_matches_names_fuzzily() {
    let idx = AppIndex::new(vec![app("firefox", "Firefox", "firefox"), app("files", "Files", "nautilus")]);
    let h = HistoryStats { entries: Vec::new() };
    let r = idx.search_results("frfx", &h, 10);
    assert_eq!(r.len(), 1);
    assert_eq!(r[0].id, "app:firefox");
    assert!(idx.search_results("qqq", &h, 10).is_empty());
    assert_eq!(idx.search_results("", &h, 1).len(), 1);
}

#[test]
fn icon_candidates_in_lookup_order() {
    let c = icon_path_candidates("gimp");
    assert_eq!(c.len(), 24);
    assert_eq!(c[0], "/usr/share/pixmaps/gimp");
    assert_eq!(c[1], "/usr/share/pixmaps/gimp.png");
    assert_eq!(c[3], "/usr/share/pixmaps/gimp.xpm");
    assert_eq!(c[4], "/usr/share/icons/hicolor/scalable/apps/gimp");
    assert_eq!(c[23], "/usr/share/icons/Adwaita/48x48/legacy/gimp.xpm");
    let abs = icon_path_candidates("/opt/app/icon.png");
    assert_eq!(abs.len(), 25);
    assert_eq!(abs[0], "/opt/app/icon.png");
}

#[test]
fn launch_target_is_desktop_file_stem() {
    let mut e = app("org.gnome.Terminal", "Terminal", "gnome-terminal");
    assert_eq!(launch_target(&e), "org.gnome.Terminal");
    e.desktop_path = "/tmp/other.name.desktop".to_string();
    assert_eq!(launch_target(&e), "other.name");
    e.desktop_path = String::new();
    assert_eq!(launch_target(&e), "org.gnome.Terminal");
}

#[test]
fn settings_panels_and_openers() {
    let panels = static_gnome_panels();
    assert_eq!(panels.len(), 16);
    assert_eq!(panels[0].panel, "wifi");
    assert_eq!(panels[0].name, "Wi-Fi");
    assert_eq!(panels[0].icon.as_deref(), Some("preferences-system"));
    assert_eq!(setting_openers(), vec!["gnome-control-center", "systemsettings", "kcmshell6"]);
    assert_eq!(panel_desktop_file("sound"), "gnome-control-center-sound.desktop");
    let icons = setting_icon_candidates("cs-sound");
    assert_eq!(icons, vec![
        "/usr/share/icons/hicolor/scalable/apps/cs-sound.svg".to_string(),
        "/usr/share/pixmaps/cs-sound.png".to_string(),
    ]);
}

#[test]
fn settings_desktop_file_gives_panel() {
    let content = "[Desktop Entry]\nType=Application\nName=Som\nExec=gnome-control-center sound\nIcon=audio\nCategories=Settings;\n";
    let e = parse_settings_desktop(content, Some("gnome-sound-panel".to_string())).unwrap();
    assert_eq!(e.name, "Som");
    assert_eq!(e.panel, "gnome-control-center sound");
    let idx = SettingsIndex::new(vec![e]);
    assert!(idx.get("gnome-control-center sound").is_some());
    let not_settings = "[Desktop Entry]\nType=Application\nName=Editor\nExec=gedit\n";
    assert!(parse_settings_desktop(not_settings, Some("gedit".to_string())).is_none());
}

#[test]
fn settings_index_is_ordered_by_name_without_repeated_panels() {
    let scanned = vec![
        SettingEntry { id: "z".to_string(), name: "Zeta".to_string(), panel: "wifi".to_string(), icon: None },
        SettingEntry { id: "a".to_string(), name: "Alpha".to_string(), panel: "alpha".to_string(), icon: None },
    ];
    let idx = SettingsIndex::new(scanned);
    let names: Vec<&str> = idx.entries.iter().map(|e| e.name.as_str()).collect();
    let mut sorted = names.clone();
    sorted.sort();
    assert_eq!(names, sorted);
    for w in idx.entries.windows(2) {
        assert_ne!(w[0].panel, w[1].panel);
    }
    assert!(idx.entries.iter().any(|e| e.name == "Alpha"));
}
