use spotlight::config::{autostart_entry, autostart_needs_write, clipboard_limit, AppConfig};
use spotlight::paths::{clipboard_images_dir, config_file, extensions_dir, join, spotlight_dir, window_state_file};
use spotlight::platform::{
    add_custom_key_path, binding_conflict, binding_matches, cli_action, clipboard_tools_warning, custom_key_path,
    custom_key_schema, detect_kind, gnome_keybindings, gsettings_set_error, gsettings_value, is_wayland,
    normalize_shortcut, parse_gsettings_array, registered_shortcut_warning, shortcuts_overlap, to_gnome_binding,
    validate_shortcut, CliAction, DesktopKind,
};
use spotlight::web_search::{encode, engine_label, search_url, search_web};
use spotlight::window_state::WindowState;

fn strings(v: &[&str]) -> Vec<String> {
    v.iter().map(|s| s.to_string()).collect()
}

#[test]
fn desktops_and_sessions() {
    assert_eq!(detect_kind("ubuntu:GNOME"), DesktopKind::Gnome);
    assert_eq!(detect_kind("KDE"), DesktopKind::Kde);
    assert_eq!(detect_kind("plasma"), DesktopKind::Kde);
    assert_eq!(detect_kind("XFCE"), DesktopKind::Other);
    assert!(is_wayland(Some("Wayland".to_string())));
    assert!(!is_wayland(Some("x11".to_string())));
    assert!(!is_wayland(None));
}

#[test]
fn gnome_bindings_of_shortcuts() {
    assert_eq!(to_gnome_binding("Ctrl+Alt+Space"), "<Ctrl><Alt>space");
    assert_eq!(to_gnome_binding(" super + Shift + S "), "<Super><Shift>s");
    assert_eq!(to_gnome_binding("Control+F12"), "<Ctrl>f12");
    let b = gnome_keybindings("/usr/bin/spotlight", &strings(&["Ctrl+Alt+Space", "Meta+K"]), "Ctrl+Alt+C");
    assert_eq!(b.len(), 3);
    assert_eq!(b[0].name, "spotlight-open");
    assert_eq!(b[1].name, "spotlight-open-1");
    assert_eq!(b[1].binding, "<Super>k");
    assert_eq!(b[1].command, "/usr/bin/spotlight --toggle");
    assert_eq!(b[2].name, "spotlight-clipboard");
    assert_eq!(b[2].command, "/usr/bin/spotlight --toggle-clipboard");
}

#[test]
fn normalized_shortcuts_compare() {
    assert_eq!(normalize_shortcut(" Ctrl + ALT+ +Space "), "ctrl+alt+space");
    assert_eq!(normalize_shortcut(&normalize_shortcut("A + b")), normalize_shortcut("A + b"));
    assert!(shortcuts_overlap("ctrl+alt+space", "Ctrl + Alt + Space"));
    assert!(shortcuts_overlap("x", "x"));
    assert!(!shortcuts_overlap("Ctrl+A", "Ctrl+B"));
}

#[test]
fn command_line_flags() {
    assert_eq!(cli_action(&strings(&["app", "--show"])), CliAction::ShowMain);
    assert_eq!(cli_action(&strings(&["--toggle-clipboard", "--show"])), CliAction::ToggleClipboard);
    assert_eq!(cli_action(&strings(&["--toggle-spotlight"])), CliAction::ToggleMain);
    assert_eq!(cli_action(&strings(&[])), CliAction::ToggleMain);
}

#[test]
fn gsettings_lists_and_values() {
    assert_eq!(
        parse_gsettings_array("@as ['/a/', '/b/']\n"),
        strings(&["/a/", "/b/"])
    );
    assert!(parse_gsettings_array("@as []").is_empty());
    assert_eq!(gsettings_value(" 'spotlight-open' \n"), "spotlight-open");
    let path = custom_key_path("spotlight-open");
    assert_eq!(path, "/org/gnome/settings-daemon/plugins/media-keys/custom-keybindings/spotlight-open/");
    assert_eq!(
        custom_key_schema(&path),
        "org.gnome.settings-daemon.plugins.media-keys.custom-keybinding:/org/gnome/settings-daemon/plugins/media-keys/custom-keybindings/spotlight-open/"
    );
    assert_eq!(add_custom_key_path("@as ['/a/']", "/b/").as_deref(), Some("['/a/', '/b/']"));
    assert_eq!(add_custom_key_path("@as []", "/b/").as_deref(), Some("['/b/']"));
    assert_eq!(add_custom_key_path("['/a/', '/b/']", "/b/"), None);
    let added = add_custom_key_path("@as ['/a/']", "/b/").unwrap();
    assert_eq!(add_custom_key_path(&added, "/b/"), None);
    assert_eq!(gsettings_set_error("s", "k"), "gsettings set s k falhou");
}

#[test]
fn conflicts_with_other_bindings() {
    assert!(binding_matches("<Ctrl><Alt>SPACE", "<ctrl><alt>space"));
    assert_eq!(
        binding_conflict("<Ctrl><Alt>space", "<ctrl><alt>space", Some("Terminal".to_string()), Some("gnome-terminal".to_string())).as_deref(),
        Some("'Terminal' (<ctrl><alt>space)")
    );
    assert_eq!(binding_conflict("<Ctrl><Alt>space", "<Ctrl><Alt>space", None, None).as_deref(), Some("'outro atalho' (<Ctrl><Alt>space)"));
    assert_eq!(binding_conflict("<Ctrl><Alt>space", "<Ctrl><Alt>space", None, Some("/opt/spotlight --toggle".to_string())), None);
    assert_eq!(binding_conflict("<Ctrl><Alt>space", "<Super>space", None, None), None);
}

#[test]
fn shortcut_validation_messages() {
    let empty = validate_shortcut("  ", true, None, Ok(()), DesktopKind::Gnome);
    assert!(!empty.valid_format);
    assert_eq!(empty.message, "Informe um atalho.");
    let bad = validate_shortcut("Ctrl+", false, None, Ok(()), DesktopKind::Gnome);
    assert_eq!(bad.message, "Formato inválido. Use algo como Ctrl+Alt+Space ou Super+Shift+S.");
    let ok = validate_shortcut(" Ctrl+Alt+K ", true, None, Ok(()), DesktopKind::Kde);
    assert_eq!(ok.shortcut, "Ctrl+Alt+K");
    assert!(ok.valid_format && ok.registrable && ok.available);
    assert_eq!(ok.message, "Atalho disponível.");
    let busy = validate_shortcut("Ctrl+Alt+K", true, None, Err("in use".to_string()), DesktopKind::Gnome);
    assert!(!busy.registrable);
    assert!(busy.available);
    assert_eq!(busy.message, "Atalho em uso ou indisponível neste ambiente: in use. Tente outra combinação.");
    let clash = validate_shortcut("Ctrl+Alt+K", true, Some("'T' (x)".to_string()), Err("e".to_string()), DesktopKind::Gnome);
    assert!(!clash.available);
    assert_eq!(clash.gnome_conflict.as_deref(), Some("'T' (x)"));
}

#[test]
fn startup_warnings() {
    assert!(registered_shortcut_warning("super+SPACE").unwrap().contains("Super+Space conflita"));
    assert_eq!(registered_shortcut_warning("Ctrl+Alt+Space"), None);
    assert!(clipboard_tools_warning(Some("wayland".to_string()), true, false).unwrap().contains("wl-clipboard"));
    assert!(clipboard_tools_warning(Some("x11".to_string()), false, false).unwrap().contains("xclip"));
    assert_eq!(clipboard_tools_warning(Some("x11".to_string()), true, false), None);
    assert_eq!(clipboard_tools_warning(None, false, true), None);
}

#[test]
fn configuration_defaults_and_limits() {
    let c = AppConfig::default();
    assert_eq!(c.shortcuts, strings(&["Ctrl+Alt+Space"]));
    assert_eq!(c.clipboard_shortcut, "Ctrl+Alt+C");
    assert_eq!(c.web_search_engine, "google");
    assert_eq!(c.clipboard_limit, 50);
    assert_eq!(c.max_index_files, 50000);
    assert_eq!(c.translate_target, "pt");
    assert_eq!(clipboard_limit(3), 10);
    assert_eq!(clipboard_limit(10), 10);
    assert_eq!(clipboard_limit(77), 77);
    assert_eq!(clipboard_limit(100_000), 500);
    assert_eq!(clipboard_limit(clipboard_limit(9_999)), clipboard_limit(9_999));
}

#[test]
fn autostart_file() {
    let e = autostart_entry("/opt/spot/spotlight");
    assert!(e.starts_with("[Desktop Entry]\nType=Application\nName=Spotlight\nExec=/opt/spot/spotlight\n"));
    assert!(e.ends_with("X-GNOME-Autostart-enabled=true\n"));
    assert!(autostart_needs_write(None, &e));
    assert!(!autostart_needs_write(Some(e.clone()), &e));
    assert!(autostart_needs_write(Some("old".to_string()), &e));
}

#[test]
fn launcher_paths() {
    assert_eq!(join("/a", "b"), "/a/b");
    assert_eq!(join("/a/", "b"), "/a/b");
    assert_eq!(join("", "b"), "b");
    assert_eq!(spotlight_dir(Some("/home/u/.config".to_string())).as_deref(), Some("/home/u/.config/spotlight"));
    assert_eq!(config_file(Some("/c".to_string())).as_deref(), Some("/c/spotlight/config.toml"));
    assert_eq!(extensions_dir(Some("/c".to_string())).as_deref(), Some("/c/spotlight/extensions"));
    assert_eq!(window_state_file(Some("/c".to_string())).as_deref(), Some("/c/spotlight/window.json"));
    assert!(clipboard_images_dir(None).is_none());
}

#[test]
fn window_reopens_where_placed() {
    assert_eq!(WindowState::default().restore_position(), None);
    assert_eq!(WindowState::at(120, -40).restore_position(), Some((120, -40)));
}

#[test]
fn web_search_result_and_addresses() {
    let r = search_web("  rust book ", "Google").unwrap();
    assert_eq!(r.id, "web:rust book");
    assert_eq!(r.title, "Pesquisar \"rust book\" na web");
    assert_eq!(r.subtitle.as_deref(), Some("Google"));
    assert_eq!(r.score, 2000);
    assert_eq!(r.match_ranges[0].start, 11);
    assert!(search_web(" a ", "Google").is_none());
    assert_eq!(encode("a b&c=d~é"), "a+b%26c%3Dd~%E9");
    assert_eq!(search_url("x y", "duckduckgo"), "https://duckduckgo.com/?q=x+y");
    assert_eq!(search_url("x", "bing"), "https://www.bing.com/search?q=x");
    assert_eq!(search_url("x", "other"), "https://www.google.com/search?q=x");
    assert_eq!(engine_label("bing"), "Bing");
    assert_eq!(engine_label("nope"), "Google");
    let enc = encode("?#& =/\u{1F600}");
    assert!(enc.chars().all(|c| c.is_ascii_alphanumeric() || "-._~+%".contains(c)));
}

#[test]
fn normalized_shortcut_is_its_own_normal_form() {
    for raw in [" Ctrl + ALT+ +Space ", "+", "", "Super+Shift+S", "  ++  a  ++ "] {
        let once = normalize_shortcut(raw);
        assert_eq!(normalize_shortcut(&once), once);
        assert!(shortcuts_overlap(raw, &once));
    }
}

#[test]
fn adding_a_key_path_twice_adds_it_once() {
    let path = custom_key_path("spotlight-open");
    for current in ["@as []", "['/a/', '/b/']", "['/a/']"] {
        let next = add_custom_key_path(current, &path).unwrap();
        let mut expected = parse_gsettings_array(current);
        expected.push(path.clone());
        assert_eq!(parse_gsettings_array(&next), expected);
        assert_eq!(add_custom_key_path(&next, &path), None);
    }
}

#[test]
fn overlap_means_same_keys_in_order() {
    assert!(shortcuts_overlap("Ctrl+Alt+Space", " ctrl + ALT + space "));
    assert!(shortcuts_overlap("Ctrl++Alt", "ctrl+alt"));
    assert!(!shortcuts_overlap("Ctrl+Alt+Space", "Alt+Ctrl+Space"));
    assert!(!shortcuts_overlap("", "Ctrl"));
    for (a, b) in [("A+b", "a + B"), ("x", "y"), ("", "+")] {
        assert_eq!(shortcuts_overlap(a, b), shortcuts_overlap(b, a));
        assert!(shortcuts_overlap(a, a));
    }
}
