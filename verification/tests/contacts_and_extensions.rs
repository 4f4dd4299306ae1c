use spotlight::contacts::{open_contact_target, parse_vcard, thunderbird_contacts, ContactEntry, ContactsIndex, ThunderbirdCard};
use spotlight::extension_store::{
    already_installed, archive_url, catalog_source, clone_url, default_store_url, install_dest, list_store,
    store_catalog_url, CatalogSource, StoreExtension,
};
use spotlight::extensions::builtin::{all_builtin, NoteAction, NoteRow, NotesExtension};
use spotlight::extensions::user::{load_all_user_extensions, load_user_providers, UserScriptExtension};
use spotlight::extensions::{
    load_user_manifests, merge_results, parse_root_search, set_builtin_enabled, should_search_provider,
    without_calculator, BuiltinInfo, ExtensionManifest, ExtensionRegistry, ProviderInfo,
};
use spotlight::search::ranking::HistoryStats;
use spotlight::search::types::{ResultKind, SearchResult};

fn contact(id: &str, name: &str, email: Option<&str>, phone: Option<&str>) -> ContactEntry {
    ContactEntry {
        id: id.to_string(),
        name: name.to_string(),
        email: email.map(|s| s.to_string()),
        phone: phone.map(|s| s.to_string()),
    }
}

fn manifest(id: &str, enabled: bool) -> ExtensionManifest {
    ExtensionManifest {
        id: id.to_string(),
        title: format!("{id} title"),
        icon: None,
        keywords: vec![format!("{id}kw")],
        permissions: Vec::new(),
        enabled,
        search_command: None,
        run_command: None,
    }
}

fn result(id: &str) -> SearchResult {
    SearchResult {
        id: id.to_string(),
        kind: ResultKind::Extension,
        title: id.to_string(),
        subtitle: None,
        icon: None,
        score: 1,
        match_ranges: Vec::new(),
    }
}

fn strs(v: &[String]) -> Vec<&str> {
    v.iter().map(|s| s.as_str()).collect()
}

#[test]
fn vcards_give_contacts() {
    let card = "BEGIN:VCARD\nVERSION:3.0\nFN:Ana Souza\nEMAIL;TYPE=work:ana@example.com\nTEL;TYPE=cell:+55 11 9999\nEND:VCARD\n";
    let c = parse_vcard(card, "/home/u/contacts/ana.vcf").unwrap();
    assert_eq!(c.id, "contact:/home/u/contacts/ana.vcf");
    assert_eq!(c.name, "Ana Souza");
    assert_eq!(c.email.as_deref(), Some("ana@example.com"));
    assert_eq!(c.phone.as_deref(), Some("+55 11 9999"));
    assert!(parse_vcard("BEGIN:VCARD\nEMAIL:x@y\nEND:VCARD\n", "/a.vcf").is_none());
}

#[test]
fn contacts_open_by_mail_then_phone() {
    assert_eq!(open_contact_target(&contact("c", "A", Some("a@b.c"), Some("1"))), Ok("mailto:a@b.c".to_string()));
    assert_eq!(open_contact_target(&contact("c", "A", None, Some("123"))), Ok("tel:123".to_string()));
    assert_eq!(
        open_contact_target(&contact("c", "A", None, None)),
        Err("Contato sem e-mail ou telefone".to_string())
    );
}

#[test]
fn thunderbird_cards_become_contacts() {
    let v = thunderbird_contacts(&vec![
        ThunderbirdCard { id: 7, display_name: "Bruno".to_string(), primary_email: Some("b@x.org".to_string()) },
        ThunderbirdCard { id: 8, display_name: "Carla".to_string(), primary_email: None },
    ]);
    assert_eq!(v.len(), 2);
    assert_eq!(v[0].id, "contact:thunderbird:7");
    assert_eq!(v[0].email.as_deref(), Some("b@x.org"));
    assert_eq!(v[1].phone, None);
}

#[test]
fn contacts_index_searches_names_and_addresses() {
    let mut idx = ContactsIndex::new();
    idx.replace(vec![
        contact("contact:1", "Ana Souza", Some("ana@example.com"), None),
        contact("contact:2", "Bruno", None, Some("5511")),
    ]);
    let h = HistoryStats { entries: Vec::new() };
    let r = idx.search("ana", &h, 5);
    assert_eq!(r.len(), 1);
    assert_eq!(r[0].id, "contact:1");
    assert_eq!(r[0].subtitle.as_deref(), Some("ana@example.com"));
    let by_phone = idx.search("5511", &h, 5);
    assert_eq!(by_phone[0].subtitle.as_deref(), Some("5511"));
    assert!(idx.search("a", &h, 5).is_empty());
    assert_eq!(idx.get("contact:2").unwrap().name, "Bruno");
    assert!(idx.get("contact:9").is_none());
}

#[test]
fn root_search_splits_keyword() {
    assert_eq!(parse_root_search("  git   status "), Some(("git".to_string(), "status".to_string())));
    assert_eq!(parse_root_search("docker"), None);
    assert_eq!(parse_root_search(" x "), None);
}

#[test]
fn providers_reached_by_keyword_or_query() {
    let p = ProviderInfo { id: "docker".to_string(), keywords: vec!["docker".to_string(), "ctr".to_string()] };
    assert!(should_search_provider(&p, "anything", Some("ctr")));
    assert!(should_search_provider(&p, "anything", Some("docker")));
    assert!(!should_search_provider(&p, "anything", Some("git")));
    assert!(should_search_provider(&p, "DOCKER", None));
    assert!(should_search_provider(&p, "my ctr list", None));
    assert!(should_search_provider(&p, "doc", None));
    assert!(!should_search_provider(&p, "d", None));
    assert!(!should_search_provider(&p, "zzz", None));
}

#[test]
fn registry_lists_and_enables() {
    let builtins: Vec<BuiltinInfo> = all_builtin(false);
    assert_eq!(builtins.len(), 8);
    assert_eq!(builtins[1].id, "notes");
    assert_eq!(strs(&builtins[7].keywords), vec!["screenshot", "print", "calendar"]);
    assert_eq!(all_builtin(true)[8].id, "ai");
    let reg = ExtensionRegistry::new(builtins, vec![manifest("u1", true), manifest("u2", false)], vec!["git".to_string()]);
    let listed = reg.list();
    assert_eq!(listed.len(), 10);
    assert!(!listed.iter().find(|i| i.id == "git").unwrap().enabled);
    assert!(listed.iter().find(|i| i.id == "u1").unwrap().enabled);
    assert!(!listed.iter().find(|i| i.id == "u2").unwrap().builtin);
    let ids: Vec<&str> = reg.providers.iter().map(|p| p.id.as_str()).collect();
    assert_eq!(ids, vec!["emoji", "notes", "docker", "systemd", "calculator", "translate", "integrations", "u1"]);
    assert_eq!(reg.provider_position("docker"), Ok(2));
    assert_eq!(reg.provider_position("git"), Err("Extensão não encontrada".to_string()));
    let enabled = reg.set_enabled("git", true, vec!["git".to_string(), "emoji".to_string()]).unwrap();
    assert_eq!(enabled, vec!["emoji".to_string()]);
    let disabled = reg.set_enabled("emoji", false, vec!["git".to_string()]).unwrap();
    assert_eq!(disabled, vec!["git".to_string(), "emoji".to_string()]);
    assert!(reg.set_enabled("u1", false, vec![]).is_none());
    let hits = reg.providers_for("x", Some("docker"));
    assert_eq!(hits, vec![2]);
}

#[test]
fn disabling_then_enabling_restores_the_list() {
    let list = vec!["a".to_string(), "b".to_string()];
    let off = set_builtin_enabled(list.clone(), "c", false);
    assert_eq!(off, vec!["a".to_string(), "b".to_string(), "c".to_string()]);
    assert_eq!(set_builtin_enabled(off.clone(), "c", false), off);
    assert_eq!(set_builtin_enabled(off, "c", true), list);
    assert_eq!(set_builtin_enabled(vec!["x".to_string(), "x".to_string()], "x", true), Vec::<String>::new());
}

#[test]
fn results_merged_in_provider_order() {
    let merged = merge_results(vec![vec![result("a"), result("b")], vec![], vec![result("c")]], 2);
    let ids: Vec<&str> = merged.iter().map(|r| r.id.as_str()).collect();
    assert_eq!(ids, vec!["a", "b"]);
    let kept = without_calculator(vec![result("extension:calc:1"), result("extension:emoji:x")]);
    assert_eq!(kept.len(), 1);
    assert_eq!(kept[0].id, "extension:emoji:x");
}

#[test]
fn user_manifests_filtered() {
    let found = vec![(manifest("a", true), "/d/a".to_string()), (manifest("b", false), "/d/b".to_string())];
    assert_eq!(load_user_providers(found.clone()).len(), 1);
    assert_eq!(load_all_user_extensions(found.clone()).len(), 2);
    let m = load_user_manifests(found);
    assert_eq!(m.len(), 1);
    assert_eq!(m[0].id, "a");
    let ext = UserScriptExtension::new(manifest("z", true), "/ext/z".to_string());
    assert_eq!(ext.id(), "z");
    assert_eq!(ext.title(), "z title");
    assert_eq!(strs(ext.keywords()), vec!["zkw"]);
}

#[test]
fn notes_results_and_actions() {
    let n = NotesExtension;
    assert_eq!(n.id(), "notes");
    assert_eq!(n.title(), "Notas");
    let rows = vec![NoteRow { id: 4, title: "Compras".to_string(), body: "b".repeat(100) }];
    let r = n.search(rows, "comp", &HistoryStats { entries: Vec::new() });
    assert_eq!(r.len(), 1);
    assert_eq!(r[0].id, "extension:notes:4");
    assert_eq!(r[0].subtitle.as_deref().map(|s| s.chars().count()), Some(80));
    assert_eq!(r[0].score, 12 * 100);
    match n.run("new", "Lista") {
        Ok(NoteAction::Create(t)) => assert_eq!(t, "Lista"),
        _ => panic!("create expected"),
    }
    match n.run("notes:4", "") {
        Ok(NoteAction::CopyBody(id)) => assert_eq!(id, "4"),
        _ => panic!("copy expected"),
    }
    assert!(matches!(n.run("other", ""), Err(e) if e == "Ação desconhecida"));
}

#[test]
fn store_catalog_and_install_paths() {
    assert!(default_store_url().ends_with("/docs/extension-store/catalog.json"));
    assert_eq!(store_catalog_url(Some("file:///tmp/c.json".to_string())), "file:///tmp/c.json");
    assert_eq!(store_catalog_url(None), default_store_url());
    match catalog_source("file://file:///tmp/c.json") {
        CatalogSource::File(p) => assert_eq!(p, "/tmp/c.json"),
        _ => panic!("file expected"),
    }
    match catalog_source("https://x/c.json") {
        CatalogSource::Remote(u) => assert_eq!(u, "https://x/c.json"),
        _ => panic!("remote expected"),
    }
    let ext = |id: &str| StoreExtension {
        id: id.to_string(),
        title: String::new(),
        description: String::new(),
        repo: "o/r".to_string(),
        version: None,
        path: None,
        builtin: false,
    };
    let shown = list_store(Ok(vec![]), Ok(vec![ext("embedded")])).unwrap();
    assert_eq!(shown[0].id, "embedded");
    let shown = list_store(Ok(vec![ext("remote")]), Ok(vec![ext("embedded")])).unwrap();
    assert_eq!(shown[0].id, "remote");
    assert!(list_store(Err("down".to_string()), Err("bad".to_string())).is_err());
    assert_eq!(install_dest(Some("/e".to_string()), "hello"), Ok("/e/hello".to_string()));
    assert_eq!(install_dest(None, "hello"), Err("Diretório de extensões indisponível".to_string()));
    assert_eq!(already_installed("x"), "Extensão 'x' já instalada");
    assert_eq!(clone_url("o/r"), "https://github.com/o/r.git");
    assert_eq!(archive_url("o/r"), "https://github.com/o/r/archive/refs/heads/main.tar.gz");
}
