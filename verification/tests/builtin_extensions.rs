use spotlight::extensions::builtin::{
    AiExtension, CalculatorExtension, DockerExtension, EmojiExtension, GitExtension, IntegrationsExtension,
    SystemdExtension, TranslateExtension, TranslatePlan,
};
use spotlight::search::ranking::HistoryStats;
use spotlight::quick_answers::QuickAnswer;

fn h() -> HistoryStats {
    HistoryStats { entries: Vec::new() }
}

fn strs(v: &[String]) -> Vec<&str> {
    v.iter().map(|s| s.as_str()).collect()
}

#[test]
fn emoji_by_tags() {
    let e = EmojiExtension;
    let all = e.search("", &h(), 100);
    assert!(all.len() > 5);
    let smile = e.search("  SMILE ", &h(), 10);
    assert!(!smile.is_empty());
    assert!(smile.iter().all(|r| r.id.starts_with("extension:emoji:")));
    assert_eq!(e.search("", &h(), 3).len(), 3);
    assert_eq!(e.run("emoji:🎉"), ("🎉".to_string(), "Copiado 🎉".to_string()));
    assert_eq!(e.run("x"), ("x".to_string(), "Copiado x".to_string()));
    assert_eq!(e.id(), "emoji");
    assert_eq!(strs(&e.keywords()), vec!["emoji", "e "]);
}

#[test]
fn translation_requests() {
    let t = TranslateExtension;
    let r = t.search("tr  bom dia ", &h(), 5);
    assert_eq!(r.len(), 1);
    assert_eq!(r[0].id, "extension:translate:bom dia");
    assert_eq!(r[0].title, "Traduzir \"bom dia\"");
    assert!(t.search("tr ", &h(), 5).is_empty());
    match t.run("translate:bom dia", None, "en") {
        TranslatePlan::OpenUrl(u) => assert_eq!(u, "https://translate.google.com/?sl=auto&tl=en&text=bom+dia"),
        _ => panic!("address expected"),
    }
    match t.run("translate:oi", Some("http://lt".to_string()), "en") {
        TranslatePlan::Service { endpoint, text, target } => {
            assert_eq!(endpoint, "http://lt/translate");
            assert_eq!(text, "oi");
            assert_eq!(target, "en");
        }
        _ => panic!("service expected"),
    }
}

#[test]
fn assistant_requests() {
    let off = AiExtension::new(false);
    assert!(off.search("ai hello", &h(), 5).is_empty());
    assert_eq!(off.run("ai:x", None, None).err().unwrap(), "IA desabilitada nas configurações");
    let on = AiExtension::new(true);
    let r = on.search("ai ", &h(), 5);
    assert_eq!(r[0].id, "extension:ai:prompt");
    let r = on.search("> ask why", &h(), 5);
    assert_eq!(r[0].title, "Perguntar: why");
    let q = on.run("ai:why", None, None).unwrap();
    assert_eq!(q.prompt, "why");
    assert_eq!(q.endpoint, "http://localhost:11434/api/generate");
    assert!(!q.via_api);
    let q = on.run("ai:why", Some("https://api".to_string()), Some("http://o".to_string())).unwrap();
    assert!(q.via_api);
    assert_eq!(q.endpoint, "https://api");
}

#[test]
fn integrations_offered_and_run() {
    let i = IntegrationsExtension;
    assert_eq!(i.search("", &h(), 10).len(), 3);
    let shots = i.search("Print", &h(), 10);
    assert_eq!(shots.len(), 2);
    assert_eq!(shots[0].id, "extension:integrations:flameshot");
    assert_eq!(i.search("calend", &h(), 10).len(), 1);
    let (argv, msg) = i.run("integrations:grim").unwrap();
    assert_eq!(argv, vec!["sh", "-c", "grim -g \"$(slurp)\""]);
    assert_eq!(msg, "grim iniciado");
    assert_eq!(i.run("integrations:x").err().unwrap(), "Integração desconhecida");
}

#[test]
fn calculator_result_of_answer() {
    let c = CalculatorExtension;
    let qa = QuickAnswer { kind: "calculator".to_string(), label: "=".to_string(), value: "4".to_string(), hint: None };
    let r = c.search(Some(qa), "2+2", &h());
    assert_eq!(r[0].id, "extension:calc:4");
    assert_eq!(r[0].title, "= = 4");
    assert!(c.search(None, "x", &h()).is_empty());
    assert_eq!(c.run("calc:4"), Ok("4".to_string()));
    assert_eq!(c.run("4"), Err("Sem resultado".to_string()));
}

#[test]
fn docker_and_systemd_lines() {
    let d = DockerExtension;
    let out = "abc123\tweb\tUp 2 hours\n\nfff\tdb\tExited\n";
    let r = d.search(out, "WEB", &h(), 5);
    assert_eq!(r.len(), 1);
    assert_eq!(r[0].id, "extension:docker:abc123");
    assert_eq!(r[0].title, "web");
    assert_eq!(r[0].subtitle.as_deref(), Some("Up 2 hours"));
    assert_eq!(d.search(out, "", &h(), 5).len(), 2);
    assert_eq!(d.run("docker:abc123").unwrap(), vec!["docker", "logs", "--tail", "50", "abc123"]);
    assert_eq!(d.run("nope").err().unwrap(), "Container não encontrado");
    let s = SystemdExtension;
    let units = "pipewire.service loaded active running PipeWire\nsyncthing.service loaded active running Sync\n";
    let r = s.search(units, "sync", &h(), 5);
    assert_eq!(r.len(), 1);
    assert_eq!(r[0].title, "syncthing.service");
    let (argv, msg) = s.run("systemd:syncthing.service", "").unwrap();
    assert_eq!(argv, vec!["systemctl", "--user", "restart", "syncthing.service"]);
    assert_eq!(msg, "restart syncthing.service");
    let (argv, _) = s.run("systemd:x", "stop").unwrap();
    assert_eq!(argv[2], "stop");
    assert_eq!(s.run("x", "").err().unwrap(), "Serviço não encontrado");
}

#[test]
fn git_status_and_branches() {
    let g = GitExtension;
    assert!(g.wants_status(""));
    assert!(g.wants_status("git"));
    assert!(!g.wants_status("branch"));
    assert!(g.wants_branches("branch"));
    let r = g.search("", Some(" M src/lib.rs\n\n?? new.txt\n"), Some("* main\n  dev\n"), &h(), 10);
    let ids: Vec<&str> = r.iter().map(|x| x.id.as_str()).collect();
    assert_eq!(ids, vec!["extension:git:status:0", "extension:git:status:2", "extension:git:branch:main", "extension:git:branch:dev"]);
    assert_eq!(r[0].title, "M src/lib.rs");
    let only_branches = g.search("branch", None, Some("* main\n"), &h(), 10);
    assert_eq!(only_branches.len(), 1);
    let p = g.run("git:branch:dev");
    assert_eq!(p.command.unwrap(), vec!["git", "checkout", "dev"]);
    assert_eq!(p.message, "Checkout dev");
    let p = g.run("git:status:0");
    assert!(p.command.is_none());
    assert_eq!(p.message, "Git");
}
