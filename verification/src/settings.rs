//! System settings panels: found in `.desktop` files and a fixed list of
//! GNOME panels.

use vstd::prelude::*;
use crate::desktop_file::{key_value, normalized_exec, normalize_exec, split_key_value};
use crate::matchers::{fuzzy_score, skim_score};
use crate::order::{keyed_view, lemma_sort_lex_map, lemma_sort_lex_sorted, lex_lt, map_second, sort_by_text, sort_lex};
use crate::search::ranking::{
    build_result, result_views, scored_view, sort_by_score, sort_results, take_at_most,
    HistoryStats, ResultView,
};
use crate::search::types::{make_id, result_id, ResultKind, SearchResult};
use crate::text::{
    chars_eq, chars_of, clone_opt, contains, lines, lowercase, opt_view, replace_all,
    seq_contains, seq_lines, seq_replace, seq_starts_with, seq_trim, starts_with, string_of,
    to_lowercase, trimmed_chars, views, trim_bounds, slice_chars, cat3,
};

verus! {

/// A settings panel.
#[derive(Clone, Debug)]
pub struct SettingEntry {
    pub id: String,
    pub name: String,
    pub panel: String,
    pub icon: Option<String>,
}

/// The known settings panels, ordered by name.
pub struct SettingsIndex {
    pub entries: Vec<SettingEntry>,
}

/// The text of a settings panel's fields.
pub struct SettingView {
    pub id: Seq<char>,
    pub name: Seq<char>,
    pub panel: Seq<char>,
    pub icon: Option<Seq<char>>,
}

impl View for SettingEntry {
    type V = SettingView;

    open spec fn view(&self) -> SettingView {
        SettingView { id: self.id@, name: self.name@, panel: self.panel@, icon: opt_view(self.icon) }
    }
}

/// The views of a sequence of panels.
pub open spec fn setting_views(s: Seq<SettingEntry>) -> Seq<SettingView> {
    s.map_values(|e: SettingEntry| e@)
}

impl SettingEntry {
    /// A copy of the entry.
    pub fn duplicate(&self) -> (r: Self)
        ensures
            r == *self,
    {
        SettingEntry {
            id: self.id.clone(),
            name: self.name.clone(),
            panel: self.panel.clone(),
            icon: clone_opt(&self.icon),
        }
    }
}

/// The fixed GNOME panels: panel identifier and name.
pub open spec fn gnome_panels() -> Seq<(Seq<char>, Seq<char>)> {
    seq![
        ("wifi"@, "Wi-Fi"@),
        ("network"@, "Rede"@),
        ("bluetooth"@, "Bluetooth"@),
        ("background"@, "Plano de fundo"@),
        ("notifications"@, "Notificações"@),
        ("display"@, "Tela"@),
        ("sound"@, "Som"@),
        ("power"@, "Energia"@),
        ("privacy"@, "Privacidade e segurança"@),
        ("info"@, "Sobre"@),
        ("default-apps"@, "Aplicativos padrão"@),
        ("datetime"@, "Data e hora"@),
        ("keyboard"@, "Teclado"@),
        ("mouse"@, "Mouse"@),
        ("region"@, "Região e idioma"@),
        ("ubuntu"@, "Ubuntu"@),
    ]
}

/// The panel entry of a fixed GNOME panel.
pub open spec fn gnome_panel_view(p: (Seq<char>, Seq<char>)) -> SettingView {
    SettingView { id: p.0, name: p.1, panel: p.0, icon: Some("preferences-system"@) }
}

fn panel_entry(panel: &str, name: &str) -> (r: SettingEntry)
    ensures
        r@ == gnome_panel_view((panel@, name@)),
{
    SettingEntry {
        id: String::from_str(panel),
        name: String::from_str(name),
        panel: String::from_str(panel),
        icon: Some(String::from_str("preferences-system")),
    }
}

/// The fixed GNOME panels.
pub fn static_gnome_panels() -> (r: Vec<SettingEntry>)
    ensures
        setting_views(r@) == gnome_panels().map_values(
            |p: (Seq<char>, Seq<char>)| gnome_panel_view(p),
        ),
{
    let mut v: Vec<SettingEntry> = Vec::new();
    v.push(panel_entry("wifi", "Wi-Fi"));
    v.push(panel_entry("network", "Rede"));
    v.push(panel_entry("bluetooth", "Bluetooth"));
    v.push(panel_entry("background", "Plano de fundo"));
    v.push(panel_entry("notifications", "Notificações"));
    v.push(panel_entry("display", "Tela"));
    v.push(panel_entry("sound", "Som"));
    v.push(panel_entry("power", "Energia"));
    v.push(panel_entry("privacy", "Privacidade e segurança"));
    v.push(panel_entry("info", "Sobre"));
    v.push(panel_entry("default-apps", "Aplicativos padrão"));
    v.push(panel_entry("datetime", "Data e hora"));
    v.push(panel_entry("keyboard", "Teclado"));
    v.push(panel_entry("mouse", "Mouse"));
    v.push(panel_entry("region", "Região e idioma"));
    v.push(panel_entry("ubuntu", "Ubuntu"));
    assert(setting_views(v@) =~= gnome_panels().map_values(
        |p: (Seq<char>, Seq<char>)| gnome_panel_view(p),
    ));
    v
}

/// What a scan of a settings `.desktop` file has gathered so far.
pub struct SettingsScan {
    pub name: Option<Seq<char>>,
    pub command: Option<Seq<char>>,
    pub icon: Option<Seq<char>>,
    pub categories: Seq<char>,
    pub is_settings: bool,
}

/// One line of the scan: `Name`, `Exec`, `Icon`, `Categories` are kept;
/// `X-GNOME-Settings-Panel` marks a settings panel and gives its command.
pub open spec fn settings_step(st: SettingsScan, line: Seq<char>) -> SettingsScan {
    match key_value(seq_trim(line)) {
        Some((k, v)) => if k == "Name"@ {
            SettingsScan { name: Some(v), ..st }
        } else if k == "Exec"@ {
            SettingsScan { command: Some(v), ..st }
        } else if k == "Icon"@ {
            SettingsScan { icon: Some(v), ..st }
        } else if k == "Categories"@ {
            SettingsScan { categories: v, ..st }
        } else if k == "X-GNOME-Settings-Panel"@ {
            SettingsScan { is_settings: true, command: Some(v), ..st }
        } else {
            st
        },
        None => st,
    }
}

/// The scan of a whole file.
pub open spec fn settings_scan(content: Seq<char>) -> SettingsScan {
    seq_lines(content).fold_left(
        SettingsScan {
            name: None,
            command: None,
            icon: None,
            categories: Seq::empty(),
            is_settings: false,
        },
        |st: SettingsScan, l: Seq<char>| settings_step(st, l),
    )
}

/// The panel a `.desktop` file describes, if it is a settings panel with a
/// name: its command without field codes (or else the file stem without the
/// `gnome-control-center-` prefix) is both its identifier and its panel; the
/// icon is the raw `Icon` value.
pub open spec fn parsed_setting(content: Seq<char>, stem: Option<Seq<char>>) -> Option<
    SettingView,
> {
    let st = settings_scan(content);
    let s = match stem {
        Some(s) => s,
        None => Seq::empty(),
    };
    let kcm = seq_starts_with(s, "kcm_"@) || seq_starts_with(s, "kcmshell"@);
    if !st.is_settings && !seq_contains(lowercase(st.categories), "settings"@) && !kcm {
        None
    } else {
        match st.name {
            None => None,
            Some(name) => {
                let from_exec = match st.command {
                    Some(e) => if normalized_exec(e).len() > 0 {
                        Some(normalized_exec(e))
                    } else {
                        None
                    },
                    None => None,
                };
                let panel = match from_exec {
                    Some(p) => Some(p),
                    None => match stem {
                        Some(t) => Some(seq_replace(t, "gnome-control-center-"@, Seq::empty())),
                        None => None,
                    },
                };
                match panel {
                    Some(p) => Some(SettingView { id: p, name, panel: p, icon: st.icon }),
                    None => None,
                }
            },
        }
    }
}

/// The settings panel a `.desktop` file describes (see `parsed_setting`).
pub fn parse_settings_desktop(content: &str, file_stem: Option<String>) -> (r: Option<
    SettingEntry,
>)
    ensures
        match r {
            Some(e) => parsed_setting(content@, opt_view(file_stem)) == Some(e@),
            None => parsed_setting(content@, opt_view(file_stem)) is None,
        },
{
    let cv = chars_of(content);
    let ls = lines(cv.as_slice());
    let k_name = chars_of("Name");
    let k_exec = chars_of("Exec");
    let k_icon = chars_of("Icon");
    let k_cat = chars_of("Categories");
    let k_panel = chars_of("X-GNOME-Settings-Panel");
    let mut name: Option<Vec<char>> = None;
    let mut command: Option<Vec<char>> = None;
    let mut icon: Option<Vec<char>> = None;
    let mut categories: Vec<char> = Vec::new();
    let mut is_settings = false;
    let ghost f = |st: SettingsScan, l: Seq<char>| settings_step(st, l);
    let ghost lv = views(ls@);
    let mut i: usize = 0;
    while i < ls.len()
        invariant
            i <= ls@.len(),
            lv == views(ls@),
            lv == seq_lines(cv@),
            cv@ == content@,
            k_name@ == "Name"@,
            k_exec@ == "Exec"@,
            k_icon@ == "Icon"@,
            k_cat@ == "Categories"@,
            k_panel@ == "X-GNOME-Settings-Panel"@,
            f == (|st: SettingsScan, l: Seq<char>| settings_step(st, l)),
            lv.take(i as int).fold_left(
                SettingsScan {
                    name: None,
                    command: None,
                    icon: None,
                    categories: Seq::empty(),
                    is_settings: false,
                },
                f,
            ) == (SettingsScan {
                name: match name {
                    Some(x) => Some(x@),
                    None => None,
                },
                command: match command {
                    Some(x) => Some(x@),
                    None => None,
                },
                icon: match icon {
                    Some(x) => Some(x@),
                    None => None,
                },
                categories: categories@,
                is_settings,
            }),
        decreases ls.len() - i,
    {
        proof {
            assert(lv.take(i + 1).drop_last() =~= lv.take(i as int));
            assert(lv.take(i + 1).last() == ls@[i as int]@);
        }
        let (a, b) = trim_bounds(ls[i].as_slice());
        let line = slice_chars(ls[i].as_slice(), a, b);
        match split_key_value(line.as_slice()) {
            Some((k, v)) => {
                if chars_eq(k.as_slice(), k_name.as_slice()) {
                    name = Some(v);
                } else if chars_eq(k.as_slice(), k_exec.as_slice()) {
                    command = Some(v);
                } else if chars_eq(k.as_slice(), k_icon.as_slice()) {
                    icon = Some(v);
                } else if chars_eq(k.as_slice(), k_cat.as_slice()) {
                    categories = v;
                } else if chars_eq(k.as_slice(), k_panel.as_slice()) {
                    is_settings = true;
                    command = Some(v);
                }
            },
            None => {},
        }
        i = i + 1;
    }
    assert(lv.take(i as int) =~= lv);
    let stem_v = match &file_stem {
        Some(s) => chars_of(s.as_str()),
        None => Vec::new(),
    };
    let kcm = starts_with(stem_v.as_slice(), chars_of("kcm_").as_slice()) || starts_with(
        stem_v.as_slice(),
        chars_of("kcmshell").as_slice(),
    );
    let cat_lower = to_lowercase(string_of(categories.as_slice()).as_str());
    if !is_settings && !contains(
        chars_of(cat_lower.as_str()).as_slice(),
        chars_of("settings").as_slice(),
    ) && !kcm {
        return None;
    }
    let name = match name {
        Some(n) => n,
        None => return None,
    };
    let from_exec = match &command {
        Some(e) => {
            let p = normalize_exec(e.as_slice());
            if p.len() > 0 {
                Some(p)
            } else {
                None
            }
        },
        None => None,
    };
    let panel = match from_exec {
        Some(p) => p,
        None => match &file_stem {
            Some(t) => {
                let pat = chars_of("gnome-control-center-");
                proof {
                    reveal_strlit("gnome-control-center-");
                }
                let empty: Vec<char> = Vec::new();
                replace_all(chars_of(t.as_str()).as_slice(), pat.as_slice(), empty.as_slice())
            },
            None => return None,
        },
    };
    let panel_s = string_of(panel.as_slice());
    Some(
        SettingEntry {
            id: panel_s.clone(),
            name: string_of(name.as_slice()),
            panel: panel_s,
            icon: match icon {
                Some(x) => Some(string_of(x.as_slice())),
                None => None,
            },
        },
    )
}

/// The panels ordered by name, then without a panel that repeats the one
/// kept just before it.
pub open spec fn dedup_panels(s: Seq<SettingView>) -> Seq<SettingView>
    decreases s.len(),
{
    if s.len() == 0 {
        s
    } else {
        let d = dedup_panels(s.drop_last());
        if d.len() > 0 && d.last().panel == s.last().panel {
            d
        } else {
            d.push(s.last())
        }
    }
}

/// The index `new` builds from scanned panels: scanned ones, then the
/// fixed GNOME panels; ordered by name (stable), then deduplicated by panel.
pub open spec fn settings_index(scanned: Seq<SettingView>) -> Seq<SettingView> {
    let all = scanned + gnome_panels().map_values(|p: (Seq<char>, Seq<char>)| gnome_panel_view(p));
    dedup_panels(
        sort_lex(all.map_values(|e: SettingView| (e.name, e))).map_values(
            |p: (Seq<char>, SettingView)| p.1,
        ),
    )
}

/// The result a panel gives for the trimmed query `q`: a fuzzy match of its
/// name.
pub open spec fn setting_hit(e: SettingView, q: Seq<char>, h: HistoryStats) -> Option<ResultView> {
    match skim_score(e.name, q) {
        Some(score) => Some(
            scored_view(
                result_id(ResultKind::Setting, e.panel),
                ResultKind::Setting,
                e.name,
                Some("Configurações do sistema"@),
                e.icon,
                score,
                q,
                h,
            ),
        ),
        None => None,
    }
}

/// The results of a search over `entries`.
pub open spec fn setting_results(
    entries: Seq<SettingView>,
    query: Seq<char>,
    h: HistoryStats,
    limit: int,
) -> Seq<ResultView> {
    let q = seq_trim(query);
    if q.len() == 0 {
        Seq::empty()
    } else {
        take_at_most(
            sort_by_score(entries.filter_map(|e: SettingView| setting_hit(e, q, h))),
            limit,
        )
    }
}

/// The first panel whose panel or identifier is `key`.
pub open spec fn setting_for(entries: Seq<SettingView>, key: Seq<char>) -> Option<SettingView>
    decreases entries.len(),
{
    if entries.len() == 0 {
        None
    } else if entries[0].panel == key || entries[0].id == key {
        Some(entries[0])
    } else {
        setting_for(entries.drop_first(), key)
    }
}

impl SettingsIndex {
    /// The index of the scanned panels and the fixed GNOME panels (see
    /// `settings_index`).
    pub fn new(scanned: Vec<SettingEntry>) -> (r: Self)
        ensures
            setting_views(r.entries@) == settings_index(setting_views(scanned@)),
    {
        let mut all = scanned;
        let ghost sv = setting_views(all@);
        let mut fixed = static_gnome_panels();
        let ghost fv = setting_views(fixed@);
        all.append(&mut fixed);
        let ghost allv = sv + fv;
        assert(setting_views(all@) =~= allv);
        let mut keyed: Vec<(Vec<char>, SettingEntry)> = Vec::new();
        let ghost orig = all@;
        let total = all.len();
        let mut n: usize = 0;
        while all.len() > 0
            invariant
                n + all@.len() == orig.len(),
                orig.len() == total,
                all@ == orig.subrange(n as int, orig.len() as int),
                keyed@.len() == n,
                forall|k: int|
                    0 <= k < n ==> (#[trigger] keyed@[k]).0@ == orig[k].name@ && keyed@[k].1
                        == orig[k],
            decreases all.len(),
        {
            let e = all.remove(0);
            let key = chars_of(e.name.as_str());
            keyed.push((key, e));
            assert(all@ =~= orig.subrange(n + 1, orig.len() as int));
            n = n + 1;
        }
        let sorted = sort_by_text(keyed);
        let ghost g = |e: SettingEntry| e@;
        proof {
            let kv = keyed_view(keyed@);
            let target = setting_views(orig).map_values(|e: SettingView| (e.name, e));
            assert(map_second(kv, g) =~= target);
            lemma_sort_lex_map(kv, g);
            let sk = keyed_view(sorted@);
            assert(setting_views(sk.map_values(|p: (Seq<char>, SettingEntry)| p.1)) =~= map_second(
                sk,
                g,
            ).map_values(|p: (Seq<char>, SettingView)| p.1));
            assert(setting_views(orig) =~= setting_views(scanned@) + gnome_panels().map_values(
                |p: (Seq<char>, Seq<char>)| gnome_panel_view(p),
            ));
        }
        let mut out: Vec<SettingEntry> = Vec::new();
        let mut i: usize = 0;
        let ghost sv2 = setting_views(
            keyed_view(sorted@).map_values(|p: (Seq<char>, SettingEntry)| p.1),
        );
        while i < sorted.len()
            invariant
                i <= sorted@.len(),
                sv2 == setting_views(
                    keyed_view(sorted@).map_values(|p: (Seq<char>, SettingEntry)| p.1),
                ),
                setting_views(out@) == dedup_panels(sv2.take(i as int)),
            decreases sorted.len() - i,
        {
            let e = &sorted[i].1;
            proof {
                assert(sv2.take(i + 1).drop_last() =~= sv2.take(i as int));
                assert(sv2.take(i + 1).last() == e@);
            }
            let keep = if out.len() > 0 {
                let last = &out[out.len() - 1];
                !chars_eq(chars_of(last.panel.as_str()).as_slice(), chars_of(e.panel.as_str()).as_slice())
            } else {
                true
            };
            if keep {
                let ghost before = out@;
                out.push(e.duplicate());
                assert(setting_views(out@) =~= setting_views(before).push(e@));
            }
            i = i + 1;
        }
        assert(sv2.take(i as int) =~= sv2);
        SettingsIndex { entries: out }
    }

    /// A copy of the first panel whose panel or identifier is `panel`.
    pub fn get(&self, panel: &str) -> (r: Option<SettingEntry>)
        ensures
            match setting_for(setting_views(self.entries@), panel@) {
                Some(v) => r matches Some(e) && e@ == v,
                None => r is None,
            },
    {
        let key = chars_of(panel);
        let ghost all = setting_views(self.entries@);
        let mut i: usize = 0;
        assert(all.subrange(0, all.len() as int) =~= all);
        while i < self.entries.len()
            invariant
                i <= self.entries@.len(),
                key@ == panel@,
                all == setting_views(self.entries@),
                setting_for(all, panel@) == setting_for(
                    all.subrange(i as int, all.len() as int),
                    panel@,
                ),
            decreases self.entries.len() - i,
        {
            let ghost rest = all.subrange(i as int, all.len() as int);
            let e = &self.entries[i];
            if chars_eq(chars_of(e.panel.as_str()).as_slice(), key.as_slice()) || chars_eq(
                chars_of(e.id.as_str()).as_slice(),
                key.as_slice(),
            ) {
                return Some(e.duplicate());
            }
            assert(rest.drop_first() =~= all.subrange(i + 1, all.len() as int));
            i = i + 1;
        }
        None
    }

    /// The panels whose name matches `query`, best first, at most `limit`.
    pub fn search(&self, query: &str, history: &HistoryStats, limit: usize) -> (r: Vec<
        SearchResult,
    >)
        ensures
            result_views(r@) == setting_results(
                setting_views(self.entries@),
                query@,
                *history,
                limit as int,
            ),
    {
        let qv = trimmed_chars(query);
        if qv.len() == 0 {
            let r: Vec<SearchResult> = Vec::new();
            assert(result_views(r@) =~= Seq::<ResultView>::empty());
            return r;
        }
        let q = string_of(qv.as_slice());
        let ghost all = setting_views(self.entries@);
        let ghost f = |e: SettingView| setting_hit(e, q@, *history);
        let mut results: Vec<SearchResult> = Vec::new();
        let mut i: usize = 0;
        assert(result_views(results@) =~= all.take(0).filter_map(f));
        while i < self.entries.len()
            invariant
                i <= self.entries@.len(),
                all == setting_views(self.entries@),
                q@ == seq_trim(query@),
                f == (|e: SettingView| setting_hit(e, q@, *history)),
                result_views(results@) == all.take(i as int).filter_map(f),
            decreases self.entries.len() - i,
        {
            let ghost before = results@;
            proof {
                assert(all.take(i + 1).drop_last() =~= all.take(i as int));
                assert(all.take(i + 1).last() == self.entries@[i as int]@);
            }
            let e = &self.entries[i];
            match fuzzy_score(e.name.as_str(), q.as_str()) {
                Some(score) => {
                    let x = build_result(
                        make_id(ResultKind::Setting, e.panel.as_str()),
                        ResultKind::Setting,
                        e.name.clone(),
                        Some(String::from_str("Configurações do sistema")),
                        clone_opt(&e.icon),
                        score,
                        q.as_str(),
                        history,
                    );
                    results.push(x);
                    assert(result_views(results@) =~= result_views(before) + seq![x@]);
                },
                None => {},
            }
            i = i + 1;
        }
        assert(all.take(i as int) =~= all);
        sort_results(&mut results);
        results.truncate(limit);
        results
    }
}

/// The files a settings panel's icon may be, in the order tried: the
/// scalable one, then the one in `pixmaps`. The icon is the first that
/// exists.
pub fn setting_icon_candidates(icon: &str) -> (r: Vec<String>)
    ensures
        r@.len() == 2,
        r@[0]@ == "/usr/share/icons/hicolor/scalable/apps/"@ + icon@ + ".svg"@,
        r@[1]@ == "/usr/share/pixmaps/"@ + icon@ + ".png"@,
{
    let mut r: Vec<String> = Vec::new();
    r.push(cat3("/usr/share/icons/hicolor/scalable/apps/", icon, ".svg"));
    r.push(cat3("/usr/share/pixmaps/", icon, ".png"));
    r
}

/// The programs tried, in order, to open a settings panel: each is given
/// the panel as its argument until one starts.
pub open spec fn panel_openers() -> Seq<Seq<char>> {
    seq!["gnome-control-center"@, "systemsettings"@, "kcmshell6"@]
}

/// The programs tried to open a settings panel (see `panel_openers`).
pub fn setting_openers() -> (r: Vec<&'static str>)
    ensures
        r@.map_values(|s: &'static str| s@) == panel_openers(),
{
    let mut r: Vec<&'static str> = Vec::new();
    r.push("gnome-control-center");
    r.push("systemsettings");
    r.push("kcmshell6");
    assert(r@.map_values(|s: &'static str| s@) =~= panel_openers());
    r
}

/// What `xdg-open` is given when no settings program starts.
pub fn panel_desktop_file(panel: &str) -> (r: String)
    ensures
        r@ == "gnome-control-center-"@ + panel@ + ".desktop"@,
{
    cat3("gnome-control-center-", panel, ".desktop")
}


/// Whether panels are in order of name.
pub open spec fn panels_ordered(s: Seq<SettingView>) -> bool {
    forall|i: int, j: int| #![trigger s[i], s[j]] 0 <= i < j < s.len() ==> !lex_lt(s[j].name, s[i].name)
}

/// Whether no panel directly follows an entry for the same panel.
pub open spec fn no_adjacent_panel(s: Seq<SettingView>) -> bool {
    forall|k: int| 0 <= k < s.len() - 1 ==> #[trigger] s[k].panel != s[k + 1].panel
}

proof fn lemma_dedup_panels(s: Seq<SettingView>)
    ensures
        forall|k: int| 0 <= k < dedup_panels(s).len() ==> s.contains(#[trigger] dedup_panels(s)[k]),
        no_adjacent_panel(dedup_panels(s)),
        panels_ordered(s) ==> panels_ordered(dedup_panels(s)),
        s.len() > 0 ==> dedup_panels(s).len() > 0,
    decreases s.len(),
{
    if s.len() > 0 {
        let t = s.drop_last();
        lemma_dedup_panels(t);
        let d = dedup_panels(t);
        let r = dedup_panels(s);
        assert forall|k: int| 0 <= k < r.len() implies s.contains(#[trigger] r[k]) by {
            if k < d.len() {
                assert(r[k] == d[k]);
                assert(t.contains(d[k]));
                let m = choose|m: int| 0 <= m < t.len() && t[m] == d[k];
                assert(s[m] == t[m]);
            } else {
                assert(r[k] == s.last());
                assert(s[s.len() - 1] == s.last());
            }
        }
        if panels_ordered(s) {
            assert forall|i: int, j: int| #![trigger t[i], t[j]] 0 <= i < j < t.len() implies !lex_lt(
                t[j].name,
                t[i].name,
            ) by {
                assert(t[i] == s[i] && t[j] == s[j]);
            }
            assert forall|i: int, j: int| #![trigger r[i], r[j]] 0 <= i < j < r.len() implies !lex_lt(
                r[j].name,
                r[i].name,
            ) by {
                if j < d.len() {
                    assert(r[i] == d[i] && r[j] == d[j]);
                } else {
                    assert(r[j] == s.last());
                    assert(r[i] == d[i]);
                    assert(t.contains(d[i]));
                    let m = choose|m: int| 0 <= m < t.len() && t[m] == d[i];
                    assert(s[m] == t[m]);
                    assert(s[s.len() - 1] == s.last());
                }
            }
        }
        assert forall|k: int| 0 <= k < r.len() - 1 implies #[trigger] r[k].panel != r[k + 1].panel by {
            if k + 1 < d.len() {
                assert(r[k] == d[k] && r[k + 1] == d[k + 1]);
            } else {
                assert(r[k] == d.last());
                assert(r[k + 1] == s.last());
            }
        }
    }
}

/// The index lists the settings panels in order of name, and never lists a
/// panel right after an entry for the same panel.
pub proof fn lemma_settings_index_ordered(scanned: Seq<SettingView>)
    ensures
        panels_ordered(settings_index(scanned)),
        no_adjacent_panel(settings_index(scanned)),
{
    let all = scanned + gnome_panels().map_values(|p: (Seq<char>, Seq<char>)| gnome_panel_view(p));
    let keyed = all.map_values(|e: SettingView| (e.name, e));
    let sorted = sort_lex(keyed);
    lemma_sort_lex_sorted(keyed);
    let v = sorted.map_values(|p: (Seq<char>, SettingView)| p.1);
    assert forall|k: int| 0 <= k < sorted.len() implies (#[trigger] sorted[k]).0 == sorted[k].1.name by {
        assert(keyed.contains(sorted[k]));
        let m = choose|m: int| 0 <= m < keyed.len() && keyed[m] == sorted[k];
    }
    assert forall|i: int, j: int| #![trigger v[i], v[j]] 0 <= i < j < v.len() implies !lex_lt(
        v[j].name,
        v[i].name,
    ) by {
        assert(v[i] == sorted[i].1 && v[j] == sorted[j].1);
        assert(sorted[i].0 == sorted[i].1.name);
        assert(sorted[j].0 == sorted[j].1.name);
    }
    lemma_dedup_panels(v);
}

} // verus!
