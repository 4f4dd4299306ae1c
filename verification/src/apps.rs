//! Installed applications: read from `.desktop` files, ordered by name and
//! searched by name.

use vstd::prelude::*;
use crate::desktop_file::{key_value, normalized_exec, normalize_exec, split_key_value};
use crate::matchers::{fuzzy_score, skim_score};
use crate::paths::{file_stem_of, path_file_stem};
use crate::order::{keyed_view, lemma_sort_lex_map, lemma_sort_lex_sorted, lex_lt, map_second, sort_by_text, sort_lex};
use crate::search::ranking::{
    build_result, result_views, scored_view, sort_by_score, sort_results, take_at_most,
    HistoryStats, ResultView,
};
use crate::search::types::{make_id, result_id, ResultKind, SearchResult};
use crate::text::{
    cat, cat3, chars_eq, chars_of, clone_opt, contains, lines, lowercase, opt_view, seq_contains, seq_lines,
    seq_trim, slice_chars, string_of, to_lowercase, trim_bounds, trimmed_chars, views,
};
use crate::text::{is_ws, lemma_find_char_bound, lemma_trim_ends, seq_find_char, seq_trim_end, seq_trim_start};

verus! {

/// An installed application. `command` is the `Exec` line without field
/// codes.
#[derive(Clone, Debug)]
pub struct AppEntry {
    pub id: String,
    pub name: String,
    pub command: String,
    pub icon: Option<String>,
    pub desktop_path: String,
    pub comment: Option<String>,
}

/// The installed applications, ordered by lowercase name.
pub struct AppIndex {
    apps: Vec<AppEntry>,
}

/// The text of an application's fields.
pub struct AppView {
    pub id: Seq<char>,
    pub name: Seq<char>,
    pub command: Seq<char>,
    pub icon: Option<Seq<char>>,
    pub desktop_path: Seq<char>,
    pub comment: Option<Seq<char>>,
}

impl View for AppEntry {
    type V = AppView;

    open spec fn view(&self) -> AppView {
        AppView {
            id: self.id@,
            name: self.name@,
            command: self.command@,
            icon: opt_view(self.icon),
            desktop_path: self.desktop_path@,
            comment: opt_view(self.comment),
        }
    }
}

/// The views of a sequence of applications.
pub open spec fn app_views(s: Seq<AppEntry>) -> Seq<AppView> {
    s.map_values(|e: AppEntry| e@)
}

impl AppEntry {
    /// A copy of the entry.
    pub fn duplicate(&self) -> (r: Self)
        ensures
            r == *self,
    {
        AppEntry {
            id: self.id.clone(),
            name: self.name.clone(),
            command: self.command.clone(),
            icon: clone_opt(&self.icon),
            desktop_path: self.desktop_path.clone(),
            comment: clone_opt(&self.comment),
        }
    }
}

/// What a scan of a `.desktop` file has gathered so far.
pub struct AppScan {
    /// Inside the `[Desktop Entry]` group.
    pub in_entry: bool,
    /// The file describes a settings panel and is no application.
    pub rejected: bool,
    pub is_app: bool,
    pub name: Option<Seq<char>>,
    pub command: Option<Seq<char>>,
    pub icon: Option<Seq<char>>,
    pub comment: Option<Seq<char>>,
    pub categories: Seq<char>,
    pub no_display: bool,
    pub hidden: bool,
}

/// The scan before the first line.
pub open spec fn app_scan_start() -> AppScan {
    AppScan {
        in_entry: false,
        rejected: false,
        is_app: false,
        name: None,
        command: None,
        icon: None,
        comment: None,
        categories: Seq::empty(),
        no_display: false,
        hidden: false,
    }
}

/// A `key=value` line of the `[Desktop Entry]` group.
pub open spec fn app_entry_key(st: AppScan, k: Seq<char>, v: Seq<char>) -> AppScan {
    if k == "Type"@ {
        AppScan { is_app: v == "Application"@, ..st }
    } else if k == "Name"@ {
        AppScan { name: Some(v), ..st }
    } else if k == "Exec"@ {
        AppScan { command: Some(normalized_exec(v)), ..st }
    } else if k == "Icon"@ {
        AppScan { icon: Some(v), ..st }
    } else if k == "Comment"@ {
        AppScan { comment: Some(v), ..st }
    } else if k == "Categories"@ {
        AppScan { categories: v, ..st }
    } else if k == "NoDisplay"@ {
        AppScan { no_display: v == "true"@, ..st }
    } else if k == "Hidden"@ {
        AppScan { hidden: v == "true"@, ..st }
    } else if k == "X-GNOME-Settings-Panel"@ {
        AppScan { rejected: true, ..st }
    } else {
        st
    }
}

/// One line of the scan. A `[Desktop Entry]` header opens the group, any
/// other `[...]` header closes it; only lines inside it are read, and the
/// scan stops once the file turned out to be a settings panel.
pub open spec fn app_step(st: AppScan, raw: Seq<char>) -> AppScan {
    let line = seq_trim(raw);
    if st.rejected {
        st
    } else if line == "[Desktop Entry]"@ {
        AppScan { in_entry: true, ..st }
    } else {
        let inside = if line.len() > 0 && line[0] == '[' {
            false
        } else {
            st.in_entry
        };
        let st2 = AppScan { in_entry: inside, ..st };
        if !inside {
            st2
        } else {
            match key_value(line) {
                Some((k, v)) => app_entry_key(st2, k, v),
                None => st2,
            }
        }
    }
}

/// The scan of a whole file.
pub open spec fn app_scan(content: Seq<char>) -> AppScan {
    seq_lines(content).fold_left(app_scan_start(), |st: AppScan, l: Seq<char>| app_step(st, l))
}

/// The application a `.desktop` file describes: a visible `Application`
/// that is no settings panel, with a name and a non-empty command. Its
/// identifier is the file stem; the icon is the raw `Icon` value.
pub open spec fn parsed_app(content: Seq<char>, stem: Seq<char>, path: Seq<char>) -> Option<
    AppView,
> {
    let st = app_scan(content);
    if st.rejected || !st.is_app || st.no_display || st.hidden {
        None
    } else if seq_contains(lowercase(st.categories), "settings"@) {
        None
    } else {
        match (st.name, st.command) {
            (Some(name), Some(command)) => if command.len() == 0 {
                None
            } else {
                Some(
                    AppView {
                        id: stem,
                        name,
                        command,
                        icon: st.icon,
                        desktop_path: path,
                        comment: st.comment,
                    },
                )
            },
            _ => None,
        }
    }
}

/// The scan state, held in vectors.
struct AppScanState {
    in_entry: bool,
    rejected: bool,
    is_app: bool,
    name: Option<Vec<char>>,
    command: Option<Vec<char>>,
    icon: Option<Vec<char>>,
    comment: Option<Vec<char>>,
    categories: Vec<char>,
    no_display: bool,
    hidden: bool,
}

/// The view of an optional vector.
pub open spec fn opt_chars(o: Option<Vec<char>>) -> Option<Seq<char>> {
    match o {
        Some(v) => Some(v@),
        None => None,
    }
}

impl View for AppScanState {
    type V = AppScan;

    closed spec fn view(&self) -> AppScan {
        AppScan {
            in_entry: self.in_entry,
            rejected: self.rejected,
            is_app: self.is_app,
            name: opt_chars(self.name),
            command: opt_chars(self.command),
            icon: opt_chars(self.icon),
            comment: opt_chars(self.comment),
            categories: self.categories@,
            no_display: self.no_display,
            hidden: self.hidden,
        }
    }
}

fn is_text(v: &[char], s: &str) -> (r: bool)
    ensures
        r == (v@ == s@),
{
    chars_eq(v, chars_of(s).as_slice())
}

fn app_key(st: &mut AppScanState, k: &[char], v: Vec<char>)
    ensures
        final(st)@ == app_entry_key(old(st)@, k@, v@),
{
    if is_text(k, "Type") {
        st.is_app = is_text(v.as_slice(), "Application");
    } else if is_text(k, "Name") {
        st.name = Some(v);
    } else if is_text(k, "Exec") {
        st.command = Some(normalize_exec(v.as_slice()));
    } else if is_text(k, "Icon") {
        st.icon = Some(v);
    } else if is_text(k, "Comment") {
        st.comment = Some(v);
    } else if is_text(k, "Categories") {
        st.categories = v;
    } else if is_text(k, "NoDisplay") {
        st.no_display = is_text(v.as_slice(), "true");
    } else if is_text(k, "Hidden") {
        st.hidden = is_text(v.as_slice(), "true");
    } else if is_text(k, "X-GNOME-Settings-Panel") {
        st.rejected = true;
    }
}

fn app_line(st: &mut AppScanState, raw: &[char])
    ensures
        final(st)@ == app_step(old(st)@, raw@),
{
    if st.rejected {
        return;
    }
    let (a, b) = trim_bounds(raw);
    let line = slice_chars(raw, a, b);
    if is_text(line.as_slice(), "[Desktop Entry]") {
        st.in_entry = true;
        return;
    }
    if line.len() > 0 && line[0] == '[' {
        st.in_entry = false;
    }
    if !st.in_entry {
        return;
    }
    match split_key_value(line.as_slice()) {
        Some((k, v)) => app_key(st, k.as_slice(), v),
        None => {},
    }
}

/// The application a `.desktop` file with the given content, file stem and
/// path describes (see `parsed_app`).
pub fn parse_desktop_file(content: &str, file_stem: &str, desktop_path: &str) -> (r: Option<
    AppEntry,
>)
    ensures
        match r {
            Some(e) => parsed_app(content@, file_stem@, desktop_path@) == Some(e@),
            None => parsed_app(content@, file_stem@, desktop_path@) is None,
        },
{
    let cv = chars_of(content);
    let ls = lines(cv.as_slice());
    let mut st = AppScanState {
        in_entry: false,
        rejected: false,
        is_app: false,
        name: None,
        command: None,
        icon: None,
        comment: None,
        categories: Vec::new(),
        no_display: false,
        hidden: false,
    };
    let ghost f = |s: AppScan, l: Seq<char>| app_step(s, l);
    let ghost lv = views(ls@);
    assert(st@ == app_scan_start());
    let mut i: usize = 0;
    while i < ls.len()
        invariant
            i <= ls@.len(),
            lv == views(ls@),
            lv == seq_lines(cv@),
            cv@ == content@,
            f == (|s: AppScan, l: Seq<char>| app_step(s, l)),
            lv.take(i as int).fold_left(app_scan_start(), f) == st@,
        decreases ls.len() - i,
    {
        proof {
            assert(lv.take(i + 1).drop_last() =~= lv.take(i as int));
            assert(lv.take(i + 1).last() == ls@[i as int]@);
        }
        app_line(&mut st, ls[i].as_slice());
        i = i + 1;
    }
    assert(lv.take(i as int) =~= lv);
    if st.rejected || !st.is_app || st.no_display || st.hidden {
        return None;
    }
    let cat_lower = to_lowercase(string_of(st.categories.as_slice()).as_str());
    if contains(chars_of(cat_lower.as_str()).as_slice(), chars_of("settings").as_slice()) {
        return None;
    }
    match (st.name, st.command) {
        (Some(name), Some(command)) => {
            if command.len() == 0 {
                None
            } else {
                Some(
                    AppEntry {
                        id: String::from_str(file_stem),
                        name: string_of(name.as_slice()),
                        command: string_of(command.as_slice()),
                        icon: match st.icon {
                            Some(x) => Some(string_of(x.as_slice())),
                            None => None,
                        },
                        desktop_path: String::from_str(desktop_path),
                        comment: match st.comment {
                            Some(x) => Some(string_of(x.as_slice())),
                            None => None,
                        },
                    },
                )
            }
        },
        _ => None,
    }
}

/// The applications ordered by lowercase name, then without an application
/// whose command and name repeat those of the one kept just before it.
pub open spec fn dedup_apps(s: Seq<AppView>) -> Seq<AppView>
    decreases s.len(),
{
    if s.len() == 0 {
        s
    } else {
        let d = dedup_apps(s.drop_last());
        if d.len() > 0 && d.last().command == s.last().command && d.last().name == s.last().name {
            d
        } else {
            d.push(s.last())
        }
    }
}

/// The index `new` builds: ordered by lowercase name (stable), then
/// deduplicated by command and name.
pub open spec fn app_index(scanned: Seq<AppView>) -> Seq<AppView> {
    dedup_apps(
        sort_lex(scanned.map_values(|e: AppView| (lowercase(e.name), e))).map_values(
            |p: (Seq<char>, AppView)| p.1,
        ),
    )
}

/// The result an application gives for the trimmed, non-empty query `q`: a
/// fuzzy match of its name.
pub open spec fn app_hit(e: AppView, q: Seq<char>, h: HistoryStats) -> Option<ResultView> {
    match skim_score(e.name, q) {
        Some(score) => Some(app_result(e, score, q, h)),
        None => None,
    }
}

/// The result for an application with fuzzy score `score`.
pub open spec fn app_result(e: AppView, score: i64, q: Seq<char>, h: HistoryStats) -> ResultView {
    scored_view(result_id(ResultKind::App, e.id), ResultKind::App, e.name, e.comment, e.icon, score, q, h)
}

/// The results of a search: for an empty (trimmed) query the first `limit`
/// applications with score 50, else the applications whose name matches;
/// best first, at most `limit`.
pub open spec fn app_results(apps: Seq<AppView>, query: Seq<char>, h: HistoryStats, limit: int) -> Seq<
    ResultView,
> {
    let q = seq_trim(query);
    let found = if q.len() == 0 {
        take_at_most(apps, limit).map_values(|e: AppView| app_result(e, 50, q, h))
    } else {
        apps.filter_map(|e: AppView| app_hit(e, q, h))
    };
    take_at_most(sort_by_score(found), limit)
}

/// The first application with identifier `id`.
pub open spec fn app_for(apps: Seq<AppView>, id: Seq<char>) -> Option<int>
    decreases apps.len(),
{
    if apps.len() == 0 {
        None
    } else if apps[0].id == id {
        Some(0)
    } else {
        match app_for(apps.drop_first(), id) {
            Some(i) => Some(i + 1),
            None => None,
        }
    }
}

impl AppIndex {
    /// The applications, in index order.
    pub closed spec fn apps(&self) -> Seq<AppView> {
        app_views(self.apps@)
    }

    /// The index of the scanned applications (see `app_index`).
    pub fn new(scanned: Vec<AppEntry>) -> (r: Self)
        ensures
            r.apps() == app_index(app_views(scanned@)),
    {
        let mut all = scanned;
        let ghost orig = all@;
        let mut keyed: Vec<(Vec<char>, AppEntry)> = Vec::new();
        let total = all.len();
        let mut n: usize = 0;
        while all.len() > 0
            invariant
                n + all@.len() == orig.len(),
                orig.len() == total,
                all@ == orig.subrange(n as int, orig.len() as int),
                keyed@.len() == n,
                forall|k: int|
                    0 <= k < n ==> (#[trigger] keyed@[k]).0@ == lowercase(orig[k].name@)
                        && keyed@[k].1 == orig[k],
            decreases all.len(),
        {
            let e = all.remove(0);
            let key = chars_of(to_lowercase(e.name.as_str()).as_str());
            keyed.push((key, e));
            assert(all@ =~= orig.subrange(n + 1, orig.len() as int));
            n = n + 1;
        }
        let sorted = sort_by_text(keyed);
        let ghost g = |e: AppEntry| e@;
        proof {
            let kv = keyed_view(keyed@);
            let target = app_views(orig).map_values(|e: AppView| (lowercase(e.name), e));
            assert(map_second(kv, g) =~= target);
            lemma_sort_lex_map(kv, g);
            let sk = keyed_view(sorted@);
            assert(app_views(sk.map_values(|p: (Seq<char>, AppEntry)| p.1)) =~= map_second(
                sk,
                g,
            ).map_values(|p: (Seq<char>, AppView)| p.1));
        }
        let mut out: Vec<AppEntry> = Vec::new();
        let mut i: usize = 0;
        let ghost sv = app_views(keyed_view(sorted@).map_values(|p: (Seq<char>, AppEntry)| p.1));
        while i < sorted.len()
            invariant
                i <= sorted@.len(),
                sv == app_views(keyed_view(sorted@).map_values(|p: (Seq<char>, AppEntry)| p.1)),
                app_views(out@) == dedup_apps(sv.take(i as int)),
            decreases sorted.len() - i,
        {
            let e = &sorted[i].1;
            proof {
                assert(sv.take(i + 1).drop_last() =~= sv.take(i as int));
                assert(sv.take(i + 1).last() == e@);
            }
            let keep = if out.len() > 0 {
                let last = &out[out.len() - 1];
                !(chars_eq(
                    chars_of(last.command.as_str()).as_slice(),
                    chars_of(e.command.as_str()).as_slice(),
                ) && chars_eq(chars_of(last.name.as_str()).as_slice(), chars_of(e.name.as_str()).as_slice()))
            } else {
                true
            };
            if keep {
                let ghost before = out@;
                out.push(e.duplicate());
                assert(app_views(out@) =~= app_views(before).push(e@));
            }
            i = i + 1;
        }
        assert(sv.take(i as int) =~= sv);
        AppIndex { apps: out }
    }

    /// The first application with identifier `id`.
    pub fn get_by_id(&self, id: &str) -> (r: Option<&AppEntry>)
        ensures
            match app_for(self.apps(), id@) {
                Some(k) => r matches Some(e) && e@ == self.apps()[k],
                None => r is None,
            },
    {
        let key = chars_of(id);
        let ghost all = app_views(self.apps@);
        let mut i: usize = 0;
        assert(all.subrange(0, all.len() as int) =~= all);
        while i < self.apps.len()
            invariant
                i <= self.apps@.len(),
                key@ == id@,
                all == app_views(self.apps@),
                match app_for(all.subrange(i as int, all.len() as int), id@) {
                    Some(k) => app_for(all, id@) == Some(k + i),
                    None => app_for(all, id@) is None,
                },
            decreases self.apps.len() - i,
        {
            let ghost rest = all.subrange(i as int, all.len() as int);
            let e = &self.apps[i];
            assert(rest.drop_first() =~= all.subrange(i + 1, all.len() as int));
            if chars_eq(chars_of(e.id.as_str()).as_slice(), key.as_slice()) {
                return Some(e);
            }
            i = i + 1;
        }
        None
    }

    /// The applications matching `query`, best first, at most `limit`.
    pub fn search_results(&self, query: &str, history: &HistoryStats, limit: usize) -> (r: Vec<
        SearchResult,
    >)
        ensures
            result_views(r@) == app_results(self.apps(), query@, *history, limit as int),
    {
        let qv = trimmed_chars(query);
        let q = string_of(qv.as_slice());
        let ghost all = app_views(self.apps@);
        let mut results: Vec<SearchResult> = Vec::new();
        if qv.len() == 0 {
            let n = if limit < self.apps.len() {
                limit
            } else {
                self.apps.len()
            };
            let ghost taken = take_at_most(all, limit as int);
            let ghost f = |e: AppView| app_result(e, 50, q@, *history);
            assert(taken =~= all.take(n as int));
            let mut i: usize = 0;
            while i < n
                invariant
                    i <= n <= self.apps@.len(),
                    all == app_views(self.apps@),
                    taken == all.take(n as int),
                    q@ == seq_trim(query@),
                    f == (|e: AppView| app_result(e, 50, q@, *history)),
                    result_views(results@) == taken.take(i as int).map_values(f),
                decreases n - i,
            {
                let ghost before = results@;
                let e = &self.apps[i];
                let x = build_result(
                    make_id(ResultKind::App, e.id.as_str()),
                    ResultKind::App,
                    e.name.clone(),
                    clone_opt(&e.comment),
                    clone_opt(&e.icon),
                    50,
                    q.as_str(),
                    history,
                );
                results.push(x);
                proof {
                    assert(taken[i as int] == e@);
                    assert(result_views(results@) =~= result_views(before).push(x@));
                    assert(taken.take(i + 1).map_values(f) =~= taken.take(i as int).map_values(
                        f,
                    ).push(f(taken[i as int])));
                }
                i = i + 1;
            }
            assert(taken.take(i as int) =~= taken);
        } else {
            let ghost f = |e: AppView| app_hit(e, q@, *history);
            let mut i: usize = 0;
            assert(result_views(results@) =~= all.take(0).filter_map(f));
            while i < self.apps.len()
                invariant
                    i <= self.apps@.len(),
                    all == app_views(self.apps@),
                    q@ == seq_trim(query@),
                    q@.len() > 0,
                    f == (|e: AppView| app_hit(e, q@, *history)),
                    result_views(results@) == all.take(i as int).filter_map(f),
                decreases self.apps.len() - i,
            {
                let ghost before = results@;
                proof {
                    assert(all.take(i + 1).drop_last() =~= all.take(i as int));
                    assert(all.take(i + 1).last() == self.apps@[i as int]@);
                }
                let e = &self.apps[i];
                match fuzzy_score(e.name.as_str(), q.as_str()) {
                    Some(score) => {
                        let x = build_result(
                            make_id(ResultKind::App, e.id.as_str()),
                            ResultKind::App,
                            e.name.clone(),
                            clone_opt(&e.comment),
                            clone_opt(&e.icon),
                            score,
                            q.as_str(),
                            history,
                        );
                        results.push(x);
                        assert(result_views(results@) =~= result_views(before) + seq![x@]);
                    },
                    None => {},
                }
                i = i + 1;
            }
            assert(all.take(i as int) =~= all);
        }
        sort_results(&mut results);
        results.truncate(limit);
        results
    }
}

/// The folders searched for an application's icon, in order.
pub open spec fn icon_dirs() -> Seq<Seq<char>> {
    seq![
        "/usr/share/pixmaps"@,
        "/usr/share/icons/hicolor/scalable/apps"@,
        "/usr/share/icons/hicolor/48x48/apps"@,
        "/usr/share/icons/hicolor/32x32/apps"@,
        "/usr/share/icons/Adwaita/scalable/legacy"@,
        "/usr/share/icons/Adwaita/48x48/legacy"@,
    ]
}

/// The endings tried for an icon's file, in order.
pub open spec fn icon_exts() -> Seq<Seq<char>> {
    seq![""@, ".png"@, ".svg"@, ".xpm"@]
}

/// The files an `Icon` value may name, in the order they are tried: the
/// value itself when it is an absolute path, then `dir/icon` with each
/// ending, folder by folder. The icon is the first that exists.
pub open spec fn icon_candidates(icon: Seq<char>) -> Seq<Seq<char>> {
    (if icon.len() > 0 && icon[0] == '/' {
        seq![icon]
    } else {
        Seq::empty()
    }) + Seq::new(24, |k: int| icon_dirs()[k / 4] + "/"@ + icon + icon_exts()[k % 4])
}

/// The files an `Icon` value may name (see `icon_candidates`).
pub fn icon_path_candidates(icon: &str) -> (r: Vec<String>)
    ensures
        r@.map_values(|s: String| s@) == icon_candidates(icon@),
{
    let mut out: Vec<String> = Vec::new();
    let iv = chars_of(icon);
    if iv.len() > 0 && iv[0] == '/' {
        out.push(String::from_str(icon));
    }
    let ghost head = out@.map_values(|s: String| s@);
    assert(head =~= if icon@.len() > 0 && icon@[0] == '/' {
        seq![icon@]
    } else {
        Seq::<Seq<char>>::empty()
    });
    let mut dirs: Vec<&str> = Vec::new();
    dirs.push("/usr/share/pixmaps");
    dirs.push("/usr/share/icons/hicolor/scalable/apps");
    dirs.push("/usr/share/icons/hicolor/48x48/apps");
    dirs.push("/usr/share/icons/hicolor/32x32/apps");
    dirs.push("/usr/share/icons/Adwaita/scalable/legacy");
    dirs.push("/usr/share/icons/Adwaita/48x48/legacy");
    let mut exts: Vec<&str> = Vec::new();
    exts.push("");
    exts.push(".png");
    exts.push(".svg");
    exts.push(".xpm");
    assert(dirs@.map_values(|d: &str| d@) =~= icon_dirs());
    assert(exts@.map_values(|e: &str| e@) =~= icon_exts());
    let ghost all = Seq::new(24, |k: int| icon_dirs()[k / 4] + "/"@ + icon@ + icon_exts()[k % 4]);
    let mut d: usize = 0;
    while d < 6
        invariant
            d <= 6,
            dirs@.len() == 6,
            exts@.len() == 4,
            forall|k: int| 0 <= k < 6 ==> #[trigger] dirs@[k]@ == icon_dirs()[k],
            forall|k: int| 0 <= k < 4 ==> #[trigger] exts@[k]@ == icon_exts()[k],
            all == Seq::new(24, |k: int| icon_dirs()[k / 4] + "/"@ + icon@ + icon_exts()[k % 4]),
            out@.map_values(|s: String| s@) == head + all.take(4 * d),
        decreases 6 - d,
    {
        let mut e: usize = 0;
        while e < 4
            invariant
                d < 6,
                e <= 4,
                dirs@.len() == 6,
                exts@.len() == 4,
                forall|k: int| 0 <= k < 6 ==> #[trigger] dirs@[k]@ == icon_dirs()[k],
                forall|k: int| 0 <= k < 4 ==> #[trigger] exts@[k]@ == icon_exts()[k],
                all == Seq::new(24, |k: int| icon_dirs()[k / 4] + "/"@ + icon@ + icon_exts()[k % 4]),
                out@.map_values(|s: String| s@) == head + all.take(4 * d + e),
            decreases 4 - e,
        {
            let ghost before = out@.map_values(|s: String| s@);
            let c = cat(cat3(dirs[d], "/", icon).as_str(), exts[e]);
            proof {
                let k = 4 * d + e;
                assert(k / 4 == d as int);
                assert(k % 4 == e as int);
                assert(all[k] == icon_dirs()[d as int] + "/"@ + icon@ + icon_exts()[e as int]);
                assert(c@ =~= all[k]);
            }
            out.push(c);
            assert(out@.map_values(|s: String| s@) =~= before.push(all[4 * d + e]));
            assert(all.take(4 * d + e + 1) =~= all.take(4 * d + e).push(all[4 * d + e]));
            e = e + 1;
        }
        d = d + 1;
    }
    assert(all.take(24) =~= all);
    out
}

/// The desktop identifier `gtk-launch` is given for an application: the
/// stem of its `.desktop` file, else its identifier.
pub fn launch_target(entry: &AppEntry) -> (r: String)
    ensures
        r@ == match file_stem_of(entry.desktop_path@) {
            Some(s) => s,
            None => entry.id@,
        },
{
    match path_file_stem(entry.desktop_path.as_str()) {
        Some(s) => s,
        None => entry.id.clone(),
    }
}

/// Whether applications are in order of lowercase name.
pub open spec fn name_ordered(s: Seq<AppView>) -> bool {
    forall|i: int, j: int| #![trigger s[i], s[j]] 0 <= i < j < s.len() ==> !lex_lt(lowercase(s[j].name), lowercase(s[i].name))
}

/// Whether no application is followed by one with the same command and
/// name.
pub open spec fn no_adjacent_repeat(s: Seq<AppView>) -> bool {
    forall|k: int| 0 <= k < s.len() - 1 ==> !(#[trigger] s[k].command == s[k + 1].command && s[k].name == s[k + 1].name)
}

proof fn lemma_dedup_apps(s: Seq<AppView>)
    ensures
        forall|k: int| 0 <= k < dedup_apps(s).len() ==> s.contains(#[trigger] dedup_apps(s)[k]),
        no_adjacent_repeat(dedup_apps(s)),
        name_ordered(s) ==> name_ordered(dedup_apps(s)),
        s.len() > 0 ==> dedup_apps(s).len() > 0,
    decreases s.len(),
{
    if s.len() > 0 {
        let t = s.drop_last();
        lemma_dedup_apps(t);
        let d = dedup_apps(t);
        let r = dedup_apps(s);
        assert forall|k: int| 0 <= k < r.len() implies s.contains(#[trigger] r[k]) by {
            if k < d.len() {
                assert(r[k] == d[k]);
                assert(t.contains(d[k]));
                let m = choose|m: int| 0 <= m < t.len() && t[m] == d[k];
                assert(s[m] == t[m]);
            } else {
                assert(r[k] == s.last());
                assert(s[s.len() - 1] == s.last());
            }
        }
        if name_ordered(s) {
            assert forall|i: int, j: int| #![trigger t[i], t[j]] 0 <= i < j < t.len() implies !lex_lt(
                lowercase(t[j].name),
                lowercase(t[i].name),
            ) by {
                assert(t[i] == s[i] && t[j] == s[j]);
            }
            assert forall|i: int, j: int| #![trigger r[i], r[j]] 0 <= i < j < r.len() implies !lex_lt(
                lowercase(r[j].name),
                lowercase(r[i].name),
            ) by {
                if j < d.len() {
                    assert(r[i] == d[i] && r[j] == d[j]);
                } else {
                    assert(r[j] == s.last());
                    assert(r[i] == d[i]);
                    assert(t.contains(d[i]));
                    let m = choose|m: int| 0 <= m < t.len() && t[m] == d[i];
                    assert(s[m] == t[m]);
                    assert(s[s.len() - 1] == s.last());
                }
            }
        }
        assert forall|k: int| 0 <= k < r.len() - 1 implies !(#[trigger] r[k].command == r[k + 1].command && r[k].name
            == r[k + 1].name) by {
            if k + 1 < d.len() {
                assert(r[k] == d[k] && r[k + 1] == d[k + 1]);
            } else {
                assert(r[k] == d.last());
                assert(r[k + 1] == s.last());
            }
        }
    }
}

/// The index lists the applications in order of lowercase name, and never
/// lists an application right after one with the same command and name.
pub proof fn lemma_app_index_ordered(scanned: Seq<AppView>)
    ensures
        name_ordered(app_index(scanned)),
        no_adjacent_repeat(app_index(scanned)),
{
    let keyed = scanned.map_values(|e: AppView| (lowercase(e.name), e));
    let sorted = sort_lex(keyed);
    lemma_sort_lex_sorted(keyed);
    let v = sorted.map_values(|p: (Seq<char>, AppView)| p.1);
    assert forall|k: int| 0 <= k < sorted.len() implies (#[trigger] sorted[k]).0 == lowercase(sorted[k].1.name) by {
        assert(keyed.contains(sorted[k]));
        let m = choose|m: int| 0 <= m < keyed.len() && keyed[m] == sorted[k];
    }
    assert forall|i: int, j: int| #![trigger v[i], v[j]] 0 <= i < j < v.len() implies !lex_lt(
        lowercase(v[j].name),
        lowercase(v[i].name),
    ) by {
        assert(v[i] == sorted[i].1 && v[j] == sorted[j].1);
        assert(sorted[i].0 == lowercase(sorted[i].1.name));
        assert(sorted[j].0 == lowercase(sorted[j].1.name));
    }
    lemma_dedup_apps(v);
}

/// Whether a line is a group header: trimmed, it starts with `[`.
pub open spec fn is_group_header(l: Seq<char>) -> bool {
    seq_trim(l).len() > 0 && seq_trim(l)[0] == '['
}

/// Whether `key` is set in a scan: `Hidden` or `NoDisplay`.
pub open spec fn flag_set(st: AppScan, key: Seq<char>) -> bool {
    if key == "Hidden"@ {
        st.hidden
    } else {
        st.no_display
    }
}

/// The scan of a sequence of lines.
pub open spec fn scan_lines(ls: Seq<Seq<char>>) -> AppScan {
    ls.fold_left(app_scan_start(), |st: AppScan, l: Seq<char>| app_step(st, l))
}

proof fn lemma_trim_end_first(y: Seq<char>)
    requires
        y.len() > 0,
        !is_ws(y[0]),
    ensures
        seq_trim_end(y).len() > 0,
        seq_trim_end(y)[0] == y[0],
    decreases y.len(),
{
    if is_ws(y.last()) {
        let d = y.drop_last();
        assert(d[0] == y[0]);
        lemma_trim_end_first(d);
    }
}

/// A trimmed `key=value` line whose key does not start with `[` is no
/// group header.
proof fn lemma_keyed_line_not_header(h: Seq<char>, k: Seq<char>, v: Seq<char>)
    requires
        key_value(seq_trim(h)) == Some((k, v)),
        k.len() > 0,
        k[0] != '[',
    ensures
        !is_group_header(h),
        seq_trim(h).len() > 0,
{
    let line = seq_trim(h);
    lemma_trim_ends(h);
    lemma_find_char_bound(line, '=');
    let i = seq_find_char(line, '=');
    if line.len() > 0 && line[0] == '[' {
        lemma_find_char_bound(line.drop_first(), '=');
        assert(i >= 1);
        let p = line.subrange(0, i);
        assert(p[0] == '[');
        assert(seq_trim_start(p) == p);
        lemma_trim_end_first(p);
        assert(k == seq_trim(p));
    }
}

proof fn lemma_entry_open(pre: Seq<Seq<char>>, i: int)
    requires
        0 <= i < pre.len(),
        seq_trim(pre[i]) == "[Desktop Entry]"@,
        forall|j: int| i < j < pre.len() ==> !is_group_header(#[trigger] pre[j]),
    ensures
        scan_lines(pre).rejected || scan_lines(pre).in_entry,
    decreases pre.len(),
{
    reveal_strlit("[Desktop Entry]");
    if i < pre.len() - 1 {
        let d = pre.drop_last();
        assert forall|j: int| i < j < d.len() implies !is_group_header(#[trigger] d[j]) by {
            assert(d[j] == pre[j]);
        }
        lemma_entry_open(d, i);
        assert(!is_group_header(pre[pre.len() - 1]));
        assert(pre.last() == pre[pre.len() - 1]);
    } else {
        assert(pre.last() == pre[i]);
    }
}

proof fn lemma_flag_kept(st0: AppScan, rest: Seq<Seq<char>>, key: Seq<char>)
    requires
        key == "Hidden"@ || key == "NoDisplay"@,
        st0.rejected || flag_set(st0, key),
        forall|j: int| 0 <= j < rest.len() ==> !(key_value(seq_trim(#[trigger] rest[j])) matches Some((
            k,
            _,
        )) && k == key),
    ensures
        ({
            let st = rest.fold_left(st0, |st: AppScan, l: Seq<char>| app_step(st, l));
            st.rejected || flag_set(st, key)
        }),
    decreases rest.len(),
{
    reveal_strlit("Hidden");
    reveal_strlit("NoDisplay");
    assert("Hidden"@.len() != "NoDisplay"@.len());
    if rest.len() > 0 {
        let d = rest.drop_last();
        assert forall|j: int| 0 <= j < d.len() implies !(key_value(seq_trim(#[trigger] d[j])) matches Some((
            k,
            _,
        )) && k == key) by {
            assert(d[j] == rest[j]);
        }
        lemma_flag_kept(st0, d, key);
        assert(rest.last() == rest[rest.len() - 1]);
    }
}

/// A hidden entry lists no application: where a `.desktop` file's
/// `[Desktop Entry]` group, still open, reaches a `Hidden=true` line (or
/// `NoDisplay=true`) and no later line sets that key again, the file gives
/// no application, whatever else it holds.
pub proof fn lemma_hidden_entry_not_listed(
    content: Seq<char>,
    stem: Seq<char>,
    path: Seq<char>,
    pre: Seq<Seq<char>>,
    h: Seq<char>,
    rest: Seq<Seq<char>>,
    i: int,
    key: Seq<char>,
)
    requires
        key == "Hidden"@ || key == "NoDisplay"@,
        seq_lines(content) == pre + seq![h] + rest,
        0 <= i < pre.len(),
        seq_trim(pre[i]) == "[Desktop Entry]"@,
        forall|j: int| i < j < pre.len() ==> !is_group_header(#[trigger] pre[j]),
        key_value(seq_trim(h)) == Some((key, "true"@)),
        forall|j: int| 0 <= j < rest.len() ==> !(key_value(seq_trim(#[trigger] rest[j])) matches Some((
            k,
            _,
        )) && k == key),
    ensures
        parsed_app(content, stem, path) is None,
{
    reveal_strlit("Hidden");
    reveal_strlit("NoDisplay");
    reveal_strlit("[Desktop Entry]");
    reveal_strlit("Type");
    reveal_strlit("Name");
    reveal_strlit("Exec");
    reveal_strlit("Icon");
    reveal_strlit("Comment");
    reveal_strlit("Categories");
    assert("Hidden"@.len() != "NoDisplay"@.len());
    assert("Hidden"@.len() != "Type"@.len());
    assert("Hidden"@.len() != "Name"@.len());
    assert("Hidden"@.len() != "Exec"@.len());
    assert("Hidden"@.len() != "Icon"@.len());
    assert("Hidden"@.len() != "Comment"@.len());
    assert("Hidden"@.len() != "Categories"@.len());
    assert("NoDisplay"@.len() != "Type"@.len());
    assert("NoDisplay"@.len() != "Name"@.len());
    assert("NoDisplay"@.len() != "Exec"@.len());
    assert("NoDisplay"@.len() != "Icon"@.len());
    assert("NoDisplay"@.len() != "Comment"@.len());
    assert("NoDisplay"@.len() != "Categories"@.len());
    let f = |st: AppScan, l: Seq<char>| app_step(st, l);
    let ls = seq_lines(content);
    let k: int = pre.len() as int + 1;
    ls.lemma_fold_left_split(app_scan_start(), f, k);
    assert(ls.subrange(0, k) =~= pre.push(h));
    assert(ls.subrange(k, ls.len() as int) =~= rest);
    assert(pre.push(h).drop_last() =~= pre);
    lemma_entry_open(pre, i);
    lemma_keyed_line_not_header(h, key, "true"@);
    assert(seq_trim(h) != "[Desktop Entry]"@);
    let st1 = app_step(scan_lines(pre), h);
    assert(st1.rejected || flag_set(st1, key));
    lemma_flag_kept(st1, rest, key);
}

} // verus!
