//! The search router: which kind of search a query asks for, and how the
//! results of every source become the sections of the response.

use vstd::prelude::*;
use crate::apps::{app_results, AppIndex};
use crate::browser::{browser_results, BrowserIndex};
use crate::contacts::{contact_results, ContactsIndex};
use crate::extensions::{parse_root_search, root_search, without_calculator};
use crate::quicklinks::{quicklink_results, QuicklinksIndex};
use crate::scripts::{script_results, ScriptsIndex};
use crate::search::ranking::{build_result, result_views, scored_view, HistoryStats, ResultView};
use crate::search::types::{make_id, result_id, QuickAnswer, ResultKind, ResultSection, SearchResponse, SearchResult};
use crate::settings::{setting_results, setting_views, SettingsIndex};
use crate::snippets::{snippet_results, SnippetsIndex};
use crate::system_commands::command_results;
use crate::text::{
    cat, cat3, chars_of, clone_opt, contains, eq_ignore_ascii_case, opt_view, seq_ascii_lower,
    seq_contains, seq_starts_with, seq_trim, seq_utf8_len, starts_with, str_eq, string_of,
    strip_prefix, trimmed_chars, utf8_len_below, lemma_trim_idempotent,
};
use crate::web_search::{search_web, web_result};
use crate::windows::{window_action_of, window_command_results, window_commands, window_results, window_views, WindowAction, WindowActionView, WindowInfo, WindowService, WindowView};
use crate::apps::{app_for, AppEntry, AppView};
use crate::browser::entry_for;
use crate::contacts::{contact_for, contact_target, open_contact_target};
use crate::quicklinks::{entry_with_keyword, resolved_url};
use crate::snippets::{snippet_with_keyword, SnippetMode};
use crate::scripts::{script_with_id, script_args, string_views};
use crate::system_commands::{system_action_of, SystemAction};
use crate::search::types::{parse_id, parsed_id};
use crate::paths::{file_name_of, parent_of, path_file_name, path_parent};
use crate::text::{find_char_from, seq_find_char, lemma_find_char_bound, slice_chars};

verus! {

/// The indexes the launcher searches itself.
pub struct SearchIndexes {
    pub apps: AppIndex,
    pub settings: SettingsIndex,
    pub quicklinks: QuicklinksIndex,
    pub snippets: SnippetsIndex,
    pub scripts: ScriptsIndex,
    pub browser: BrowserIndex,
    pub contacts: ContactsIndex,
    pub windows: WindowService,
}

/// What a full search needs besides the indexes.
#[derive(Clone, Debug)]
pub struct FullPlan {
    /// The trimmed query.
    pub query: String,
    /// The query the extensions get: the rest after a root keyword, or the
    /// query.
    pub ext_query: String,
    /// The root keyword, if the query has one.
    pub ext_root: Option<String>,
    /// Whether the quick answers are tried (no root keyword).
    pub quick_answers: bool,
    /// Whether open windows are searched (no root keyword).
    pub windows: bool,
    /// Whether the window commands are offered.
    pub window_commands: bool,
    /// Whether the clipboard history is searched.
    pub clipboard: bool,
    /// Whether files are searched (no root keyword).
    pub files: bool,
}

/// The kind of search a query asks for.
#[derive(Clone, Debug)]
pub enum SearchPlan {
    /// An empty query: recent results and the first applications.
    Suggestions,
    /// `>` and a command query: system commands and extensions.
    Commands(String),
    /// `clipboard:` and a query: the clipboard history.
    Clipboard(String),
    /// "settings": the launcher's settings.
    OpenSettings,
    /// Everything else.
    Full(FullPlan),
}

/// The text of a full plan.
pub struct FullPlanView {
    pub query: Seq<char>,
    pub ext_query: Seq<char>,
    pub ext_root: Option<Seq<char>>,
    pub quick_answers: bool,
    pub windows: bool,
    pub window_commands: bool,
    pub clipboard: bool,
    pub files: bool,
}

/// The text of a plan.
pub enum PlanView {
    Suggestions,
    Commands(Seq<char>),
    Clipboard(Seq<char>),
    OpenSettings,
    Full(FullPlanView),
}

impl View for FullPlan {
    type V = FullPlanView;

    open spec fn view(&self) -> FullPlanView {
        FullPlanView {
            query: self.query@,
            ext_query: self.ext_query@,
            ext_root: opt_view(self.ext_root),
            quick_answers: self.quick_answers,
            windows: self.windows,
            window_commands: self.window_commands,
            clipboard: self.clipboard,
            files: self.files,
        }
    }
}

impl View for SearchPlan {
    type V = PlanView;

    open spec fn view(&self) -> PlanView {
        match self {
            SearchPlan::Suggestions => PlanView::Suggestions,
            SearchPlan::Commands(q) => PlanView::Commands(q@),
            SearchPlan::Clipboard(q) => PlanView::Clipboard(q@),
            SearchPlan::OpenSettings => PlanView::OpenSettings,
            SearchPlan::Full(p) => PlanView::Full(p@),
        }
    }
}

/// The full plan of the trimmed query `q`: a root keyword sends the rest
/// to the extensions that own it and turns the other sources off; open
/// windows are searched for every query without one; the window commands
/// are offered for a query naming "window" or starting with "win "; the
/// clipboard is searched for a query of four bytes or more.
pub open spec fn full_plan_of(q: Seq<char>) -> FullPlanView {
    let root = root_search(q);
    FullPlanView {
        query: q,
        ext_query: match root {
            Some((_, rest)) => rest,
            None => q,
        },
        ext_root: match root {
            Some((kw, _)) => Some(kw),
            None => None,
        },
        quick_answers: root is None,
        windows: root is None,
        window_commands: root is None && (seq_contains(q, "window"@) || seq_starts_with(q, "win "@)),
        clipboard: root is None && seq_utf8_len(q) >= 4,
        files: root is None,
    }
}

/// The kind of search a query asks for: by the trimmed query, an empty
/// one, then a `>` prefix, a `clipboard:` prefix, "settings" or "> settings"
/// in any ASCII case, and otherwise a full search.
pub open spec fn plan_of(query: Seq<char>) -> PlanView {
    let q = seq_trim(query);
    if q.len() == 0 {
        PlanView::Suggestions
    } else if seq_starts_with(q, ">"@) {
        PlanView::Commands(seq_trim(q.subrange(1, q.len() as int)))
    } else if seq_starts_with(q, "clipboard:"@) {
        PlanView::Clipboard(seq_trim(q.subrange(10, q.len() as int)))
    } else if seq_ascii_lower(q) == seq_ascii_lower("> settings"@) || seq_ascii_lower(q)
        == seq_ascii_lower("settings"@) {
        PlanView::OpenSettings
    } else {
        PlanView::Full(full_plan_of(q))
    }
}

/// Blanks around a query change nothing: it is searched as its trimmed
/// text.
pub proof fn lemma_plan_ignores_blanks(query: Seq<char>)
    ensures
        plan_of(seq_trim(query)) == plan_of(query),
{
    lemma_trim_idempotent(query);
}

/// The kind of search a query asks for (see `plan_of`).
pub fn plan_search(query: &str) -> (r: SearchPlan)
    ensures
        r@ == plan_of(query@),
{
    let qv = trimmed_chars(query);
    if qv.len() == 0 {
        return SearchPlan::Suggestions;
    }
    proof {
        reveal_strlit(">");
        reveal_strlit("clipboard:");
    }
    match strip_prefix(qv.as_slice(), chars_of(">").as_slice()) {
        Some(rest) => {
            return SearchPlan::Commands(string_of(trimmed_chars(string_of(rest.as_slice()).as_str()).as_slice()));
        },
        None => {},
    }
    match strip_prefix(qv.as_slice(), chars_of("clipboard:").as_slice()) {
        Some(rest) => {
            return SearchPlan::Clipboard(string_of(trimmed_chars(string_of(rest.as_slice()).as_str()).as_slice()));
        },
        None => {},
    }
    if eq_ignore_ascii_case(qv.as_slice(), chars_of("> settings").as_slice()) || eq_ignore_ascii_case(
        qv.as_slice(),
        chars_of("settings").as_slice(),
    ) {
        return SearchPlan::OpenSettings;
    }
    let q = string_of(qv.as_slice());
    let root = parse_root_search(q.as_str());
    let no_root = root.is_none();
    let window_commands = no_root && (contains(qv.as_slice(), chars_of("window").as_slice()) || starts_with(
        qv.as_slice(),
        chars_of("win ").as_slice(),
    ));
    let clipboard = no_root && !utf8_len_below(qv.as_slice(), 4);
    let (ext_query, ext_root) = match root {
        Some((kw, rest)) => (rest, Some(kw)),
        None => (q.clone(), None),
    };
    SearchPlan::Full(
        FullPlan {
            query: q,
            ext_query,
            ext_root,
            quick_answers: no_root,
            windows: no_root,
            window_commands,
            clipboard,
            files: no_root,
        },
    )
}

/// The text of a section.
pub struct SectionView {
    pub id: Seq<char>,
    pub title: Seq<char>,
    pub results: Seq<ResultView>,
}

/// The view of a section.
pub open spec fn section_view(s: ResultSection) -> SectionView {
    SectionView { id: s.id@, title: s.title@, results: result_views(s.results@) }
}

/// The views of sections.
pub open spec fn section_views(s: Seq<ResultSection>) -> Seq<SectionView> {
    s.map_values(|x: ResultSection| section_view(x))
}

/// The section of `results`, or none when there are no results.
pub open spec fn section_if(id: Seq<char>, title: Seq<char>, results: Seq<ResultView>) -> Seq<SectionView> {
    if results.len() > 0 {
        seq![SectionView { id, title, results }]
    } else {
        Seq::empty()
    }
}

/// The text of a quick answer: kind, label, value, hint.
pub open spec fn answer_view(q: QuickAnswer) -> (Seq<char>, Seq<char>, Seq<char>, Option<Seq<char>>) {
    (q.kind@, q.label@, q.value@, opt_view(q.hint))
}

fn push_section(sections: &mut Vec<ResultSection>, id: &str, title: &str, results: Vec<SearchResult>)
    ensures
        section_views(final(sections)@) == section_views(old(sections)@) + section_if(id@, title@, result_views(results@)),
{
    let ghost before = section_views(sections@);
    if results.len() > 0 {
        let s = ResultSection { id: String::from_str(id), title: String::from_str(title), results };
        sections.push(s);
        assert(section_views(sections@) =~= before.push(section_view(s)));
    } else {
        assert(section_views(sections@) =~= before + Seq::<SectionView>::empty());
    }
}

/// The title of the quick-answer section by the answer's kind.
pub open spec fn answer_title(kind: Seq<char>) -> Seq<char> {
    if kind == "currency"@ {
        "Conversão"@
    } else if kind == "calculator"@ {
        "Calculadora"@
    } else if kind == "time"@ {
        "Hora"@
    } else {
        "Resposta"@
    }
}

/// The section that shows a quick answer: one result, "label value".
pub open spec fn answer_section(q: QuickAnswer, query: Seq<char>, h: HistoryStats) -> SectionView {
    SectionView {
        id: "quick_answer"@,
        title: answer_title(q.kind@),
        results: seq![
            scored_view(
                result_id(ResultKind::Recent, "quick:"@ + q.kind@),
                ResultKind::Recent,
                q.label@ + " "@ + q.value@,
                opt_view(q.hint),
                Some("accessories-calculator"@),
                3000,
                query,
                h,
            ),
        ],
    }
}

/// The section that shows a quick answer (see `answer_section`).
pub fn quick_answer_section(qa: &QuickAnswer, query: &str, history: &HistoryStats) -> (r: ResultSection)
    ensures
        section_view(r) == answer_section(*qa, query@, *history),
{
    let kind = qa.kind.as_str();
    let title = if str_eq(kind, "currency") {
        "Conversão"
    } else if str_eq(kind, "calculator") {
        "Calculadora"
    } else if str_eq(kind, "time") {
        "Hora"
    } else {
        "Resposta"
    };
    let x = build_result(
        make_id(ResultKind::Recent, cat("quick:", kind).as_str()),
        ResultKind::Recent,
        cat3(qa.label.as_str(), " ", qa.value.as_str()),
        clone_opt(&qa.hint),
        Some(String::from_str("accessories-calculator")),
        3000,
        query,
        history,
    );
    let mut results: Vec<SearchResult> = Vec::new();
    results.push(x);
    assert(result_views(results@) =~= seq![x@]);
    ResultSection { id: String::from_str("quick_answer"), title: String::from_str(title), results }
}

/// The response to an empty query: the recent results, if any, then the
/// first eight applications.
pub open spec fn suggestions_sections(idx: SearchIndexes, recent: Seq<ResultView>, h: HistoryStats) -> Seq<SectionView> {
    section_if("suggestions"@, "Recentes"@, recent) + seq![
        SectionView {
            id: "apps"@,
            title: "Aplicativos"@,
            results: app_results(idx.apps.apps(), Seq::empty(), h, 8),
        },
    ]
}

/// The response to a command query: the system commands, then the
/// extensions' results, in one section when there are any.
pub open spec fn commands_sections(cmd_query: Seq<char>, ext: Seq<ResultView>, h: HistoryStats) -> Seq<SectionView> {
    section_if("commands"@, "Comandos"@, command_results(cmd_query, h, 8) + ext)
}

/// The response to "settings": the result that opens the launcher's
/// settings.
pub open spec fn settings_sections(q: Seq<char>, h: HistoryStats) -> Seq<SectionView> {
    seq![
        SectionView {
            id: "settings_cmd"@,
            title: "Comandos"@,
            results: seq![
                scored_view(
                    result_id(ResultKind::Setting, "spotlight-settings"@),
                    ResultKind::Setting,
                    "Abrir configurações do Spotlight"@,
                    Some("Settings UI"@),
                    Some("preferences-system"@),
                    2000,
                    q,
                    h,
                ),
            ],
        },
    ]
}

/// Whether a quick answer of this kind already says what the web and the
/// calculator extension would.
pub open spec fn answer_replaces_web(kind: Seq<char>) -> bool {
    kind == "currency"@ || kind == "calculator"@ || kind == "conversion"@ || kind == "time"@
}

/// The extension section's results: the extensions' results, then, when
/// planned, the open windows and the window commands; without calculator results
/// when the quick answer replaces the web.
pub open spec fn extension_results(
    idx: SearchIndexes,
    p: FullPlanView,
    h: HistoryStats,
    skip_web: bool,
    ext: Seq<ResultView>,
    wins: Seq<WindowView>,
) -> Seq<ResultView> {
    let with_open = if p.ext_root is None && p.windows {
        ext + window_results(wins, p.query, h, 4)
    } else {
        ext
    };
    let with_windows = if p.ext_root is None && p.window_commands {
        with_open + window_command_results(p.query, h, 5)
    } else {
        with_open
    };
    if skip_web {
        with_windows.filter_map(
            |x: ResultView| if seq_starts_with(x.id, "extension:calc:"@) {
                None
            } else {
                Some(x)
            },
        )
    } else {
        with_windows
    }
}

/// The sections of a full search, in their order: the quick answer, the
/// extensions, quicklinks, snippets, scripts, the web, bookmarks, browser
/// history, contacts, applications, files, clipboard and settings, each
/// only when it has results. A root keyword leaves only the extensions.
pub open spec fn full_sections(
    idx: SearchIndexes,
    p: FullPlanView,
    h: HistoryStats,
    quick: Option<QuickAnswer>,
    engine_label: Seq<char>,
    ext: Seq<ResultView>,
    wins: Seq<WindowView>,
    files: Seq<ResultView>,
    clip: Seq<ResultView>,
) -> Seq<SectionView> {
    let q = p.query;
    let root = p.ext_root is Some;
    let skip_web = match quick {
        Some(a) => answer_replaces_web(a.kind@),
        None => false,
    };
    let quick_secs = match quick {
        Some(a) => seq![answer_section(a, q, h)],
        None => Seq::empty(),
    };
    let web = if root || skip_web {
        None
    } else {
        web_result(q, engine_label)
    };
    let web_secs = match web {
        Some(w) => seq![SectionView { id: "web"@, title: "Web"@, results: seq![w] }],
        None => Seq::empty(),
    };
    let br = browser_results(idx.browser.entries(), q, h, idx.browser.icons(), 5, 5);
    quick_secs
        + section_if("extensions"@, "Extensões"@, extension_results(idx, p, h, skip_web, ext, wins))
        + section_if("quicklinks"@, "Quicklinks"@, if root { Seq::empty() } else { quicklink_results(idx.quicklinks.entries@, q, h, 5) })
        + section_if("snippets"@, "Snippets"@, if root { Seq::empty() } else { snippet_results(idx.snippets.entries@, q, h, 5) })
        + section_if("scripts"@, "Scripts"@, if root { Seq::empty() } else { script_results(idx.scripts.entries@, q, h, 5) })
        + web_secs
        + section_if("bookmarks"@, "Favoritos"@, if root { Seq::empty() } else { br.0 })
        + section_if("browser"@, "Histórico do navegador"@, if root { Seq::empty() } else { br.1 })
        + section_if("contacts"@, "Contatos"@, if root { Seq::empty() } else { contact_results(idx.contacts.contacts(), q, h, 4) })
        + section_if("apps"@, "Aplicativos"@, if root { Seq::empty() } else { app_results(idx.apps.apps(), q, h, 6) })
        + section_if("files"@, "Documentos"@, if root { Seq::empty() } else { files })
        + section_if("clipboard"@, "Clipboard"@, if root || !p.clipboard { Seq::empty() } else { clip })
        + section_if("settings"@, "Configurações"@, if root { Seq::empty() } else { setting_results(setting_views(idx.settings.entries@), q, h, 4) })
}


/// Every section of the list has at least one result.
pub open spec fn sections_filled(s: Seq<SectionView>) -> bool {
    forall|i: int| 0 <= i < s.len() ==> (#[trigger] s[i]).results.len() > 0
}

proof fn lemma_filled_concat(a: Seq<SectionView>, b: Seq<SectionView>)
    requires
        sections_filled(a),
        sections_filled(b),
    ensures
        sections_filled(a + b),
{
    assert forall|i: int| 0 <= i < (a + b).len() implies (#[trigger] (a + b)[i]).results.len() > 0 by {
        if i < a.len() {
            assert((a + b)[i] == a[i]);
        } else {
            assert((a + b)[i] == b[i - a.len()]);
        }
    }
}

proof fn lemma_section_if_filled(id: Seq<char>, title: Seq<char>, results: Seq<ResultView>)
    ensures
        sections_filled(section_if(id, title, results)),
{
}

/// A full search shows no empty section: the quick answer and the web
/// search have one result each, and every other section is left out when
/// it has none.
pub proof fn lemma_full_sections_filled(
    idx: SearchIndexes,
    p: FullPlanView,
    h: HistoryStats,
    quick: Option<QuickAnswer>,
    engine_label: Seq<char>,
    ext: Seq<ResultView>,
    wins: Seq<WindowView>,
    files: Seq<ResultView>,
    clip: Seq<ResultView>,
)
    ensures
        sections_filled(full_sections(idx, p, h, quick, engine_label, ext, wins, files, clip)),
{
    let q = p.query;
    let root = p.ext_root is Some;
    let skip_web = match quick {
        Some(a) => answer_replaces_web(a.kind@),
        None => false,
    };
    let quick_secs = match quick {
        Some(a) => seq![answer_section(a, q, h)],
        None => Seq::empty(),
    };
    let web = if root || skip_web {
        None
    } else {
        web_result(q, engine_label)
    };
    let web_secs = match web {
        Some(w) => seq![SectionView { id: "web"@, title: "Web"@, results: seq![w] }],
        None => Seq::<SectionView>::empty(),
    };
    let br = browser_results(idx.browser.entries(), q, h, idx.browser.icons(), 5, 5);
    let s1 = section_if("extensions"@, "Extensões"@, extension_results(idx, p, h, skip_web, ext, wins));
    let s2 = section_if("quicklinks"@, "Quicklinks"@, if root { Seq::empty() } else { quicklink_results(idx.quicklinks.entries@, q, h, 5) });
    let s3 = section_if("snippets"@, "Snippets"@, if root { Seq::empty() } else { snippet_results(idx.snippets.entries@, q, h, 5) });
    let s4 = section_if("scripts"@, "Scripts"@, if root { Seq::empty() } else { script_results(idx.scripts.entries@, q, h, 5) });
    let s5 = section_if("bookmarks"@, "Favoritos"@, if root { Seq::empty() } else { br.0 });
    let s6 = section_if("browser"@, "Histórico do navegador"@, if root { Seq::empty() } else { br.1 });
    let s7 = section_if("contacts"@, "Contatos"@, if root { Seq::empty() } else { contact_results(idx.contacts.contacts(), q, h, 4) });
    let s8 = section_if("apps"@, "Aplicativos"@, if root { Seq::empty() } else { app_results(idx.apps.apps(), q, h, 6) });
    let s9 = section_if("files"@, "Documentos"@, if root { Seq::empty() } else { files });
    let s10 = section_if("clipboard"@, "Clipboard"@, if root || !p.clipboard { Seq::empty() } else { clip });
    let s11 = section_if("settings"@, "Configurações"@, if root { Seq::empty() } else { setting_results(setting_views(idx.settings.entries@), q, h, 4) });
    assert(sections_filled(quick_secs));
    assert(sections_filled(web_secs));
    let mut acc = quick_secs;
    lemma_filled_concat(acc, s1);
    acc = acc + s1;
    lemma_filled_concat(acc, s2);
    acc = acc + s2;
    lemma_filled_concat(acc, s3);
    acc = acc + s3;
    lemma_filled_concat(acc, s4);
    acc = acc + s4;
    lemma_filled_concat(acc, web_secs);
    acc = acc + web_secs;
    lemma_filled_concat(acc, s5);
    acc = acc + s5;
    lemma_filled_concat(acc, s6);
    acc = acc + s6;
    lemma_filled_concat(acc, s7);
    acc = acc + s7;
    lemma_filled_concat(acc, s8);
    acc = acc + s8;
    lemma_filled_concat(acc, s9);
    acc = acc + s9;
    lemma_filled_concat(acc, s10);
    acc = acc + s10;
    lemma_filled_concat(acc, s11);
    acc = acc + s11;
    assert(acc == full_sections(idx, p, h, quick, engine_label, ext, wins, files, clip));
}

/// The response's quick answer.
pub open spec fn response_answer(r: SearchResponse) -> Option<(Seq<char>, Seq<char>, Seq<char>, Option<Seq<char>>)> {
    match r.quick_answer {
        Some(a) => Some(answer_view(a)),
        None => None,
    }
}

impl SearchIndexes {
    /// The response to an empty query (see `suggestions_sections`), with
    /// the recent results the history gave.
    pub fn suggestions(&self, recent: Vec<SearchResult>, history: &HistoryStats) -> (r: SearchResponse)
        ensures
            r.quick_answer is None,
            section_views(r.sections@) == suggestions_sections(*self, result_views(recent@), *history),
    {
        let mut sections: Vec<ResultSection> = Vec::new();
        push_section(&mut sections, "suggestions", "Recentes", recent);
        let ghost first = section_views(sections@);
        let apps = self.apps.search_results("", history, 8);
        let s = ResultSection { id: String::from_str("apps"), title: String::from_str("Aplicativos"), results: apps };
        sections.push(s);
        proof {
            reveal_strlit("");
            assert(""@ =~= Seq::<char>::empty());
            assert(section_views(sections@) =~= first.push(section_view(s)));
        }
        SearchResponse { quick_answer: None, sections }
    }

    /// The response to a command query (see `commands_sections`), with the
    /// results the extensions gave for it.
    pub fn commands(&self, cmd_query: &str, ext: Vec<SearchResult>, history: &HistoryStats) -> (r: SearchResponse)
        ensures
            r.quick_answer is None,
            section_views(r.sections@) == commands_sections(cmd_query@, result_views(ext@), *history),
    {
        let mut results = crate::system_commands::search(cmd_query, history, 8);
        let ghost sys = result_views(results@);
        let mut e = ext;
        let ghost ev = result_views(e@);
        results.append(&mut e);
        assert(result_views(results@) =~= sys + ev);
        let mut sections: Vec<ResultSection> = Vec::new();
        push_section(&mut sections, "commands", "Comandos", results);
        assert(section_views(sections@) =~= Seq::<SectionView>::empty() + section_if("commands"@, "Comandos"@, sys + ev));
        SearchResponse { quick_answer: None, sections }
    }

    /// The response to a clipboard query: one section with the clipboard
    /// results.
    pub fn clipboard(&self, results: Vec<SearchResult>) -> (r: SearchResponse)
        ensures
            r.quick_answer is None,
            section_views(r.sections@) == seq![SectionView { id: "clipboard"@, title: "Clipboard"@, results: result_views(results@) }],
    {
        let mut sections: Vec<ResultSection> = Vec::new();
        let s = ResultSection { id: String::from_str("clipboard"), title: String::from_str("Clipboard"), results };
        sections.push(s);
        assert(section_views(sections@) =~= seq![section_view(s)]);
        SearchResponse { quick_answer: None, sections }
    }

    /// The response to "settings" (see `settings_sections`).
    pub fn open_settings(&self, query: &str, history: &HistoryStats) -> (r: SearchResponse)
        ensures
            r.quick_answer is None,
            section_views(r.sections@) == settings_sections(seq_trim(query@), *history),
    {
        let q = string_of(trimmed_chars(query).as_slice());
        let x = build_result(
            make_id(ResultKind::Setting, "spotlight-settings"),
            ResultKind::Setting,
            String::from_str("Abrir configurações do Spotlight"),
            Some(String::from_str("Settings UI")),
            Some(String::from_str("preferences-system")),
            2000,
            q.as_str(),
            history,
        );
        let mut results: Vec<SearchResult> = Vec::new();
        results.push(x);
        let s = ResultSection { id: String::from_str("settings_cmd"), title: String::from_str("Comandos"), results };
        let mut sections: Vec<ResultSection> = Vec::new();
        sections.push(s);
        assert(result_views(s.results@) =~= seq![x@]);
        assert(section_views(sections@) =~= seq![section_view(s)]);
        SearchResponse { quick_answer: None, sections }
    }

    /// The response to a full search (see `full_sections`): `quick` is the
    /// quick answer the caller completed (if the plan asked for one), `ext`
    /// what the extensions gave for the plan's extension query, `windows`
    /// the open windows (if the plan asked for them), `files` and
    /// `clipboard` the file and clipboard results.
    pub fn full(
        &self,
        plan: &FullPlan,
        history: &HistoryStats,
        quick: Option<QuickAnswer>,
        engine_label: &str,
        ext: Vec<SearchResult>,
        windows: Vec<WindowInfo>,
        files: Vec<SearchResult>,
        clipboard: Vec<SearchResult>,
    ) -> (r: SearchResponse)
        ensures
            response_answer(r) == match quick {
                Some(a) => Some(answer_view(a)),
                None => None,
            },
            section_views(r.sections@) == full_sections(
                *self,
                plan@,
                *history,
                quick,
                engine_label@,
                result_views(ext@),
                window_views(windows@),
                result_views(files@),
                result_views(clipboard@),
            ),
    {
        let q = plan.query.as_str();
        let root = plan.ext_root.is_some();
        let skip_web = match &quick {
            Some(a) => {
                let k = a.kind.as_str();
                str_eq(k, "currency") || str_eq(k, "calculator") || str_eq(k, "conversion") || str_eq(k, "time")
            },
            None => false,
        };
        let mut sections: Vec<ResultSection> = Vec::new();
        match &quick {
            Some(a) => {
                let s = quick_answer_section(a, q, history);
                sections.push(s);
                assert(section_views(sections@) =~= seq![section_view(s)]);
            },
            None => {
                assert(section_views(sections@) =~= Seq::<SectionView>::empty());
            },
        }
        let mut extensions = ext;
        if !root && plan.windows {
            let mut w = self.windows.search(windows, q, history, 4);
            let ghost e0 = result_views(extensions@);
            let ghost w0 = result_views(w@);
            extensions.append(&mut w);
            assert(result_views(extensions@) =~= e0 + w0);
        }
        if !root && plan.window_commands {
            let mut c = window_commands(history, q, 5);
            let ghost e1 = result_views(extensions@);
            let ghost c0 = result_views(c@);
            extensions.append(&mut c);
            assert(result_views(extensions@) =~= e1 + c0);
        }
        let extensions = if skip_web {
            without_calculator(extensions)
        } else {
            extensions
        };
        push_section(&mut sections, "extensions", "Extensões", extensions);
        let quicklinks = if root { Vec::new() } else { self.quicklinks.search(q, history, 5) };
        let snippets = if root { Vec::new() } else { self.snippets.search(q, history, 5) };
        let scripts = if root { Vec::new() } else { self.scripts.search(q, history, 5) };
        push_section(&mut sections, "quicklinks", "Quicklinks", quicklinks);
        push_section(&mut sections, "snippets", "Snippets", snippets);
        push_section(&mut sections, "scripts", "Scripts", scripts);
        let web = if root || skip_web { None } else { search_web(q, engine_label) };
        match web {
            Some(w) => {
                let ghost before = section_views(sections@);
                let mut rs: Vec<SearchResult> = Vec::new();
                rs.push(w);
                let s = ResultSection { id: String::from_str("web"), title: String::from_str("Web"), results: rs };
                sections.push(s);
                assert(result_views(s.results@) =~= seq![w@]);
                assert(section_views(sections@) =~= before + seq![section_view(s)]);
            },
            None => {},
        }
        let (bookmarks, browser_history) = if root {
            (Vec::new(), Vec::new())
        } else {
            self.browser.search(q, history, 5, 5)
        };
        push_section(&mut sections, "bookmarks", "Favoritos", bookmarks);
        push_section(&mut sections, "browser", "Histórico do navegador", browser_history);
        let contacts = if root { Vec::new() } else { self.contacts.search(q, history, 4) };
        push_section(&mut sections, "contacts", "Contatos", contacts);
        let apps = if root { Vec::new() } else { self.apps.search_results(q, history, 6) };
        push_section(&mut sections, "apps", "Aplicativos", apps);
        let files = if root { Vec::new() } else { files };
        push_section(&mut sections, "files", "Documentos", files);
        let clip = if root || !plan.clipboard { Vec::new() } else { clipboard };
        push_section(&mut sections, "clipboard", "Clipboard", clip);
        let settings = if root { Vec::new() } else { self.settings.search(q, history, 4) };
        push_section(&mut sections, "settings", "Configurações", settings);
        let quick_answer = match quick {
            Some(a) => Some(QuickAnswer { kind: a.kind, label: a.label, value: a.value, hint: a.hint }),
            None => None,
        };
        SearchResponse { quick_answer, sections }
    }
}

/// What opening a result does, once recorded.
#[derive(Debug)]
pub enum OpenAction {
    LaunchApp(AppEntry),
    OpenFile(String),
    ShowSettingsWindow,
    System(SystemAction),
    OpenSetting(String),
    WebSearch(String),
    OpenUrl(String),
    /// The address that opens a contact, or why there is none.
    OpenContact(Result<String, String>),
    /// Paste or copy a snippet's text.
    Snippet(String, SnippetMode),
    /// Run a script's command with its arguments.
    RunScript(String, Vec<String>),
    CopyClipboard(String),
    /// Run an extension's action with the query as argument.
    Extension { extension_id: String, action: String, args: String },
    Window(WindowAction),
    /// Fail with this message (after recording the launch).
    Fail(String),
}

/// The title, subtitle and icon remembered for a result.
#[derive(Debug)]
pub struct ResultMeta {
    pub title: String,
    pub subtitle: Option<String>,
    pub icon: Option<String>,
}

/// What opening a result does: the result to record as launched (its
/// identifier and kind), what to remember of it, and the action.
#[derive(Debug)]
pub struct OpenPlan {
    pub id: String,
    pub kind: ResultKind,
    pub meta: Option<ResultMeta>,
    pub action: OpenAction,
}

/// The text of an action.
pub enum ActionView {
    LaunchApp(AppView),
    OpenFile(Seq<char>),
    ShowSettingsWindow,
    System(SystemAction),
    OpenSetting(Seq<char>),
    WebSearch(Seq<char>),
    OpenUrl(Seq<char>),
    OpenContact(Result<Seq<char>, Seq<char>>),
    Snippet(Seq<char>, SnippetMode),
    RunScript(Seq<char>, Seq<Seq<char>>),
    CopyClipboard(Seq<char>),
    Extension(Seq<char>, Seq<char>, Seq<char>),
    Window(WindowActionView),
    Fail(Seq<char>),
}

/// The text of remembered facts.
pub type MetaView = (Seq<char>, Option<Seq<char>>, Option<Seq<char>>);

/// The text of a plan.
pub struct PlanOpenView {
    pub id: Seq<char>,
    pub kind: ResultKind,
    pub meta: Option<MetaView>,
    pub action: ActionView,
}

/// The view of an action.
pub open spec fn action_view(a: OpenAction) -> ActionView {
    match a {
        OpenAction::LaunchApp(e) => ActionView::LaunchApp(e@),
        OpenAction::OpenFile(k) => ActionView::OpenFile(k@),
        OpenAction::ShowSettingsWindow => ActionView::ShowSettingsWindow,
        OpenAction::System(s) => ActionView::System(s),
        OpenAction::OpenSetting(k) => ActionView::OpenSetting(k@),
        OpenAction::WebSearch(k) => ActionView::WebSearch(k@),
        OpenAction::OpenUrl(u) => ActionView::OpenUrl(u@),
        OpenAction::OpenContact(t) => ActionView::OpenContact(
            match t {
                Ok(u) => Ok(u@),
                Err(e) => Err(e@),
            },
        ),
        OpenAction::Snippet(t, m) => ActionView::Snippet(t@, m),
        OpenAction::RunScript(c, args) => ActionView::RunScript(c@, string_views(args@)),
        OpenAction::CopyClipboard(k) => ActionView::CopyClipboard(k@),
        OpenAction::Extension { extension_id, action, args } => ActionView::Extension(
            extension_id@,
            action@,
            args@,
        ),
        OpenAction::Window(w) => ActionView::Window(w@),
        OpenAction::Fail(e) => ActionView::Fail(e@),
    }
}

/// The view of a plan.
pub open spec fn plan_open_view(p: OpenPlan) -> PlanOpenView {
    PlanOpenView {
        id: p.id@,
        kind: p.kind,
        meta: match p.meta {
            Some(m) => Some((m.title@, opt_view(m.subtitle), opt_view(m.icon))),
            None => None,
        },
        action: action_view(p.action),
    }
}

/// The extension of an extension result's key: the key up to its first
/// `:`.
pub open spec fn extension_of(key: Seq<char>) -> Seq<char> {
    key.take(seq_find_char(key, ':'))
}

/// What opening the result `id` does with the query `query` (see the
/// cases): an unknown identifier is the error "Resultado inválido"; a
/// result no longer known is the error of its kind; a recent result opens
/// the result it recalls.
pub open spec fn open_plan_of(idx: SearchIndexes, id: Seq<char>, query: Seq<char>) -> Result<PlanOpenView, Seq<char>>
    decreases id.len(),
{
    match parsed_id(id) {
        None => Err("Resultado inválido"@),
        Some((kind, key)) => {
            let plan = |meta: Option<MetaView>, action: ActionView| Ok(PlanOpenView { id, kind, meta, action });
            match kind {
                ResultKind::App => match app_for(idx.apps.apps(), key) {
                    Some(k) => {
                        let a = idx.apps.apps()[k];
                        plan(Some((a.name, a.comment, a.icon)), ActionView::LaunchApp(a))
                    },
                    None => Err("Aplicativo não encontrado"@),
                },
                ResultKind::File => plan(None, ActionView::OpenFile(key)),
                ResultKind::Setting => if key == "spotlight-settings"@ {
                    plan(None, ActionView::ShowSettingsWindow)
                } else if seq_starts_with(key, "syscmd:"@) {
                    let cmd = key.subrange(7, key.len() as int);
                    if cmd == "settings"@ {
                        plan(None, ActionView::ShowSettingsWindow)
                    } else {
                        match system_action_of(cmd) {
                            Ok(a) => plan(None, ActionView::System(a)),
                            Err(e) => plan(None, ActionView::Fail(e)),
                        }
                    }
                } else {
                    plan(None, ActionView::OpenSetting(key))
                },
                ResultKind::Web => plan(
                    Some((key, Some("Busca na web"@), Some("web-browser"@))),
                    ActionView::WebSearch(key),
                ),
                ResultKind::Bookmark | ResultKind::Browser => match entry_for(idx.browser.entries(), id) {
                    Some(e) => plan(Some((e.title, Some(e.url), None)), ActionView::OpenUrl(e.url)),
                    None => Err("URL não encontrada"@),
                },
                ResultKind::Contact => match contact_for(idx.contacts.contacts(), id) {
                    Some(c) => plan(
                        Some((c.name, c.email, Some("contact-new"@))),
                        ActionView::OpenContact(contact_target(c)),
                    ),
                    None => Err("Contato não encontrado"@),
                },
                ResultKind::Quicklink => match entry_with_keyword(idx.quicklinks.entries@, key) {
                    Some(e) => {
                        let q = if query.len() == 0 {
                            key
                        } else {
                            query
                        };
                        let url = resolved_url(e, q);
                        plan(Some((e.title@, Some(url), opt_view(e.icon))), ActionView::OpenUrl(url))
                    },
                    None => Err("Quicklink não encontrado"@),
                },
                ResultKind::Snippet => match snippet_with_keyword(idx.snippets.entries@, key) {
                    Some(e) => plan(
                        Some((e.name@, Some(e.keyword@), Some("text-x-generic"@))),
                        ActionView::Snippet(e.text@, e.mode),
                    ),
                    None => Err("Snippet não encontrado"@),
                },
                ResultKind::Script => match script_with_id(idx.scripts.entries@, key) {
                    Some(e) => plan(
                        Some((e.title@, opt_view(e.keyword), opt_view(e.icon))),
                        ActionView::RunScript(e.command@, script_args(e, query)),
                    ),
                    None => Err("Script não encontrado"@),
                },
                ResultKind::Clipboard => plan(None, ActionView::CopyClipboard(key)),
                ResultKind::Extension => plan(None, ActionView::Extension(extension_of(key), key, query)),
                ResultKind::Window => match window_action_of(key) {
                    Ok(a) => plan(None, ActionView::Window(a)),
                    Err(e) => plan(None, ActionView::Fail(e)),
                },
                ResultKind::Recent => {
                    proof {
                        crate::search::types::lemma_parsed_key_shorter(id);
                    }
                    open_plan_of(idx, key, query)
                },
            }
        },
    }
}

/// The view of an open result.
pub open spec fn open_result_view(r: Result<OpenPlan, String>) -> Result<PlanOpenView, Seq<char>> {
    match r {
        Ok(p) => Ok(plan_open_view(p)),
        Err(e) => Err(e@),
    }
}

fn extension_id(key: &str) -> (r: String)
    ensures
        r@ == extension_of(key@),
{
    let v = chars_of(key);
    let i = find_char_from(v.as_slice(), ':', 0);
    assert(v@.subrange(0, v@.len() as int) =~= v@);
    proof {
        lemma_find_char_bound(v@, ':');
    }
    string_of(slice_chars(v.as_slice(), 0, i).as_slice())
}

fn meta(title: String, subtitle: Option<String>, icon: Option<String>) -> (r: Option<ResultMeta>)
    ensures
        r matches Some(m) && m.title == title && m.subtitle == subtitle && m.icon == icon,
{
    Some(ResultMeta { title, subtitle, icon })
}

impl SearchIndexes {
    /// What opening the result `id` does (see `open_plan_of`); a missing
    /// query reads as empty.
    pub fn open_result(&self, id: &str, query: Option<&str>) -> (r: Result<OpenPlan, String>)
        ensures
            open_result_view(r) == open_plan_of(*self, id@, match query {
                Some(q) => q@,
                None => Seq::empty(),
            }),
        decreases id@.len(),
    {
        let (kind, key) = match parse_id(id) {
            Some(p) => p,
            None => return Err(String::from_str("Resultado inválido")),
        };
        let search_query: &str = match query {
            Some(q) => q,
            None => {
                proof {
                    reveal_strlit("");
                }
                assert(""@ =~= Seq::<char>::empty());
                ""
            },
        };
        let ghost sq = search_query@;
        let rid = String::from_str(id);
        match kind {
            ResultKind::App => {
                match self.apps.get_by_id(key) {
                    Some(app) => {
                        let m = meta(app.name.clone(), clone_opt(&app.comment), clone_opt(&app.icon));
                        Ok(OpenPlan { id: rid, kind, meta: m, action: OpenAction::LaunchApp(app.duplicate()) })
                    },
                    None => Err(String::from_str("Aplicativo não encontrado")),
                }
            },
            ResultKind::File => Ok(OpenPlan { id: rid, kind, meta: None, action: OpenAction::OpenFile(String::from_str(key)) }),
            ResultKind::Setting => {
                proof {
                    reveal_strlit("syscmd:");
                }
                if str_eq(key, "spotlight-settings") {
                    Ok(OpenPlan { id: rid, kind, meta: None, action: OpenAction::ShowSettingsWindow })
                } else {
                    match strip_prefix(chars_of(key).as_slice(), chars_of("syscmd:").as_slice()) {
                        Some(cmdv) => {
                            let cmd = string_of(cmdv.as_slice());
                            if str_eq(cmd.as_str(), "settings") {
                                Ok(OpenPlan { id: rid, kind, meta: None, action: OpenAction::ShowSettingsWindow })
                            } else {
                                match crate::system_commands::run(cmd.as_str()) {
                                    Ok(a) => Ok(OpenPlan { id: rid, kind, meta: None, action: OpenAction::System(a) }),
                                    Err(e) => Ok(OpenPlan { id: rid, kind, meta: None, action: OpenAction::Fail(e) }),
                                }
                            }
                        },
                        None => Ok(
                            OpenPlan { id: rid, kind, meta: None, action: OpenAction::OpenSetting(String::from_str(key)) },
                        ),
                    }
                }
            },
            ResultKind::Web => {
                let m = meta(String::from_str(key), Some(String::from_str("Busca na web")), Some(String::from_str("web-browser")));
                Ok(OpenPlan { id: rid, kind, meta: m, action: OpenAction::WebSearch(String::from_str(key)) })
            },
            ResultKind::Bookmark | ResultKind::Browser => {
                match self.browser.get_entry(id) {
                    Some(e) => {
                        let m = meta(String::from_str(e.title()), Some(String::from_str(e.url())), None);
                        Ok(OpenPlan { id: rid, kind, meta: m, action: OpenAction::OpenUrl(String::from_str(e.url())) })
                    },
                    None => Err(String::from_str("URL não encontrada")),
                }
            },
            ResultKind::Contact => {
                match self.contacts.get(id) {
                    Some(c) => {
                        let target = open_contact_target(&c);
                        let m = meta(c.name, c.email, Some(String::from_str("contact-new")));
                        Ok(OpenPlan { id: rid, kind, meta: m, action: OpenAction::OpenContact(target) })
                    },
                    None => Err(String::from_str("Contato não encontrado")),
                }
            },
            ResultKind::Quicklink => {
                match self.quicklinks.get(key) {
                    Some(entry) => {
                        let q = if search_query.is_empty() {
                            key
                        } else {
                            search_query
                        };
                        let url = match self.quicklinks.resolve_url(key, q) {
                            Some(u) => u,
                            None => entry.url.clone(),
                        };
                        let m = meta(entry.title.clone(), Some(url.clone()), clone_opt(&entry.icon));
                        Ok(OpenPlan { id: rid, kind, meta: m, action: OpenAction::OpenUrl(url) })
                    },
                    None => Err(String::from_str("Quicklink não encontrado")),
                }
            },
            ResultKind::Snippet => {
                match self.snippets.get(key) {
                    Some(entry) => {
                        let m = meta(entry.name.clone(), Some(entry.keyword.clone()), Some(String::from_str("text-x-generic")));
                        Ok(OpenPlan { id: rid, kind, meta: m, action: OpenAction::Snippet(entry.text, entry.mode) })
                    },
                    None => Err(String::from_str("Snippet não encontrado")),
                }
            },
            ResultKind::Script => {
                match self.scripts.get(key) {
                    Some(entry) => {
                        let m = meta(entry.title.clone(), clone_opt(&entry.keyword), clone_opt(&entry.icon));
                        match self.scripts.run(key, search_query) {
                            Ok((cmd, args)) => Ok(OpenPlan { id: rid, kind, meta: m, action: OpenAction::RunScript(cmd, args) }),
                            Err(e) => Err(e),
                        }
                    },
                    None => Err(String::from_str("Script não encontrado")),
                }
            },
            ResultKind::Clipboard => Ok(
                OpenPlan { id: rid, kind, meta: None, action: OpenAction::CopyClipboard(String::from_str(key)) },
            ),
            ResultKind::Extension => Ok(
                OpenPlan {
                    id: rid,
                    kind,
                    meta: None,
                    action: OpenAction::Extension {
                        extension_id: extension_id(key),
                        action: String::from_str(key),
                        args: String::from_str(search_query),
                    },
                },
            ),
            ResultKind::Window => {
                match self.windows.run_action(key, search_query) {
                    Ok(a) => Ok(OpenPlan { id: rid, kind, meta: None, action: OpenAction::Window(a) }),
                    Err(e) => Ok(OpenPlan { id: rid, kind, meta: None, action: OpenAction::Fail(e) }),
                }
            },
            ResultKind::Recent => {
                proof {
                    crate::search::types::lemma_parsed_key_shorter(id@);
                }
                self.open_result(key, query)
            },
        }
    }
}

/// An action offered in a preview.
#[derive(Clone, Debug)]
pub struct PreviewAction {
    pub id: String,
    pub label: String,
}

/// What the preview pane shows of a result.
#[derive(Clone, Debug)]
pub struct PreviewData {
    pub title: String,
    pub subtitle: Option<String>,
    pub description: Option<String>,
    pub icon: Option<String>,
    pub preview_text: Option<String>,
    pub preview_image: Option<String>,
    pub actions: Vec<PreviewAction>,
}

/// The text of a preview.
pub struct PreviewView {
    pub title: Seq<char>,
    pub subtitle: Option<Seq<char>>,
    pub description: Option<Seq<char>>,
    pub icon: Option<Seq<char>>,
    pub preview_text: Option<Seq<char>>,
    pub preview_image: Option<Seq<char>>,
    pub actions: Seq<(Seq<char>, Seq<char>)>,
}

/// The view of a preview.
pub open spec fn preview_view(p: PreviewData) -> PreviewView {
    PreviewView {
        title: p.title@,
        subtitle: opt_view(p.subtitle),
        description: opt_view(p.description),
        icon: opt_view(p.icon),
        preview_text: opt_view(p.preview_text),
        preview_image: opt_view(p.preview_image),
        actions: p.actions@.map_values(|a: PreviewAction| (a.id@, a.label@)),
    }
}

/// What a preview needs next: nothing more (the preview, if the result is
/// known), or what the caller reads from a file, the clipboard history or
/// the launch history.
#[derive(Debug)]
pub enum PreviewStep {
    Done(Option<PreviewData>),
    /// Read the file's first lines and whether it is an image, then call
    /// `file_preview`.
    File(String),
    /// Read the clipboard entry's type, content and image, then call
    /// `clipboard_preview`.
    Clipboard(String),
    /// Read the most recent result, then call `recent_preview`.
    Recent,
}

/// The text of a preview step.
pub enum StepView {
    Done(Option<PreviewView>),
    File(Seq<char>),
    Clipboard(Seq<char>),
    Recent,
}

/// The view of a step.
pub open spec fn step_view(s: PreviewStep) -> StepView {
    match s {
        PreviewStep::Done(p) => StepView::Done(
            match p {
                Some(x) => Some(preview_view(x)),
                None => None,
            },
        ),
        PreviewStep::File(k) => StepView::File(k@),
        PreviewStep::Clipboard(k) => StepView::Clipboard(k@),
        PreviewStep::Recent => StepView::Recent,
    }
}

/// A preview with no text or image.
pub open spec fn plain_preview(
    title: Seq<char>,
    subtitle: Option<Seq<char>>,
    description: Option<Seq<char>>,
    icon: Option<Seq<char>>,
    actions: Seq<(Seq<char>, Seq<char>)>,
) -> PreviewView {
    PreviewView { title, subtitle, description, icon, preview_text: None, preview_image: None, actions }
}

/// The preview of the result `id` for the web engine `engine` (labelled
/// `label`), or what it needs next.
pub open spec fn preview_of(idx: SearchIndexes, id: Seq<char>, engine: Seq<char>, label: Seq<char>) -> StepView {
    match parsed_id(id) {
        None => StepView::Done(None),
        Some((kind, key)) => match kind {
            ResultKind::App => StepView::Done(
                match app_for(idx.apps.apps(), key) {
                    Some(k) => {
                        let a = idx.apps.apps()[k];
                        Some(
                            plain_preview(
                                a.name,
                                Some("Aplicativo"@),
                                a.comment,
                                a.icon,
                                seq![("open"@, "Abrir"@), ("copy_path"@, "Copiar caminho"@)],
                            ),
                        )
                    },
                    None => None,
                },
            ),
            ResultKind::File => StepView::File(key),
            ResultKind::Setting => StepView::Done(
                match crate::settings::setting_for(setting_views(idx.settings.entries@), key) {
                    Some(st) => Some(
                        plain_preview(
                            st.name,
                            Some("Configurações do sistema"@),
                            None,
                            st.icon,
                            seq![("open"@, "Abrir"@)],
                        ),
                    ),
                    None => None,
                },
            ),
            ResultKind::Web => StepView::Done(
                Some(
                    plain_preview(
                        crate::web_search::web_title(key),
                        Some(label),
                        Some(crate::web_search::search_url_spec(key, engine)),
                        Some("web-browser"@),
                        seq![("open"@, "Pesquisar"@)],
                    ),
                ),
            ),
            ResultKind::Bookmark | ResultKind::Browser => StepView::Done(
                match entry_for(idx.browser.entries(), id) {
                    Some(e) => Some(
                        plain_preview(
                            e.title,
                            Some(e.url),
                            Some(e.source + " · "@ + e.url),
                            None,
                            seq![("open"@, "Abrir no navegador"@), ("copy_url"@, "Copiar URL"@)],
                        ),
                    ),
                    None => None,
                },
            ),
            ResultKind::Contact => StepView::Done(
                match contact_for(idx.contacts.contacts(), id) {
                    Some(c) => Some(
                        PreviewView {
                            title: c.name,
                            subtitle: match c.email {
                                Some(e) => Some(e),
                                None => c.phone,
                            },
                            description: c.email,
                            icon: Some("contact-new"@),
                            preview_text: c.phone,
                            preview_image: None,
                            actions: seq![
                                (
                                    "open"@,
                                    if c.email is Some {
                                        "Enviar e-mail"@
                                    } else {
                                        "Ligar"@
                                    },
                                ),
                            ],
                        },
                    ),
                    None => None,
                },
            ),
            ResultKind::Quicklink => StepView::Done(
                match entry_with_keyword(idx.quicklinks.entries@, key) {
                    Some(e) => Some(
                        plain_preview(
                            e.title@,
                            Some(e.url@),
                            opt_view(e.alias),
                            match opt_view(e.icon) {
                                Some(i) => Some(i),
                                None => Some("web-browser"@),
                            },
                            seq![("open"@, "Abrir URL"@)],
                        ),
                    ),
                    None => None,
                },
            ),
            ResultKind::Snippet => StepView::Done(
                match snippet_with_keyword(idx.snippets.entries@, key) {
                    Some(e) => Some(
                        PreviewView {
                            title: e.name@,
                            subtitle: Some(e.keyword@),
                            description: None,
                            icon: Some("text-x-generic"@),
                            preview_text: Some(e.text@),
                            preview_image: None,
                            actions: seq![("paste"@, "Colar"@), ("copy"@, "Copiar"@)],
                        },
                    ),
                    None => None,
                },
            ),
            ResultKind::Script => StepView::Done(
                match script_with_id(idx.scripts.entries@, key) {
                    Some(e) => Some(
                        plain_preview(
                            e.title@,
                            opt_view(e.keyword),
                            Some(e.command@ + " "@ + debug_strings(string_views(e.args@))),
                            match opt_view(e.icon) {
                                Some(i) => Some(i),
                                None => Some("utilities-terminal"@),
                            },
                            seq![("run"@, "Executar"@)],
                        ),
                    ),
                    None => None,
                },
            ),
            ResultKind::Clipboard => StepView::Clipboard(key),
            ResultKind::Extension | ResultKind::Window => StepView::Done(
                Some(
                    plain_preview(
                        key,
                        Some(crate::search::types::kind_name(kind)),
                        None,
                        None,
                        seq![("open"@, "Executar"@)],
                    ),
                ),
            ),
            ResultKind::Recent => StepView::Recent,
        },
    }
}

/// What `format!("{:?}", args)` writes for a list of strings (std's `Debug`
/// of `Vec<String>`, with its escapes).
pub uninterp spec fn debug_strings(v: Seq<Seq<char>>) -> Seq<char>;

/// `format!("{:?}", v)` of std for a list of strings. The contract claims
/// only that the text is the one named by `debug_strings`: a function of
/// the strings alone.
#[verifier::external_body]
fn debug_list(v: &Vec<String>) -> (r: String)
    ensures
        r@ == debug_strings(string_views(v@)),
{
    format!("{:?}", v)
}

/// The preview of a file: its name (or the path), its folder, the text
/// read from its first lines and the file itself when it is an image.
pub open spec fn file_preview_of(path: Seq<char>, text: Option<Seq<char>>, is_image: bool) -> PreviewView {
    PreviewView {
        title: match file_name_of(path) {
            Some(n) => n,
            None => path,
        },
        subtitle: parent_of(path),
        description: None,
        icon: None,
        preview_text: text,
        preview_image: if is_image {
            Some(path)
        } else {
            None
        },
        actions: seq![("open"@, "Abrir"@), ("reveal"@, "Mostrar na pasta"@), ("copy_path"@, "Copiar caminho"@)],
    }
}

/// The first line of a text (the text itself when it has no line).
pub open spec fn first_line(t: Seq<char>) -> Seq<char> {
    let ls = crate::text::seq_lines(t);
    if ls.len() > 0 {
        ls[0]
    } else {
        t
    }
}

/// The preview of a clipboard entry of type `content_type` (none when the
/// entry is gone): an image is titled "Imagem no clipboard"; text by its
/// first line, cut to 60 characters.
pub open spec fn clipboard_preview_of(
    content_type: Option<Seq<char>>,
    text: Option<Seq<char>>,
    image: Option<Seq<char>>,
) -> Option<PreviewView> {
    match content_type {
        None => None,
        Some(t) => {
            let preview_text = if t == "text"@ {
                text
            } else {
                None
            };
            Some(
                PreviewView {
                    title: if t == "image"@ {
                        "Imagem no clipboard"@
                    } else {
                        match preview_text {
                            Some(x) => take_at_most_chars(first_line(x), 60),
                            None => "Clipboard"@,
                        }
                    },
                    subtitle: Some("Clipboard"@),
                    description: None,
                    icon: Some("edit-copy"@),
                    preview_text,
                    preview_image: image,
                    actions: seq![("copy"@, "Copiar"@)],
                },
            )
        },
    }
}

/// The first `n` characters of `s`, or all of them.
pub open spec fn take_at_most_chars(s: Seq<char>, n: int) -> Seq<char> {
    crate::search::ranking::take_at_most(s, n)
}

/// The preview of the most recent result, if there is one.
pub open spec fn recent_preview_of(first: Option<ResultView>) -> Option<PreviewView> {
    match first {
        Some(r) => Some(plain_preview(r.title, r.subtitle, None, r.icon, seq![("open"@, "Abrir"@)])),
        None => None,
    }
}

fn actions(list: Vec<(&str, &str)>) -> (r: Vec<PreviewAction>)
    ensures
        r@.map_values(|a: PreviewAction| (a.id@, a.label@)) == list@.map_values(|p: (&str, &str)| (p.0@, p.1@)),
{
    let mut out: Vec<PreviewAction> = Vec::new();
    let mut i: usize = 0;
    while i < list.len()
        invariant
            i <= list@.len(),
            out@.map_values(|a: PreviewAction| (a.id@, a.label@)) == list@.take(i as int).map_values(
                |p: (&str, &str)| (p.0@, p.1@),
            ),
        decreases list.len() - i,
    {
        let (a, b) = list[i];
        let ghost before = out@;
        out.push(PreviewAction { id: String::from_str(a), label: String::from_str(b) });
        assert(out@.map_values(|a: PreviewAction| (a.id@, a.label@)) =~= before.map_values(
            |a: PreviewAction| (a.id@, a.label@),
        ).push((a@, b@)));
        assert(list@.take(i + 1).map_values(|p: (&str, &str)| (p.0@, p.1@)) =~= list@.take(i as int).map_values(
            |p: (&str, &str)| (p.0@, p.1@),
        ).push((a@, b@)));
        i = i + 1;
    }
    assert(list@.take(i as int) =~= list@);
    out
}

/// The preview of a file (see `file_preview_of`), with what the caller
/// read of it.
pub fn file_preview(path: &str, preview_text: Option<String>, is_image: bool) -> (r: PreviewData)
    ensures
        preview_view(r) == file_preview_of(path@, opt_view(preview_text), is_image),
{
    let title = match path_file_name(path) {
        Some(n) => n,
        None => String::from_str(path),
    };
    let list = vec![("open", "Abrir"), ("reveal", "Mostrar na pasta"), ("copy_path", "Copiar caminho")];
    assert(list@.map_values(|p: (&str, &str)| (p.0@, p.1@)) =~= seq![
        ("open"@, "Abrir"@),
        ("reveal"@, "Mostrar na pasta"@),
        ("copy_path"@, "Copiar caminho"@),
    ]);
    let r = PreviewData {
        title,
        subtitle: path_parent(path),
        description: None,
        icon: None,
        preview_text,
        preview_image: if is_image {
            Some(String::from_str(path))
        } else {
            None
        },
        actions: actions(list),
    };
    r
}

/// The preview of a clipboard entry (see `clipboard_preview_of`), with
/// what the caller read of it: its type, its content (read for text) and
/// its image file.
pub fn clipboard_preview(content_type: Option<String>, content: Option<String>, image: Option<String>) -> (r:
    Option<PreviewData>)
    ensures
        match r {
            Some(p) => clipboard_preview_of(opt_view(content_type), opt_view(content), opt_view(image)) == Some(
                preview_view(p),
            ),
            None => clipboard_preview_of(opt_view(content_type), opt_view(content), opt_view(image)) is None,
        },
{
    let t = match content_type {
        Some(t) => t,
        None => return None,
    };
    let preview_text = if str_eq(t.as_str(), "text") {
        content
    } else {
        None
    };
    let title = if str_eq(t.as_str(), "image") {
        String::from_str("Imagem no clipboard")
    } else {
        match &preview_text {
            Some(x) => {
                let xv = chars_of(x.as_str());
                let ls = crate::text::lines(xv.as_slice());
                let line = if ls.len() > 0 {
                    assert(crate::text::views(ls@)[0] == ls@[0]@);
                    ls[0].clone()
                } else {
                    xv
                };
                assert(line@ == first_line(x@));
                let n: usize = if line.len() < 60 {
                    line.len()
                } else {
                    60
                };
                let cut = slice_chars(line.as_slice(), 0, n);
                assert(cut@ =~= take_at_most_chars(line@, 60));
                string_of(cut.as_slice())
            },
            None => String::from_str("Clipboard"),
        }
    };
    let list = vec![("copy", "Copiar")];
    assert(list@.map_values(|p: (&str, &str)| (p.0@, p.1@)) =~= seq![("copy"@, "Copiar"@)]);
    Some(
        PreviewData {
            title,
            subtitle: Some(String::from_str("Clipboard")),
            description: None,
            icon: Some(String::from_str("edit-copy")),
            preview_text,
            preview_image: image,
            actions: actions(list),
        },
    )
}

/// The preview of the most recent result (see `recent_preview_of`).
pub fn recent_preview(first: Option<SearchResult>) -> (r: Option<PreviewData>)
    ensures
        match r {
            Some(p) => recent_preview_of(match first {
                Some(x) => Some(x@),
                None => None,
            }) == Some(preview_view(p)),
            None => first is None,
        },
{
    match first {
        Some(x) => {
            let list = vec![("open", "Abrir")];
            assert(list@.map_values(|p: (&str, &str)| (p.0@, p.1@)) =~= seq![("open"@, "Abrir"@)]);
            Some(
                PreviewData {
                    title: x.title,
                    subtitle: x.subtitle,
                    description: None,
                    icon: x.icon,
                    preview_text: None,
                    preview_image: None,
                    actions: actions(list),
                },
            )
        },
        None => None,
    }
}

impl SearchIndexes {
    /// The preview of the result `id`, or what it needs next (see
    /// `preview_of`); `engine` is the configured web engine and `label` its
    /// label.
    pub fn get_preview(&self, id: &str, engine: &str, label: &str) -> (r: PreviewStep)
        ensures
            step_view(r) == preview_of(*self, id@, engine@, label@),
    {
        let (kind, key) = match parse_id(id) {
            Some(p) => p,
            None => return PreviewStep::Done(None),
        };
        match kind {
            ResultKind::App => match self.apps.get_by_id(key) {
                Some(a) => {
                    let list = vec![("open", "Abrir"), ("copy_path", "Copiar caminho")];
                    assert(list@.map_values(|p: (&str, &str)| (p.0@, p.1@)) =~= seq![
                        ("open"@, "Abrir"@),
                        ("copy_path"@, "Copiar caminho"@),
                    ]);
                    PreviewStep::Done(
                        Some(
                            PreviewData {
                                title: a.name.clone(),
                                subtitle: Some(String::from_str("Aplicativo")),
                                description: clone_opt(&a.comment),
                                icon: clone_opt(&a.icon),
                                preview_text: None,
                                preview_image: None,
                                actions: actions(list),
                            },
                        ),
                    )
                },
                None => PreviewStep::Done(None),
            },
            ResultKind::File => PreviewStep::File(String::from_str(key)),
            ResultKind::Setting => match self.settings.get(key) {
                Some(st) => {
                    let list = vec![("open", "Abrir")];
                    assert(list@.map_values(|p: (&str, &str)| (p.0@, p.1@)) =~= seq![("open"@, "Abrir"@)]);
                    PreviewStep::Done(
                        Some(
                            PreviewData {
                                title: st.name,
                                subtitle: Some(String::from_str("Configurações do sistema")),
                                description: None,
                                icon: st.icon,
                                preview_text: None,
                                preview_image: None,
                                actions: actions(list),
                            },
                        ),
                    )
                },
                None => PreviewStep::Done(None),
            },
            ResultKind::Web => {
                let list = vec![("open", "Pesquisar")];
                assert(list@.map_values(|p: (&str, &str)| (p.0@, p.1@)) =~= seq![("open"@, "Pesquisar"@)]);
                PreviewStep::Done(
                    Some(
                        PreviewData {
                            title: cat3("Pesquisar \"", key, "\" na web"),
                            subtitle: Some(String::from_str(label)),
                            description: Some(crate::web_search::search_url(key, engine)),
                            icon: Some(String::from_str("web-browser")),
                            preview_text: None,
                            preview_image: None,
                            actions: actions(list),
                        },
                    ),
                )
            },
            ResultKind::Bookmark | ResultKind::Browser => match self.browser.get_entry(id) {
                Some(e) => {
                    let list = vec![("open", "Abrir no navegador"), ("copy_url", "Copiar URL")];
                    assert(list@.map_values(|p: (&str, &str)| (p.0@, p.1@)) =~= seq![
                        ("open"@, "Abrir no navegador"@),
                        ("copy_url"@, "Copiar URL"@),
                    ]);
                    PreviewStep::Done(
                        Some(
                            PreviewData {
                                title: String::from_str(e.title()),
                                subtitle: Some(String::from_str(e.url())),
                                description: Some(cat3(e.source(), " · ", e.url())),
                                icon: None,
                                preview_text: None,
                                preview_image: None,
                                actions: actions(list),
                            },
                        ),
                    )
                },
                None => PreviewStep::Done(None),
            },
            ResultKind::Contact => match self.contacts.get(id) {
                Some(c) => {
                    let label_open = if c.email.is_some() {
                        "Enviar e-mail"
                    } else {
                        "Ligar"
                    };
                    let list = vec![("open", label_open)];
                    assert(list@.map_values(|p: (&str, &str)| (p.0@, p.1@)) =~= seq![("open"@, label_open@)]);
                    let subtitle = match &c.email {
                        Some(e) => Some(e.clone()),
                        None => clone_opt(&c.phone),
                    };
                    PreviewStep::Done(
                        Some(
                            PreviewData {
                                title: c.name,
                                subtitle,
                                description: c.email,
                                icon: Some(String::from_str("contact-new")),
                                preview_text: c.phone,
                                preview_image: None,
                                actions: actions(list),
                            },
                        ),
                    )
                },
                None => PreviewStep::Done(None),
            },
            ResultKind::Quicklink => match self.quicklinks.get(key) {
                Some(e) => {
                    let list = vec![("open", "Abrir URL")];
                    assert(list@.map_values(|p: (&str, &str)| (p.0@, p.1@)) =~= seq![("open"@, "Abrir URL"@)]);
                    let icon = match e.icon {
                        Some(i) => Some(i),
                        None => Some(String::from_str("web-browser")),
                    };
                    PreviewStep::Done(
                        Some(
                            PreviewData {
                                title: e.title,
                                subtitle: Some(e.url),
                                description: e.alias,
                                icon,
                                preview_text: None,
                                preview_image: None,
                                actions: actions(list),
                            },
                        ),
                    )
                },
                None => PreviewStep::Done(None),
            },
            ResultKind::Snippet => match self.snippets.get(key) {
                Some(e) => {
                    let list = vec![("paste", "Colar"), ("copy", "Copiar")];
                    assert(list@.map_values(|p: (&str, &str)| (p.0@, p.1@)) =~= seq![
                        ("paste"@, "Colar"@),
                        ("copy"@, "Copiar"@),
                    ]);
                    PreviewStep::Done(
                        Some(
                            PreviewData {
                                title: e.name,
                                subtitle: Some(e.keyword),
                                description: None,
                                icon: Some(String::from_str("text-x-generic")),
                                preview_text: Some(e.text),
                                preview_image: None,
                                actions: actions(list),
                            },
                        ),
                    )
                },
                None => PreviewStep::Done(None),
            },
            ResultKind::Script => match self.scripts.get(key) {
                Some(e) => {
                    let list = vec![("run", "Executar")];
                    assert(list@.map_values(|p: (&str, &str)| (p.0@, p.1@)) =~= seq![("run"@, "Executar"@)]);
                    let icon = match e.icon {
                        Some(i) => Some(i),
                        None => Some(String::from_str("utilities-terminal")),
                    };
                    let description = cat3(e.command.as_str(), " ", debug_list(&e.args).as_str());
                    PreviewStep::Done(
                        Some(
                            PreviewData {
                                title: e.title,
                                subtitle: e.keyword,
                                description: Some(description),
                                icon,
                                preview_text: None,
                                preview_image: None,
                                actions: actions(list),
                            },
                        ),
                    )
                },
                None => PreviewStep::Done(None),
            },
            ResultKind::Clipboard => PreviewStep::Clipboard(String::from_str(key)),
            ResultKind::Extension | ResultKind::Window => {
                let list = vec![("open", "Executar")];
                assert(list@.map_values(|p: (&str, &str)| (p.0@, p.1@)) =~= seq![("open"@, "Executar"@)]);
                PreviewStep::Done(
                    Some(
                        PreviewData {
                            title: String::from_str(key),
                            subtitle: Some(String::from_str(kind.as_str())),
                            description: None,
                            icon: None,
                            preview_text: None,
                            preview_image: None,
                            actions: actions(list),
                        },
                    ),
                )
            },
            ResultKind::Recent => PreviewStep::Recent,
        }
    }
}

/// What a preview action does.
#[derive(Debug)]
pub enum PreviewActionPlan {
    /// Copy the text.
    CopyText(String),
    /// Open the result.
    Open(OpenPlan),
    /// Show the file in its folder.
    Reveal(String),
    /// Paste or copy a snippet's text, by its mode.
    Snippet(String, SnippetMode),
    /// Run a script's command with its arguments.
    RunScript(String, Vec<String>),
    /// Copy a clipboard entry again.
    CopyClipboard(String),
}

/// The text of a preview action's plan.
pub enum PreviewActionView {
    CopyText(Seq<char>),
    Open(PlanOpenView),
    Reveal(Seq<char>),
    Snippet(Seq<char>, SnippetMode),
    RunScript(Seq<char>, Seq<Seq<char>>),
    CopyClipboard(Seq<char>),
}

/// The view of a preview action's plan.
pub open spec fn preview_action_view(r: Result<PreviewActionPlan, String>) -> Result<PreviewActionView, Seq<char>> {
    match r {
        Ok(p) => Ok(
            match p {
                PreviewActionPlan::CopyText(t) => PreviewActionView::CopyText(t@),
                PreviewActionPlan::Open(o) => PreviewActionView::Open(plan_open_view(o)),
                PreviewActionPlan::Reveal(k) => PreviewActionView::Reveal(k@),
                PreviewActionPlan::Snippet(t, m) => PreviewActionView::Snippet(t@, m),
                PreviewActionPlan::RunScript(c, a) => PreviewActionView::RunScript(c@, string_views(a@)),
                PreviewActionPlan::CopyClipboard(k) => PreviewActionView::CopyClipboard(k@),
            },
        ),
        Err(e) => Err(e@),
    }
}

/// What the preview action `action` does for the result `id`: copying an
/// application's `.desktop` path or a file's path, opening, showing a file
/// in its folder, copying a browser entry's URL, pasting or copying a
/// snippet, running a script, copying a clipboard entry; the error "Ação não
/// suportada" for an action the result does not offer.
pub open spec fn preview_action_of(idx: SearchIndexes, id: Seq<char>, action: Seq<char>, query: Seq<char>) -> Result<
    PreviewActionView,
    Seq<char>,
> {
    match parsed_id(id) {
        None => Err("Resultado inválido"@),
        Some((kind, key)) => if action == "copy_path"@ && kind == ResultKind::App {
            match app_for(idx.apps.apps(), key) {
                Some(k) => Ok(PreviewActionView::CopyText(idx.apps.apps()[k].desktop_path)),
                None => Err("App não encontrado"@),
            }
        } else if action == "copy_path"@ && kind == ResultKind::File {
            Ok(PreviewActionView::CopyText(key))
        } else if action == "open"@ {
            match open_plan_of(idx, id, query) {
                Ok(p) => Ok(PreviewActionView::Open(p)),
                Err(e) => Err(e),
            }
        } else if action == "reveal"@ && kind == ResultKind::File {
            Ok(PreviewActionView::Reveal(key))
        } else if action == "copy_url"@ && (kind == ResultKind::Bookmark || kind == ResultKind::Browser) {
            match entry_for(idx.browser.entries(), id) {
                Some(e) => Ok(PreviewActionView::CopyText(e.url)),
                None => Err("URL não encontrada"@),
            }
        } else if action == "paste"@ && kind == ResultKind::Snippet {
            match snippet_with_keyword(idx.snippets.entries@, key) {
                Some(e) => Ok(PreviewActionView::Snippet(e.text@, e.mode)),
                None => Err("Snippet não encontrado"@),
            }
        } else if action == "copy"@ && kind == ResultKind::Snippet {
            match snippet_with_keyword(idx.snippets.entries@, key) {
                Some(e) => Ok(PreviewActionView::CopyText(e.text@)),
                None => Err("Snippet não encontrado"@),
            }
        } else if action == "run"@ && kind == ResultKind::Script {
            match script_with_id(idx.scripts.entries@, key) {
                Some(e) => Ok(PreviewActionView::RunScript(e.command@, script_args(e, query))),
                None => Err("Script não encontrado"@),
            }
        } else if action == "copy"@ && kind == ResultKind::Clipboard {
            Ok(PreviewActionView::CopyClipboard(key))
        } else {
            Err("Ação não suportada"@)
        },
    }
}

impl SearchIndexes {
    /// What the preview action `action` does for the result `id` (see
    /// `preview_action_of`); a missing query reads as empty.
    pub fn run_preview_action(&self, id: &str, action: &str, query: Option<&str>) -> (r: Result<
        PreviewActionPlan,
        String,
    >)
        ensures
            preview_action_view(r) == preview_action_of(*self, id@, action@, match query {
                Some(q) => q@,
                None => Seq::empty(),
            }),
    {
        let (kind, key) = match parse_id(id) {
            Some(p) => p,
            None => return Err(String::from_str("Resultado inválido")),
        };
        let q: &str = match query {
            Some(q) => q,
            None => {
                proof {
                    reveal_strlit("");
                }
                assert(""@ =~= Seq::<char>::empty());
                ""
            },
        };
        if str_eq(action, "copy_path") && kind == ResultKind::App {
            match self.apps.get_by_id(key) {
                Some(a) => Ok(PreviewActionPlan::CopyText(a.desktop_path.clone())),
                None => Err(String::from_str("App não encontrado")),
            }
        } else if str_eq(action, "copy_path") && kind == ResultKind::File {
            Ok(PreviewActionPlan::CopyText(String::from_str(key)))
        } else if str_eq(action, "open") {
            match self.open_result(id, query) {
                Ok(p) => Ok(PreviewActionPlan::Open(p)),
                Err(e) => Err(e),
            }
        } else if str_eq(action, "reveal") && kind == ResultKind::File {
            Ok(PreviewActionPlan::Reveal(String::from_str(key)))
        } else if str_eq(action, "copy_url") && (kind == ResultKind::Bookmark || kind == ResultKind::Browser) {
            match self.browser.get_url(id) {
                Some(u) => Ok(PreviewActionPlan::CopyText(u)),
                None => Err(String::from_str("URL não encontrada")),
            }
        } else if str_eq(action, "paste") && kind == ResultKind::Snippet {
            match self.snippets.apply(key) {
                Ok((t, m)) => Ok(PreviewActionPlan::Snippet(t, m)),
                Err(e) => Err(e),
            }
        } else if str_eq(action, "copy") && kind == ResultKind::Snippet {
            match self.snippets.get(key) {
                Some(e) => Ok(PreviewActionPlan::CopyText(e.text)),
                None => Err(String::from_str("Snippet não encontrado")),
            }
        } else if str_eq(action, "run") && kind == ResultKind::Script {
            match self.scripts.run(key, q) {
                Ok((c, a)) => Ok(PreviewActionPlan::RunScript(c, a)),
                Err(e) => Err(e),
            }
        } else if str_eq(action, "copy") && kind == ResultKind::Clipboard {
            Ok(PreviewActionPlan::CopyClipboard(String::from_str(key)))
        } else {
            Err(String::from_str("Ação não suportada"))
        }
    }
}

} // verus!
