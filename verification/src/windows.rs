//! Window management: which backend serves the desktop, the window and
//! window-command results, what an action asks of the backend, and the
//! commands each backend runs for it.

use vstd::prelude::*;
use crate::search::ranking::{build_result, result_views, scored_view, take_at_most, HistoryStats, ResultView};
use crate::search::types::{make_id, result_id, ResultKind, SearchResult};
use crate::text::{
    cat, chars_eq, chars_of, clone_opt, contains, join, lines, lowercase, opt_view, seq_contains,
    seq_join, seq_lines, seq_starts_with, seq_words, starts_with, str_eq, string_of, strip_prefix,
    to_lowercase, views, words,
};

verus! {

/// An open window.
#[derive(Clone, Debug)]
pub struct WindowInfo {
    pub id: String,
    pub title: String,
    pub app: Option<String>,
}

/// The text of a window's fields.
pub struct WindowView {
    pub id: Seq<char>,
    pub title: Seq<char>,
    pub app: Option<Seq<char>>,
}

impl View for WindowInfo {
    type V = WindowView;

    open spec fn view(&self) -> WindowView {
        WindowView { id: self.id@, title: self.title@, app: opt_view(self.app) }
    }
}

/// The views of a sequence of windows.
pub open spec fn window_views(s: Seq<WindowInfo>) -> Seq<WindowView> {
    s.map_values(|w: WindowInfo| w@)
}

/// The desktop a session runs, as far as the environment tells: Hyprland
/// when its instance signature is set, GNOME or KDE by
/// `XDG_CURRENT_DESKTOP` (lowercase, "kde" or "plasma" for KDE); `None`
/// when only asking `hyprctl` can tell Hyprland from the rest.
pub open spec fn desktop_from_env_spec(hyprland_signature: bool, desktop: Seq<char>) -> Option<
    Seq<char>,
> {
    if hyprland_signature {
        Some("hyprland"@)
    } else if seq_contains(lowercase(desktop), "gnome"@) {
        Some("gnome"@)
    } else if seq_contains(lowercase(desktop), "kde"@) || seq_contains(lowercase(desktop), "plasma"@) {
        Some("kde"@)
    } else {
        None
    }
}

/// The desktop a session runs (see `desktop_from_env_spec`); a `None` is
/// settled by whether `hyprctl --version` succeeds: "hyprland" if it does,
/// "fallback" if not.
pub fn desktop_from_env(hyprland_signature: bool, xdg_current_desktop: &str) -> (r: Option<String>)
    ensures
        opt_view(r) == desktop_from_env_spec(hyprland_signature, xdg_current_desktop@),
{
    if hyprland_signature {
        return Some(String::from_str("hyprland"));
    }
    let d = chars_of(to_lowercase(xdg_current_desktop).as_str());
    if contains(d.as_slice(), chars_of("gnome").as_slice()) {
        return Some(String::from_str("gnome"));
    }
    if contains(d.as_slice(), chars_of("kde").as_slice()) || contains(
        d.as_slice(),
        chars_of("plasma").as_slice(),
    ) {
        return Some(String::from_str("kde"));
    }
    None
}

/// The backend that serves a desktop.
#[derive(Clone, Copy, Debug, PartialEq, Eq, Structural)]
pub enum WindowBackend {
    Gnome,
    Kde,
    Hyprland,
    Wmctrl,
}

/// The backend of a desktop name.
pub open spec fn backend_of(de: Seq<char>) -> WindowBackend {
    if de == "gnome"@ {
        WindowBackend::Gnome
    } else if de == "kde"@ {
        WindowBackend::Kde
    } else if de == "hyprland"@ {
        WindowBackend::Hyprland
    } else {
        WindowBackend::Wmctrl
    }
}

/// What a window action asks of the backend.
#[derive(Debug)]
pub enum WindowAction {
    Focus(String),
    Move(String),
    ToggleFullscreen,
    CloseActive,
    MinimizeActive,
}

/// The text of a window action.
pub enum WindowActionView {
    Focus(Seq<char>),
    Move(Seq<char>),
    ToggleFullscreen,
    CloseActive,
    MinimizeActive,
}

impl View for WindowAction {
    type V = WindowActionView;

    open spec fn view(&self) -> WindowActionView {
        match self {
            WindowAction::Focus(id) => WindowActionView::Focus(id@),
            WindowAction::Move(d) => WindowActionView::Move(d@),
            WindowAction::ToggleFullscreen => WindowActionView::ToggleFullscreen,
            WindowAction::CloseActive => WindowActionView::CloseActive,
            WindowAction::MinimizeActive => WindowActionView::MinimizeActive,
        }
    }
}

/// Whether every character is an ASCII digit.
pub open spec fn all_ascii_digits(s: Seq<char>) -> bool {
    forall|k: int| 0 <= k < s.len() ==> '0' <= #[trigger] s[k] && s[k] <= '9'
}

/// What an action identifier asks: `window:focus:<id>` focuses `<id>`; the
/// five fixed commands move, resize, close or minimize the active window;
/// another `window:<id>` focuses `<id>`; an identifier that starts with
/// `0x` or is all digits is itself a window to focus; anything else is the
/// error "Ação de janela desconhecida: <id>".
pub open spec fn window_action_of(action_id: Seq<char>) -> Result<WindowActionView, Seq<char>> {
    if seq_starts_with(action_id, "window:focus:"@) {
        Ok(WindowActionView::Focus(action_id.subrange(13, action_id.len() as int)))
    } else if action_id == "window:left"@ {
        Ok(WindowActionView::Move("left"@))
    } else if action_id == "window:right"@ {
        Ok(WindowActionView::Move("right"@))
    } else if action_id == "window:up"@ {
        Ok(WindowActionView::Move("up"@))
    } else if action_id == "window:down"@ {
        Ok(WindowActionView::Move("down"@))
    } else if action_id == "window:fullscreen"@ {
        Ok(WindowActionView::ToggleFullscreen)
    } else if action_id == "window:close"@ {
        Ok(WindowActionView::CloseActive)
    } else if action_id == "window:minimize"@ {
        Ok(WindowActionView::MinimizeActive)
    } else if seq_starts_with(action_id, "window:"@) {
        Ok(WindowActionView::Focus(action_id.subrange(7, action_id.len() as int)))
    } else if seq_starts_with(action_id, "0x"@) || all_ascii_digits(action_id) {
        Ok(WindowActionView::Focus(action_id))
    } else {
        Err("Ação de janela desconhecida: "@ + action_id)
    }
}

/// The result a window gives for the lowercase query `ql`: every window
/// when it is empty, else those whose lowercase title holds it.
pub open spec fn window_hit(w: WindowView, ql: Seq<char>, query: Seq<char>, h: HistoryStats) -> Option<
    ResultView,
> {
    if ql.len() == 0 || seq_contains(lowercase(w.title), ql) {
        Some(
            scored_view(
                result_id(ResultKind::Window, w.id),
                ResultKind::Window,
                w.title,
                w.app,
                Some("window"@),
                700,
                query,
                h,
            ),
        )
    } else {
        None
    }
}

/// The window results: the matching windows in the order listed, at most
/// `limit`.
pub open spec fn window_results(ws: Seq<WindowView>, query: Seq<char>, h: HistoryStats, limit: int) -> Seq<
    ResultView,
> {
    take_at_most(
        ws.filter_map(|w: WindowView| window_hit(w, lowercase(query), query, h)),
        limit,
    )
}

/// The window service of a desktop.
pub struct WindowService {
    backend: WindowBackend,
}

impl WindowService {
    /// The backend serving the desktop.
    pub closed spec fn backend_spec(&self) -> WindowBackend {
        self.backend
    }

    /// The service of the desktop named `de` ("gnome", "kde", "hyprland";
    /// anything else uses `wmctrl`).
    pub fn new(de: &str) -> (r: Self)
        ensures
            r.backend_spec() == backend_of(de@),
    {
        let backend = if str_eq(de, "gnome") {
            WindowBackend::Gnome
        } else if str_eq(de, "kde") {
            WindowBackend::Kde
        } else if str_eq(de, "hyprland") {
            WindowBackend::Hyprland
        } else {
            WindowBackend::Wmctrl
        };
        WindowService { backend }
    }

    /// The backend serving the desktop.
    pub fn backend(&self) -> (r: WindowBackend)
        ensures
            r == self.backend_spec(),
    {
        self.backend
    }

    /// The results for the windows the backend listed (see `window_results`).
    pub fn search(&self, windows: Vec<WindowInfo>, query: &str, history: &HistoryStats, limit: usize) -> (r:
        Vec<SearchResult>)
        ensures
            result_views(r@) == window_results(window_views(windows@), query@, *history, limit as int),
    {
        let ql = chars_of(to_lowercase(query).as_str());
        let ghost ws = window_views(windows@);
        let ghost f = |w: WindowView| window_hit(w, lowercase(query@), query@, *history);
        let mut results: Vec<SearchResult> = Vec::new();
        let mut i: usize = 0;
        assert(result_views(results@) =~= ws.take(0).filter_map(f));
        while i < windows.len()
            invariant
                i <= windows@.len(),
                ws == window_views(windows@),
                ql@ == lowercase(query@),
                f == (|w: WindowView| window_hit(w, lowercase(query@), query@, *history)),
                result_views(results@) == ws.take(i as int).filter_map(f),
            decreases windows.len() - i,
        {
            let ghost before = results@;
            proof {
                assert(ws.take(i + 1).drop_last() =~= ws.take(i as int));
                assert(ws.take(i + 1).last() == windows@[i as int]@);
            }
            let w = &windows[i];
            let shown = ql.len() == 0 || contains(
                chars_of(to_lowercase(w.title.as_str()).as_str()).as_slice(),
                ql.as_slice(),
            );
            if shown {
                let x = build_result(
                    make_id(ResultKind::Window, w.id.as_str()),
                    ResultKind::Window,
                    w.title.clone(),
                    clone_opt(&w.app),
                    Some(String::from_str("window")),
                    700,
                    query,
                    history,
                );
                results.push(x);
                assert(result_views(results@) =~= result_views(before) + seq![x@]);
            }
            i = i + 1;
        }
        assert(ws.take(i as int) =~= ws);
        results.truncate(limit);
        results
    }

    /// What the action `action_id` asks of the backend (see
    /// `window_action_of`); the caller has the backend carry it out.
    pub fn run_action(&self, action_id: &str, args: &str) -> (r: Result<WindowAction, String>)
        ensures
            match r {
                Ok(a) => window_action_of(action_id@) == Ok::<WindowActionView, Seq<char>>(a@),
                Err(e) => window_action_of(action_id@) == Err::<WindowActionView, Seq<char>>(e@),
            },
    {
        let a = chars_of(action_id);
        proof {
            reveal_strlit("window:focus:");
            reveal_strlit("window:");
        }
        match strip_prefix(a.as_slice(), chars_of("window:focus:").as_slice()) {
            Some(rest) => return Ok(WindowAction::Focus(string_of(rest.as_slice()))),
            None => {},
        }
        if str_eq(action_id, "window:left") {
            return Ok(WindowAction::Move(String::from_str("left")));
        }
        if str_eq(action_id, "window:right") {
            return Ok(WindowAction::Move(String::from_str("right")));
        }
        if str_eq(action_id, "window:up") {
            return Ok(WindowAction::Move(String::from_str("up")));
        }
        if str_eq(action_id, "window:down") {
            return Ok(WindowAction::Move(String::from_str("down")));
        }
        if str_eq(action_id, "window:fullscreen") {
            return Ok(WindowAction::ToggleFullscreen);
        }
        if str_eq(action_id, "window:close") {
            return Ok(WindowAction::CloseActive);
        }
        if str_eq(action_id, "window:minimize") {
            return Ok(WindowAction::MinimizeActive);
        }
        match strip_prefix(a.as_slice(), chars_of("window:").as_slice()) {
            Some(rest) => return Ok(WindowAction::Focus(string_of(rest.as_slice()))),
            None => {},
        }
        let mut digits = true;
        let mut i: usize = 0;
        while i < a.len()
            invariant
                i <= a@.len(),
                digits == (forall|k: int| 0 <= k < i ==> '0' <= #[trigger] a@[k] && a@[k] <= '9'),
            decreases a.len() - i,
        {
            if !('0' <= a[i] && a[i] <= '9') {
                digits = false;
            }
            i = i + 1;
        }
        if starts_with(a.as_slice(), chars_of("0x").as_slice()) || digits {
            Ok(WindowAction::Focus(String::from_str(action_id)))
        } else {
            Err(cat("Ação de janela desconhecida: ", action_id))
        }
    }
}

/// The fixed window commands: action, title, hint.
pub open spec fn window_command_list() -> Seq<(Seq<char>, Seq<char>, Seq<char>)> {
    seq![
        ("window:left"@, "Mover janela à esquerda"@, "←"@),
        ("window:right"@, "Mover janela à direita"@, "→"@),
        ("window:fullscreen"@, "Tela cheia"@, "⛶"@),
        ("window:minimize"@, "Minimizar janela ativa"@, "—"@),
        ("window:close"@, "Fechar janela ativa"@, "×"@),
    ]
}

/// The result of a window command for the lowercase query `ql`: shown when
/// `ql` is empty, its lowercase title holds it, or "window" holds it.
pub open spec fn command_hit(
    c: (Seq<char>, Seq<char>, Seq<char>),
    ql: Seq<char>,
    query: Seq<char>,
    h: HistoryStats,
) -> Option<ResultView> {
    if ql.len() == 0 || seq_contains(lowercase(c.1), ql) || seq_contains("window"@, ql) {
        Some(
            scored_view(
                result_id(ResultKind::Window, c.0),
                ResultKind::Window,
                c.1,
                Some(c.2),
                Some("window"@),
                850,
                query,
                h,
            ),
        )
    } else {
        None
    }
}

/// The window-command results: the shown commands in their fixed order, at
/// most `limit`.
pub open spec fn window_command_results(query: Seq<char>, h: HistoryStats, limit: int) -> Seq<
    ResultView,
> {
    take_at_most(
        window_command_list().filter_map(
            |c: (Seq<char>, Seq<char>, Seq<char>)| command_hit(c, lowercase(query), query, h),
        ),
        limit,
    )
}

/// The views of the fixed commands.
pub open spec fn triple_views(v: Seq<(&str, &str, &str)>) -> Seq<(Seq<char>, Seq<char>, Seq<char>)> {
    v.map_values(|t: (&str, &str, &str)| (t.0@, t.1@, t.2@))
}

fn command_list() -> (r: Vec<(&'static str, &'static str, &'static str)>)
    ensures
        triple_views(r@) == window_command_list(),
{
    let mut v: Vec<(&'static str, &'static str, &'static str)> = Vec::new();
    v.push(("window:left", "Mover janela à esquerda", "←"));
    v.push(("window:right", "Mover janela à direita", "→"));
    v.push(("window:fullscreen", "Tela cheia", "⛶"));
    v.push(("window:minimize", "Minimizar janela ativa", "—"));
    v.push(("window:close", "Fechar janela ativa", "×"));
    assert(triple_views(v@) =~= window_command_list());
    v
}

/// The window commands matching `query` (see `window_command_results`).
pub fn window_commands(history: &HistoryStats, query: &str, limit: usize) -> (r: Vec<SearchResult>)
    ensures
        result_views(r@) == window_command_results(query@, *history, limit as int),
{
    let ql = chars_of(to_lowercase(query).as_str());
    let cmds = command_list();
    let ghost cs = triple_views(cmds@);
    let ghost f = |c: (Seq<char>, Seq<char>, Seq<char>)| command_hit(c, lowercase(query@), query@, *history);
    let mut results: Vec<SearchResult> = Vec::new();
    let mut i: usize = 0;
    assert(result_views(results@) =~= cs.take(0).filter_map(f));
    while i < cmds.len()
        invariant
            i <= cmds@.len(),
            cs == triple_views(cmds@),
            ql@ == lowercase(query@),
            f == (|c: (Seq<char>, Seq<char>, Seq<char>)|
                command_hit(c, lowercase(query@), query@, *history)),
            result_views(results@) == cs.take(i as int).filter_map(f),
        decreases cmds.len() - i,
    {
        let ghost before = results@;
        let (id, title, hint) = cmds[i];
        proof {
            assert(cs.take(i + 1).drop_last() =~= cs.take(i as int));
            assert(cs.take(i + 1).last() == (id@, title@, hint@));
        }
        let shown = ql.len() == 0 || contains(
            chars_of(to_lowercase(title).as_str()).as_slice(),
            ql.as_slice(),
        ) || contains(chars_of("window").as_slice(), ql.as_slice());
        if shown {
            let x = build_result(
                make_id(ResultKind::Window, id),
                ResultKind::Window,
                String::from_str(title),
                Some(String::from_str(hint)),
                Some(String::from_str("window")),
                850,
                query,
                history,
            );
            results.push(x);
            assert(result_views(results@) =~= result_views(before) + seq![x@]);
        }
        i = i + 1;
    }
    assert(cs.take(i as int) =~= cs);
    results.truncate(limit);
    results
}

/// The window a line of `wmctrl -l` describes: its first word is the
/// window, the next two (desktop and host) are skipped, and the remaining
/// words joined by single spaces are the title.
pub open spec fn wmctrl_window(line: Seq<char>) -> Option<WindowView> {
    let ws = seq_words(line);
    if ws.len() < 3 {
        None
    } else {
        Some(WindowView { id: ws[0], title: seq_join(ws.subrange(3, ws.len() as int), " "@), app: None })
    }
}

/// The window a line of `wmctrl -l` describes (see `wmctrl_window`).
pub fn parse_wmctrl_line(line: &str) -> (r: Option<WindowInfo>)
    ensures
        match r {
            Some(w) => wmctrl_window(line@) == Some(w@),
            None => wmctrl_window(line@) is None,
        },
{
    let ws = words(chars_of(line).as_slice());
    let ghost wv = views(ws@);
    if ws.len() < 3 {
        return None;
    }
    let mut rest: Vec<Vec<char>> = Vec::new();
    let mut i: usize = 3;
    while i < ws.len()
        invariant
            3 <= i <= ws@.len(),
            wv == views(ws@),
            views(rest@) == wv.subrange(3, i as int),
        decreases ws.len() - i,
    {
        let ghost before = views(rest@);
        rest.push(ws[i].clone());
        assert(views(rest@) =~= before.push(ws@[i as int]@));
        assert(wv.subrange(3, i + 1) =~= wv.subrange(3, i as int).push(wv[i as int]));
        i = i + 1;
    }
    let title = join(&rest, chars_of(" ").as_slice());
    assert(wv[0] == ws@[0]@);
    Some(WindowInfo { id: string_of(ws[0].as_slice()), title: string_of(title.as_slice()), app: None })
}

/// The windows of the whole output of `wmctrl -l`, one per line that
/// describes one.
pub fn parse_wmctrl_output(output: &str) -> (r: Vec<WindowInfo>)
    ensures
        window_views(r@) == seq_lines(output@).filter_map(|l: Seq<char>| wmctrl_window(l)),
{
    let ls = lines(chars_of(output).as_slice());
    let ghost lv = views(ls@);
    let ghost f = |l: Seq<char>| wmctrl_window(l);
    let mut out: Vec<WindowInfo> = Vec::new();
    let mut i: usize = 0;
    assert(window_views(out@) =~= lv.take(0).filter_map(f));
    while i < ls.len()
        invariant
            i <= ls@.len(),
            lv == views(ls@),
            lv == seq_lines(output@),
            f == (|l: Seq<char>| wmctrl_window(l)),
            window_views(out@) == lv.take(i as int).filter_map(f),
        decreases ls.len() - i,
    {
        let ghost before = out@;
        proof {
            assert(lv.take(i + 1).drop_last() =~= lv.take(i as int));
            assert(lv.take(i + 1).last() == ls@[i as int]@);
        }
        match parse_wmctrl_line(string_of(ls[i].as_slice()).as_str()) {
            Some(w) => {
                out.push(w);
                assert(window_views(out@) =~= window_views(before) + seq![w@]);
            },
            None => {},
        }
        i = i + 1;
    }
    assert(lv.take(i as int) =~= lv);
    out
}

/// The text of a command line.
pub open spec fn argv_views(v: Seq<String>) -> Seq<Seq<char>> {
    v.map_values(|a: String| a@)
}

/// The text of a list of string slices.
pub open spec fn str_views(v: Seq<&str>) -> Seq<Seq<char>> {
    v.map_values(|a: &str| a@)
}

fn owned(v: Vec<&str>) -> (r: Vec<String>)
    ensures
        argv_views(r@) == str_views(v@),
{
    let mut out: Vec<String> = Vec::new();
    let mut i: usize = 0;
    while i < v.len()
        invariant
            i <= v@.len(),
            argv_views(out@) == str_views(v@).take(i as int),
        decreases v.len() - i,
    {
        let ghost before = out@;
        out.push(String::from_str(v[i]));
        assert(argv_views(out@) =~= argv_views(before).push(v@[i as int]@));
        assert(str_views(v@).take(i + 1) =~= str_views(v@).take(i as int).push(v@[i as int]@));
        i = i + 1;
    }
    assert(str_views(v@).take(i as int) =~= str_views(v@));
    out
}

/// A backend's commands: the program and arguments that list the windows
/// and those that carry out an action.
pub trait WindowManager {
    /// The command that lists the windows.
    fn list_command(&self) -> Vec<String>;

    /// The command that carries out `action`, or why there is none.
    fn action_command(&self, action: &WindowAction) -> Result<Vec<String>, String>;
}

/// The `wmctrl` backend.
pub struct WmctrlManager;

/// The Hyprland backend, through `hyprctl`.
pub struct HyprlandWindowManager;

/// The KDE backend, which runs the `wmctrl` commands.
pub struct KdeWindowManager;

/// The geometry `wmctrl -e` gets for a move: the left, right, top or
/// bottom half of the screen.
pub open spec fn wmctrl_geometry(direction: Seq<char>) -> Option<Seq<char>> {
    if direction == "left"@ {
        Some("0,0,50%,100%"@)
    } else if direction == "right"@ {
        Some("50%,0,50%,100%"@)
    } else if direction == "up"@ {
        Some("0,0,100%,50%"@)
    } else if direction == "down"@ {
        Some("0,50%,100%,50%"@)
    } else {
        None
    }
}

/// The `wmctrl` command of an action; an unknown direction is the error
/// "Direção inválida".
pub open spec fn wmctrl_command(a: WindowActionView) -> Result<Seq<Seq<char>>, Seq<char>> {
    match a {
        WindowActionView::Focus(id) => Ok(seq!["wmctrl"@, "-ia"@, id]),
        WindowActionView::Move(d) => match wmctrl_geometry(d) {
            Some(g) => Ok(seq!["wmctrl"@, "-r"@, ":ACTIVE:"@, "-e"@, "0,"@ + g]),
            None => Err("Direção inválida"@),
        },
        WindowActionView::ToggleFullscreen => Ok(
            seq!["wmctrl"@, "-r"@, ":ACTIVE:"@, "-b"@, "toggle,fullscreen"@],
        ),
        WindowActionView::CloseActive => Ok(seq!["wmctrl"@, "-c"@, ":ACTIVE:"@]),
        WindowActionView::MinimizeActive => Ok(
            seq!["wmctrl"@, "-r"@, ":ACTIVE:"@, "-b"@, "add,hidden"@],
        ),
    }
}

/// The `hyprctl dispatch` argument of a move.
pub open spec fn hyprland_move(direction: Seq<char>) -> Option<Seq<char>> {
    if direction == "left"@ {
        Some("movewindow l"@)
    } else if direction == "right"@ {
        Some("movewindow r"@)
    } else if direction == "up"@ {
        Some("movewindow u"@)
    } else if direction == "down"@ {
        Some("movewindow d"@)
    } else {
        None
    }
}

/// The `hyprctl` command of an action; an unknown direction is the error
/// "Direção inválida".
pub open spec fn hyprland_command(a: WindowActionView) -> Result<Seq<Seq<char>>, Seq<char>> {
    match a {
        WindowActionView::Focus(id) => Ok(
            seq!["hyprctl"@, "dispatch"@, "focuswindow"@, "address:"@ + id],
        ),
        WindowActionView::Move(d) => match hyprland_move(d) {
            Some(m) => Ok(seq!["hyprctl"@, "dispatch"@, m]),
            None => Err("Direção inválida"@),
        },
        WindowActionView::ToggleFullscreen => Ok(
            seq!["hyprctl"@, "dispatch"@, "fullscreen"@, "1"@],
        ),
        WindowActionView::CloseActive => Ok(seq!["hyprctl"@, "dispatch"@, "closewindow"@, "active"@]),
        WindowActionView::MinimizeActive => Ok(
            seq!["hyprctl"@, "dispatch"@, "movetoworkspacesilent"@, "special"@],
        ),
    }
}

/// Whether a command result matches its specification.
pub open spec fn command_matches(r: Result<Vec<String>, String>, spec: Result<Seq<Seq<char>>, Seq<char>>) -> bool {
    match r {
        Ok(v) => spec == Ok::<Seq<Seq<char>>, Seq<char>>(argv_views(v@)),
        Err(e) => spec == Err::<Seq<Seq<char>>, Seq<char>>(e@),
    }
}

fn wmctrl_action(action: &WindowAction) -> (r: Result<Vec<String>, String>)
    ensures
        command_matches(r, wmctrl_command(action@)),
{
    match action {
        WindowAction::Focus(id) => {
            let parts = vec!["wmctrl", "-ia", id.as_str()];
            assert(str_views(parts@) =~= seq!["wmctrl"@, "-ia"@, id@]);
            let v = owned(parts);
            Ok(v)
        },
        WindowAction::Move(d) => {
            let geo = if str_eq(d.as_str(), "left") {
                "0,0,50%,100%"
            } else if str_eq(d.as_str(), "right") {
                "50%,0,50%,100%"
            } else if str_eq(d.as_str(), "up") {
                "0,0,100%,50%"
            } else if str_eq(d.as_str(), "down") {
                "0,50%,100%,50%"
            } else {
                return Err(String::from_str("Direção inválida"));
            };
            let e = cat("0,", geo);
            let parts = vec!["wmctrl", "-r", ":ACTIVE:", "-e", e.as_str()];
            assert(str_views(parts@) =~= seq![
                "wmctrl"@,
                "-r"@,
                ":ACTIVE:"@,
                "-e"@,
                e@,
            ]);
            let v = owned(parts);
            Ok(v)
        },
        WindowAction::ToggleFullscreen => {
            let parts = vec!["wmctrl", "-r", ":ACTIVE:", "-b", "toggle,fullscreen"];
            assert(str_views(parts@) =~= seq![
                "wmctrl"@,
                "-r"@,
                ":ACTIVE:"@,
                "-b"@,
                "toggle,fullscreen"@,
            ]);
            let v = owned(parts);
            Ok(v)
        },
        WindowAction::CloseActive => {
            let parts = vec!["wmctrl", "-c", ":ACTIVE:"];
            assert(str_views(parts@) =~= seq![
                "wmctrl"@,
                "-c"@,
                ":ACTIVE:"@,
            ]);
            let v = owned(parts);
            Ok(v)
        },
        WindowAction::MinimizeActive => {
            let parts = vec!["wmctrl", "-r", ":ACTIVE:", "-b", "add,hidden"];
            assert(str_views(parts@) =~= seq![
                "wmctrl"@,
                "-r"@,
                ":ACTIVE:"@,
                "-b"@,
                "add,hidden"@,
            ]);
            let v = owned(parts);
            Ok(v)
        },
    }
}

impl WindowManager for WmctrlManager {
    fn list_command(&self) -> (r: Vec<String>)
        ensures
            argv_views(r@) == seq!["wmctrl"@, "-l"@],
    {
        let parts = vec!["wmctrl", "-l"];
        assert(str_views(parts@) =~= seq!["wmctrl"@, "-l"@]);
        let v = owned(parts);
        v
    }

    fn action_command(&self, action: &WindowAction) -> (r: Result<Vec<String>, String>)
        ensures
            command_matches(r, wmctrl_command(action@)),
    {
        wmctrl_action(action)
    }
}

impl WindowManager for KdeWindowManager {
    fn list_command(&self) -> (r: Vec<String>)
        ensures
            argv_views(r@) == seq!["wmctrl"@, "-l"@],
    {
        WmctrlManager.list_command()
    }

    fn action_command(&self, action: &WindowAction) -> (r: Result<Vec<String>, String>)
        ensures
            command_matches(r, wmctrl_command(action@)),
    {
        wmctrl_action(action)
    }
}

impl WindowManager for HyprlandWindowManager {
    fn list_command(&self) -> (r: Vec<String>)
        ensures
            argv_views(r@) == seq!["hyprctl"@, "clients"@, "-j"@],
    {
        let parts = vec!["hyprctl", "clients", "-j"];
        assert(str_views(parts@) =~= seq!["hyprctl"@, "clients"@, "-j"@]);
        let v = owned(parts);
        v
    }

    fn action_command(&self, action: &WindowAction) -> (r: Result<Vec<String>, String>)
        ensures
            command_matches(r, hyprland_command(action@)),
    {
        match action {
            WindowAction::Focus(id) => {
                let a = cat("address:", id.as_str());
                let parts = vec!["hyprctl", "dispatch", "focuswindow", a.as_str()];
                assert(str_views(parts@) =~= seq![
                    "hyprctl"@,
                    "dispatch"@,
                    "focuswindow"@,
                    a@,
                ]);
                let v = owned(parts);
                Ok(v)
            },
            WindowAction::Move(d) => {
                let m = if str_eq(d.as_str(), "left") {
                    "movewindow l"
                } else if str_eq(d.as_str(), "right") {
                    "movewindow r"
                } else if str_eq(d.as_str(), "up") {
                    "movewindow u"
                } else if str_eq(d.as_str(), "down") {
                    "movewindow d"
                } else {
                    return Err(String::from_str("Direção inválida"));
                };
                let parts = vec!["hyprctl", "dispatch", m];
                assert(str_views(parts@) =~= seq!["hyprctl"@, "dispatch"@, m@]);
                let v = owned(parts);
                Ok(v)
            },
            WindowAction::ToggleFullscreen => {
                let parts = vec!["hyprctl", "dispatch", "fullscreen", "1"];
                assert(str_views(parts@) =~= seq![
                    "hyprctl"@,
                    "dispatch"@,
                    "fullscreen"@,
                    "1"@,
                ]);
                let v = owned(parts);
                Ok(v)
            },
            WindowAction::CloseActive => {
                let parts = vec!["hyprctl", "dispatch", "closewindow", "active"];
                assert(str_views(parts@) =~= seq![
                    "hyprctl"@,
                    "dispatch"@,
                    "closewindow"@,
                    "active"@,
                ]);
                let v = owned(parts);
                Ok(v)
            },
            WindowAction::MinimizeActive => {
                let parts = vec!["hyprctl", "dispatch", "movetoworkspacesilent", "special"];
                assert(str_views(parts@) =~= seq![
                    "hyprctl"@,
                    "dispatch"@,
                    "movetoworkspacesilent"@,
                    "special"@,
                ]);
                let v = owned(parts);
                Ok(v)
            },
        }
    }
}

/// A client as `hyprctl clients -j` lists it: its `address`, `title` and
/// `class` where they are strings.
#[derive(Clone, Debug)]
pub struct HyprClient {
    pub address: Option<String>,
    pub title: Option<String>,
    pub class: Option<String>,
}

/// The window of a Hyprland client with an address: the address names it,
/// its title (empty when missing) and its class as the application.
pub open spec fn hypr_window(c: HyprClient) -> Option<WindowView> {
    match opt_view(c.address) {
        Some(a) => Some(
            WindowView {
                id: a,
                title: match opt_view(c.title) {
                    Some(t) => t,
                    None => Seq::empty(),
                },
                app: opt_view(c.class),
            },
        ),
        None => None,
    }
}

/// The windows of the clients Hyprland listed, in its order (see
/// `hypr_window`).
pub fn hyprland_windows(clients: Vec<HyprClient>) -> (r: Vec<WindowInfo>)
    ensures
        window_views(r@) == clients@.filter_map(|c: HyprClient| hypr_window(c)),
{
    let ghost f = |c: HyprClient| hypr_window(c);
    let mut out: Vec<WindowInfo> = Vec::new();
    let mut i: usize = 0;
    assert(window_views(out@) =~= clients@.take(0).filter_map(f));
    while i < clients.len()
        invariant
            i <= clients@.len(),
            f == (|c: HyprClient| hypr_window(c)),
            window_views(out@) == clients@.take(i as int).filter_map(f),
        decreases clients.len() - i,
    {
        let c = &clients[i];
        proof {
            assert(clients@.take(i + 1).drop_last() =~= clients@.take(i as int));
            assert(clients@.take(i + 1).last() == *c);
        }
        let ghost before = window_views(out@);
        match &c.address {
            Some(a) => {
                let title = match &c.title {
                    Some(t) => t.clone(),
                    None => String::new(),
                };
                let w = WindowInfo { id: a.clone(), title, app: clone_opt(&c.class) };
                out.push(w);
                assert(window_views(out@) =~= before.push(w@));
            },
            None => {},
        }
        i = i + 1;
    }
    assert(clients@.take(i as int) =~= clients@);
    out
}

} // verus!
