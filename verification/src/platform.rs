//! Desktop integration: which desktop runs, GNOME key bindings written for
//! the launcher's shortcuts, shortcut comparison and validation, and the
//! command-line flags a second instance passes on.

use vstd::prelude::*;
use crate::text::{
    ascii_lowercase_chars, cat, cat3, chars_eq, chars_of, contains, decimal, decimal_text,
    eq_ignore_ascii_case, join, lowercase, opt_view, seq_ascii_lower, seq_contains, seq_join,
    seq_split, seq_trim, split_char, str_eq, string_of, strip_prefix, to_lowercase, trim_bounds,
    slice_chars, trimmed_chars, views, seq_starts_with, ascii_lower, is_ws, seq_find_char,
    seq_trim_start, seq_trim_end, lemma_find_char_at, lemma_find_char_bound, lemma_trim_ends,
};

verus! {

/// The kind of desktop the launcher runs on.
#[derive(Clone, Copy, Debug, PartialEq, Eq, Structural)]
pub enum DesktopKind {
    Gnome,
    Kde,
    Other,
}

/// The kind of desktop `XDG_CURRENT_DESKTOP` names (lowercase): GNOME if it
/// holds "gnome", KDE if it holds "kde" or "plasma".
pub open spec fn desktop_kind_of(desktop: Seq<char>) -> DesktopKind {
    let d = lowercase(desktop);
    if seq_contains(d, "gnome"@) {
        DesktopKind::Gnome
    } else if seq_contains(d, "kde"@) || seq_contains(d, "plasma"@) {
        DesktopKind::Kde
    } else {
        DesktopKind::Other
    }
}

/// The kind of desktop `XDG_CURRENT_DESKTOP` names (an unset variable reads
/// as empty).
pub fn detect_kind(xdg_current_desktop: &str) -> (r: DesktopKind)
    ensures
        r == desktop_kind_of(xdg_current_desktop@),
{
    let d = chars_of(to_lowercase(xdg_current_desktop).as_str());
    if contains(d.as_slice(), chars_of("gnome").as_slice()) {
        DesktopKind::Gnome
    } else if contains(d.as_slice(), chars_of("kde").as_slice()) || contains(
        d.as_slice(),
        chars_of("plasma").as_slice(),
    ) {
        DesktopKind::Kde
    } else {
        DesktopKind::Other
    }
}

/// Whether `XDG_SESSION_TYPE` names a Wayland session (in any ASCII case).
pub fn is_wayland(session_type: Option<String>) -> (r: bool)
    ensures
        r == match opt_view(session_type) {
            Some(s) => seq_ascii_lower(s) == seq_ascii_lower("wayland"@),
            None => false,
        },
{
    match session_type {
        Some(s) => eq_ignore_ascii_case(chars_of(s.as_str()).as_slice(), chars_of("wayland").as_slice()),
        None => false,
    }
}

/// The GNOME form of one shortcut key: modifiers in angle brackets, the
/// rest in ASCII lower case.
pub open spec fn gnome_key(token: Seq<char>) -> Seq<char> {
    let t = seq_ascii_lower(seq_trim(token));
    if t == "ctrl"@ || t == "control"@ {
        "<Ctrl>"@
    } else if t == "alt"@ {
        "<Alt>"@
    } else if t == "shift"@ {
        "<Shift>"@
    } else if t == "super"@ || t == "meta"@ || t == "win"@ {
        "<Super>"@
    } else if t == "space"@ {
        "space"@
    } else {
        t
    }
}

/// The GNOME binding of a shortcut: the GNOME form of each `+`-separated
/// key, run together.
pub open spec fn gnome_binding(shortcut: Seq<char>) -> Seq<char> {
    seq_join(seq_split(shortcut, '+').map_values(|t: Seq<char>| gnome_key(t)), Seq::empty())
}

fn gnome_key_exec(token: &[char]) -> (r: Vec<char>)
    ensures
        r@ == gnome_key(token@),
{
    let (a, b) = trim_bounds(token);
    let t = ascii_lowercase_chars(slice_chars(token, a, b).as_slice());
    let ts = t.as_slice();
    if chars_eq(ts, chars_of("ctrl").as_slice()) || chars_eq(ts, chars_of("control").as_slice()) {
        chars_of("<Ctrl>")
    } else if chars_eq(ts, chars_of("alt").as_slice()) {
        chars_of("<Alt>")
    } else if chars_eq(ts, chars_of("shift").as_slice()) {
        chars_of("<Shift>")
    } else if chars_eq(ts, chars_of("super").as_slice()) || chars_eq(ts, chars_of("meta").as_slice())
        || chars_eq(ts, chars_of("win").as_slice()) {
        chars_of("<Super>")
    } else if chars_eq(ts, chars_of("space").as_slice()) {
        chars_of("space")
    } else {
        t
    }
}

/// The GNOME binding of a shortcut (see `gnome_binding`).
pub fn to_gnome_binding(shortcut: &str) -> (r: String)
    ensures
        r@ == gnome_binding(shortcut@),
{
    let tokens = split_char(chars_of(shortcut).as_slice(), '+');
    let ghost tv = views(tokens@);
    let mut parts: Vec<Vec<char>> = Vec::new();
    let mut i: usize = 0;
    while i < tokens.len()
        invariant
            i <= tokens@.len(),
            tv == views(tokens@),
            views(parts@) == tv.take(i as int).map_values(|t: Seq<char>| gnome_key(t)),
        decreases tokens.len() - i,
    {
        let ghost before = views(parts@);
        let k = gnome_key_exec(tokens[i].as_slice());
        parts.push(k);
        assert(views(parts@) =~= before.push(k@));
        assert(tv.take(i + 1).map_values(|t: Seq<char>| gnome_key(t)) =~= tv.take(i as int).map_values(
            |t: Seq<char>| gnome_key(t),
        ).push(gnome_key(tv[i as int])));
        i = i + 1;
    }
    assert(tv.take(i as int) =~= tv);
    let empty: Vec<char> = Vec::new();
    let joined = join(&parts, empty.as_slice());
    assert(empty@ =~= Seq::<char>::empty());
    string_of(joined.as_slice())
}

/// `t`, unless it is empty.
pub open spec fn non_empty(t: Seq<char>) -> Option<Seq<char>> {
    if t.len() > 0 {
        Some(t)
    } else {
        None
    }
}

/// A shortcut in a form fit for comparison: its `+`-separated keys
/// trimmed and in ASCII lower case, empty ones dropped, joined by `+`.
pub open spec fn normalized_shortcut(raw: Seq<char>) -> Seq<char> {
    seq_join(
        seq_split(raw, '+').map_values(|t: Seq<char>| seq_ascii_lower(seq_trim(t))).filter_map(
            |t: Seq<char>| non_empty(t),
        ),
        "+"@,
    )
}

/// A shortcut in a form fit for comparison (see `normalized_shortcut`).
pub fn normalize_shortcut(raw: &str) -> (r: String)
    ensures
        r@ == normalized_shortcut(raw@),
{
    let tokens = split_char(chars_of(raw).as_slice(), '+');
    let ghost tv = views(tokens@);
    let ghost mapped = tv.map_values(|t: Seq<char>| seq_ascii_lower(seq_trim(t)));
    let mut parts: Vec<Vec<char>> = Vec::new();
    let mut i: usize = 0;
    assert(mapped.take(0).filter_map(|t: Seq<char>| non_empty(t)) =~= Seq::<Seq<char>>::empty());
    while i < tokens.len()
        invariant
            i <= tokens@.len(),
            tv == views(tokens@),
            mapped == tv.map_values(|t: Seq<char>| seq_ascii_lower(seq_trim(t))),
            views(parts@) == mapped.take(i as int).filter_map(|t: Seq<char>| non_empty(t)),
        decreases tokens.len() - i,
    {
        let ghost before = views(parts@);
        let (a, b) = trim_bounds(tokens[i].as_slice());
        let k = ascii_lowercase_chars(slice_chars(tokens[i].as_slice(), a, b).as_slice());
        proof {
            assert(mapped.take(i + 1).drop_last() =~= mapped.take(i as int));
            assert(mapped.take(i + 1).last() == k@);
        }
        if k.len() > 0 {
            parts.push(k);
            assert(views(parts@) =~= before.push(k@));
        }
        i = i + 1;
    }
    assert(mapped.take(i as int) =~= mapped);
    let joined = join(&parts, chars_of("+").as_slice());
    string_of(joined.as_slice())
}

/// Whether two shortcuts are the same once normalized: whether they name
/// the same keys in the same order.
pub fn shortcuts_overlap(a: &str, b: &str) -> (r: bool)
    ensures
        r == (normalized_shortcut(a@) == normalized_shortcut(b@)),
        r == (shortcut_keys(a@) == shortcut_keys(b@)),
{
    let x = normalize_shortcut(a);
    let y = normalize_shortcut(b);
    proof {
        lemma_overlap_same_keys(a@, b@);
    }
    str_eq(x.as_str(), y.as_str())
}

/// What a second instance's command-line flags ask for.
#[derive(Clone, Copy, Debug, PartialEq, Eq, Structural)]
pub enum CliAction {
    ToggleMain,
    ToggleClipboard,
    ShowMain,
}

/// The action of the first recognized flag (`--toggle` or
/// `--toggle-spotlight`, `--toggle-clipboard`, `--show`); without one, the
/// main window is toggled.
pub open spec fn cli_action_of(args: Seq<Seq<char>>) -> CliAction
    decreases args.len(),
{
    if args.len() == 0 {
        CliAction::ToggleMain
    } else if args[0] == "--toggle"@ || args[0] == "--toggle-spotlight"@ {
        CliAction::ToggleMain
    } else if args[0] == "--toggle-clipboard"@ {
        CliAction::ToggleClipboard
    } else if args[0] == "--show"@ {
        CliAction::ShowMain
    } else {
        cli_action_of(args.drop_first())
    }
}

/// The text of a list of strings.
pub open spec fn string_views(v: Seq<String>) -> Seq<Seq<char>> {
    v.map_values(|s: String| s@)
}

/// What the flags `args` ask for (see `cli_action_of`).
pub fn cli_action(args: &Vec<String>) -> (r: CliAction)
    ensures
        r == cli_action_of(string_views(args@)),
{
    let ghost all = string_views(args@);
    let mut i: usize = 0;
    assert(all.subrange(0, all.len() as int) =~= all);
    while i < args.len()
        invariant
            i <= args@.len(),
            all == string_views(args@),
            cli_action_of(all) == cli_action_of(all.subrange(i as int, all.len() as int)),
        decreases args.len() - i,
    {
        let ghost rest = all.subrange(i as int, all.len() as int);
        let a = args[i].as_str();
        assert(rest[0] == a@);
        if str_eq(a, "--toggle") || str_eq(a, "--toggle-spotlight") {
            return CliAction::ToggleMain;
        }
        if str_eq(a, "--toggle-clipboard") {
            return CliAction::ToggleClipboard;
        }
        if str_eq(a, "--show") {
            return CliAction::ShowMain;
        }
        assert(rest.drop_first() =~= all.subrange(i + 1, all.len() as int));
        i = i + 1;
    }
    CliAction::ToggleMain
}

/// A GNOME custom key binding: name, binding and command.
#[derive(Clone, Debug)]
pub struct GnomeKeybinding {
    pub name: String,
    pub binding: String,
    pub command: String,
}

/// The name of the binding of the `idx`-th shortcut.
pub open spec fn shortcut_key_name(idx: nat) -> Seq<char> {
    if idx == 0 {
        "spotlight-open"@
    } else {
        "spotlight-open-"@ + decimal_text(idx)
    }
}

/// The bindings the launcher registers with GNOME: one per shortcut, which
/// toggles the launcher, then one for the clipboard shortcut.
pub open spec fn gnome_keybindings_of(exe: Seq<char>, shortcuts: Seq<Seq<char>>, clipboard: Seq<char>) -> Seq<
    (Seq<char>, Seq<char>, Seq<char>),
> {
    Seq::new(
        shortcuts.len(),
        |i: int| (shortcut_key_name(i as nat), gnome_binding(shortcuts[i]), exe + " --toggle"@),
    ).push(("spotlight-clipboard"@, gnome_binding(clipboard), exe + " --toggle-clipboard"@))
}

/// The views of bindings.
pub open spec fn keybinding_views(v: Seq<GnomeKeybinding>) -> Seq<(Seq<char>, Seq<char>, Seq<char>)> {
    v.map_values(|k: GnomeKeybinding| (k.name@, k.binding@, k.command@))
}

/// The bindings the launcher registers with GNOME (see
/// `gnome_keybindings_of`).
pub fn gnome_keybindings(exe: &str, shortcuts: &Vec<String>, clipboard_shortcut: &str) -> (r: Vec<
    GnomeKeybinding,
>)
    ensures
        keybinding_views(r@) == gnome_keybindings_of(exe@, string_views(shortcuts@), clipboard_shortcut@),
{
    let ghost sv = string_views(shortcuts@);
    let toggle = cat(exe, " --toggle");
    let mut out: Vec<GnomeKeybinding> = Vec::new();
    let mut i: usize = 0;
    while i < shortcuts.len()
        invariant
            i <= shortcuts@.len(),
            sv == string_views(shortcuts@),
            toggle@ == exe@ + " --toggle"@,
            keybinding_views(out@).len() == i,
            forall|k: int|
                0 <= k < i ==> #[trigger] keybinding_views(out@)[k] == (
                    shortcut_key_name(k as nat),
                    gnome_binding(sv[k]),
                    exe@ + " --toggle"@,
                ),
        decreases shortcuts.len() - i,
    {
        let name = if i == 0 {
            String::from_str("spotlight-open")
        } else {
            cat("spotlight-open-", decimal(i as u64).as_str())
        };
        let k = GnomeKeybinding {
            name,
            binding: to_gnome_binding(shortcuts[i].as_str()),
            command: toggle.clone(),
        };
        let ghost before = keybinding_views(out@);
        out.push(k);
        assert(keybinding_views(out@) =~= before.push((k.name@, k.binding@, k.command@)));
        i = i + 1;
    }
    let ghost firsts = keybinding_views(out@);
    out.push(
        GnomeKeybinding {
            name: String::from_str("spotlight-clipboard"),
            binding: to_gnome_binding(clipboard_shortcut),
            command: cat(exe, " --toggle-clipboard"),
        },
    );
    assert(keybinding_views(out@) =~= firsts.push(
        ("spotlight-clipboard"@, gnome_binding(clipboard_shortcut@), exe@ + " --toggle-clipboard"@),
    ));
    assert(firsts =~= Seq::new(
        sv.len(),
        |i: int| (shortcut_key_name(i as nat), gnome_binding(sv[i]), exe@ + " --toggle"@),
    ));
    assert(keybinding_views(out@) =~= gnome_keybindings_of(exe@, sv, clipboard_shortcut@));
    out
}

/// The path of a custom binding in GNOME's settings.
pub fn custom_key_path(name: &str) -> (r: String)
    ensures
        r@ == "/org/gnome/settings-daemon/plugins/media-keys/custom-keybindings/"@ + name@ + "/"@,
{
    cat3("/org/gnome/settings-daemon/plugins/media-keys/custom-keybindings/", name, "/")
}

/// The schema of a custom binding at `path`.
pub fn custom_key_schema(path: &str) -> (r: String)
    ensures
        r@ == "org.gnome.settings-daemon.plugins.media-keys.custom-keybinding:"@ + path@,
{
    cat("org.gnome.settings-daemon.plugins.media-keys.custom-keybinding:", path)
}

/// `s` with `p` stripped from its front as often as it is there
/// (`str::trim_start_matches`).
pub open spec fn strip_all_prefix(s: Seq<char>, p: Seq<char>) -> Seq<char>
    decreases s.len(),
{
    if p.len() > 0 && seq_starts_with(s, p) {
        strip_all_prefix(s.subrange(p.len() as int, s.len() as int), p)
    } else {
        s
    }
}

/// `s` with `c` stripped from its front as often as it is there.
pub open spec fn strip_start_char(s: Seq<char>, c: char) -> Seq<char>
    decreases s.len(),
{
    if s.len() > 0 && s[0] == c {
        strip_start_char(s.drop_first(), c)
    } else {
        s
    }
}

/// `s` with `c` stripped from its end as often as it is there.
pub open spec fn strip_end_char(s: Seq<char>, c: char) -> Seq<char>
    decreases s.len(),
{
    if s.len() > 0 && s.last() == c {
        strip_end_char(s.drop_last(), c)
    } else {
        s
    }
}

fn strip_all_prefix_exec(s: &[char], p: &[char]) -> (r: Vec<char>)
    ensures
        r@ == strip_all_prefix(s@, p@),
{
    let mut i: usize = 0;
    assert(s@.subrange(0, s.len() as int) =~= s@);
    while p.len() > 0 && p.len() <= s.len() - i && crate::text::occurs_at_exec(s, p, i)
        invariant
            i <= s.len(),
            strip_all_prefix(s@, p@) == strip_all_prefix(s@.subrange(i as int, s.len() as int), p@),
        decreases s.len() - i,
    {
        let ghost t = s@.subrange(i as int, s.len() as int);
        assert(t.subrange(0, p.len() as int) =~= s@.subrange(i as int, i + p.len()));
        assert(t.subrange(p.len() as int, t.len() as int) =~= s@.subrange(i + p.len(), s.len() as int));
        i = i + p.len();
    }
    proof {
        let t = s@.subrange(i as int, s.len() as int);
        if p.len() > 0 && i + p.len() <= s.len() {
            assert(!crate::text::occurs_at(s@, p@, i as int));
            assert(!(t.subrange(0, p.len() as int) =~= p@)) by {
                assert(t.subrange(0, p.len() as int) =~= s@.subrange(i as int, i + p.len()));
            }
        }
    }
    slice_chars(s, i, s.len())
}

pub fn strip_start_char_exec(s: &[char], c: char) -> (r: Vec<char>)
    ensures
        r@ == strip_start_char(s@, c),
{
    let mut i: usize = 0;
    assert(s@.subrange(0, s.len() as int) =~= s@);
    while i < s.len() && s[i] == c
        invariant
            i <= s.len(),
            strip_start_char(s@, c) == strip_start_char(s@.subrange(i as int, s.len() as int), c),
        decreases s.len() - i,
    {
        assert(s@.subrange(i as int, s.len() as int).drop_first() =~= s@.subrange(i + 1, s.len() as int));
        i = i + 1;
    }
    slice_chars(s, i, s.len())
}

fn strip_end_char_exec(s: &[char], c: char) -> (r: Vec<char>)
    ensures
        r@ == strip_end_char(s@, c),
{
    let mut j: usize = s.len();
    assert(s@.subrange(0, s.len() as int) =~= s@);
    while j > 0 && s[j - 1] == c
        invariant
            j <= s.len(),
            strip_end_char(s@, c) == strip_end_char(s@.subrange(0, j as int), c),
        decreases j,
    {
        assert(s@.subrange(0, j as int).drop_last() =~= s@.subrange(0, j - 1));
        j = j - 1;
    }
    slice_chars(s, 0, j)
}

fn trim_vec(s: &[char]) -> (r: Vec<char>)
    ensures
        r@ == seq_trim(s@),
{
    let (a, b) = trim_bounds(s);
    slice_chars(s, a, b)
}

/// A quoted item of a GNOME list: trimmed, without the quotes around it.
pub open spec fn list_item(t: Seq<char>) -> Seq<char> {
    strip_end_char(strip_start_char(seq_trim(t), '\''), '\'')
}

/// The items of a GNOME string list such as `['/a/', '/b/']` or `@as []`:
/// the text between the brackets split at commas, each item trimmed and
/// unquoted, empty ones dropped.
pub open spec fn gsettings_array(raw: Seq<char>) -> Seq<Seq<char>> {
    let inner = strip_end_char(
        strip_start_char(seq_trim(strip_all_prefix(seq_trim(raw), "@as "@)), '['),
        ']',
    );
    seq_split(inner, ',').map_values(|t: Seq<char>| list_item(t)).filter_map(
        |t: Seq<char>| non_empty(t),
    )
}

/// The items of a GNOME string list (see `gsettings_array`).
pub fn parse_gsettings_array(raw: &str) -> (r: Vec<String>)
    ensures
        string_views(r@) == gsettings_array(raw@),
{
    let a = trim_vec(chars_of(raw).as_slice());
    let b = strip_all_prefix_exec(a.as_slice(), chars_of("@as ").as_slice());
    let c = trim_vec(b.as_slice());
    let d = strip_start_char_exec(c.as_slice(), '[');
    let inner = strip_end_char_exec(d.as_slice(), ']');
    let pieces = split_char(inner.as_slice(), ',');
    let ghost pv = views(pieces@);
    let ghost mapped = pv.map_values(|t: Seq<char>| list_item(t));
    let mut out: Vec<String> = Vec::new();
    let mut i: usize = 0;
    assert(mapped.take(0).filter_map(|t: Seq<char>| non_empty(t)) =~= Seq::<Seq<char>>::empty());
    assert(string_views(out@) =~= Seq::<Seq<char>>::empty());
    while i < pieces.len()
        invariant
            i <= pieces@.len(),
            pv == views(pieces@),
            mapped == pv.map_values(|t: Seq<char>| list_item(t)),
            string_views(out@) == mapped.take(i as int).filter_map(|t: Seq<char>| non_empty(t)),
        decreases pieces.len() - i,
    {
        let ghost before = string_views(out@);
        let t = trim_vec(pieces[i].as_slice());
        let u = strip_start_char_exec(t.as_slice(), '\'');
        let item = strip_end_char_exec(u.as_slice(), '\'');
        proof {
            assert(mapped.take(i + 1).drop_last() =~= mapped.take(i as int));
            assert(mapped.take(i + 1).last() == item@);
        }
        if item.len() > 0 {
            let x = string_of(item.as_slice());
            out.push(x);
            assert(string_views(out@) =~= before.push(item@));
        }
        i = i + 1;
    }
    assert(mapped.take(i as int) =~= mapped);
    out
}

/// A value read with `gsettings get`: trimmed, without the quotes around
/// it.
pub fn gsettings_value(raw: &str) -> (r: String)
    ensures
        r@ == list_item(raw@),
{
    let t = trim_vec(chars_of(raw).as_slice());
    let u = strip_start_char_exec(t.as_slice(), '\'');
    string_of(strip_end_char_exec(u.as_slice(), '\'').as_slice())
}

/// The new value of GNOME's list of custom bindings once `path` is in it:
/// none when it already is; else the list with `path` appended, written as
/// `['a', 'b']`.
pub open spec fn list_with_path(current: Seq<char>, path: Seq<char>) -> Option<Seq<char>> {
    let paths = gsettings_array(current);
    if paths.contains(path) {
        None
    } else {
        Some(
            "["@ + seq_join(
                paths.push(path).map_values(|p: Seq<char>| "'"@ + p + "'"@),
                ", "@,
            ) + "]"@,
        )
    }
}

/// The new value of GNOME's list of custom bindings (see
/// `list_with_path`).
pub fn add_custom_key_path(current: &str, path: &str) -> (r: Option<String>)
    ensures
        opt_view(r) == list_with_path(current@, path@),
{
    let mut paths = parse_gsettings_array(current);
    let ghost pv = string_views(paths@);
    let mut i: usize = 0;
    while i < paths.len()
        invariant
            i <= paths@.len(),
            pv == string_views(paths@),
            pv == gsettings_array(current@),
            forall|k: int| 0 <= k < i ==> pv[k] != path@,
        decreases paths.len() - i,
    {
        if str_eq(paths[i].as_str(), path) {
            assert(pv[i as int] == path@);
            assert(pv.contains(path@));
            return None;
        }
        i = i + 1;
    }
    assert(!pv.contains(path@));
    paths.push(String::from_str(path));
    let ghost all = string_views(paths@);
    assert(all =~= pv.push(path@));
    let mut quoted: Vec<Vec<char>> = Vec::new();
    let mut j: usize = 0;
    while j < paths.len()
        invariant
            j <= paths@.len(),
            all == string_views(paths@),
            views(quoted@) == all.take(j as int).map_values(|p: Seq<char>| "'"@ + p + "'"@),
        decreases paths.len() - j,
    {
        let ghost before = views(quoted@);
        let q = chars_of(cat3("'", paths[j].as_str(), "'").as_str());
        quoted.push(q);
        assert(views(quoted@) =~= before.push(q@));
        assert(all.take(j + 1).map_values(|p: Seq<char>| "'"@ + p + "'"@) =~= all.take(j as int).map_values(
            |p: Seq<char>| "'"@ + p + "'"@,
        ).push("'"@ + all[j as int] + "'"@));
        j = j + 1;
    }
    assert(all.take(j as int) =~= all);
    let body = join(&quoted, chars_of(", ").as_slice());
    Some(cat3("[", string_of(body.as_slice()).as_str(), "]"))
}

/// The conflict a GNOME custom binding makes with the shortcut whose GNOME
/// binding is `target`: when its binding equals `target` in any ASCII case
/// and its command does not hold "spotlight", "'name' (binding)" (an
/// unnamed binding reads as "outro atalho").
pub open spec fn binding_conflict_of(
    target: Seq<char>,
    binding: Seq<char>,
    name: Option<Seq<char>>,
    command: Option<Seq<char>>,
) -> Option<Seq<char>> {
    let cmd = match command {
        Some(c) => c,
        None => Seq::empty(),
    };
    let n = match name {
        Some(x) => x,
        None => "outro atalho"@,
    };
    if seq_ascii_lower(binding) != seq_ascii_lower(target) || seq_contains(cmd, "spotlight"@) {
        None
    } else {
        Some("'"@ + n + "' ("@ + binding + ")"@)
    }
}

/// Whether a binding read from GNOME is the target binding, in any ASCII
/// case.
pub fn binding_matches(binding: &str, target: &str) -> (r: bool)
    ensures
        r == (seq_ascii_lower(binding@) == seq_ascii_lower(target@)),
{
    eq_ignore_ascii_case(chars_of(binding).as_slice(), chars_of(target).as_slice())
}

/// The conflict a GNOME custom binding makes (see `binding_conflict_of`).
pub fn binding_conflict(target: &str, binding: &str, name: Option<String>, command: Option<String>) -> (r:
    Option<String>)
    ensures
        opt_view(r) == binding_conflict_of(target@, binding@, opt_view(name), opt_view(command)),
{
    if !binding_matches(binding, target) {
        return None;
    }
    let cmd = match &command {
        Some(c) => chars_of(c.as_str()),
        None => Vec::new(),
    };
    if contains(cmd.as_slice(), chars_of("spotlight").as_slice()) {
        return None;
    }
    let n = match name {
        Some(x) => x,
        None => String::from_str("outro atalho"),
    };
    Some(cat5_conflict(n.as_str(), binding))
}

fn cat5_conflict(name: &str, binding: &str) -> (r: String)
    ensures
        r@ == "'"@ + name@ + "' ("@ + binding@ + ")"@,
{
    crate::text::cat5("'", name, "' (", binding, ")")
}

/// What checking a shortcut found.
#[derive(Clone, Debug)]
pub struct ShortcutValidation {
    pub shortcut: String,
    pub valid_format: bool,
    pub registrable: bool,
    pub available: bool,
    pub gnome_conflict: Option<String>,
    pub message: String,
}

/// The text of a validation.
pub struct ValidationView {
    pub shortcut: Seq<char>,
    pub valid_format: bool,
    pub registrable: bool,
    pub available: bool,
    pub gnome_conflict: Option<Seq<char>>,
    pub message: Seq<char>,
}

impl View for ShortcutValidation {
    type V = ValidationView;

    open spec fn view(&self) -> ValidationView {
        ValidationView {
            shortcut: self.shortcut@,
            valid_format: self.valid_format,
            registrable: self.registrable,
            available: self.available,
            gnome_conflict: opt_view(self.gnome_conflict),
            message: self.message@,
        }
    }
}

/// The message after the registration attempt.
pub open spec fn registration_message(conflict: Option<Seq<char>>, registered: Result<(), Seq<char>>) -> Seq<
    char,
> {
    match registered {
        Ok(_) => match conflict {
            None => "Atalho disponível."@,
            Some(c) => "Conflito no GNOME: "@ + c
                + " O plugin global conseguiu registrar (fallback GNOME pode ajudar)."@,
        },
        Err(e) => match conflict {
            Some(_) => "Não registrado pelo plugin global ("@ + e
                + "). Remova o conflito em Configurações → Teclado ou use outra combinação."@,
            None => "Atalho em uso ou indisponível neste ambiente: "@ + e
                + ". Tente outra combinação."@,
        },
    }
}

/// What checking a shortcut finds: an empty (trimmed) shortcut and one the
/// shortcut parser refuses are reported at once; else the GNOME conflict
/// (if any) and the registration attempt decide the message, and the
/// shortcut is available if it registered, or on GNOME when it has no
/// conflict there.
pub open spec fn validation_of(
    shortcut: Seq<char>,
    parsed: bool,
    conflict: Option<Seq<char>>,
    registered: Result<(), Seq<char>>,
    desktop: DesktopKind,
) -> ValidationView {
    let s = seq_trim(shortcut);
    if s.len() == 0 {
        ValidationView {
            shortcut: s,
            valid_format: false,
            registrable: false,
            available: false,
            gnome_conflict: None,
            message: "Informe um atalho."@,
        }
    } else if !parsed {
        ValidationView {
            shortcut: s,
            valid_format: false,
            registrable: false,
            available: false,
            gnome_conflict: None,
            message: "Formato inválido. Use algo como Ctrl+Alt+Space ou Super+Shift+S."@,
        }
    } else {
        let registrable = registered is Ok;
        ValidationView {
            shortcut: s,
            valid_format: true,
            registrable,
            available: registrable || (desktop == DesktopKind::Gnome && conflict is None),
            gnome_conflict: conflict,
            message: registration_message(conflict, registered),
        }
    }
}

/// The view of a registration result.
pub open spec fn registered_view(r: Result<(), String>) -> Result<(), Seq<char>> {
    match r {
        Ok(_) => Ok(()),
        Err(e) => Err(e@),
    }
}

/// What checking a shortcut finds (see `validation_of`). `parsed` says
/// whether the shortcut parser accepts the trimmed shortcut; `conflict` and
/// `registered` are what the GNOME check and the registration attempt gave,
/// read only for a shortcut that parsed.
pub fn validate_shortcut(
    shortcut: &str,
    parsed: bool,
    conflict: Option<String>,
    registered: Result<(), String>,
    desktop: DesktopKind,
) -> (r: ShortcutValidation)
    ensures
        r@ == validation_of(shortcut@, parsed, opt_view(conflict), registered_view(registered), desktop),
{
    let s = string_of(trimmed_chars(shortcut).as_slice());
    if s.as_str().is_empty() {
        return ShortcutValidation {
            shortcut: s,
            valid_format: false,
            registrable: false,
            available: false,
            gnome_conflict: None,
            message: String::from_str("Informe um atalho."),
        };
    }
    if !parsed {
        return ShortcutValidation {
            shortcut: s,
            valid_format: false,
            registrable: false,
            available: false,
            gnome_conflict: None,
            message: String::from_str("Formato inválido. Use algo como Ctrl+Alt+Space ou Super+Shift+S."),
        };
    }
    let registrable = registered.is_ok();
    let message = match &registered {
        Ok(_) => match &conflict {
            None => String::from_str("Atalho disponível."),
            Some(c) => cat3(
                "Conflito no GNOME: ",
                c.as_str(),
                " O plugin global conseguiu registrar (fallback GNOME pode ajudar).",
            ),
        },
        Err(e) => match &conflict {
            Some(_) => cat3(
                "Não registrado pelo plugin global (",
                e.as_str(),
                "). Remova o conflito em Configurações → Teclado ou use outra combinação.",
            ),
            None => cat3(
                "Atalho em uso ou indisponível neste ambiente: ",
                e.as_str(),
                ". Tente outra combinação.",
            ),
        },
    };
    let available = registrable || (desktop == DesktopKind::Gnome && conflict.is_none());
    ShortcutValidation {
        shortcut: s,
        valid_format: true,
        registrable,
        available,
        gnome_conflict: conflict,
        message,
    }
}

/// The warning printed at start when the clipboard tools are missing:
/// on Wayland without `wl-copy`, the advice to install wl-clipboard; else,
/// with neither `xclip` nor `wl-copy`, the advice to install one of them.
pub open spec fn clipboard_warning(wayland: bool, has_xclip: bool, has_wl: bool) -> Option<Seq<char>> {
    if wayland && !has_wl {
        Some(
            "[spotlight] AVISO: instale wl-clipboard para clipboard no Wayland (sudo apt install wl-clipboard)"@,
        )
    } else if !has_xclip && !has_wl {
        Some("[spotlight] AVISO: instale xclip ou wl-clipboard para o histórico de clipboard"@)
    } else {
        None
    }
}

/// The warning about missing clipboard tools, if any (see
/// `clipboard_warning`); `session_type` is `XDG_SESSION_TYPE`.
pub fn clipboard_tools_warning(session_type: Option<String>, has_xclip: bool, has_wl: bool) -> (r: Option<String>)
    ensures
        opt_view(r) == clipboard_warning(
            match opt_view(session_type) {
                Some(s) => seq_ascii_lower(s) == seq_ascii_lower("wayland"@),
                None => false,
            },
            has_xclip,
            has_wl,
        ),
{
    let wayland = is_wayland(session_type);
    if wayland && !has_wl {
        Some(
            String::from_str(
                "[spotlight] AVISO: instale wl-clipboard para clipboard no Wayland (sudo apt install wl-clipboard)",
            ),
        )
    } else if !has_xclip && !has_wl {
        Some(String::from_str("[spotlight] AVISO: instale xclip ou wl-clipboard para o histórico de clipboard"))
    } else {
        None
    }
}

/// The error of a `gsettings set` that failed.
pub fn gsettings_set_error(schema: &str, key: &str) -> (r: String)
    ensures
        r@ == "gsettings set "@ + schema@ + " "@ + key@ + " falhou"@,
{
    cat3(cat3("gsettings set ", schema, " ").as_str(), key, " falhou")
}

/// The warning given after registering `Super+Space` (in any ASCII case)
/// as the launcher's shortcut: GNOME switches input sources with it.
pub fn registered_shortcut_warning(key: &str) -> (r: Option<String>)
    ensures
        seq_ascii_lower(key@) == seq_ascii_lower("Super+Space"@) ==> (r matches Some(w) && w@
            == "[spotlight] AVISO: Super+Space conflita com troca de idioma no GNOME (<Super>space). Use Ctrl+Alt+Space ou altere em Configurações."@),
        seq_ascii_lower(key@) != seq_ascii_lower("Super+Space"@) ==> r is None,
{
    if eq_ignore_ascii_case(chars_of(key).as_slice(), chars_of("Super+Space").as_slice()) {
        Some(
            String::from_str(
                "[spotlight] AVISO: Super+Space conflita com troca de idioma no GNOME (<Super>space). Use Ctrl+Alt+Space ou altere em Configurações.",
            ),
        )
    } else {
        None
    }
}


/// No character of `s` is `c`.
pub open spec fn free_of(s: Seq<char>, c: char) -> bool {
    forall|k: int| 0 <= k < s.len() ==> #[trigger] s[k] != c
}

/// The keys a list of `+`-separated pieces keeps: each trimmed and in ASCII
/// lower case, the empty ones dropped.
pub open spec fn kept_keys(pieces: Seq<Seq<char>>) -> Seq<Seq<char>> {
    pieces.map_values(|t: Seq<char>| seq_ascii_lower(seq_trim(t))).filter_map(
        |t: Seq<char>| non_empty(t),
    )
}

/// A key as normalization leaves it: not empty, without `+`, trimmed and
/// in ASCII lower case.
pub open spec fn settled_key(x: Seq<char>) -> bool {
    x.len() > 0 && free_of(x, '+') && seq_ascii_lower(seq_trim(x)) == x
}

/// Neither end of `x` is whitespace.
pub open spec fn is_trimmed(x: Seq<char>) -> bool {
    x.len() == 0 || (!is_ws(x[0]) && !is_ws(x.last()))
}

proof fn lemma_find_char_prefix(s: Seq<char>, c: char)
    ensures
        forall|k: int| 0 <= k < seq_find_char(s, c) && k < s.len() ==> #[trigger] s[k] != c,
    decreases s.len(),
{
    if s.len() > 0 && s[0] != c {
        let t = s.drop_first();
        lemma_find_char_prefix(t, c);
        assert forall|k: int| 0 <= k < seq_find_char(s, c) && k < s.len() implies #[trigger] s[k] != c by {
            if k > 0 {
                assert(s[k] == t[k - 1]);
            }
        }
    }
}

proof fn lemma_split_pieces_free(s: Seq<char>, c: char)
    ensures
        forall|i: int| 0 <= i < seq_split(s, c).len() ==> free_of(#[trigger] seq_split(s, c)[i], c),
    decreases s.len(),
{
    lemma_find_char_bound(s, c);
    lemma_find_char_prefix(s, c);
    let i = seq_find_char(s, c);
    if i < s.len() {
        let head = s.subrange(0, i);
        let rest = s.subrange(i + 1, s.len() as int);
        lemma_split_pieces_free(rest, c);
        assert forall|k: int| 0 <= k < head.len() implies #[trigger] head[k] != c by {
            assert(head[k] == s[k]);
        }
        assert(seq_split(s, c) == seq![head] + seq_split(rest, c));
        assert forall|j: int| 0 <= j < seq_split(s, c).len() implies free_of(
            #[trigger] seq_split(s, c)[j],
            c,
        ) by {
            if j > 0 {
                assert(seq_split(s, c)[j] == seq_split(rest, c)[j - 1]);
            }
        }
    }
}

proof fn lemma_split_free(a: Seq<char>, c: char)
    requires
        free_of(a, c),
    ensures
        seq_split(a, c) == seq![a],
{
    lemma_find_char_at(a, c, a.len() as int);
}

proof fn lemma_split_cons(a: Seq<char>, b: Seq<char>, c: char)
    requires
        free_of(a, c),
    ensures
        seq_split(a + seq![c] + b, c) == seq![a] + seq_split(b, c),
{
    let s = a + seq![c] + b;
    assert forall|k: int| 0 <= k < a.len() implies #[trigger] s[k] != c by {
        assert(s[k] == a[k]);
    }
    assert(s[a.len() as int] == c);
    lemma_find_char_at(s, c, a.len() as int);
    assert(s.subrange(0, a.len() as int) =~= a);
    assert(s.subrange(a.len() as int + 1, s.len() as int) =~= b);
}

proof fn lemma_join_first(p: Seq<Seq<char>>, sep: Seq<char>)
    requires
        p.len() >= 2,
    ensures
        seq_join(p, sep) == p[0] + sep + seq_join(p.drop_first(), sep),
    decreases p.len(),
{
    if p.len() == 2 {
        assert(seq_join(p.drop_last(), sep) == p[0]);
        assert(seq_join(p.drop_first(), sep) == p[1]);
    } else {
        let d = p.drop_last();
        lemma_join_first(d, sep);
        assert(d.drop_first() =~= p.drop_first().drop_last());
        let x = seq_join(d.drop_first(), sep);
        assert(seq_join(p.drop_first(), sep) == x + sep + p.last());
        assert(seq_join(p, sep) == (p[0] + sep + x) + sep + p.last());
        assert(seq_join(p, sep) =~= p[0] + sep + (x + sep + p.last()));
    }
}

proof fn lemma_split_join(p: Seq<Seq<char>>, c: char)
    requires
        p.len() >= 1,
        forall|i: int| 0 <= i < p.len() ==> free_of(#[trigger] p[i], c),
    ensures
        seq_split(seq_join(p, seq![c]), c) == p,
    decreases p.len(),
{
    if p.len() == 1 {
        lemma_split_free(p[0], c);
        assert(seq![p[0]] =~= p);
    } else {
        lemma_join_first(p, seq![c]);
        let rest = p.drop_first();
        assert forall|i: int| 0 <= i < rest.len() implies free_of(#[trigger] rest[i], c) by {
            assert(rest[i] == p[i + 1]);
        }
        lemma_split_join(rest, c);
        assert(free_of(p[0], c));
        lemma_split_cons(p[0], seq_join(rest, seq![c]), c);
        assert(seq![p[0]] + rest =~= p);
    }
}

proof fn lemma_lower_char(c: char)
    ensures
        ascii_lower(ascii_lower(c)) == ascii_lower(c),
        is_ws(ascii_lower(c)) == is_ws(c),
        (ascii_lower(c) == '+') == (c == '+'),
{
    if 'A' <= c && c <= 'Z' {
        assert(ascii_lower(c) as u32 == c as u32 + 32);
    }
}

proof fn lemma_lower_idempotent(s: Seq<char>)
    ensures
        seq_ascii_lower(seq_ascii_lower(s)) == seq_ascii_lower(s),
{
    assert forall|k: int| 0 <= k < s.len() implies seq_ascii_lower(seq_ascii_lower(s))[k]
        == seq_ascii_lower(s)[k] by {
        lemma_lower_char(s[k]);
    }
    assert(seq_ascii_lower(seq_ascii_lower(s)) =~= seq_ascii_lower(s));
}

proof fn lemma_lower_keeps(x: Seq<char>)
    ensures
        is_trimmed(x) ==> is_trimmed(seq_ascii_lower(x)),
        free_of(x, '+') ==> free_of(seq_ascii_lower(x), '+'),
{
    if x.len() > 0 {
        lemma_lower_char(x[0]);
        lemma_lower_char(x.last());
        assert(seq_ascii_lower(x).last() == ascii_lower(x.last()));
    }
    if free_of(x, '+') {
        assert forall|k: int| 0 <= k < seq_ascii_lower(x).len() implies #[trigger] seq_ascii_lower(x)[k]
            != '+' by {
            lemma_lower_char(x[k]);
        }
    }
}

proof fn lemma_key_settled(t: Seq<char>)
    requires
        free_of(t, '+'),
    ensures
        seq_ascii_lower(seq_trim(t)).len() > 0 ==> settled_key(seq_ascii_lower(seq_trim(t))),
{
    let y = seq_trim(t);
    lemma_trim_ends(t);
    lemma_trim_free(t, '+');
    let x = seq_ascii_lower(y);
    lemma_lower_keeps(y);
    assert(seq_trim_start(x) == x);
    assert(seq_trim_end(x) == x);
    lemma_lower_idempotent(y);
}

proof fn lemma_kept_settled(s: Seq<Seq<char>>)
    requires
        forall|i: int| 0 <= i < s.len() ==> free_of(#[trigger] s[i], '+'),
    ensures
        forall|j: int| 0 <= j < kept_keys(s).len() ==> settled_key(#[trigger] kept_keys(s)[j]),
    decreases s.len(),
{
    if s.len() > 0 {
        let d = s.drop_last();
        assert forall|i: int| 0 <= i < d.len() implies free_of(#[trigger] d[i], '+') by {
            assert(d[i] == s[i]);
        }
        lemma_kept_settled(d);
        let m = s.map_values(|t: Seq<char>| seq_ascii_lower(seq_trim(t)));
        assert(m.drop_last() =~= d.map_values(|t: Seq<char>| seq_ascii_lower(seq_trim(t))));
        assert(free_of(s.last(), '+'));
        lemma_key_settled(s.last());
        assert(m.last() == seq_ascii_lower(seq_trim(s.last())));
        assert forall|j: int| 0 <= j < kept_keys(s).len() implies settled_key(#[trigger] kept_keys(s)[j]) by {
            if j < kept_keys(d).len() {
                assert(kept_keys(s)[j] == kept_keys(d)[j]);
            }
        }
    }
}

proof fn lemma_kept_settled_same(p: Seq<Seq<char>>)
    requires
        forall|i: int| 0 <= i < p.len() ==> settled_key(#[trigger] p[i]),
    ensures
        kept_keys(p) == p,
    decreases p.len(),
{
    if p.len() > 0 {
        let d = p.drop_last();
        assert forall|i: int| 0 <= i < d.len() implies settled_key(#[trigger] d[i]) by {
            assert(d[i] == p[i]);
        }
        lemma_kept_settled_same(d);
        let m = p.map_values(|t: Seq<char>| seq_ascii_lower(seq_trim(t)));
        assert(m.drop_last() =~= d.map_values(|t: Seq<char>| seq_ascii_lower(seq_trim(t))));
        assert(settled_key(p.last()));
        assert(m.last() == p.last());
        assert(kept_keys(p) =~= d + seq![p.last()]);
        assert(d + seq![p.last()] =~= p);
    }
}

/// Normalizing a shortcut again changes nothing: a normalized shortcut is
/// its own normal form, so it overlaps the shortcut it came from.
pub proof fn lemma_normalize_idempotent(raw: Seq<char>)
    ensures
        normalized_shortcut(normalized_shortcut(raw)) == normalized_shortcut(raw),
{
    reveal_strlit("+");
    assert("+"@ =~= seq!['+']);
    let s = seq_split(raw, '+');
    lemma_split_pieces_free(raw, '+');
    lemma_kept_settled(s);
    let p = kept_keys(s);
    assert(normalized_shortcut(raw) == seq_join(p, "+"@));
    if p.len() == 0 {
        let e = Seq::<char>::empty();
        assert(normalized_shortcut(raw) == e);
        lemma_split_free(e, '+');
        assert(seq_trim(e) == e);
        assert(seq_ascii_lower(e) =~= e);
        let m = seq![e].map_values(|t: Seq<char>| seq_ascii_lower(seq_trim(t)));
        assert(m =~= seq![e]);
        Seq::<Seq<char>>::lemma_filter_map_singleton(e, |t: Seq<char>| non_empty(t));
        assert(kept_keys(seq![e]) =~= Seq::<Seq<char>>::empty());
    } else {
        lemma_split_join(p, '+');
        lemma_kept_settled_same(p);
    }
}


/// An item GNOME's list can hold and give back unchanged: not empty,
/// without a comma, neither starting nor ending with a quote.
pub open spec fn list_item_ok(x: Seq<char>) -> bool {
    x.len() > 0 && free_of(x, ',') && x[0] != '\'' && x.last() != '\''
}

proof fn lemma_trim_free(s: Seq<char>, c: char)
    requires
        free_of(s, c),
    ensures
        free_of(seq_trim(s), c),
{
    lemma_trim_start_free(s, c);
    lemma_trim_end_free(seq_trim_start(s), c);
}

proof fn lemma_trim_start_free(s: Seq<char>, c: char)
    requires
        free_of(s, c),
    ensures
        free_of(seq_trim_start(s), c),
    decreases s.len(),
{
    if s.len() > 0 && is_ws(s[0]) {
        let d = s.drop_first();
        assert forall|k: int| 0 <= k < d.len() implies #[trigger] d[k] != c by {
            assert(d[k] == s[k + 1]);
        }
        lemma_trim_start_free(d, c);
    }
}

proof fn lemma_trim_end_free(s: Seq<char>, c: char)
    requires
        free_of(s, c),
    ensures
        free_of(seq_trim_end(s), c),
    decreases s.len(),
{
    if s.len() > 0 && is_ws(s.last()) {
        let d = s.drop_last();
        assert forall|k: int| 0 <= k < d.len() implies #[trigger] d[k] != c by {
            assert(d[k] == s[k]);
        }
        lemma_trim_end_free(d, c);
    }
}

proof fn lemma_strip_start(s: Seq<char>, c: char, d: char)
    ensures
        strip_start_char(s, c).len() == 0 || strip_start_char(s, c)[0] != c,
        free_of(s, d) ==> free_of(strip_start_char(s, c), d),
    decreases s.len(),
{
    if s.len() > 0 && s[0] == c {
        let t = s.drop_first();
        if free_of(s, d) {
            assert forall|k: int| 0 <= k < t.len() implies #[trigger] t[k] != d by {
                assert(t[k] == s[k + 1]);
            }
        }
        lemma_strip_start(t, c, d);
    }
}

proof fn lemma_strip_end(s: Seq<char>, c: char, d: char)
    ensures
        strip_end_char(s, c).len() == 0 || strip_end_char(s, c).last() != c,
        strip_end_char(s, c).len() > 0 ==> strip_end_char(s, c)[0] == s[0],
        free_of(s, d) ==> free_of(strip_end_char(s, c), d),
    decreases s.len(),
{
    if s.len() > 0 && s.last() == c {
        let t = s.drop_last();
        if free_of(s, d) {
            assert forall|k: int| 0 <= k < t.len() implies #[trigger] t[k] != d by {
                assert(t[k] == s[k]);
            }
        }
        lemma_strip_end(t, c, d);
        if strip_end_char(t, c).len() > 0 {
            assert(t[0] == s[0]);
        }
    }
}

proof fn lemma_list_item_shape(t: Seq<char>)
    requires
        free_of(t, ','),
    ensures
        list_item(t).len() > 0 ==> list_item_ok(list_item(t)),
{
    lemma_trim_free(t, ',');
    let a = strip_start_char(seq_trim(t), '\'');
    lemma_strip_start(seq_trim(t), '\'', ',');
    lemma_strip_end(a, '\'', ',');
}

proof fn lemma_array_items_ok(raw: Seq<char>)
    ensures
        forall|j: int| 0 <= j < gsettings_array(raw).len() ==> list_item_ok(#[trigger] gsettings_array(raw)[j]),
{
    let inner = strip_end_char(
        strip_start_char(seq_trim(strip_all_prefix(seq_trim(raw), "@as "@)), '['),
        ']',
    );
    let pieces = seq_split(inner, ',');
    lemma_split_pieces_free(inner, ',');
    let m = pieces.map_values(|t: Seq<char>| list_item(t));
    let r = gsettings_array(raw);
    assert forall|j: int| 0 <= j < r.len() implies list_item_ok(#[trigger] r[j]) by {
        assert(r.contains(r[j]));
        m.lemma_filter_map_contains(|t: Seq<char>| non_empty(t), r[j]);
        let x = choose|x: Seq<char>| #[trigger] m.contains(x) && non_empty(x) == Some(r[j]);
        let i = choose|i: int| 0 <= i < m.len() && m[i] == x;
        assert(free_of(pieces[i], ','));
        lemma_list_item_shape(pieces[i]);
    }
}

proof fn lemma_quoted_item(x: Seq<char>)
    requires
        list_item_ok(x),
    ensures
        list_item("'"@ + x + "'"@) == x,
        list_item(" "@ + ("'"@ + x + "'"@)) == x,
{
    reveal_strlit("'");
    reveal_strlit(" ");
    let q = "'"@ + x + "'"@;
    assert(q[0] == '\'');
    assert(q.last() == '\'');
    assert(seq_trim_start(q) == q);
    assert(seq_trim_end(q) == q);
    let sp = " "@ + q;
    assert(sp[0] == ' ');
    assert(sp.drop_first() =~= q);
    assert(seq_trim_start(sp) == seq_trim_start(q));
    assert(sp.last() == '\'');
    assert(seq_trim_end(q) == q);
    assert(q.drop_first() =~= x + "'"@);
    let y = x + "'"@;
    assert(y[0] == x[0]);
    assert(strip_start_char(q, '\'') == strip_start_char(y, '\''));
    assert(strip_start_char(y, '\'') == y);
    assert(y.last() == '\'');
    assert(y.drop_last() =~= x);
    assert(strip_end_char(y, '\'') == strip_end_char(x, '\''));
    assert(strip_end_char(x, '\'') == x);
}

proof fn lemma_split_joined(u: Seq<char>, q: Seq<Seq<char>>)
    requires
        q.len() >= 1,
        free_of(u, ','),
        forall|i: int| 0 <= i < q.len() ==> free_of(#[trigger] q[i], ','),
    ensures
        seq_split(u + seq_join(q, ", "@), ',') == seq![u + q[0]] + q.drop_first().map_values(
            |p: Seq<char>| " "@ + p,
        ),
    decreases q.len(),
{
    reveal_strlit(", ");
    reveal_strlit(" ");
    let ua = u + q[0];
    assert forall|k: int| 0 <= k < ua.len() implies #[trigger] ua[k] != ',' by {
        if k < u.len() {
            assert(ua[k] == u[k]);
        } else {
            assert(ua[k] == q[0][k - u.len()]);
        }
    }
    if q.len() == 1 {
        assert(seq_join(q, ", "@) == q[0]);
        assert(u + seq_join(q, ", "@) =~= ua);
        lemma_split_free(ua, ',');
        assert(q.drop_first().map_values(|p: Seq<char>| " "@ + p) =~= Seq::<Seq<char>>::empty());
        assert(seq![ua] + Seq::<Seq<char>>::empty() =~= seq![ua]);
    } else {
        lemma_join_first(q, ", "@);
        let rest = q.drop_first();
        assert forall|i: int| 0 <= i < rest.len() implies free_of(#[trigger] rest[i], ',') by {
            assert(rest[i] == q[i + 1]);
        }
        assert(free_of(" "@, ','));
        lemma_split_joined(" "@, rest);
        let b = " "@ + seq_join(rest, ", "@);
        assert(u + seq_join(q, ", "@) =~= ua + seq![','] + b);
        lemma_split_cons(ua, b, ',');
        assert(rest.map_values(|p: Seq<char>| " "@ + p) =~= seq![" "@ + rest[0]] + rest.drop_first().map_values(
            |p: Seq<char>| " "@ + p,
        ));
    }
}

proof fn lemma_nonempty_kept(s: Seq<Seq<char>>)
    requires
        forall|i: int| 0 <= i < s.len() ==> (#[trigger] s[i]).len() > 0,
    ensures
        s.filter_map(|t: Seq<char>| non_empty(t)) == s,
    decreases s.len(),
{
    if s.len() > 0 {
        let d = s.drop_last();
        assert forall|i: int| 0 <= i < d.len() implies (#[trigger] d[i]).len() > 0 by {
            assert(d[i] == s[i]);
        }
        lemma_nonempty_kept(d);
        assert(s.last().len() > 0);
        assert(d.push(s.last()) =~= s);
    }
}

/// Registering a key binding path with GNOME twice adds it once: once a
/// path is added, the list shows every path it showed and the new one, so
/// adding it again leaves the list alone. (A path with a comma, or one that
/// starts or ends with a quote, does not survive GNOME's list syntax.)
pub proof fn lemma_add_path_once(current: Seq<char>, path: Seq<char>)
    requires
        list_item_ok(path),
    ensures
        list_with_path(current, path) matches Some(next) ==> gsettings_array(next) == gsettings_array(
            current,
        ).push(path) && list_with_path(next, path) is None,
{
    let paths = gsettings_array(current);
    if !paths.contains(path) {
        reveal_strlit("[");
        reveal_strlit("]");
        reveal_strlit("'");
        reveal_strlit("@as ");
        lemma_array_items_ok(current);
        let items = paths.push(path);
        assert forall|i: int| 0 <= i < items.len() implies list_item_ok(#[trigger] items[i]) by {
            if i < paths.len() {
                assert(items[i] == paths[i]);
            }
        }
        let q = items.map_values(|p: Seq<char>| "'"@ + p + "'"@);
        assert forall|i: int| 0 <= i < q.len() implies free_of(#[trigger] q[i], ',') by {
            let x = items[i];
            assert(list_item_ok(x));
            assert forall|k: int| 0 <= k < q[i].len() implies #[trigger] q[i][k] != ',' by {
                if k == 0 || k == q[i].len() - 1 {
                } else {
                    assert(q[i][k] == x[k - 1]);
                }
            }
        }
        let j = seq_join(q, ", "@);
        let next = "["@ + j + "]"@;
        assert(list_with_path(current, path) == Some(next));
        // the text between the brackets
        assert(free_of(Seq::<char>::empty(), ','));
        lemma_split_joined(Seq::<char>::empty(), q);
        assert(Seq::<char>::empty() + j =~= j);
        let pieces = seq![q[0]] + q.drop_first().map_values(|p: Seq<char>| " "@ + p);
        assert(seq_split(j, ',') == pieces);
        assert(j.len() > 0 && j[0] == '\'' && j.last() == '\'') by {
            if q.len() == 1 {
                assert(j == q[0]);
            } else {
                lemma_join_first(q, ", "@);
                assert(j == q[0] + ", "@ + seq_join(q.drop_first(), ", "@));
                assert(j == seq_join(q.drop_last(), ", "@) + ", "@ + q.last());
            }
            assert(q[0][0] == '\'');
            assert(q.last() == q[q.len() - 1]);
            assert(q.last().last() == '\'');
        }
        assert(next[0] == '[');
        assert(next.last() == ']');
        assert(seq_trim_start(next) == next);
        assert(seq_trim_end(next) == next);
        assert(!seq_starts_with(next, "@as "@)) by {
            assert(next[0] != "@as "@[0]);
        }
        assert(strip_all_prefix(next, "@as "@) == next);
        assert(next.drop_first() =~= j + "]"@);
        assert((j + "]"@)[0] == '\'');
        assert(strip_start_char(j + "]"@, '[') == j + "]"@);
        assert(strip_start_char(next, '[') == strip_start_char(next.drop_first(), '['));
        assert(strip_start_char(next, '[') == j + "]"@);
        assert((j + "]"@).drop_last() =~= j);
        assert(strip_end_char(j + "]"@, ']') == strip_end_char(j, ']'));
        assert(strip_end_char(j, ']') == j);
        let m = pieces.map_values(|t: Seq<char>| list_item(t));
        assert forall|i: int| 0 <= i < m.len() implies #[trigger] m[i] == items[i] by {
            lemma_quoted_item(items[i]);
            if i == 0 {
                assert(pieces[0] == q[0]);
            } else {
                assert(pieces[i] == " "@ + q[i]);
            }
        }
        assert(m =~= items);
        assert forall|i: int| 0 <= i < items.len() implies (#[trigger] items[i]).len() > 0 by {
            assert(list_item_ok(items[i]));
        }
        lemma_nonempty_kept(items);
        assert(gsettings_array(next) == items);
        assert(items.contains(path)) by {
            assert(items[items.len() - 1] == path);
        }
    }
}


/// The keys a shortcut names: its `+`-separated parts, trimmed and in
/// ASCII lower case, the empty ones dropped.
pub open spec fn shortcut_keys(raw: Seq<char>) -> Seq<Seq<char>> {
    kept_keys(seq_split(raw, '+'))
}

/// Two shortcuts overlap exactly when they name the same keys in the same
/// order: joining keys that are not empty and hold no `+` loses nothing.
pub proof fn lemma_overlap_same_keys(a: Seq<char>, b: Seq<char>)
    ensures
        (normalized_shortcut(a) == normalized_shortcut(b)) <==> (shortcut_keys(a) == shortcut_keys(b)),
{
    reveal_strlit("+");
    assert("+"@ =~= seq!['+']);
    let p = shortcut_keys(a);
    let q = shortcut_keys(b);
    lemma_split_pieces_free(a, '+');
    lemma_split_pieces_free(b, '+');
    lemma_kept_settled(seq_split(a, '+'));
    lemma_kept_settled(seq_split(b, '+'));
    assert(normalized_shortcut(a) == seq_join(p, "+"@));
    assert(normalized_shortcut(b) == seq_join(q, "+"@));
    assert forall|i: int| 0 <= i < p.len() implies free_of(#[trigger] p[i], '+') by {
        assert(settled_key(p[i]));
    }
    assert forall|i: int| 0 <= i < q.len() implies free_of(#[trigger] q[i], '+') by {
        assert(settled_key(q[i]));
    }
    let e = Seq::<char>::empty();
    lemma_split_free(e, '+');
    if seq_join(p, "+"@) == seq_join(q, "+"@) {
        if p.len() > 0 {
            lemma_split_join(p, '+');
            assert(settled_key(p[0]));
        }
        if q.len() > 0 {
            lemma_split_join(q, '+');
            assert(settled_key(q[0]));
        }
        if p.len() == 0 && q.len() > 0 {
            assert(seq_join(p, "+"@) == e);
            assert(seq_split(e, '+') == q);
            assert(q[0] == e);
        }
        if q.len() == 0 && p.len() > 0 {
            assert(seq_join(q, "+"@) == e);
            assert(seq_split(e, '+') == p);
            assert(p[0] == e);
        }
        if p.len() == 0 && q.len() == 0 {
            assert(p =~= q);
        }
    }
}

} // verus!
