//! System commands: lock, suspend, log out, reboot, shut down, the
//! settings window, a screenshot and emptying the trash.

use vstd::prelude::*;
use crate::search::ranking::{build_result, result_views, scored_view, take_at_most, HistoryStats, ResultView};
use crate::search::types::{make_id, result_id, ResultKind, SearchResult};
use crate::text::{cat, chars_of, contains, lowercase, seq_contains, seq_trim, str_eq, string_of, to_lowercase, trimmed_chars};

verus! {

/// A system command.
pub struct SystemCommand {
    pub id: &'static str,
    pub title: &'static str,
    pub subtitle: &'static str,
    pub icon: &'static str,
}

/// The text of a command: identifier, title, subtitle, icon.
pub open spec fn command_view(c: SystemCommand) -> (Seq<char>, Seq<char>, Seq<char>, Seq<char>) {
    (c.id@, c.title@, c.subtitle@, c.icon@)
}

/// The system commands, in the order they are listed.
pub open spec fn system_commands() -> Seq<(Seq<char>, Seq<char>, Seq<char>, Seq<char>)> {
    seq![
        ("lock"@, "Bloquear tela"@, "Trava a sessão"@, "system-lock-screen"@),
        ("suspend"@, "Suspender"@, "Modo de suspensão"@, "system-suspend"@),
        ("logout"@, "Encerrar sessão"@, "Logout do usuário"@, "system-log-out"@),
        ("reboot"@, "Reiniciar"@, "Reinicia o sistema"@, "system-reboot"@),
        ("shutdown"@, "Desligar"@, "Desliga o computador"@, "system-shutdown"@),
        ("settings"@, "Configurações do Spotlight"@, "Abrir painel de configuração"@, "preferences-system"@),
        ("screenshot"@, "Captura de tela"@, "Flameshot ou grim"@, "camera-photo"@),
        ("empty_trash"@, "Esvaziar lixeira"@, "Remove arquivos da lixeira"@, "user-trash"@)
    ]
}

/// The system commands.
pub fn commands() -> (r: Vec<SystemCommand>)
    ensures
        r@.map_values(|c: SystemCommand| command_view(c)) == system_commands(),
{
    let mut v: Vec<SystemCommand> = Vec::new();
    v.push(SystemCommand { id: "lock", title: "Bloquear tela", subtitle: "Trava a sessão", icon: "system-lock-screen" });
    v.push(SystemCommand { id: "suspend", title: "Suspender", subtitle: "Modo de suspensão", icon: "system-suspend" });
    v.push(SystemCommand { id: "logout", title: "Encerrar sessão", subtitle: "Logout do usuário", icon: "system-log-out" });
    v.push(SystemCommand { id: "reboot", title: "Reiniciar", subtitle: "Reinicia o sistema", icon: "system-reboot" });
    v.push(SystemCommand { id: "shutdown", title: "Desligar", subtitle: "Desliga o computador", icon: "system-shutdown" });
    v.push(SystemCommand { id: "settings", title: "Configurações do Spotlight", subtitle: "Abrir painel de configuração", icon: "preferences-system" });
    v.push(SystemCommand { id: "screenshot", title: "Captura de tela", subtitle: "Flameshot ou grim", icon: "camera-photo" });
    v.push(SystemCommand { id: "empty_trash", title: "Esvaziar lixeira", subtitle: "Remove arquivos da lixeira", icon: "user-trash" });
    assert(v@.map_values(|c: SystemCommand| command_view(c)) =~= system_commands());
    v
}

/// The result of a command for the lowercase query `q`: shown when its
/// lowercase title or subtitle, or its identifier, holds `q`.
pub open spec fn command_hit(
    c: (Seq<char>, Seq<char>, Seq<char>, Seq<char>),
    q: Seq<char>,
    query: Seq<char>,
    h: HistoryStats,
) -> Option<ResultView> {
    if seq_contains(lowercase(c.1), q) || seq_contains(lowercase(c.2), q) || seq_contains(c.0, q) {
        Some(
            scored_view(
                result_id(ResultKind::Setting, "syscmd:"@ + c.0),
                ResultKind::Setting,
                c.1,
                Some(c.2),
                Some(c.3),
                950,
                query,
                h,
            ),
        )
    } else {
        None
    }
}

/// The command results: none for an empty (trimmed, lowercase) query; else
/// the matching commands in their order, at most `limit`.
pub open spec fn command_results(query: Seq<char>, h: HistoryStats, limit: int) -> Seq<ResultView> {
    let q = lowercase(seq_trim(query));
    if q.len() == 0 {
        Seq::empty()
    } else {
        take_at_most(
            system_commands().filter_map(
                |c: (Seq<char>, Seq<char>, Seq<char>, Seq<char>)| command_hit(c, q, query, h),
            ),
            limit,
        )
    }
}

/// The commands matching `query` (see `command_results`).
pub fn search(query: &str, history: &HistoryStats, limit: usize) -> (r: Vec<SearchResult>)
    ensures
        result_views(r@) == command_results(query@, *history, limit as int),
{
    let trimmed = string_of(trimmed_chars(query).as_slice());
    let q = chars_of(to_lowercase(trimmed.as_str()).as_str());
    let mut results: Vec<SearchResult> = Vec::new();
    if q.len() == 0 {
        assert(result_views(results@) =~= Seq::<ResultView>::empty());
        return results;
    }
    let cmds = commands();
    let ghost cs = cmds@.map_values(|c: SystemCommand| command_view(c));
    let ghost f = |c: (Seq<char>, Seq<char>, Seq<char>, Seq<char>)| command_hit(c, q@, query@, *history);
    let mut i: usize = 0;
    assert(result_views(results@) =~= cs.take(0).filter_map(f));
    while i < cmds.len()
        invariant
            i <= cmds@.len(),
            cs == cmds@.map_values(|c: SystemCommand| command_view(c)),
            q@ == lowercase(seq_trim(query@)),
            f == (|c: (Seq<char>, Seq<char>, Seq<char>, Seq<char>)| command_hit(c, q@, query@, *history)),
            result_views(results@) == cs.take(i as int).filter_map(f),
        decreases cmds.len() - i,
    {
        let ghost before = results@;
        let c = &cmds[i];
        proof {
            assert(cs.take(i + 1).drop_last() =~= cs.take(i as int));
            assert(cs.take(i + 1).last() == command_view(*c));
        }
        let shown = contains(chars_of(to_lowercase(c.title).as_str()).as_slice(), q.as_slice())
            || contains(chars_of(to_lowercase(c.subtitle).as_str()).as_slice(), q.as_slice())
            || contains(chars_of(c.id).as_slice(), q.as_slice());
        if shown {
            let key = cat("syscmd:", c.id);
            let x = build_result(
                make_id(ResultKind::Setting, key.as_str()),
                ResultKind::Setting,
                String::from_str(c.title),
                Some(String::from_str(c.subtitle)),
                Some(String::from_str(c.icon)),
                950,
                query,
                history,
            );
            results.push(x);
            assert(result_views(results@) =~= result_views(before) + seq![x@]);
        }
        i = i + 1;
    }
    assert(cs.take(i as int) =~= cs);
    results.truncate(limit);
    results
}

/// What running a command does; the caller carries it out.
#[derive(Clone, Copy, Debug, PartialEq, Eq, Structural)]
pub enum SystemAction {
    /// Lock the screen with the first locker that succeeds.
    Lock,
    /// `systemctl suspend`.
    Suspend,
    /// End the user's session.
    Logout,
    /// `systemctl reboot`.
    Reboot,
    /// `systemctl poweroff`.
    PowerOff,
    /// Nothing: the settings window is opened elsewhere.
    Nothing,
    /// Take a screenshot.
    Screenshot,
    /// Empty the trash folders.
    EmptyTrash,
}

/// What running the command `command_id` does; an unknown command is the
/// error "Comando desconhecido: <id>".
pub open spec fn system_action_of(command_id: Seq<char>) -> Result<SystemAction, Seq<char>> {
    if command_id == "lock"@ {
        Ok(SystemAction::Lock)
    } else if command_id == "suspend"@ {
        Ok(SystemAction::Suspend)
    } else if command_id == "logout"@ {
        Ok(SystemAction::Logout)
    } else if command_id == "reboot"@ {
        Ok(SystemAction::Reboot)
    } else if command_id == "shutdown"@ {
        Ok(SystemAction::PowerOff)
    } else if command_id == "settings"@ {
        Ok(SystemAction::Nothing)
    } else if command_id == "screenshot"@ {
        Ok(SystemAction::Screenshot)
    } else if command_id == "empty_trash"@ {
        Ok(SystemAction::EmptyTrash)
    } else {
        Err("Comando desconhecido: "@ + command_id)
    }
}

/// What running `command_id` does (see `system_action_of`).
pub fn run(command_id: &str) -> (r: Result<SystemAction, String>)
    ensures
        match r {
            Ok(a) => system_action_of(command_id@) == Ok::<SystemAction, Seq<char>>(a),
            Err(e) => system_action_of(command_id@) == Err::<SystemAction, Seq<char>>(e@),
        },
{
    if str_eq(command_id, "lock") {
        Ok(SystemAction::Lock)
    } else if str_eq(command_id, "suspend") {
        Ok(SystemAction::Suspend)
    } else if str_eq(command_id, "logout") {
        Ok(SystemAction::Logout)
    } else if str_eq(command_id, "reboot") {
        Ok(SystemAction::Reboot)
    } else if str_eq(command_id, "shutdown") {
        Ok(SystemAction::PowerOff)
    } else if str_eq(command_id, "settings") {
        Ok(SystemAction::Nothing)
    } else if str_eq(command_id, "screenshot") {
        Ok(SystemAction::Screenshot)
    } else if str_eq(command_id, "empty_trash") {
        Ok(SystemAction::EmptyTrash)
    } else {
        Err(cat("Comando desconhecido: ", command_id))
    }
}

/// The argument `systemctl` gets for an action that uses it.
pub fn systemctl_verb(a: SystemAction) -> (r: Option<&'static str>)
    ensures
        match a {
            SystemAction::Suspend => r matches Some(v) && v@ == "suspend"@,
            SystemAction::Reboot => r matches Some(v) && v@ == "reboot"@,
            SystemAction::PowerOff => r matches Some(v) && v@ == "poweroff"@,
            _ => r is None,
        },
{
    match a {
        SystemAction::Suspend => Some("suspend"),
        SystemAction::Reboot => Some("reboot"),
        SystemAction::PowerOff => Some("poweroff"),
        _ => None,
    }
}

} // verus!
