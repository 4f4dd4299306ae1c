//! The launcher's settings, their defaults, and the autostart entry.

use vstd::prelude::*;
use crate::text::{cat3, opt_view, str_eq};

verus! {

/// The launcher's settings.
#[derive(Clone, Debug)]
pub struct AppConfig {
    pub shortcuts: Vec<String>,
    pub clipboard_shortcut: String,
    pub web_search_engine: String,
    pub theme: String,
    pub clipboard_limit: usize,
    pub file_roots: Vec<String>,
    pub exclude_patterns: Vec<String>,
    pub max_index_files: usize,
    pub extension_dirs: Vec<String>,
    pub translate_api_url: Option<String>,
    pub translate_target: String,
    pub ai_enabled: bool,
    pub ai_model: String,
    pub ai_ollama_url: Option<String>,
    pub ai_api_url: Option<String>,
    pub extension_store_url: Option<String>,
}

/// The text of a list of strings.
pub open spec fn texts(v: Seq<String>) -> Seq<Seq<char>> {
    v.map_values(|s: String| s@)
}

/// The default clipboard shortcut.
pub fn default_clipboard_shortcut() -> (r: String)
    ensures
        r@ == "Ctrl+Alt+C"@,
{
    String::from_str("Ctrl+Alt+C")
}

/// The default web-search engine.
pub fn default_web_search_engine() -> (r: String)
    ensures
        r@ == "google"@,
{
    String::from_str("google")
}

/// The default theme.
pub fn default_theme() -> (r: String)
    ensures
        r@ == "auto"@,
{
    String::from_str("auto")
}

/// The default number of clipboard entries kept.
pub fn default_clipboard_limit() -> (r: usize)
    ensures
        r == 50,
{
    50
}

/// The default patterns excluded from the file index.
pub fn default_exclude_patterns() -> (r: Vec<String>)
    ensures
        texts(r@) == seq![".git"@, "node_modules"@, "target"@, ".cache"@],
{
    let mut v: Vec<String> = Vec::new();
    v.push(String::from_str(".git"));
    v.push(String::from_str("node_modules"));
    v.push(String::from_str("target"));
    v.push(String::from_str(".cache"));
    assert(texts(v@) =~= seq![".git"@, "node_modules"@, "target"@, ".cache"@]);
    v
}

/// The default most files the index holds.
pub fn default_max_index_files() -> (r: usize)
    ensures
        r == 50000,
{
    50000
}

/// The default target language of translations.
pub fn default_translate_target() -> (r: String)
    ensures
        r@ == "pt"@,
{
    String::from_str("pt")
}

/// The default model of the assistant.
pub fn default_ai_model() -> (r: String)
    ensures
        r@ == "llama3"@,
{
    String::from_str("llama3")
}

impl Default for AppConfig {
    fn default() -> (r: Self)
        ensures
            texts(r.shortcuts@) == seq!["Ctrl+Alt+Space"@],
            r.clipboard_shortcut@ == "Ctrl+Alt+C"@,
            r.web_search_engine@ == "google"@,
            r.theme@ == "auto"@,
            r.clipboard_limit == 50,
            r.file_roots@.len() == 0,
            texts(r.exclude_patterns@) == seq![".git"@, "node_modules"@, "target"@, ".cache"@],
            r.max_index_files == 50000,
            r.extension_dirs@.len() == 0,
            r.translate_api_url is None,
            r.translate_target@ == "pt"@,
            !r.ai_enabled,
            r.ai_model@ == "llama3"@,
            r.ai_ollama_url is None,
            r.ai_api_url is None,
            r.extension_store_url is None,
    {
        let mut shortcuts: Vec<String> = Vec::new();
        shortcuts.push(String::from_str("Ctrl+Alt+Space"));
        assert(texts(shortcuts@) =~= seq!["Ctrl+Alt+Space"@]);
        AppConfig {
            shortcuts,
            clipboard_shortcut: default_clipboard_shortcut(),
            web_search_engine: default_web_search_engine(),
            theme: default_theme(),
            clipboard_limit: default_clipboard_limit(),
            file_roots: Vec::new(),
            exclude_patterns: default_exclude_patterns(),
            max_index_files: default_max_index_files(),
            extension_dirs: Vec::new(),
            translate_api_url: None,
            translate_target: default_translate_target(),
            ai_enabled: false,
            ai_model: default_ai_model(),
            ai_ollama_url: None,
            ai_api_url: None,
            extension_store_url: None,
        }
    }
}

/// The configured number of clipboard entries brought into 10 to 500.
pub open spec fn clamped_limit(configured: int) -> int {
    if configured < 10 {
        10
    } else if configured > 500 {
        500
    } else {
        configured
    }
}

/// The clipboard keeps between 10 and 500 entries whatever is configured;
/// a number in that range is kept as it is, so bringing a limit into range
/// twice changes nothing more.
pub proof fn lemma_clipboard_limit_range(configured: int)
    ensures
        10 <= clamped_limit(configured) <= 500,
        10 <= configured <= 500 ==> clamped_limit(configured) == configured,
        clamped_limit(clamped_limit(configured)) == clamped_limit(configured),
{
}

/// The number of clipboard entries kept (see `clamped_limit`).
pub fn clipboard_limit(configured: usize) -> (r: usize)
    ensures
        r == clamped_limit(configured as int),
{
    if configured < 10 {
        10
    } else if configured > 500 {
        500
    } else {
        configured
    }
}

/// The autostart entry that starts the launcher at login.
pub open spec fn autostart_text(exe: Seq<char>) -> Seq<char> {
    "[Desktop Entry]\nType=Application\nName=Spotlight\nExec="@ + exe
        + "\nHidden=false\nNoDisplay=false\nTerminal=false\nX-GNOME-Autostart-enabled=true\n"@
}

/// The autostart entry for the launcher at `exe`.
pub fn autostart_entry(exe: &str) -> (r: String)
    ensures
        r@ == autostart_text(exe@),
{
    cat3(
        "[Desktop Entry]\nType=Application\nName=Spotlight\nExec=",
        exe,
        "\nHidden=false\nNoDisplay=false\nTerminal=false\nX-GNOME-Autostart-enabled=true\n",
    )
}

/// Whether the autostart file must be written: it could not be read, or
/// it differs from the entry.
pub fn autostart_needs_write(existing: Option<String>, entry: &str) -> (r: bool)
    ensures
        r == match opt_view(existing) {
            Some(e) => e != entry@,
            None => true,
        },
{
    match existing {
        Some(e) => !str_eq(e.as_str(), entry),
        None => true,
    }
}

} // verus!
