use vstd::prelude::*;

pub mod apps;
pub mod browser;
pub mod clipboard;
pub mod config;
pub mod contacts;
pub mod desktop_file;
pub mod extension_store;
pub mod extensions;
pub mod files;
pub mod matchers;
pub mod order;
pub mod paths;
pub mod platform;
pub mod quick_answers;
pub mod quicklinks;
pub mod scripts;
pub mod search;
pub mod settings;
pub mod snippets;
pub mod system_commands;
pub mod text;
pub mod web_search;
pub mod window_state;
pub mod windows;

verus! {

} // verus!
