//! Where the launcher keeps its files: a `spotlight` directory under the
//! user's configuration directory.

use vstd::prelude::*;
use crate::text::{cat, cat3, chars_of, opt_view};

verus! {

/// `base` joined with the relative path `name`, as `Path::join` joins:
/// with a `/` between them unless `base` is empty or already ends in one.
pub open spec fn join_spec(base: Seq<char>, name: Seq<char>) -> Seq<char> {
    if base.len() == 0 {
        name
    } else if base.last() == '/' {
        base + name
    } else {
        base + "/"@ + name
    }
}

/// `base` joined with the relative path `name` (see `join_spec`).
pub fn join(base: &str, name: &str) -> (r: String)
    ensures
        r@ == join_spec(base@, name@),
{
    let b = chars_of(base);
    if b.len() == 0 {
        String::from_str(name)
    } else if b[b.len() - 1] == '/' {
        cat(base, name)
    } else {
        cat3(base, "/", name)
    }
}

/// The launcher's directory under the configuration directory.
pub open spec fn spotlight_dir_of(config_dir: Seq<char>) -> Seq<char> {
    join_spec(config_dir, "spotlight"@)
}

/// A file of the launcher's directory, if the configuration directory is
/// known.
pub open spec fn spotlight_file(config_dir: Option<Seq<char>>, name: Seq<char>) -> Option<Seq<char>> {
    match config_dir {
        Some(d) => Some(join_spec(spotlight_dir_of(d), name)),
        None => None,
    }
}

/// The launcher's directory, if the configuration directory is known.
pub fn spotlight_dir(config_dir: Option<String>) -> (r: Option<String>)
    ensures
        opt_view(r) == match opt_view(config_dir) {
            Some(d) => Some(spotlight_dir_of(d)),
            None => None,
        },
{
    match config_dir {
        Some(d) => Some(join(d.as_str(), "spotlight")),
        None => None,
    }
}

fn in_spotlight_dir(config_dir: Option<String>, name: &str) -> (r: Option<String>)
    ensures
        opt_view(r) == spotlight_file(opt_view(config_dir), name@),
{
    match spotlight_dir(config_dir) {
        Some(d) => Some(join(d.as_str(), name)),
        None => None,
    }
}

/// `config.toml` in the launcher's directory.
pub fn config_file(config_dir: Option<String>) -> (r: Option<String>)
    ensures
        opt_view(r) == spotlight_file(opt_view(config_dir), "config.toml"@),
{
    in_spotlight_dir(config_dir, "config.toml")
}

/// `quicklinks.toml` in the launcher's directory.
pub fn quicklinks_file(config_dir: Option<String>) -> (r: Option<String>)
    ensures
        opt_view(r) == spotlight_file(opt_view(config_dir), "quicklinks.toml"@),
{
    in_spotlight_dir(config_dir, "quicklinks.toml")
}

/// `snippets.toml` in the launcher's directory.
pub fn snippets_file(config_dir: Option<String>) -> (r: Option<String>)
    ensures
        opt_view(r) == spotlight_file(opt_view(config_dir), "snippets.toml"@),
{
    in_spotlight_dir(config_dir, "snippets.toml")
}

/// The `scripts` directory in the launcher's directory.
pub fn scripts_dir(config_dir: Option<String>) -> (r: Option<String>)
    ensures
        opt_view(r) == spotlight_file(opt_view(config_dir), "scripts"@),
{
    in_spotlight_dir(config_dir, "scripts")
}

/// The `extensions` directory in the launcher's directory.
pub fn extensions_dir(config_dir: Option<String>) -> (r: Option<String>)
    ensures
        opt_view(r) == spotlight_file(opt_view(config_dir), "extensions"@),
{
    in_spotlight_dir(config_dir, "extensions")
}

/// The `clipboard-images` directory in the launcher's directory.
pub fn clipboard_images_dir(config_dir: Option<String>) -> (r: Option<String>)
    ensures
        opt_view(r) == spotlight_file(opt_view(config_dir), "clipboard-images"@),
{
    in_spotlight_dir(config_dir, "clipboard-images")
}

/// `rates.json` in the launcher's directory.
pub fn rates_cache_file(config_dir: Option<String>) -> (r: Option<String>)
    ensures
        opt_view(r) == spotlight_file(opt_view(config_dir), "rates.json"@),
{
    in_spotlight_dir(config_dir, "rates.json")
}

/// `window.json` in the launcher's directory, where the window position is
/// kept.
pub fn window_state_file(config_dir: Option<String>) -> (r: Option<String>)
    ensures
        opt_view(r) == spotlight_file(opt_view(config_dir), "window.json"@),
{
    in_spotlight_dir(config_dir, "window.json")
}

/// What `Path::new(path).file_name()` gives for a path (std).
pub uninterp spec fn file_name_of(path: Seq<char>) -> Option<Seq<char>>;

/// What `Path::new(path).parent()` gives for a path (std).
pub uninterp spec fn parent_of(path: Seq<char>) -> Option<Seq<char>>;

/// `Path::file_name` of std, read back as text. The contract claims only
/// that the result is the one named by `file_name_of`: a function of the
/// path alone.
#[verifier::external_body]
pub(crate) fn path_file_name(path: &str) -> (r: Option<String>)
    ensures
        opt_view(r) == file_name_of(path@),
{
    std::path::Path::new(path).file_name().map(|n| n.to_string_lossy().to_string())
}

/// `Path::parent` of std, read back as text. The contract claims only
/// that the result is the one named by `parent_of`: a function of the path
/// alone.
#[verifier::external_body]
pub(crate) fn path_parent(path: &str) -> (r: Option<String>)
    ensures
        opt_view(r) == parent_of(path@),
{
    std::path::Path::new(path).parent().map(|p| p.to_string_lossy().to_string())
}

/// What `Path::new(path).file_stem()` gives for a path (std).
pub uninterp spec fn file_stem_of(path: Seq<char>) -> Option<Seq<char>>;

/// `Path::file_stem` of std, read back as text. The contract claims only
/// that the result is the one named by `file_stem_of`: a function of the
/// path alone.
#[verifier::external_body]
pub(crate) fn path_file_stem(path: &str) -> (r: Option<String>)
    ensures
        opt_view(r) == file_stem_of(path@),
{
    std::path::Path::new(path).file_stem().map(|n| n.to_string_lossy().to_string())
}

} // verus!
