//! The extension store: where its catalog comes from, which catalog is
//! shown, and where an extension from it is installed. Fetching, reading
//! and decoding the catalog, cloning and unpacking are the caller's.

use vstd::prelude::*;
use crate::paths::{join, join_spec};
use crate::text::{cat, cat3, chars_of, seq_starts_with, slice_chars, starts_with, string_of};

verus! {

/// An extension the store offers.
#[derive(Clone, Debug)]
pub struct StoreExtension {
    pub id: String,
    pub title: String,
    pub description: String,
    pub repo: String,
    pub version: Option<String>,
    pub path: Option<String>,
    pub builtin: bool,
}

/// The catalog used when the configuration names none.
pub fn default_store_url() -> (r: String)
    ensures
        r@ == "https://raw.githubusercontent.com/edsoncantuaria/spotlight/main/docs/extension-store/catalog.json"@,
{
    String::from_str("https://raw.githubusercontent.com/edsoncantuaria/spotlight/main/docs/extension-store/catalog.json")
}

/// The catalog's address: the configured one, else the default.
pub fn store_catalog_url(configured: Option<String>) -> (r: String)
    ensures
        r@ == match configured {
            Some(u) => u@,
            None => "https://raw.githubusercontent.com/edsoncantuaria/spotlight/main/docs/extension-store/catalog.json"@,
        },
{
    match configured {
        Some(u) => u,
        None => default_store_url(),
    }
}

/// `s` without every leading repetition of the nonempty `p`
/// (`str::trim_start_matches`).
pub open spec fn trim_start_all(s: Seq<char>, p: Seq<char>) -> Seq<char>
    decreases s.len(),
{
    if p.len() > 0 && seq_starts_with(s, p) {
        trim_start_all(s.subrange(p.len() as int, s.len() as int), p)
    } else {
        s
    }
}

/// Where the catalog is read from.
#[derive(Debug)]
pub enum CatalogSource {
    /// A file at this path.
    File(String),
    /// This address, fetched over the network.
    Remote(String),
}

/// Where the catalog at `url` is read from: an address that does not start
/// with `http` is a file, its `file://` prefixes removed.
pub fn catalog_source(url: &str) -> (r: CatalogSource)
    ensures
        seq_starts_with(url@, "http"@) ==> (r matches CatalogSource::Remote(u) && u@ == url@),
        !seq_starts_with(url@, "http"@) ==> (r matches CatalogSource::File(p) && p@ == trim_start_all(
            url@,
            "file://"@,
        )),
{
    let u = chars_of(url);
    if starts_with(u.as_slice(), chars_of("http").as_slice()) {
        return CatalogSource::Remote(String::from_str(url));
    }
    let p = chars_of("file://");
    proof {
        reveal_strlit("file://");
    }
    assert(p@.len() == 7);
    let mut rest = u;
    while starts_with(rest.as_slice(), p.as_slice())
        invariant
            p@ == "file://"@,
            p@.len() == 7,
            trim_start_all(rest@, p@) == trim_start_all(url@, "file://"@),
        decreases rest@.len(),
    {
        rest = slice_chars(rest.as_slice(), 7, rest.len());
    }
    CatalogSource::File(string_of(rest.as_slice()))
}

/// The catalog shown: the one fetched when that gave any extension, else
/// the one shipped with the launcher.
pub fn list_store(
    fetched: Result<Vec<StoreExtension>, String>,
    embedded: Result<Vec<StoreExtension>, String>,
) -> (r: Result<Vec<StoreExtension>, String>)
    ensures
        r == match fetched {
            Ok(items) => if items@.len() > 0 {
                Ok(items)
            } else {
                embedded
            },
            Err(_) => embedded,
        },
{
    match fetched {
        Ok(items) => if items.len() > 0 {
            Ok(items)
        } else {
            embedded
        },
        Err(_) => embedded,
    }
}

/// Where an extension is installed: its identifier under the extensions
/// directory; the error "Diretório de extensões indisponível" when that
/// directory is not known.
pub fn install_dest(extensions_dir: Option<String>, id: &str) -> (r: Result<String, String>)
    ensures
        match extensions_dir {
            Some(d) => r matches Ok(p) && p@ == join_spec(d@, id@),
            None => r matches Err(e) && e@ == "Diretório de extensões indisponível"@,
        },
{
    match extensions_dir {
        Some(d) => Ok(join(d.as_str(), id)),
        None => Err(String::from_str("Diretório de extensões indisponível")),
    }
}

/// The error for an extension whose directory already exists.
pub fn already_installed(id: &str) -> (r: String)
    ensures
        r@ == "Extensão '"@ + id@ + "' já instalada"@,
{
    cat3("Extensão '", id, "' já instalada")
}

/// The Git address a store extension is cloned from.
pub fn clone_url(repo: &str) -> (r: String)
    ensures
        r@ == "https://github.com/"@ + repo@ + ".git"@,
{
    cat3("https://github.com/", repo, ".git")
}

/// The archive of a store extension's main branch, fetched when cloning
/// fails.
pub fn archive_url(repo: &str) -> (r: String)
    ensures
        r@ == "https://github.com/"@ + repo@ + "/archive/refs/heads/main.tar.gz"@,
{
    cat3("https://github.com/", repo, "/archive/refs/heads/main.tar.gz")
}

} // verus!
