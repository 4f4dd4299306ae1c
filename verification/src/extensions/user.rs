//! User extensions: a directory with a manifest and optional search and run
//! scripts. The scripts are run by the caller; what their output becomes is
//! decided here.

use vstd::prelude::*;
use crate::extensions::{texts, ExtensionManifest};
use crate::paths::{join, join_spec};
use crate::search::ranking::{build_result, result_views, scored_view, take_at_most, HistoryStats, ResultView};
use crate::search::types::{make_id, result_id, ResultKind, SearchResult};
use crate::text::{cat3, clone_opt, opt_view};

verus! {

/// A user extension and its directory.
pub struct UserScriptExtension {
    pub manifest: ExtensionManifest,
    pub dir: String,
}

/// One hit a search script printed.
#[derive(Clone, Debug)]
pub struct ScriptHit {
    pub title: String,
    pub subtitle: Option<String>,
    pub action: Option<String>,
    pub icon: Option<String>,
}

/// The result of a hit of the extension `id` whose manifest icon is
/// `icon`: its action (or "default") names it; its own icon, else the
/// manifest's.
pub open spec fn hit_result(id: Seq<char>, icon: Option<Seq<char>>, hit: ScriptHit, query: Seq<char>, h: HistoryStats) -> ResultView {
    let action = match opt_view(hit.action) {
        Some(a) => a,
        None => "default"@,
    };
    scored_view(
        result_id(ResultKind::Extension, id + ":"@ + action),
        ResultKind::Extension,
        hit.title@,
        opt_view(hit.subtitle),
        match opt_view(hit.icon) {
            Some(i) => Some(i),
            None => icon,
        },
        750,
        query,
        h,
    )
}

impl UserScriptExtension {
    /// The extension of a manifest found in `dir`.
    pub fn new(manifest: ExtensionManifest, dir: String) -> (r: Self)
        ensures
            r.manifest == manifest,
            r.dir == dir,
    {
        UserScriptExtension { manifest, dir }
    }

    /// The identifier, from the manifest.
    pub fn id(&self) -> (r: &str)
        ensures
            r@ == self.manifest.id@,
    {
        self.manifest.id.as_str()
    }

    /// The title, from the manifest.
    pub fn title(&self) -> (r: &str)
        ensures
            r@ == self.manifest.title@,
    {
        self.manifest.title.as_str()
    }

    /// The keywords, from the manifest.
    pub fn keywords(&self) -> (r: &Vec<String>)
        ensures
            r@ == self.manifest.keywords@,
    {
        &self.manifest.keywords
    }

    /// The search script's path, if the manifest names one.
    pub fn search_command(&self) -> (r: Option<String>)
        ensures
            opt_view(r) == match opt_view(self.manifest.search_command) {
                Some(c) => Some(join_spec(self.dir@, c)),
                None => None,
            },
    {
        match &self.manifest.search_command {
            Some(c) => Some(join(self.dir.as_str(), c.as_str())),
            None => None,
        }
    }

    /// The run script's path, if the manifest names one.
    pub fn run_command(&self) -> (r: Option<String>)
        ensures
            opt_view(r) == match opt_view(self.manifest.run_command) {
                Some(c) => Some(join_spec(self.dir@, c)),
                None => None,
            },
    {
        match &self.manifest.run_command {
            Some(c) => Some(join(self.dir.as_str(), c.as_str())),
            None => None,
        }
    }

    /// The results of an extension without a search script: for an empty
    /// query one result that names the extension; else none.
    pub fn search_without_script(&self, query: &str, history: &HistoryStats) -> (r: Vec<SearchResult>)
        ensures
            result_views(r@) == if query@.len() == 0 {
                seq![
                    scored_view(
                        result_id(ResultKind::Extension, self.manifest.id@ + ":root"@),
                        ResultKind::Extension,
                        self.manifest.title@,
                        Some("Extensão de usuário"@),
                        opt_view(self.manifest.icon),
                        500,
                        query@,
                        *history,
                    ),
                ]
            } else {
                Seq::<ResultView>::empty()
            },
    {
        let mut r: Vec<SearchResult> = Vec::new();
        if query.is_empty() {
            let x = build_result(
                make_id(ResultKind::Extension, crate::text::cat(self.manifest.id.as_str(), ":root").as_str()),
                ResultKind::Extension,
                self.manifest.title.clone(),
                Some(String::from_str("Extensão de usuário")),
                clone_opt(&self.manifest.icon),
                500,
                query,
                history,
            );
            r.push(x);
            assert(result_views(r@) =~= seq![x@]);
            return r;
        }
        assert(result_views(r@) =~= Seq::<ResultView>::empty());
        r
    }

    /// The results of the hits a search script printed: the first `limit`,
    /// in order (see `hit_result`).
    pub fn hits_to_results(&self, hits: Vec<ScriptHit>, query: &str, history: &HistoryStats, limit: usize) -> (r:
        Vec<SearchResult>)
        ensures
            result_views(r@) == take_at_most(hits@, limit as int).map_values(
                |x: ScriptHit| hit_result(self.manifest.id@, opt_view(self.manifest.icon), x, query@, *history),
            ),
    {
        let ghost taken = take_at_most(hits@, limit as int);
        let n = if limit < hits.len() {
            limit
        } else {
            hits.len()
        };
        assert(taken =~= hits@.take(n as int));
        let ghost g = |x: ScriptHit| hit_result(self.manifest.id@, opt_view(self.manifest.icon), x, query@, *history);
        let mut results: Vec<SearchResult> = Vec::new();
        let mut i: usize = 0;
        while i < n
            invariant
                i <= n <= hits@.len(),
                taken == hits@.take(n as int),
                g == (|x: ScriptHit| hit_result(self.manifest.id@, opt_view(self.manifest.icon), x, query@, *history)),
                result_views(results@) == taken.take(i as int).map_values(g),
            decreases n - i,
        {
            let hit = &hits[i];
            let action = match &hit.action {
                Some(a) => a.clone(),
                None => String::from_str("default"),
            };
            let icon = match &hit.icon {
                Some(x) => Some(x.clone()),
                None => clone_opt(&self.manifest.icon),
            };
            let x = build_result(
                make_id(ResultKind::Extension, cat3(self.manifest.id.as_str(), ":", action.as_str()).as_str()),
                ResultKind::Extension,
                hit.title.clone(),
                clone_opt(&hit.subtitle),
                icon,
                750,
                query,
                history,
            );
            let ghost before = result_views(results@);
            results.push(x);
            proof {
                assert(taken[i as int] == *hit);
                assert(result_views(results@) =~= before.push(x@));
                assert(taken.take(i + 1).map_values(g) =~= taken.take(i as int).map_values(g).push(g(taken[i as int])));
            }
            i = i + 1;
        }
        assert(taken.take(i as int) =~= taken);
        results
    }
}

/// The manifests found that are kept: all of them, or the enabled ones.
pub open spec fn kept_manifests(found: Seq<(ExtensionManifest, String)>, include_disabled: bool) -> Seq<(ExtensionManifest, String)> {
    found.filter_map(
        |p: (ExtensionManifest, String)| if include_disabled || p.0.enabled {
            Some(p)
        } else {
            None
        },
    )
}

fn select_manifests(found: Vec<(ExtensionManifest, String)>, include_disabled: bool) -> (r: Vec<(ExtensionManifest, String)>)
    ensures
        r@ == kept_manifests(found@, include_disabled),
{
    let ghost orig = found@;
    let ghost f = |p: (ExtensionManifest, String)| if include_disabled || p.0.enabled {
        Some(p)
    } else {
        None
    };
    let mut rest = found;
    let total = rest.len();
    let mut out: Vec<(ExtensionManifest, String)> = Vec::new();
    let mut n: usize = 0;
    assert(out@ =~= orig.take(0).filter_map(f));
    while rest.len() > 0
        invariant
            n + rest@.len() == orig.len(),
            orig.len() == total,
            rest@ == orig.subrange(n as int, orig.len() as int),
            f == (|p: (ExtensionManifest, String)| if include_disabled || p.0.enabled {
                Some(p)
            } else {
                None
            }),
            out@ == orig.take(n as int).filter_map(f),
        decreases rest.len(),
    {
        let p = rest.remove(0);
        proof {
            assert(orig.take(n + 1).drop_last() =~= orig.take(n as int));
            assert(orig.take(n + 1).last() == p);
            assert(rest@ =~= orig.subrange(n + 1, orig.len() as int));
        }
        if include_disabled || p.0.enabled {
            out.push(p);
        }
        n = n + 1;
    }
    assert(orig.take(n as int) =~= orig);
    out
}

/// Of the manifests found in the extension directories, those of enabled
/// extensions.
pub fn load_user_providers(found: Vec<(ExtensionManifest, String)>) -> (r: Vec<(ExtensionManifest, String)>)
    ensures
        r@ == kept_manifests(found@, false),
{
    select_manifests(found, false)
}

/// All the manifests found in the extension directories.
pub fn load_all_user_extensions(found: Vec<(ExtensionManifest, String)>) -> (r: Vec<(ExtensionManifest, String)>)
    ensures
        r@ == kept_manifests(found@, true),
{
    select_manifests(found, true)
}

/// The directories searched for user extensions: the launcher's
/// `extensions` directory, if known, then each configured directory that is
/// not empty.
pub fn extension_search_dirs(extensions_dir: Option<String>, configured: &Vec<String>) -> (r: Vec<String>)
    ensures
        texts(r@) == (match opt_view(extensions_dir) {
            Some(d) => seq![d],
            None => Seq::empty(),
        }) + texts(configured@).filter_map(|d: Seq<char>| if d.len() > 0 { Some(d) } else { None }),
{
    let mut out: Vec<String> = Vec::new();
    match extensions_dir {
        Some(d) => out.push(d),
        None => {},
    }
    let ghost first = texts(out@);
    let ghost cv = texts(configured@);
    let ghost f = |d: Seq<char>| if d.len() > 0 { Some(d) } else { None };
    let mut i: usize = 0;
    assert(texts(out@) =~= first + cv.take(0).filter_map(f));
    while i < configured.len()
        invariant
            i <= configured@.len(),
            cv == texts(configured@),
            f == (|d: Seq<char>| if d.len() > 0 { Some(d) } else { None }),
            texts(out@) == first + cv.take(i as int).filter_map(f),
        decreases configured.len() - i,
    {
        proof {
            assert(cv.take(i + 1).drop_last() =~= cv.take(i as int));
            assert(cv.take(i + 1).last() == configured@[i as int]@);
        }
        if !configured[i].as_str().is_empty() {
            let ghost before = texts(out@);
            out.push(configured[i].clone());
            assert(texts(out@) =~= before.push(configured@[i as int]@));
        }
        i = i + 1;
    }
    assert(cv.take(i as int) =~= cv);
    out
}

} // verus!
