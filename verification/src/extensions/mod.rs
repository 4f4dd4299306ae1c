//! Extensions: built-in providers and user scripts that add results. Which
//! providers a query reaches, the registry's list, and the root-keyword
//! form of a query are decided here.

pub mod builtin;
pub mod user;

use vstd::prelude::*;
use crate::search::ranking::result_views;
use crate::search::types::SearchResult;
use crate::text::{
    chars_eq, chars_of, contains, eq_ignore_ascii_case, lowercase, opt_view, seq_ascii_lower,
    seq_contains, seq_split_once, seq_starts_with, seq_trim, seq_utf8_len, split_once_char,
    starts_with, str_eq, string_of, to_lowercase, trimmed_chars, utf8_len_below, clone_opt,
};

verus! {

/// The manifest of a user extension.
#[derive(Clone, Debug)]
pub struct ExtensionManifest {
    pub id: String,
    pub title: String,
    pub icon: Option<String>,
    pub keywords: Vec<String>,
    pub permissions: Vec<String>,
    pub enabled: bool,
    pub search_command: Option<String>,
    pub run_command: Option<String>,
}

/// What the registry lists about an extension.
#[derive(Clone, Debug)]
pub struct ExtensionInfo {
    pub id: String,
    pub title: String,
    pub icon: Option<String>,
    pub keywords: Vec<String>,
    pub enabled: bool,
    pub builtin: bool,
}

/// The text of a list of strings.
pub open spec fn texts(v: Seq<String>) -> Seq<Seq<char>> {
    v.map_values(|s: String| s@)
}

fn clone_strings(v: &Vec<String>) -> (r: Vec<String>)
    ensures
        texts(r@) == texts(v@),
{
    let mut out: Vec<String> = Vec::new();
    let mut i: usize = 0;
    while i < v.len()
        invariant
            i <= v@.len(),
            texts(out@) == texts(v@).take(i as int),
        decreases v.len() - i,
    {
        let ghost before = texts(out@);
        out.push(v[i].clone());
        assert(texts(out@) =~= before.push(v@[i as int]@));
        assert(texts(v@).take(i + 1) =~= texts(v@).take(i as int).push(v@[i as int]@));
        i = i + 1;
    }
    assert(texts(v@).take(i as int) =~= texts(v@));
    out
}

/// The root keyword and the rest of a query: the trimmed query split at
/// its first space, when both parts are non-empty; the rest is trimmed.
pub open spec fn root_search(query: Seq<char>) -> Option<(Seq<char>, Seq<char>)> {
    match seq_split_once(seq_trim(query), ' ') {
        Some((kw, rest)) => if kw.len() > 0 && rest.len() > 0 {
            Some((kw, seq_trim(rest)))
        } else {
            None
        },
        None => None,
    }
}

/// The root keyword and the rest of a query (see `root_search`).
pub fn parse_root_search(query: &str) -> (r: Option<(String, String)>)
    ensures
        match r {
            Some((kw, rest)) => root_search(query@) == Some((kw@, rest@)),
            None => root_search(query@) is None,
        },
{
    let q = trimmed_chars(query);
    match split_once_char(q.as_slice(), ' ') {
        Some((kw, rest)) => {
            if kw.len() > 0 && rest.len() > 0 {
                let r = string_of(rest.as_slice());
                Some((string_of(kw.as_slice()), string_of(trimmed_chars(r.as_str()).as_slice())))
            } else {
                None
            }
        },
        None => None,
    }
}

/// What the registry knows of a provider to decide whether a query reaches
/// it.
#[derive(Clone, Debug)]
pub struct ProviderInfo {
    pub id: String,
    pub keywords: Vec<String>,
}

/// Whether a query reaches a provider. With a root keyword: one of its
/// keywords, or its identifier, is that keyword. Otherwise a query shorter
/// than two bytes reaches none; the lowercase query reaches a provider whose
/// identifier it equals in any ASCII case, or one with a keyword whose
/// lowercase form it holds or that begins with it.
pub open spec fn reaches(p_id: Seq<char>, keywords: Seq<Seq<char>>, query: Seq<char>, root: Option<Seq<char>>) -> bool {
    match root {
        Some(kw) => keywords.contains(kw) || p_id == kw,
        None => if seq_utf8_len(query) < 2 {
            false
        } else {
            let q = lowercase(query);
            seq_ascii_lower(p_id) == seq_ascii_lower(q) || exists|k: int|
                0 <= k < keywords.len() && (seq_contains(q, lowercase(#[trigger] keywords[k]))
                    || seq_starts_with(lowercase(keywords[k]), q))
        },
    }
}

/// Whether a query reaches a provider (see `reaches`).
pub fn should_search_provider(provider: &ProviderInfo, query: &str, root_keyword: Option<&str>) -> (r: bool)
    ensures
        r == reaches(provider.id@, texts(provider.keywords@), query@, match root_keyword {
            Some(k) => Some(k@),
            None => None,
        }),
{
    let ghost kws = texts(provider.keywords@);
    match root_keyword {
        Some(kw) => {
            let mut i: usize = 0;
            while i < provider.keywords.len()
                invariant
                    i <= provider.keywords@.len(),
                    kws == texts(provider.keywords@),
                    root_keyword == Some(kw),
                    forall|k: int| 0 <= k < i ==> kws[k] != kw@,
                decreases provider.keywords.len() - i,
            {
                if str_eq(provider.keywords[i].as_str(), kw) {
                    assert(kws[i as int] == kw@);
                    assert(kws.contains(kw@));
                    return true;
                }
                i = i + 1;
            }
            assert(!kws.contains(kw@));
            str_eq(provider.id.as_str(), kw)
        },
        None => {
            if utf8_len_below(chars_of(query).as_slice(), 2) {
                return false;
            }
            let q = chars_of(to_lowercase(query).as_str());
            if eq_ignore_ascii_case(chars_of(provider.id.as_str()).as_slice(), q.as_slice()) {
                return true;
            }
            let mut i: usize = 0;
            while i < provider.keywords.len()
                invariant
                    i <= provider.keywords@.len(),
                    kws == texts(provider.keywords@),
                    q@ == lowercase(query@),
                    root_keyword is None,
                    seq_utf8_len(query@) >= 2,
                    seq_ascii_lower(provider.id@) != seq_ascii_lower(q@),
                    forall|k: int|
                        0 <= k < i ==> !(seq_contains(q@, lowercase(#[trigger] kws[k]))
                            || seq_starts_with(lowercase(kws[k]), q@)),
                decreases provider.keywords.len() - i,
            {
                let kl = chars_of(to_lowercase(provider.keywords[i].as_str()).as_str());
                assert(kws[i as int] == provider.keywords@[i as int]@);
                if contains(q.as_slice(), kl.as_slice()) || starts_with(kl.as_slice(), q.as_slice()) {
                    assert(seq_contains(q@, lowercase(kws[i as int])) || seq_starts_with(
                        lowercase(kws[i as int]),
                        q@,
                    ));
                    return true;
                }
                i = i + 1;
            }
            false
        },
    }
}

/// The registry's providers and the extensions it lists.
pub struct ExtensionRegistry {
    pub providers: Vec<ProviderInfo>,
    pub infos: Vec<ExtensionInfo>,
}

/// A built-in extension as the registry reads it: identifier, title and
/// keywords.
#[derive(Clone, Debug)]
pub struct BuiltinInfo {
    pub id: String,
    pub title: String,
    pub keywords: Vec<String>,
}

/// What the registry lists of a built-in extension.
pub open spec fn builtin_listed(b: BuiltinInfo, disabled: Seq<Seq<char>>) -> (Seq<char>, bool, bool) {
    (b.id@, !disabled.contains(b.id@), true)
}

/// The identifiers of the providers the registry searches, in order:
/// the built-in ones not disabled, then the enabled user extensions.
pub open spec fn enabled_ids(builtins: Seq<BuiltinInfo>, users: Seq<ExtensionManifest>, disabled: Seq<Seq<char>>) -> Seq<Seq<char>> {
    builtins.filter_map(|b: BuiltinInfo| if disabled.contains(b.id@) { None } else { Some(b.id@) })
        + users.filter_map(|m: ExtensionManifest| if m.enabled { Some(m.id@) } else { None })
}

/// The identifiers, enabled flags and origins the registry lists, in
/// order: every built-in extension, then every user extension.
pub open spec fn listed(builtins: Seq<BuiltinInfo>, users: Seq<ExtensionManifest>, disabled: Seq<Seq<char>>) -> Seq<(Seq<char>, bool, bool)> {
    builtins.map_values(|b: BuiltinInfo| builtin_listed(b, disabled)) + users.map_values(
        |m: ExtensionManifest| (m.id@, m.enabled, false),
    )
}

fn contains_text(v: &Vec<String>, s: &str) -> (r: bool)
    ensures
        r == texts(v@).contains(s@),
{
    let ghost tv = texts(v@);
    let mut i: usize = 0;
    while i < v.len()
        invariant
            i <= v@.len(),
            tv == texts(v@),
            forall|k: int| 0 <= k < i ==> tv[k] != s@,
        decreases v.len() - i,
    {
        if str_eq(v[i].as_str(), s) {
            assert(tv[i as int] == s@);
            return true;
        }
        i = i + 1;
    }
    false
}

/// The identifiers of a list of providers.
pub open spec fn provider_ids(v: Seq<ProviderInfo>) -> Seq<Seq<char>> {
    v.map_values(|p: ProviderInfo| p.id@)
}

/// The identifiers, enabled flags and origins of listed extensions.
pub open spec fn info_keys(v: Seq<ExtensionInfo>) -> Seq<(Seq<char>, bool, bool)> {
    v.map_values(|i: ExtensionInfo| (i.id@, i.enabled, i.builtin))
}

impl ExtensionRegistry {
    /// The registry of the built-in extensions (less the disabled ones) and
    /// the user extensions (see `enabled_ids` and `listed`). Built-ins are
    /// listed with the icon "applications-other".
    pub fn new(builtins: Vec<BuiltinInfo>, users: Vec<ExtensionManifest>, disabled: Vec<String>) -> (r: Self)
        ensures
            provider_ids(r.providers@) == enabled_ids(builtins@, users@, texts(disabled@)),
            info_keys(r.infos@) == listed(builtins@, users@, texts(disabled@)),
    {
        let ghost dv = texts(disabled@);
        let ghost fb = |b: BuiltinInfo| if dv.contains(b.id@) { None } else { Some(b.id@) };
        let ghost gb = |b: BuiltinInfo| builtin_listed(b, dv);
        let mut providers: Vec<ProviderInfo> = Vec::new();
        let mut infos: Vec<ExtensionInfo> = Vec::new();
        let mut i: usize = 0;
        assert(provider_ids(providers@) =~= builtins@.take(0).filter_map(fb));
        while i < builtins.len()
            invariant
                i <= builtins@.len(),
                dv == texts(disabled@),
                fb == (|b: BuiltinInfo| if dv.contains(b.id@) { None } else { Some(b.id@) }),
                gb == (|b: BuiltinInfo| builtin_listed(b, dv)),
                provider_ids(providers@) == builtins@.take(i as int).filter_map(fb),
                info_keys(infos@) == builtins@.take(i as int).map_values(gb),
            decreases builtins.len() - i,
        {
            let b = &builtins[i];
            let ghost pb = provider_ids(providers@);
            let ghost ib = info_keys(infos@);
            proof {
                assert(builtins@.take(i + 1).drop_last() =~= builtins@.take(i as int));
                assert(builtins@.take(i + 1).last() == *b);
            }
            let enabled = !contains_text(&disabled, b.id.as_str());
            infos.push(
                ExtensionInfo {
                    id: b.id.clone(),
                    title: b.title.clone(),
                    icon: Some(String::from_str("applications-other")),
                    keywords: clone_strings(&b.keywords),
                    enabled,
                    builtin: true,
                },
            );
            assert(info_keys(infos@) =~= ib.push((b.id@, enabled, true)));
            assert(builtins@.take(i + 1).map_values(gb) =~= builtins@.take(i as int).map_values(gb).push(
                gb(*b),
            ));
            if enabled {
                providers.push(ProviderInfo { id: b.id.clone(), keywords: clone_strings(&b.keywords) });
                assert(provider_ids(providers@) =~= pb.push(b.id@));
            }
            i = i + 1;
        }
        assert(builtins@.take(i as int) =~= builtins@);
        let ghost pb_all = provider_ids(providers@);
        let ghost ib_all = info_keys(infos@);
        let ghost fu = |m: ExtensionManifest| if m.enabled { Some(m.id@) } else { None };
        let ghost gu = |m: ExtensionManifest| (m.id@, m.enabled, false);
        let mut j: usize = 0;
        assert(provider_ids(providers@) =~= pb_all + users@.take(0).filter_map(fu));
        assert(info_keys(infos@) =~= ib_all + users@.take(0).map_values(gu));
        while j < users.len()
            invariant
                j <= users@.len(),
                fu == (|m: ExtensionManifest| if m.enabled { Some(m.id@) } else { None }),
                gu == (|m: ExtensionManifest| (m.id@, m.enabled, false)),
                provider_ids(providers@) == pb_all + users@.take(j as int).filter_map(fu),
                info_keys(infos@) == ib_all + users@.take(j as int).map_values(gu),
            decreases users.len() - j,
        {
            let m = &users[j];
            let ghost pb = provider_ids(providers@);
            let ghost ib = info_keys(infos@);
            proof {
                assert(users@.take(j + 1).drop_last() =~= users@.take(j as int));
                assert(users@.take(j + 1).last() == *m);
            }
            infos.push(
                ExtensionInfo {
                    id: m.id.clone(),
                    title: m.title.clone(),
                    icon: clone_opt(&m.icon),
                    keywords: clone_strings(&m.keywords),
                    enabled: m.enabled,
                    builtin: false,
                },
            );
            assert(info_keys(infos@) =~= ib.push((m.id@, m.enabled, false)));
            assert(users@.take(j + 1).map_values(gu) =~= users@.take(j as int).map_values(gu).push(gu(*m)));
            if m.enabled {
                providers.push(ProviderInfo { id: m.id.clone(), keywords: clone_strings(&m.keywords) });
                assert(provider_ids(providers@) =~= pb.push(m.id@));
            }
            j = j + 1;
        }
        assert(users@.take(j as int) =~= users@);
        ExtensionRegistry { providers, infos }
    }

    /// The positions of the providers `query` reaches, in order.
    pub fn providers_for(&self, query: &str, root_keyword: Option<&str>) -> (r: Vec<usize>)
        ensures
            forall|k: int| 0 <= k < r@.len() ==> r@[k] < self.providers@.len(),
            forall|k: int, l: int| 0 <= k < l < r@.len() ==> r@[k] < r@[l],
            forall|p: int|
                0 <= p < self.providers@.len() ==> (r@.contains(p as usize) <==> reaches(
                    self.providers@[p].id@,
                    texts(self.providers@[p].keywords@),
                    query@,
                    match root_keyword {
                        Some(k) => Some(k@),
                        None => None,
                    },
                )),
    {
        let ghost root = match root_keyword {
            Some(k) => Some(k@),
            None => None::<Seq<char>>,
        };
        let mut out: Vec<usize> = Vec::new();
        let mut i: usize = 0;
        while i < self.providers.len()
            invariant
                i <= self.providers@.len(),
                root == match root_keyword {
                    Some(k) => Some(k@),
                    None => None,
                },
                forall|k: int| 0 <= k < out@.len() ==> out@[k] < i,
                forall|k: int, l: int| 0 <= k < l < out@.len() ==> out@[k] < out@[l],
                forall|p: int|
                    0 <= p < i ==> (out@.contains(p as usize) <==> reaches(
                        self.providers@[p].id@,
                        texts(self.providers@[p].keywords@),
                        query@,
                        root,
                    )),
            decreases self.providers.len() - i,
        {
            let ghost before = out@;
            if should_search_provider(&self.providers[i], query, root_keyword) {
                out.push(i);
                assert(out@ == before.push(i));
                assert forall|p: int| 0 <= p < i + 1 implies (out@.contains(p as usize) <==> reaches(
                    self.providers@[p].id@,
                    texts(self.providers@[p].keywords@),
                    query@,
                    root,
                )) by {
                    if p < i {
                        if before.contains(p as usize) {
                            let w = choose|w: int| 0 <= w < before.len() && before[w] == p as usize;
                            assert(out@[w] == p as usize);
                        }
                        if out@.contains(p as usize) {
                            let w = choose|w: int| 0 <= w < out@.len() && out@[w] == p as usize;
                            assert(w < before.len());
                            assert(before[w] == p as usize);
                        }
                    } else {
                        assert(out@[before.len() as int] == i);
                    }
                }
            } else {
                assert forall|p: int| 0 <= p < i + 1 implies (out@.contains(p as usize) <==> reaches(
                    self.providers@[p].id@,
                    texts(self.providers@[p].keywords@),
                    query@,
                    root,
                )) by {
                    if p == i {
                        if out@.contains(p as usize) {
                            let w = choose|w: int| 0 <= w < out@.len() && out@[w] == p as usize;
                            assert(out@[w] < i);
                        }
                    }
                }
            }
            i = i + 1;
        }
        out
    }

    /// The position of the provider with identifier `extension_id`, or the
    /// error "Extensão não encontrada".
    pub fn provider_position(&self, extension_id: &str) -> (r: Result<usize, String>)
        ensures
            match r {
                Ok(i) => i < self.providers@.len() && self.providers@[i as int].id@ == extension_id@
                    && forall|k: int| 0 <= k < i ==> self.providers@[k].id@ != extension_id@,
                Err(e) => e@ == "Extensão não encontrada"@ && forall|k: int|
                    0 <= k < self.providers@.len() ==> self.providers@[k].id@ != extension_id@,
            },
    {
        let mut i: usize = 0;
        while i < self.providers.len()
            invariant
                i <= self.providers@.len(),
                forall|k: int| 0 <= k < i ==> self.providers@[k].id@ != extension_id@,
            decreases self.providers.len() - i,
        {
            if str_eq(self.providers[i].id.as_str(), extension_id) {
                return Ok(i);
            }
            i = i + 1;
        }
        Err(String::from_str("Extensão não encontrada"))
    }
}

/// The results of the providers a query reached, one after another, at most
/// `limit`.
pub fn merge_results(per_provider: Vec<Vec<SearchResult>>, limit: usize) -> (r: Vec<SearchResult>)
    ensures
        result_views(r@) == crate::search::ranking::take_at_most(
            per_provider@.map_values(|v: Vec<SearchResult>| result_views(v@)).flatten(),
            limit as int,
        ),
{
    let ghost groups = per_provider@.map_values(|v: Vec<SearchResult>| result_views(v@));
    let mut all: Vec<SearchResult> = Vec::new();
    let mut rest = per_provider;
    let ghost orig = rest@;
    let total = rest.len();
    let mut n: usize = 0;
    assert(groups.take(0).flatten() =~= Seq::<crate::search::ranking::ResultView>::empty());
    assert(result_views(all@) =~= Seq::<crate::search::ranking::ResultView>::empty());
    while rest.len() > 0
        invariant
            n + rest@.len() == orig.len(),
            orig.len() == total,
            rest@ == orig.subrange(n as int, orig.len() as int),
            groups == orig.map_values(|v: Vec<SearchResult>| result_views(v@)),
            result_views(all@) == groups.take(n as int).flatten(),
        decreases rest.len(),
    {
        let mut g = rest.remove(0);
        let ghost gv = result_views(g@);
        assert(gv == groups[n as int]);
        let ghost before = result_views(all@);
        all.append(&mut g);
        proof {
            assert(result_views(all@) =~= before + gv);
            assert(groups.take(n + 1).drop_last() =~= groups.take(n as int));
            groups.take(n as int).lemma_flatten_push(gv);
            assert(groups.take(n as int).push(gv) =~= groups.take(n + 1));
            assert(rest@ =~= orig.subrange(n + 1, orig.len() as int));
        }
        n = n + 1;
    }
    assert(groups.take(n as int) =~= groups);
    all.truncate(limit);
    all
}

/// Of a search's extension results, those that are no calculator result
/// (kept when the quick answer already shows the calculation).
pub fn without_calculator(results: Vec<SearchResult>) -> (r: Vec<SearchResult>)
    ensures
        result_views(r@) == result_views(results@).filter_map(
            |x: crate::search::ranking::ResultView| if seq_starts_with(x.id, "extension:calc:"@) {
                None
            } else {
                Some(x)
            },
        ),
{
    let ghost rv = result_views(results@);
    let ghost f = |x: crate::search::ranking::ResultView| if seq_starts_with(x.id, "extension:calc:"@) {
        None
    } else {
        Some(x)
    };
    let mut out: Vec<SearchResult> = Vec::new();
    let mut rest = results;
    let ghost orig = rest@;
    let total = rest.len();
    let mut n: usize = 0;
    assert(result_views(out@) =~= rv.take(0).filter_map(f));
    while rest.len() > 0
        invariant
            n + rest@.len() == orig.len(),
            orig.len() == total,
            rest@ == orig.subrange(n as int, orig.len() as int),
            rv == result_views(orig),
            f == (|x: crate::search::ranking::ResultView| if seq_starts_with(x.id, "extension:calc:"@) {
                None
            } else {
                Some(x)
            }),
            result_views(out@) == rv.take(n as int).filter_map(f),
        decreases rest.len(),
    {
        let x = rest.remove(0);
        proof {
            assert(rv.take(n + 1).drop_last() =~= rv.take(n as int));
            assert(rv.take(n + 1).last() == x@);
            assert(rest@ =~= orig.subrange(n + 1, orig.len() as int));
        }
        let ghost before = result_views(out@);
        if !starts_with(chars_of(x.id.as_str()).as_slice(), chars_of("extension:calc:").as_slice()) {
            out.push(x);
            assert(result_views(out@) =~= before.push(out@.last()@));
        }
        n = n + 1;
    }
    assert(rv.take(n as int) =~= rv);
    out
}

/// Keeps an identifier other than `id`.
pub open spec fn other_than(id: Seq<char>) -> spec_fn(Seq<char>) -> Option<Seq<char>> {
    |x: Seq<char>| if x == id { None } else { Some(x) }
}

/// The disabled built-ins after enabling (`true`) or disabling one: an
/// enabled one leaves the list; a disabled one joins it unless already
/// there.
pub open spec fn disabled_after(list: Seq<Seq<char>>, id: Seq<char>, enabled: bool) -> Seq<Seq<char>> {
    if enabled {
        list.filter_map(other_than(id))
    } else if list.contains(id) {
        list
    } else {
        list.push(id)
    }
}

/// Enabling a built-in takes it off the disabled list entirely and keeps
/// the others in order; disabling one puts it on the list, once; and
/// disabling then enabling an extension that was not disabled gives the
/// list back as it was.
pub proof fn lemma_enable_disable(list: Seq<Seq<char>>, id: Seq<char>)
    ensures
        !disabled_after(list, id, true).contains(id),
        disabled_after(list, id, false).contains(id),
        list.no_duplicates() ==> disabled_after(list, id, false).no_duplicates(),
        !list.contains(id) ==> disabled_after(disabled_after(list, id, false), id, true) == list,
{
    let f = other_than(id);
    lemma_filter_out_absent(list, id);
    if !list.contains(id) {
        let l2 = list.push(id);
        assert(l2.drop_last() =~= list);
        assert(l2.filter_map(f) == list.filter_map(f));
        lemma_filter_out_keeps(list, id);
    }
    let l3 = disabled_after(list, id, false);
    if list.no_duplicates() && !list.contains(id) {
        assert forall|i: int, j: int| 0 <= i < l3.len() && 0 <= j < l3.len() && i != j implies l3[i] != l3[j] by {
            if i < list.len() && j < list.len() {
            } else if i < list.len() {
                assert(list.contains(list[i]));
            } else {
                assert(list.contains(list[j]));
            }
        }
    }
    if !list.contains(id) {
        assert(l3[list.len() as int] == id);
    }
}

proof fn lemma_filter_out_absent(list: Seq<Seq<char>>, id: Seq<char>)
    ensures
        !list.filter_map(other_than(id)).contains(id),
    decreases list.len(),
{
    let f = other_than(id);
    if list.len() > 0 {
        lemma_filter_out_absent(list.drop_last(), id);
        let rest = list.drop_last().filter_map(f);
        if list.last() != id {
            assert forall|k: int| 0 <= k < rest.len() + 1 implies (rest + seq![list.last()])[k] != id by {
                if k < rest.len() {
                    assert((rest + seq![list.last()])[k] == rest[k]);
                    assert(rest.contains(rest[k]));
                }
            }
        }
    }
}

proof fn lemma_filter_out_keeps(list: Seq<Seq<char>>, id: Seq<char>)
    requires
        !list.contains(id),
    ensures
        list.filter_map(other_than(id)) == list,
    decreases list.len(),
{
    let f = other_than(id);
    if list.len() > 0 {
        assert(!list.drop_last().contains(id)) by {
            if list.drop_last().contains(id) {
                let k = choose|k: int| 0 <= k < list.drop_last().len() && list.drop_last()[k] == id;
                assert(list[k] == id);
            }
        }
        lemma_filter_out_keeps(list.drop_last(), id);
        assert(list.last() != id) by {
            assert(list[list.len() - 1] == list.last());
        }
        assert(list.drop_last().push(list.last()) =~= list);
    }
}

/// The disabled built-ins after enabling or disabling `id` (see
/// `disabled_after`).
pub fn set_builtin_enabled(list: Vec<String>, id: &str, enabled: bool) -> (r: Vec<String>)
    ensures
        texts(r@) == disabled_after(texts(list@), id@, enabled),
{
    if enabled {
        let ghost lv = texts(list@);
        let ghost f = other_than(id@);
        let mut out: Vec<String> = Vec::new();
        let mut i: usize = 0;
        assert(texts(out@) =~= lv.take(0).filter_map(f));
        while i < list.len()
            invariant
                i <= list@.len(),
                lv == texts(list@),
                f == other_than(id@),
                texts(out@) == lv.take(i as int).filter_map(f),
            decreases list.len() - i,
        {
            proof {
                assert(lv.take(i + 1).drop_last() =~= lv.take(i as int));
                assert(lv.take(i + 1).last() == list@[i as int]@);
            }
            let ghost before = texts(out@);
            if !str_eq(list[i].as_str(), id) {
                out.push(list[i].clone());
                assert(texts(out@) =~= before.push(list@[i as int]@));
            }
            i = i + 1;
        }
        assert(lv.take(i as int) =~= lv);
        out
    } else if contains_text(&list, id) {
        list
    } else {
        let mut l = list;
        let ghost before = texts(l@);
        l.push(String::from_str(id));
        assert(texts(l@) =~= before.push(id@));
        l
    }
}

/// Everything the registry lists of an extension.
pub open spec fn info_full(i: ExtensionInfo) -> (Seq<char>, Seq<char>, Option<Seq<char>>, Seq<Seq<char>>, bool, bool) {
    (i.id@, i.title@, opt_view(i.icon), texts(i.keywords@), i.enabled, i.builtin)
}

fn copy_info(i: &ExtensionInfo) -> (r: ExtensionInfo)
    ensures
        info_full(r) == info_full(*i),
{
    ExtensionInfo {
        id: i.id.clone(),
        title: i.title.clone(),
        icon: clone_opt(&i.icon),
        keywords: clone_strings(&i.keywords),
        enabled: i.enabled,
        builtin: i.builtin,
    }
}

/// Whether a built-in extension with identifier `id` is listed.
pub open spec fn lists_builtin(infos: Seq<ExtensionInfo>, id: Seq<char>) -> bool {
    exists|k: int| 0 <= k < infos.len() && #[trigger] infos[k].builtin && infos[k].id@ == id
}

impl ExtensionRegistry {
    /// The extensions the registry lists, in its order.
    pub fn list(&self) -> (r: Vec<ExtensionInfo>)
        ensures
            r@.len() == self.infos@.len(),
            forall|k: int| 0 <= k < r@.len() ==> info_full(#[trigger] r@[k]) == info_full(self.infos@[k]),
    {
        let mut out: Vec<ExtensionInfo> = Vec::new();
        let mut i: usize = 0;
        while i < self.infos.len()
            invariant
                i <= self.infos@.len(),
                out@.len() == i,
                forall|k: int| 0 <= k < i ==> info_full(#[trigger] out@[k]) == info_full(self.infos@[k]),
            decreases self.infos.len() - i,
        {
            out.push(copy_info(&self.infos[i]));
            i = i + 1;
        }
        out
    }

    /// Enabling or disabling an extension. For a listed built-in one, the
    /// configuration's new list of disabled built-ins (see
    /// `disabled_after`); for any other, `None`: the user extension's own
    /// manifest is the one to change. The registry is built again after
    /// either.
    pub fn set_enabled(&self, id: &str, enabled: bool, disabled: Vec<String>) -> (r: Option<Vec<String>>)
        ensures
            lists_builtin(self.infos@, id@) ==> (r matches Some(l) && texts(l@) == disabled_after(
                texts(disabled@),
                id@,
                enabled,
            )),
            !lists_builtin(self.infos@, id@) ==> r is None,
    {
        let mut i: usize = 0;
        while i < self.infos.len()
            invariant
                i <= self.infos@.len(),
                forall|k: int| 0 <= k < i ==> !(#[trigger] self.infos@[k].builtin && self.infos@[k].id@ == id@),
            decreases self.infos.len() - i,
        {
            if self.infos[i].builtin && str_eq(self.infos[i].id.as_str(), id) {
                return Some(set_builtin_enabled(disabled, id, enabled));
            }
            i = i + 1;
        }
        None
    }
}

/// The manifests of the enabled user extensions found.
pub fn load_user_manifests(found: Vec<(ExtensionManifest, String)>) -> (r: Vec<ExtensionManifest>)
    ensures
        r@ == user::kept_manifests(found@, false).map_values(|p: (ExtensionManifest, String)| p.0),
{
    let kept = user::load_user_providers(found);
    let ghost kv = kept@;
    let mut rest = kept;
    let total = rest.len();
    let mut out: Vec<ExtensionManifest> = Vec::new();
    let mut n: usize = 0;
    while rest.len() > 0
        invariant
            n + rest@.len() == kv.len(),
            kv.len() == total,
            rest@ == kv.subrange(n as int, kv.len() as int),
            out@ == kv.take(n as int).map_values(|p: (ExtensionManifest, String)| p.0),
        decreases rest.len(),
    {
        let p = rest.remove(0);
        proof {
            assert(kv[n as int] == p);
            assert(rest@ =~= kv.subrange(n + 1, kv.len() as int));
            assert(kv.take(n + 1).map_values(|p: (ExtensionManifest, String)| p.0) =~= kv.take(n as int).map_values(
                |p: (ExtensionManifest, String)| p.0,
            ).push(p.0));
        }
        out.push(p.0);
        n = n + 1;
    }
    assert(kv.take(n as int) =~= kv);
    out
}

} // verus!
