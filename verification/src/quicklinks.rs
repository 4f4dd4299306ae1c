//! Quicklinks: keywords that open a URL, with the rest of the query filled
//! into the URL's `{query}` placeholder.

use vstd::prelude::*;
use crate::matchers::{fuzzy_score, skim_score};
use crate::search::ranking::{
    build_result, result_views, scored_view, sort_by_score, sort_results, take_at_most,
    HistoryStats, ResultView,
};
use crate::search::types::{make_id, result_id, ResultKind, SearchResult};
use crate::text::{
    cat, cat5, chars_eq, chars_of, clone_opt, opt_or, opt_view, replace_all, seq_replace,
    seq_starts_with, seq_trim, starts_with, string_of, trimmed_chars, trim_bounds, slice_chars,
};

verus! {

/// A quicklink as the quicklinks file declares it.
#[derive(Debug, Clone)]
pub struct QuicklinkEntry {
    pub keyword: String,
    pub title: String,
    pub url: String,
    pub icon: Option<String>,
    pub alias: Option<String>,
}

/// The loaded quicklinks.
pub struct QuicklinksIndex {
    pub entries: Vec<QuicklinkEntry>,
}

impl QuicklinkEntry {
    /// A copy of the entry.
    pub fn duplicate(&self) -> (r: Self)
        ensures
            r == *self,
    {
        QuicklinkEntry {
            keyword: self.keyword.clone(),
            title: self.title.clone(),
            url: self.url.clone(),
            icon: clone_opt(&self.icon),
            alias: clone_opt(&self.alias),
        }
    }
}

/// The trigger of an entry: its keyword without surrounding whitespace.
pub open spec fn trigger_of(e: QuicklinkEntry) -> Seq<char> {
    seq_trim(e.keyword@)
}

/// The alias of an entry, or its trigger.
pub open spec fn alias_of(e: QuicklinkEntry) -> Seq<char> {
    match e.alias {
        Some(a) => a@,
        None => trigger_of(e),
    }
}

/// The icon shown for an entry.
pub open spec fn icon_of(e: QuicklinkEntry) -> Option<Seq<char>> {
    Some(
        match e.icon {
            Some(i) => i@,
            None => "web-browser"@,
        },
    )
}

/// The result an entry gives for the (trimmed) query `q`: a direct hit when
/// `q` starts with the trigger or the alias (its title then carries the rest
/// of the query), else a fuzzy match of title, trigger and alias.
pub open spec fn quicklink_hit(e: QuicklinkEntry, q: Seq<char>, h: HistoryStats) -> Option<
    ResultView,
> {
    let trigger = trigger_of(e);
    let alias = alias_of(e);
    let id = result_id(ResultKind::Quicklink, e.keyword@);
    if seq_starts_with(q, trigger) || seq_starts_with(q, alias) {
        let rest = seq_trim(
            if seq_starts_with(q, trigger) {
                q.subrange(trigger.len() as int, q.len() as int)
            } else {
                q.subrange(alias.len() as int, q.len() as int)
            },
        );
        let title = if rest.len() == 0 {
            e.title@
        } else {
            e.title@ + " — "@ + rest
        };
        Some(
            scored_view(
                id,
                ResultKind::Quicklink,
                title,
                Some(e.url@),
                icon_of(e),
                2000,
                q,
                h,
            ),
        )
    } else {
        match skim_score(e.title@ + " "@ + trigger + " "@ + alias, q) {
            Some(score) => Some(
                scored_view(
                    id,
                    ResultKind::Quicklink,
                    e.title@,
                    Some(trigger + " → URL"@),
                    icon_of(e),
                    score,
                    q,
                    h,
                ),
            ),
            None => None,
        }
    }
}

/// The results of a search over `entries`.
pub open spec fn quicklink_results(
    entries: Seq<QuicklinkEntry>,
    query: Seq<char>,
    h: HistoryStats,
    limit: int,
) -> Seq<ResultView> {
    let q = seq_trim(query);
    if q.len() == 0 {
        Seq::empty()
    } else {
        take_at_most(
            sort_by_score(entries.filter_map(|e: QuicklinkEntry| quicklink_hit(e, q, h))),
            limit,
        )
    }
}

/// The first entry whose keyword is `keyword`.
pub open spec fn entry_with_keyword(entries: Seq<QuicklinkEntry>, keyword: Seq<char>) -> Option<
    QuicklinkEntry,
>
    decreases entries.len(),
{
    if entries.len() == 0 {
        None
    } else if entries[0].keyword@ == keyword {
        Some(entries[0])
    } else {
        entry_with_keyword(entries.drop_first(), keyword)
    }
}

/// The URL a quicklink opens for `query`: the query without the keyword (or
/// else the alias), trimmed, spaces turned into `+`, put in place of every
/// `{query}` of the URL.
pub open spec fn resolved_url(e: QuicklinkEntry, query: Seq<char>) -> Seq<char> {
    let rest0 = if seq_starts_with(query, e.keyword@) {
        query.subrange(e.keyword@.len() as int, query.len() as int)
    } else {
        match e.alias {
            Some(a) => if seq_starts_with(query, a@) {
                query.subrange(a@.len() as int, query.len() as int)
            } else {
                query
            },
            None => query,
        }
    };
    let encoded = seq_trim(rest0).map_values(|c: char| if c == ' ' { '+' } else { c });
    seq_replace(e.url@, "{query}"@, encoded)
}

/// The result of `e` for the trimmed query `q`.
fn hit(e: &QuicklinkEntry, q: &str, history: &HistoryStats) -> (r: Option<SearchResult>)
    ensures
        match r {
            Some(x) => quicklink_hit(*e, q@, *history) == Some(x@),
            None => quicklink_hit(*e, q@, *history) is None,
        },
{
    let qv = chars_of(q);
    let trigger_v = trimmed_chars(e.keyword.as_str());
    let trigger = string_of(trigger_v.as_slice());
    let alias = match &e.alias {
        Some(a) => a.clone(),
        None => trigger.clone(),
    };
    let alias_v = chars_of(alias.as_str());
    let id = make_id(ResultKind::Quicklink, e.keyword.as_str());
    let icon = opt_or(&e.icon, "web-browser");
    let on_trigger = starts_with(qv.as_slice(), trigger_v.as_slice());
    if on_trigger || starts_with(qv.as_slice(), alias_v.as_slice()) {
        let skip = if on_trigger {
            trigger_v.len()
        } else {
            alias_v.len()
        };
        let rest0 = slice_chars(qv.as_slice(), skip, qv.len());
        let (a, b) = trim_bounds(rest0.as_slice());
        let title = if a == b {
            e.title.clone()
        } else {
            let rest = string_of(slice_chars(rest0.as_slice(), a, b).as_slice());
            cat(cat(e.title.as_str(), " — ").as_str(), rest.as_str())
        };
        Some(
            build_result(
                id,
                ResultKind::Quicklink,
                title,
                Some(e.url.clone()),
                icon,
                2000,
                q,
                history,
            ),
        )
    } else {
        let hay = cat5(e.title.as_str(), " ", trigger.as_str(), " ", alias.as_str());
        match fuzzy_score(hay.as_str(), q) {
            Some(score) => Some(
                build_result(
                    id,
                    ResultKind::Quicklink,
                    e.title.clone(),
                    Some(cat(trigger.as_str(), " → URL")),
                    icon,
                    score,
                    q,
                    history,
                ),
            ),
            None => None,
        }
    }
}

impl QuicklinksIndex {
    /// An index over the given entries.
    pub fn new(entries: Vec<QuicklinkEntry>) -> (r: Self)
        ensures
            r.entries == entries,
    {
        QuicklinksIndex { entries }
    }

    /// Replaces the entries with a freshly loaded set.
    pub fn reload(&mut self, entries: Vec<QuicklinkEntry>)
        ensures
            final(self).entries == entries,
    {
        self.entries = entries;
    }

    /// The quicklinks matching `query`, best first, at most `limit`.
    pub fn search(&self, query: &str, history: &HistoryStats, limit: usize) -> (r: Vec<
        SearchResult,
    >)
        ensures
            result_views(r@) == quicklink_results(self.entries@, query@, *history, limit as int),
    {
        let qv = trimmed_chars(query);
        if qv.len() == 0 {
            let r: Vec<SearchResult> = Vec::new();
            assert(result_views(r@) =~= Seq::<ResultView>::empty());
            return r;
        }
        let q = string_of(qv.as_slice());
        let ghost f = |e: QuicklinkEntry| quicklink_hit(e, q@, *history);
        let mut results: Vec<SearchResult> = Vec::new();
        let mut i: usize = 0;
        assert(result_views(results@) =~= self.entries@.take(0).filter_map(f));
        while i < self.entries.len()
            invariant
                i <= self.entries@.len(),
                q@ == seq_trim(query@),
                f == (|e: QuicklinkEntry| quicklink_hit(e, q@, *history)),
                result_views(results@) == self.entries@.take(i as int).filter_map(f),
            decreases self.entries.len() - i,
        {
            let ghost before = results@;
            proof {
                assert(self.entries@.take(i + 1).drop_last() =~= self.entries@.take(i as int));
                assert(self.entries@.take(i + 1).last() == self.entries@[i as int]);
            }
            match hit(&self.entries[i], q.as_str(), history) {
                Some(x) => {
                    results.push(x);
                    assert(result_views(results@) =~= result_views(before) + seq![x@]);
                },
                None => {},
            }
            i = i + 1;
        }
        assert(self.entries@.take(i as int) =~= self.entries@);
        sort_results(&mut results);
        results.truncate(limit);
        results
    }

    /// The position of the first entry with keyword `keyword`.
    fn position(&self, keyword: &str) -> (r: Option<usize>)
        ensures
            match r {
                Some(i) => i < self.entries@.len() && entry_with_keyword(self.entries@, keyword@)
                    == Some(self.entries@[i as int]),
                None => entry_with_keyword(self.entries@, keyword@) is None,
            },
    {
        let key = chars_of(keyword);
        let mut i: usize = 0;
        assert(self.entries@.subrange(0, self.entries@.len() as int) =~= self.entries@);
        while i < self.entries.len()
            invariant
                i <= self.entries@.len(),
                key@ == keyword@,
                entry_with_keyword(self.entries@, keyword@) == entry_with_keyword(
                    self.entries@.subrange(i as int, self.entries@.len() as int),
                    keyword@,
                ),
            decreases self.entries.len() - i,
        {
            let ghost rest = self.entries@.subrange(i as int, self.entries@.len() as int);
            let cand = chars_of(self.entries[i].keyword.as_str());
            if chars_eq(cand.as_slice(), key.as_slice()) {
                return Some(i);
            }
            assert(rest.drop_first() =~= self.entries@.subrange(
                i + 1,
                self.entries@.len() as int,
            ));
            i = i + 1;
        }
        None
    }

    /// The URL the quicklink with keyword `keyword` opens for `query`.
    pub fn resolve_url(&self, keyword: &str, query: &str) -> (r: Option<String>)
        ensures
            match entry_with_keyword(self.entries@, keyword@) {
                Some(e) => opt_view(r) == Some(resolved_url(e, query@)),
                None => r is None,
            },
    {
        let i = match self.position(keyword) {
            Some(i) => i,
            None => return None,
        };
        let e = &self.entries[i];
        let qv = chars_of(query);
        let kv = chars_of(e.keyword.as_str());
        let rest0 = if starts_with(qv.as_slice(), kv.as_slice()) {
            slice_chars(qv.as_slice(), kv.len(), qv.len())
        } else {
            match &e.alias {
                Some(a) => {
                    let av = chars_of(a.as_str());
                    if starts_with(qv.as_slice(), av.as_slice()) {
                        slice_chars(qv.as_slice(), av.len(), qv.len())
                    } else {
                        qv
                    }
                },
                None => qv,
            }
        };
        let (a, b) = trim_bounds(rest0.as_slice());
        let mut encoded: Vec<char> = Vec::new();
        let mut k = a;
        while k < b
            invariant
                a <= k <= b <= rest0@.len(),
                encoded@ == rest0@.subrange(a as int, k as int).map_values(
                    |c: char|
                        if c == ' ' {
                            '+'
                        } else {
                            c
                        },
                ),
            decreases b - k,
        {
            let c = rest0[k];
            encoded.push(
                if c == ' ' {
                    '+'
                } else {
                    c
                },
            );
            assert(rest0@.subrange(a as int, k + 1) =~= rest0@.subrange(a as int, k as int).push(
                c,
            ));
            k = k + 1;
        }
        let url = chars_of(e.url.as_str());
        let pat = chars_of("{query}");
        proof {
            reveal_strlit("{query}");
        }
        let out = replace_all(url.as_slice(), pat.as_slice(), encoded.as_slice());
        Some(string_of(out.as_slice()))
    }

    /// A copy of the quicklink with keyword `keyword`.
    pub fn get(&self, keyword: &str) -> (r: Option<QuicklinkEntry>)
        ensures
            r == entry_with_keyword(self.entries@, keyword@),
    {
        match self.position(keyword) {
            Some(i) => Some(self.entries[i].duplicate()),
            None => None,
        }
    }
}

/// The quicklinks written to a fresh quicklinks file.
pub fn default_entries() -> (r: Vec<QuicklinkEntry>)
    ensures
        r@.len() == 2,
        r@[0].keyword@ == "!g"@,
        r@[0].title@ == "Pesquisar no Google"@,
        r@[0].url@ == "https://www.google.com/search?q={query}"@,
        opt_view(r@[0].icon) == Some("web-browser"@),
        r@[0].alias is None,
        r@[1].keyword@ == "!yt"@,
        r@[1].title@ == "Pesquisar no YouTube"@,
        r@[1].url@ == "https://www.youtube.com/results?search_query={query}"@,
        opt_view(r@[1].icon) == Some("youtube"@),
        r@[1].alias is None,
{
    let mut v = Vec::new();
    v.push(
        QuicklinkEntry {
            keyword: String::from_str("!g"),
            title: String::from_str("Pesquisar no Google"),
            url: String::from_str("https://www.google.com/search?q={query}"),
            icon: Some(String::from_str("web-browser")),
            alias: None,
        },
    );
    v.push(
        QuicklinkEntry {
            keyword: String::from_str("!yt"),
            title: String::from_str("Pesquisar no YouTube"),
            url: String::from_str("https://www.youtube.com/results?search_query={query}"),
            icon: Some(String::from_str("youtube")),
            alias: None,
        },
    );
    v
}

} // verus!
