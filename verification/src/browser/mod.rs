//! Browser bookmarks and history: the entries gathered from the browsers'
//! databases, kept most-visited first and searched by title, domain and URL.

pub mod chromium;
pub mod firefox;

use vstd::prelude::*;
use crate::matchers::{fuzzy_score, skim_score};
use crate::order::{lemma_sort_desc_map, lemma_sort_desc_member, map_item, sort_by_key_desc, sort_desc};
use crate::search::ranking::{
    build_result, result_views, scored_view, take_at_most, HistoryStats, ResultView,
};
use crate::search::types::{ResultKind, SearchResult};
use crate::text::{
    cat, cat3, cat5, chars_eq, chars_of, clone_opt, contains, find, lowercase, opt_view,
    seq_contains, seq_find_char, seq_find_sub, seq_trim, seq_utf8_len, slice_chars, string_of,
    to_lowercase, trimmed_chars, utf8_len_below, find_char_from, lemma_find_sub_found,
    lemma_find_sub_none, occurs_at,
};

verus! {

/// How many history entries are read from each browser.
pub const HISTORY_PER_BROWSER: usize = 500;

/// Queries shorter than this many bytes search no browser data.
pub const MIN_QUERY_LEN: usize = 3;

/// At most this many matching entries of a kind are scored.
pub const MAX_FUZZY_EVALS: usize = 200;

/// At most this many entries are kept after a refresh.
pub const MAX_ENTRIES: usize = 3000;

/// Bookmark or history entry.
#[derive(Clone, Copy, Debug, PartialEq, Eq, Structural)]
pub enum BrowserEntryKind {
    Bookmark,
    History,
}

/// A bookmark or history entry, with the text the search reads: the URL's
/// domain, the lowercase title, and "title domain url" in lowercase.
#[derive(Clone, Debug)]
pub struct BrowserEntry {
    pub id: String,
    pub kind: BrowserEntryKind,
    pub title: String,
    pub url: String,
    pub source: String,
    pub visit_count: i64,
    domain: String,
    title_lower: String,
    haystack: String,
}

/// The text of an entry's fields.
pub struct BrowserView {
    pub id: Seq<char>,
    pub kind: BrowserEntryKind,
    pub title: Seq<char>,
    pub url: Seq<char>,
    pub source: Seq<char>,
    pub visit_count: i64,
    pub domain: Seq<char>,
    pub title_lower: Seq<char>,
    pub haystack: Seq<char>,
}

impl View for BrowserEntry {
    type V = BrowserView;

    closed spec fn view(&self) -> BrowserView {
        BrowserView {
            id: self.id@,
            kind: self.kind,
            title: self.title@,
            url: self.url@,
            source: self.source@,
            visit_count: self.visit_count,
            domain: self.domain@,
            title_lower: self.title_lower@,
            haystack: self.haystack@,
        }
    }
}

/// The views of a sequence of entries.
pub open spec fn browser_views(s: Seq<BrowserEntry>) -> Seq<BrowserView> {
    s.map_values(|e: BrowserEntry| e@)
}

impl BrowserEntry {
    /// A copy of the entry.
    pub fn duplicate(&self) -> (r: Self)
        ensures
            r@ == self@,
    {
        BrowserEntry {
            id: self.id.clone(),
            kind: self.kind,
            title: self.title.clone(),
            url: self.url.clone(),
            source: self.source.clone(),
            visit_count: self.visit_count,
            domain: self.domain.clone(),
            title_lower: self.title_lower.clone(),
            haystack: self.haystack.clone(),
        }
    }

    /// The entry's title.
    pub fn title(&self) -> (r: &str)
        ensures
            r@ == self@.title,
    {
        self.title.as_str()
    }

    /// The entry's URL.
    pub fn url(&self) -> (r: &str)
        ensures
            r@ == self@.url,
    {
        self.url.as_str()
    }

    /// The browser the entry comes from.
    pub fn source(&self) -> (r: &str)
        ensures
            r@ == self@.source,
    {
        self.source.as_str()
    }

    /// The URL's domain.
    pub fn domain(&self) -> (r: &str)
        ensures
            r@ == self@.domain,
    {
        self.domain.as_str()
    }
}

/// The domain of a URL: the text after the first `//` (the whole URL when
/// it has none) up to its first `/`. This is what
/// `url.split("//").nth(1).unwrap_or(url).split('/').next()` gives, since
/// the piece after the first `//` ends at a `/` in any case.
pub open spec fn url_domain_of(url: Seq<char>) -> Seq<char> {
    let i = seq_find_sub(url, "//"@);
    let rest = if i + 2 <= url.len() {
        url.subrange(i + 2, url.len() as int)
    } else {
        url
    };
    rest.take(seq_find_char(rest, '/'))
}

/// The domain of a URL (see `url_domain_of`).
pub fn url_domain(url: &str) -> (r: String)
    ensures
        r@ == url_domain_of(url@),
{
    let u = chars_of(url);
    let sep = chars_of("//");
    proof {
        reveal_strlit("//");
    }
    assert(sep@.len() == 2);
    let ulen = u.len();
    let start = match find(u.as_slice(), sep.as_slice()) {
        Some(i) => {
            proof {
                lemma_find_sub_found(u@, sep@, i as int);
            }
            assert(occurs_at(u@, sep@, i as int));
            assert(i + 2 <= ulen);
            i + 2
        },
        None => {
            proof {
                assert forall|k: int| 0 <= k implies !occurs_at(u@, sep@, k) by {
                    if occurs_at(u@, sep@, k) {
                        assert(crate::text::seq_contains(u@, sep@));
                    }
                }
                lemma_find_sub_none(u@, sep@);
            }
            0
        },
    };
    let rest = slice_chars(u.as_slice(), start, u.len());
    assert(start == 0 ==> rest@ =~= u@);
    let end = find_char_from(rest.as_slice(), '/', 0);
    assert(rest@.subrange(0, rest@.len() as int) =~= rest@);
    string_of(slice_chars(rest.as_slice(), 0, end).as_slice())
}

/// The view of the entry `make_entry` makes from these fields.
pub open spec fn made(
    id: Seq<char>,
    kind: BrowserEntryKind,
    title: Seq<char>,
    url: Seq<char>,
    source: Seq<char>,
    visit_count: i64,
) -> BrowserView {
    BrowserView {
        id,
        kind,
        title,
        url,
        source,
        visit_count,
        domain: url_domain_of(url),
        title_lower: lowercase(title),
        haystack: lowercase(title) + " "@ + url_domain_of(url) + " "@ + lowercase(url),
    }
}

/// The sequences one after another.
pub open spec fn concat_all<T>(ss: Seq<Seq<T>>) -> Seq<T>
    decreases ss.len(),
{
    if ss.len() == 0 {
        Seq::empty()
    } else {
        concat_all(ss.drop_last()) + ss.last()
    }
}

/// A visited page as a browser's history database gives it, most recent
/// first: its row identifier, its title (its URL when it has none), URL
/// and visit count.
#[derive(Clone, Debug)]
pub struct HistoryRow {
    pub id: i64,
    pub title: String,
    pub url: String,
    pub visit_count: i64,
}

/// How many history entries are read from each browser profile.
pub fn history_limit() -> (r: usize)
    ensures
        r == HISTORY_PER_BROWSER,
{
    HISTORY_PER_BROWSER
}

/// Makes an entry, computing its domain, lowercase title and search text.
pub fn make_entry(
    id: String,
    kind: BrowserEntryKind,
    title: String,
    url: String,
    source: String,
    visit_count: i64,
) -> (r: BrowserEntry)
    ensures
        r@ == (BrowserView {
            id: id@,
            kind,
            title: title@,
            url: url@,
            source: source@,
            visit_count,
            domain: url_domain_of(url@),
            title_lower: lowercase(title@),
            haystack: lowercase(title@) + " "@ + url_domain_of(url@) + " "@ + lowercase(url@),
        }),
{
    let domain = url_domain(url.as_str());
    let title_lower = to_lowercase(title.as_str());
    let url_lower = to_lowercase(url.as_str());
    let haystack = cat5(title_lower.as_str(), " ", domain.as_str(), " ", url_lower.as_str());
    BrowserEntry { id, kind, title, url, source, visit_count, domain, title_lower, haystack }
}

/// Whether an entry is a candidate for the lowercase query `ql`: for a
/// query shorter than four bytes its lowercase title or its domain holds
/// it, else its search text does.
pub open spec fn entry_matches_spec(e: BrowserView, ql: Seq<char>) -> bool {
    if seq_utf8_len(ql) < 4 {
        seq_contains(e.title_lower, ql) || seq_contains(e.domain, ql)
    } else {
        seq_contains(e.haystack, ql)
    }
}

fn entry_matches(e: &BrowserEntry, ql: &[char]) -> (r: bool)
    ensures
        r == entry_matches_spec(e@, ql@),
{
    if utf8_len_below(ql, 4) {
        contains(chars_of(e.title_lower.as_str()).as_slice(), ql) || contains(
            chars_of(e.domain.as_str()).as_slice(),
            ql,
        )
    } else {
        contains(chars_of(e.haystack.as_str()).as_slice(), ql)
    }
}

/// An entry's score for the query `q`: the fuzzy score of its title, else of
/// its domain, else 0, plus its visit count up to 50.
pub open spec fn entry_score(e: BrowserView, q: Seq<char>) -> int {
    let f: int = match skim_score(e.title, q) {
        Some(x) => x as int,
        None => match skim_score(e.domain, q) {
            Some(y) => y as int,
            None => 0,
        },
    };
    f + (if e.visit_count < 50 {
        e.visit_count as int
    } else {
        50
    })
}

/// The candidates among the first `n` entries, as (score, position), and
/// the number of entries scored. Only entries of `kind` that match `ql` are
/// scored, at most `MAX_FUZZY_EVALS` of them; those scoring above 0 are
/// candidates.
pub open spec fn candidates(
    es: Seq<BrowserView>,
    kind: BrowserEntryKind,
    q: Seq<char>,
    ql: Seq<char>,
    n: nat,
) -> (Seq<(i128, usize)>, nat)
    decreases n,
{
    if n == 0 {
        (Seq::empty(), 0)
    } else {
        let (c, ev) = candidates(es, kind, q, ql, (n - 1) as nat);
        let e = es[n - 1];
        if e.kind != kind || !entry_matches_spec(e, ql) || ev >= MAX_FUZZY_EVALS {
            (c, ev)
        } else {
            let s = entry_score(e, q);
            if s <= 0 {
                (c, ev + 1)
            } else {
                (c.push((s as i128, (n - 1) as usize)), ev + 1)
            }
        }
    }
}

proof fn lemma_candidates_stop(
    es: Seq<BrowserView>,
    kind: BrowserEntryKind,
    q: Seq<char>,
    ql: Seq<char>,
    i: nat,
    n: nat,
)
    requires
        i <= n,
        candidates(es, kind, q, ql, i).1 >= MAX_FUZZY_EVALS,
    ensures
        candidates(es, kind, q, ql, n) == candidates(es, kind, q, ql, i),
    decreases n - i,
{
    if n > i {
        lemma_candidates_stop(es, kind, q, ql, i, (n - 1) as nat);
    }
}

/// The result kind of an entry kind.
pub open spec fn result_kind_of(k: BrowserEntryKind) -> ResultKind {
    match k {
        BrowserEntryKind::Bookmark => ResultKind::Bookmark,
        BrowserEntryKind::History => ResultKind::Browser,
    }
}

/// The icon of a browser, as found on this machine.
pub struct BrowserIcon {
    pub source: String,
    pub path: Option<String>,
}

/// The icon path recorded for `source`: that of the first record for it,
/// none when there is no record.
pub open spec fn icon_for(icons: Seq<BrowserIcon>, source: Seq<char>) -> Option<Seq<char>>
    decreases icons.len(),
{
    if icons.len() == 0 {
        None
    } else if icons[0].source@ == source {
        opt_view(icons[0].path)
    } else {
        icon_for(icons.drop_first(), source)
    }
}

fn lookup_icon(icons: &Vec<BrowserIcon>, source: &str) -> (r: Option<String>)
    ensures
        opt_view(r) == icon_for(icons@, source@),
{
    let key = chars_of(source);
    let mut i: usize = 0;
    assert(icons@.subrange(0, icons@.len() as int) =~= icons@);
    while i < icons.len()
        invariant
            i <= icons@.len(),
            key@ == source@,
            icon_for(icons@, source@) == icon_for(icons@.subrange(i as int, icons@.len() as int), source@),
        decreases icons.len() - i,
    {
        let ghost rest = icons@.subrange(i as int, icons@.len() as int);
        if chars_eq(chars_of(icons[i].source.as_str()).as_slice(), key.as_slice()) {
            return clone_opt(&icons[i].path);
        }
        assert(rest.drop_first() =~= icons@.subrange(i + 1, icons@.len() as int));
        i = i + 1;
    }
    None
}

/// The result for an entry with score `score`: its title, "source · domain"
/// as subtitle and its browser's icon.
pub open spec fn browser_result(
    e: BrowserView,
    kind: BrowserEntryKind,
    score: i128,
    q: Seq<char>,
    h: HistoryStats,
    icons: Seq<BrowserIcon>,
) -> ResultView {
    scored_view(
        e.id,
        result_kind_of(kind),
        e.title,
        Some(e.source + " · "@ + e.domain),
        icon_for(icons, e.source),
        score as i64,
        q,
        h,
    )
}

/// The results of one kind: the candidates ordered by descending score
/// (ties by position), at most `limit` of them.
pub open spec fn kind_results(
    es: Seq<BrowserView>,
    kind: BrowserEntryKind,
    q: Seq<char>,
    ql: Seq<char>,
    limit: int,
    h: HistoryStats,
    icons: Seq<BrowserIcon>,
) -> Seq<ResultView> {
    take_at_most(sort_desc(candidates(es, kind, q, ql, es.len()).0), limit).map_values(
        |p: (i128, usize)| browser_result(es[p.1 as int], kind, p.0, q, h, icons),
    )
}

/// The results of a search: nothing for a trimmed query shorter than
/// `MIN_QUERY_LEN` bytes or an empty index; else the bookmarks and the
/// history entries matching it.
pub open spec fn browser_results(
    es: Seq<BrowserView>,
    query: Seq<char>,
    h: HistoryStats,
    icons: Seq<BrowserIcon>,
    bookmark_limit: int,
    history_limit: int,
) -> (Seq<ResultView>, Seq<ResultView>) {
    let q = seq_trim(query);
    if seq_utf8_len(q) < MIN_QUERY_LEN || es.len() == 0 {
        (Seq::empty(), Seq::empty())
    } else {
        let ql = lowercase(q);
        (
            kind_results(es, BrowserEntryKind::Bookmark, q, ql, bookmark_limit, h, icons),
            kind_results(es, BrowserEntryKind::History, q, ql, history_limit, h, icons),
        )
    }
}

/// The entries after a refresh, without an entry whose URL and kind repeat
/// those of the one kept just before it.
pub open spec fn dedup_entries(s: Seq<BrowserView>) -> Seq<BrowserView>
    decreases s.len(),
{
    if s.len() == 0 {
        s
    } else {
        let d = dedup_entries(s.drop_last());
        if d.len() > 0 && d.last().url == s.last().url && d.last().kind == s.last().kind {
            d
        } else {
            d.push(s.last())
        }
    }
}

/// The entries a refresh keeps: ordered by descending visit count (stable),
/// deduplicated by URL and kind, at most `MAX_ENTRIES`.
pub open spec fn refreshed(collected: Seq<BrowserView>) -> Seq<BrowserView> {
    take_at_most(
        dedup_entries(
            sort_desc(collected.map_values(|e: BrowserView| (e.visit_count as i128, e))).map_values(
                |p: (i128, BrowserView)| p.1,
            ),
        ),
        MAX_ENTRIES as int,
    )
}

/// The first entry with identifier `id`.
pub open spec fn entry_for(es: Seq<BrowserView>, id: Seq<char>) -> Option<BrowserView>
    decreases es.len(),
{
    if es.len() == 0 {
        None
    } else if es[0].id == id {
        Some(es[0])
    } else {
        entry_for(es.drop_first(), id)
    }
}

/// The browser entries and the browsers' icons.
pub struct BrowserIndex {
    entries: Vec<BrowserEntry>,
    icons: Vec<BrowserIcon>,
}

impl BrowserIndex {
    /// The entries, most visited first.
    pub closed spec fn entries(&self) -> Seq<BrowserView> {
        browser_views(self.entries@)
    }

    /// The browsers' icons.
    pub closed spec fn icons(&self) -> Seq<BrowserIcon> {
        self.icons@
    }

    /// An index with no entries yet, and the given browser icons.
    pub fn new(icons: Vec<BrowserIcon>) -> (r: Self)
        ensures
            r.entries() == Seq::<BrowserView>::empty(),
            r.icons() == icons@,
    {
        let r = BrowserIndex { entries: Vec::new(), icons };
        assert(r.entries() =~= Seq::<BrowserView>::empty());
        r
    }

    /// Replaces the entries with the refreshed form of those gathered from
    /// the browsers (see `refreshed`).
    pub fn replace(&mut self, collected: Vec<BrowserEntry>)
        ensures
            final(self).entries() == refreshed(browser_views(collected@)),
            final(self).icons() == old(self).icons(),
    {
        let mut all = collected;
        let ghost orig = all@;
        let mut keyed: Vec<(i128, BrowserEntry)> = Vec::new();
        let total = all.len();
        let mut n: usize = 0;
        while all.len() > 0
            invariant
                n + all@.len() == orig.len(),
                orig.len() == total,
                all@ == orig.subrange(n as int, orig.len() as int),
                keyed@.len() == n,
                forall|k: int|
                    0 <= k < n ==> (#[trigger] keyed@[k]).0 == orig[k].visit_count as i128
                        && keyed@[k].1 == orig[k],
            decreases all.len(),
        {
            let e = all.remove(0);
            let key = e.visit_count as i128;
            keyed.push((key, e));
            assert(all@ =~= orig.subrange(n + 1, orig.len() as int));
            n = n + 1;
        }
        let sorted = sort_by_key_desc(keyed);
        let ghost g = |e: BrowserEntry| e@;
        proof {
            let target = browser_views(orig).map_values(
                |e: BrowserView| (e.visit_count as i128, e),
            );
            assert(map_item(keyed@, g) =~= target);
            lemma_sort_desc_map(keyed@, g);
        }
        let ghost sv = browser_views(sorted@.map_values(|p: (i128, BrowserEntry)| p.1));
        proof {
            assert(sv =~= map_item(sorted@, g).map_values(|p: (i128, BrowserView)| p.1));
        }
        let mut out: Vec<BrowserEntry> = Vec::new();
        let mut i: usize = 0;
        while i < sorted.len()
            invariant
                i <= sorted@.len(),
                sv == browser_views(sorted@.map_values(|p: (i128, BrowserEntry)| p.1)),
                browser_views(out@) == dedup_entries(sv.take(i as int)),
            decreases sorted.len() - i,
        {
            let e = &sorted[i].1;
            proof {
                assert(sv.take(i + 1).drop_last() =~= sv.take(i as int));
                assert(sv.take(i + 1).last() == e@);
            }
            let keep = if out.len() > 0 {
                let last = &out[out.len() - 1];
                !(chars_eq(chars_of(last.url.as_str()).as_slice(), chars_of(e.url.as_str()).as_slice())
                    && last.kind == e.kind)
            } else {
                true
            };
            if keep {
                let ghost before = out@;
                out.push(e.duplicate());
                assert(browser_views(out@) =~= browser_views(before).push(e@));
            }
            i = i + 1;
        }
        assert(sv.take(i as int) =~= sv);
        let ghost deduped = out@;
        out.truncate(MAX_ENTRIES);
        assert(browser_views(out@) =~= take_at_most(browser_views(deduped), MAX_ENTRIES as int));
        self.entries = out;
    }

    /// A copy of the first entry with identifier `id`.
    pub fn get_entry(&self, id: &str) -> (r: Option<BrowserEntry>)
        ensures
            match entry_for(self.entries(), id@) {
                Some(v) => r matches Some(e) && e@ == v,
                None => r is None,
            },
    {
        let key = chars_of(id);
        let ghost all = browser_views(self.entries@);
        let mut i: usize = 0;
        assert(all.subrange(0, all.len() as int) =~= all);
        while i < self.entries.len()
            invariant
                i <= self.entries@.len(),
                key@ == id@,
                all == browser_views(self.entries@),
                entry_for(all, id@) == entry_for(all.subrange(i as int, all.len() as int), id@),
            decreases self.entries.len() - i,
        {
            let ghost rest = all.subrange(i as int, all.len() as int);
            let e = &self.entries[i];
            if chars_eq(chars_of(e.id.as_str()).as_slice(), key.as_slice()) {
                return Some(e.duplicate());
            }
            assert(rest.drop_first() =~= all.subrange(i + 1, all.len() as int));
            i = i + 1;
        }
        None
    }

    /// The URL of the first entry with identifier `id`.
    pub fn get_url(&self, id: &str) -> (r: Option<String>)
        ensures
            match entry_for(self.entries(), id@) {
                Some(v) => r matches Some(u) && u@ == v.url,
                None => r is None,
            },
    {
        match self.get_entry(id) {
            Some(e) => Some(e.url),
            None => None,
        }
    }

    /// The bookmarks and history entries matching `query` (see
    /// `browser_results`).
    pub fn search(
        &self,
        query: &str,
        history: &HistoryStats,
        bookmark_limit: usize,
        history_limit: usize,
    ) -> (r: (Vec<SearchResult>, Vec<SearchResult>))
        ensures
            (result_views(r.0@), result_views(r.1@)) == browser_results(
                self.entries(),
                query@,
                *history,
                self.icons(),
                bookmark_limit as int,
                history_limit as int,
            ),
    {
        let qv = trimmed_chars(query);
        if utf8_len_below(qv.as_slice(), MIN_QUERY_LEN) || self.entries.len() == 0 {
            let a: Vec<SearchResult> = Vec::new();
            let b: Vec<SearchResult> = Vec::new();
            assert(result_views(a@) =~= Seq::<ResultView>::empty());
            assert(result_views(b@) =~= Seq::<ResultView>::empty());
            return (a, b);
        }
        let q = string_of(qv.as_slice());
        let ql = chars_of(to_lowercase(q.as_str()).as_str());
        let bookmarks = search_kind(
            &self.entries,
            q.as_str(),
            ql.as_slice(),
            BrowserEntryKind::Bookmark,
            bookmark_limit,
            history,
            &self.icons,
        );
        let history_items = search_kind(
            &self.entries,
            q.as_str(),
            ql.as_slice(),
            BrowserEntryKind::History,
            history_limit,
            history,
            &self.icons,
        );
        (bookmarks, history_items)
    }
}

fn fuzzy_or_zero(e: &BrowserEntry, q: &str) -> (r: i64)
    ensures
        r == entry_score(e@, q@) - (if e@.visit_count < 50 {
            e@.visit_count as int
        } else {
            50
        }),
        i32::MIN <= r <= i32::MAX,
{
    match fuzzy_score(e.title.as_str(), q) {
        Some(x) => x,
        None => match fuzzy_score(e.domain.as_str(), q) {
            Some(y) => y,
            None => 0,
        },
    }
}

/// The results of one kind (see `kind_results`).
fn search_kind(
    entries: &Vec<BrowserEntry>,
    query: &str,
    query_lower: &[char],
    kind: BrowserEntryKind,
    limit: usize,
    history: &HistoryStats,
    icons: &Vec<BrowserIcon>,
) -> (r: Vec<SearchResult>)
    ensures
        result_views(r@) == kind_results(
            browser_views(entries@),
            kind,
            query@,
            query_lower@,
            limit as int,
            *history,
            icons@,
        ),
{
    let ghost es = browser_views(entries@);
    let ghost full = candidates(es, kind, query@, query_lower@, es.len());
    if limit == 0 {
        let r: Vec<SearchResult> = Vec::new();
        assert(result_views(r@) =~= Seq::<ResultView>::empty());
        return r;
    }
    let mut cands: Vec<(i128, usize)> = Vec::new();
    let mut evals: usize = 0;
    let mut i: usize = 0;
    while i < entries.len()
        invariant_except_break
            i <= entries@.len(),
            es == browser_views(entries@),
            es.len() == entries@.len(),
            full == candidates(es, kind, query@, query_lower@, es.len()),
            (cands@, evals as nat) == candidates(es, kind, query@, query_lower@, i as nat),
            forall|k: int|
                0 <= k < cands@.len() ==> 0 < (#[trigger] cands@[k]).0 <= i32::MAX + 50
                    && cands@[k].1 < entries@.len(),
        ensures
            (cands@, evals as nat) == full,
            forall|k: int|
                0 <= k < cands@.len() ==> 0 < (#[trigger] cands@[k]).0 <= i32::MAX + 50
                    && cands@[k].1 < entries@.len(),
        decreases entries.len() - i,
    {
        let e = &entries[i];
        assert(es[i as int] == e@);
        if e.kind == kind && entry_matches(e, query_lower) {
            if evals >= MAX_FUZZY_EVALS {
                proof {
                    lemma_candidates_stop(es, kind, query@, query_lower@, i as nat, es.len());
                }
                break;
            }
            evals = evals + 1;
            let f = fuzzy_or_zero(e, query) as i128;
            let v: i128 = if e.visit_count < 50 {
                e.visit_count as i128
            } else {
                50
            };
            let score = f + v;
            if score > 0 {
                cands.push((score, i));
            }
        }
        i = i + 1;
    }
    let ghost cs = cands@;
    let mut sorted = sort_by_key_desc(cands);
    proof {
        assert forall|k: int| 0 <= k < sorted@.len() implies 0 < (#[trigger] sorted@[k]).0
            <= i32::MAX + 50 && sorted@[k].1 < entries@.len() by {
            lemma_sort_desc_member(cs, k);
        }
    }
    sorted.truncate(limit);
    let ghost top = sorted@;
    let ghost f = |p: (i128, usize)| browser_result(es[p.1 as int], kind, p.0, query@, *history, icons@);
    assert(top == take_at_most(sort_desc(cs), limit as int));
    let mut results: Vec<SearchResult> = Vec::new();
    let mut j: usize = 0;
    while j < sorted.len()
        invariant
            j <= sorted@.len(),
            sorted@ == top,
            es == browser_views(entries@),
            forall|k: int|
                0 <= k < top.len() ==> 0 < (#[trigger] top[k]).0 <= i32::MAX + 50 && top[k].1
                    < entries@.len(),
            f == (|p: (i128, usize)|
                browser_result(es[p.1 as int], kind, p.0, query@, *history, icons@)),
            result_views(results@) == top.take(j as int).map_values(f),
        decreases sorted.len() - j,
    {
        let (score, idx) = sorted[j];
        assert(top[j as int] == (score, idx));
        let e = &entries[idx];
        assert(es[idx as int] == e@);
        let subtitle = cat3(e.source.as_str(), " · ", e.domain.as_str());
        let x = build_result(
            e.id.clone(),
            match kind {
                BrowserEntryKind::Bookmark => ResultKind::Bookmark,
                BrowserEntryKind::History => ResultKind::Browser,
            },
            e.title.clone(),
            Some(subtitle),
            lookup_icon(icons, e.source.as_str()),
            score as i64,
            query,
            history,
        );
        let ghost before = results@;
        results.push(x);
        proof {
            assert(result_views(results@) =~= result_views(before).push(x@));
            assert(top.take(j + 1).map_values(f) =~= top.take(j as int).map_values(f).push(
                f(top[j as int]),
            ));
        }
        j = j + 1;
    }
    assert(top.take(j as int) =~= top);
    results
}

/// The icon name of a browser.
pub open spec fn browser_icon_name_of(source: Seq<char>) -> Seq<char> {
    if source == "Firefox"@ {
        "firefox"@
    } else if source == "Chrome"@ {
        "google-chrome"@
    } else if source == "Chromium"@ {
        "chromium"@
    } else if source == "Brave"@ {
        "brave-browser"@
    } else if source == "Edge"@ {
        "microsoft-edge"@
    } else if source == "Vivaldi"@ {
        "vivaldi"@
    } else {
        "web-browser"@
    }
}

/// The icon name of a browser (see `browser_icon_name_of`).
pub fn browser_icon_name(source: &str) -> (r: &'static str)
    ensures
        r@ == browser_icon_name_of(source@),
{
    let s = chars_of(source);
    if chars_eq(s.as_slice(), chars_of("Firefox").as_slice()) {
        "firefox"
    } else if chars_eq(s.as_slice(), chars_of("Chrome").as_slice()) {
        "google-chrome"
    } else if chars_eq(s.as_slice(), chars_of("Chromium").as_slice()) {
        "chromium"
    } else if chars_eq(s.as_slice(), chars_of("Brave").as_slice()) {
        "brave-browser"
    } else if chars_eq(s.as_slice(), chars_of("Edge").as_slice()) {
        "microsoft-edge"
    } else if chars_eq(s.as_slice(), chars_of("Vivaldi").as_slice()) {
        "vivaldi"
    } else {
        "web-browser"
    }
}

/// The files that may hold a browser's icon, in the order they are tried.
pub fn browser_icon_candidates(source: &str) -> (r: Vec<String>)
    ensures
        r@.len() == 2,
        r@[0]@ == "/usr/share/icons/hicolor/scalable/apps/"@ + browser_icon_name_of(source@)
            + ".svg"@,
        r@[1]@ == "/usr/share/pixmaps/"@ + browser_icon_name_of(source@) + ".png"@,
{
    let icon = browser_icon_name(source);
    let mut r: Vec<String> = Vec::new();
    r.push(cat3("/usr/share/icons/hicolor/scalable/apps/", icon, ".svg"));
    r.push(cat3("/usr/share/pixmaps/", icon, ".png"));
    r
}

/// The browsers whose icons are looked up.
pub fn known_browsers() -> (r: Vec<&'static str>)
    ensures
        r@.len() == 6,
        r@[0]@ == "Firefox"@,
        r@[1]@ == "Chrome"@,
        r@[2]@ == "Chromium"@,
        r@[3]@ == "Brave"@,
        r@[4]@ == "Edge"@,
        r@[5]@ == "Vivaldi"@,
{
    let mut r: Vec<&'static str> = Vec::new();
    r.push("Firefox");
    r.push("Chrome");
    r.push("Chromium");
    r.push("Brave");
    r.push("Edge");
    r.push("Vivaldi");
    r
}

} // verus!
