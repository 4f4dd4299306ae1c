//! Snippets: saved texts found by keyword, pasted or copied when chosen.

use vstd::prelude::*;
use crate::matchers::{fuzzy_score, skim_score};
use crate::search::ranking::{
    build_result, result_views, scored_view, sort_by_score, sort_results, take_at_most,
    HistoryStats, ResultView,
};
use crate::search::types::{make_id, result_id, ResultKind, SearchResult};
use crate::text::{cat, cat5, chars_eq, chars_of, seq_starts_with, seq_trim, starts_with, string_of, trimmed_chars};

verus! {

/// What choosing a snippet does with its text.
#[derive(Debug, Clone, Copy, PartialEq, Eq, Structural)]
pub enum SnippetMode {
    /// Copy the text and paste it into the focused window.
    Paste,
    /// Only copy the text.
    Copy,
}

impl Default for SnippetMode {
    fn default() -> (r: Self)
        ensures
            r == SnippetMode::Paste,
    {
        SnippetMode::Paste
    }
}

/// A snippet as the snippets file declares it.
#[derive(Debug, Clone)]
pub struct SnippetEntry {
    pub keyword: String,
    pub name: String,
    pub text: String,
    pub mode: SnippetMode,
}

/// The loaded snippets.
pub struct SnippetsIndex {
    pub entries: Vec<SnippetEntry>,
}

impl SnippetEntry {
    /// A copy of the entry.
    pub fn duplicate(&self) -> (r: Self)
        ensures
            r == *self,
    {
        SnippetEntry {
            keyword: self.keyword.clone(),
            name: self.name.clone(),
            text: self.text.clone(),
            mode: self.mode,
        }
    }
}

/// The result a snippet gives for the trimmed query `q`: a direct hit when
/// `q` starts with its keyword, else a fuzzy match of name, keyword and text.
pub open spec fn snippet_hit(e: SnippetEntry, q: Seq<char>, h: HistoryStats) -> Option<ResultView> {
    let id = result_id(ResultKind::Snippet, e.keyword@);
    if seq_starts_with(q, e.keyword@) {
        Some(
            scored_view(
                id,
                ResultKind::Snippet,
                e.name@,
                Some("Snippet "@ + e.keyword@),
                Some("text-x-generic"@),
                2000,
                q,
                h,
            ),
        )
    } else {
        match skim_score(e.name@ + " "@ + e.keyword@ + " "@ + e.text@, q) {
            Some(score) => Some(
                scored_view(
                    id,
                    ResultKind::Snippet,
                    e.name@,
                    Some(e.keyword@),
                    Some("text-x-generic"@),
                    score,
                    q,
                    h,
                ),
            ),
            None => None,
        }
    }
}

/// The results of a search over `entries`.
pub open spec fn snippet_results(
    entries: Seq<SnippetEntry>,
    query: Seq<char>,
    h: HistoryStats,
    limit: int,
) -> Seq<ResultView> {
    let q = seq_trim(query);
    if q.len() == 0 {
        Seq::empty()
    } else {
        take_at_most(
            sort_by_score(entries.filter_map(|e: SnippetEntry| snippet_hit(e, q, h))),
            limit,
        )
    }
}

/// The first snippet whose keyword is `keyword`.
pub open spec fn snippet_with_keyword(entries: Seq<SnippetEntry>, keyword: Seq<char>) -> Option<
    SnippetEntry,
>
    decreases entries.len(),
{
    if entries.len() == 0 {
        None
    } else if entries[0].keyword@ == keyword {
        Some(entries[0])
    } else {
        snippet_with_keyword(entries.drop_first(), keyword)
    }
}

fn hit(e: &SnippetEntry, q: &str, history: &HistoryStats) -> (r: Option<SearchResult>)
    ensures
        match r {
            Some(x) => snippet_hit(*e, q@, *history) == Some(x@),
            None => snippet_hit(*e, q@, *history) is None,
        },
{
    let qv = chars_of(q);
    let kv = chars_of(e.keyword.as_str());
    let id = make_id(ResultKind::Snippet, e.keyword.as_str());
    if starts_with(qv.as_slice(), kv.as_slice()) {
        Some(
            build_result(
                id,
                ResultKind::Snippet,
                e.name.clone(),
                Some(cat("Snippet ", e.keyword.as_str())),
                Some(String::from_str("text-x-generic")),
                2000,
                q,
                history,
            ),
        )
    } else {
        let hay = cat5(e.name.as_str(), " ", e.keyword.as_str(), " ", e.text.as_str());
        match fuzzy_score(hay.as_str(), q) {
            Some(score) => Some(
                build_result(
                    id,
                    ResultKind::Snippet,
                    e.name.clone(),
                    Some(e.keyword.clone()),
                    Some(String::from_str("text-x-generic")),
                    score,
                    q,
                    history,
                ),
            ),
            None => None,
        }
    }
}

impl SnippetsIndex {
    /// An index over the given snippets.
    pub fn new(entries: Vec<SnippetEntry>) -> (r: Self)
        ensures
            r.entries == entries,
    {
        SnippetsIndex { entries }
    }

    /// Replaces the snippets with a freshly loaded set.
    pub fn reload(&mut self, entries: Vec<SnippetEntry>)
        ensures
            final(self).entries == entries,
    {
        self.entries = entries;
    }

    /// The snippets matching `query`, best first, at most `limit`.
    pub fn search(&self, query: &str, history: &HistoryStats, limit: usize) -> (r: Vec<
        SearchResult,
    >)
        ensures
            result_views(r@) == snippet_results(self.entries@, query@, *history, limit as int),
    {
        let qv = trimmed_chars(query);
        if qv.len() == 0 {
            let r: Vec<SearchResult> = Vec::new();
            assert(result_views(r@) =~= Seq::<ResultView>::empty());
            return r;
        }
        let q = string_of(qv.as_slice());
        let ghost f = |e: SnippetEntry| snippet_hit(e, q@, *history);
        let mut results: Vec<SearchResult> = Vec::new();
        let mut i: usize = 0;
        assert(result_views(results@) =~= self.entries@.take(0).filter_map(f));
        while i < self.entries.len()
            invariant
                i <= self.entries@.len(),
                q@ == seq_trim(query@),
                f == (|e: SnippetEntry| snippet_hit(e, q@, *history)),
                result_views(results@) == self.entries@.take(i as int).filter_map(f),
            decreases self.entries.len() - i,
        {
            let ghost before = results@;
            proof {
                assert(self.entries@.take(i + 1).drop_last() =~= self.entries@.take(i as int));
                assert(self.entries@.take(i + 1).last() == self.entries@[i as int]);
            }
            match hit(&self.entries[i], q.as_str(), history) {
                Some(x) => {
                    results.push(x);
                    assert(result_views(results@) =~= result_views(before) + seq![x@]);
                },
                None => {},
            }
            i = i + 1;
        }
        assert(self.entries@.take(i as int) =~= self.entries@);
        sort_results(&mut results);
        results.truncate(limit);
        results
    }

    fn position(&self, keyword: &str) -> (r: Option<usize>)
        ensures
            match r {
                Some(i) => i < self.entries@.len() && snippet_with_keyword(self.entries@, keyword@)
                    == Some(self.entries@[i as int]),
                None => snippet_with_keyword(self.entries@, keyword@) is None,
            },
    {
        let key = chars_of(keyword);
        let mut i: usize = 0;
        assert(self.entries@.subrange(0, self.entries@.len() as int) =~= self.entries@);
        while i < self.entries.len()
            invariant
                i <= self.entries@.len(),
                key@ == keyword@,
                snippet_with_keyword(self.entries@, keyword@) == snippet_with_keyword(
                    self.entries@.subrange(i as int, self.entries@.len() as int),
                    keyword@,
                ),
            decreases self.entries.len() - i,
        {
            let ghost rest = self.entries@.subrange(i as int, self.entries@.len() as int);
            let cand = chars_of(self.entries[i].keyword.as_str());
            if chars_eq(cand.as_slice(), key.as_slice()) {
                return Some(i);
            }
            assert(rest.drop_first() =~= self.entries@.subrange(
                i + 1,
                self.entries@.len() as int,
            ));
            i = i + 1;
        }
        None
    }

    /// A copy of the snippet with keyword `keyword`.
    pub fn get(&self, keyword: &str) -> (r: Option<SnippetEntry>)
        ensures
            r == snippet_with_keyword(self.entries@, keyword@),
    {
        match self.position(keyword) {
            Some(i) => Some(self.entries[i].duplicate()),
            None => None,
        }
    }

    /// What applying the snippet `keyword` does: its text and mode, or the
    /// error for an unknown keyword.
    pub fn apply(&self, keyword: &str) -> (r: Result<(String, SnippetMode), String>)
        ensures
            match snippet_with_keyword(self.entries@, keyword@) {
                Some(e) => r matches Ok((text, mode)) && text@ == e.text@ && mode == e.mode,
                None => r matches Err(msg) && msg@ == "Snippet não encontrado"@,
            },
    {
        match self.position(keyword) {
            Some(i) => Ok((self.entries[i].text.clone(), self.entries[i].mode)),
            None => Err(String::from_str("Snippet não encontrado")),
        }
    }
}

} // verus!
