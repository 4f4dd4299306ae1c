//! Scripts: commands declared in JSON files, run with the query.

use vstd::prelude::*;
use crate::matchers::{fuzzy_score, skim_score};
use crate::order::{keyed_view, lemma_sort_lex_sorted, lex_lt, sort_by_text, sort_lex};
use crate::search::ranking::{
    build_result, result_views, scored_view, sort_by_score, sort_results, take_at_most,
    HistoryStats, ResultView,
};
use crate::search::types::{make_id, result_id, ResultKind, SearchResult};
use crate::text::{
    cat5, chars_eq, chars_of, clone_opt, opt_or, opt_view, replace_all, seq_replace, seq_trim,
    string_of, trimmed_chars,
};

verus! {

/// A script as its JSON file declares it.
#[derive(Debug, Clone)]
pub struct ScriptEntry {
    pub id: String,
    pub title: String,
    pub command: String,
    pub args: Vec<String>,
    pub keyword: Option<String>,
    pub icon: Option<String>,
    pub needs_query: bool,
}

/// The loaded scripts, ordered by title.
pub struct ScriptsIndex {
    pub entries: Vec<ScriptEntry>,
}

/// The texts of a sequence of strings.
pub open spec fn string_views(s: Seq<String>) -> Seq<Seq<char>> {
    s.map_values(|x: String| x@)
}

impl ScriptEntry {
    /// A copy of the entry.
    pub fn duplicate(&self) -> (r: Self)
        ensures
            r.id == self.id,
            r.title == self.title,
            r.command == self.command,
            string_views(r.args@) == string_views(self.args@),
            r.keyword == self.keyword,
            r.icon == self.icon,
            r.needs_query == self.needs_query,
    {
        let mut args: Vec<String> = Vec::new();
        let mut i: usize = 0;
        while i < self.args.len()
            invariant
                i <= self.args@.len(),
                string_views(args@) == string_views(self.args@.take(i as int)),
            decreases self.args.len() - i,
        {
            let ghost before = args@;
            args.push(self.args[i].clone());
            assert(string_views(args@) =~= string_views(before).push(self.args@[i as int]@));
            assert(string_views(self.args@.take(i + 1)) =~= string_views(
                self.args@.take(i as int),
            ).push(self.args@[i as int]@));
            i = i + 1;
        }
        assert(self.args@.take(i as int) =~= self.args@);
        ScriptEntry {
            id: self.id.clone(),
            title: self.title.clone(),
            command: self.command.clone(),
            args,
            keyword: clone_opt(&self.keyword),
            icon: clone_opt(&self.icon),
            needs_query: self.needs_query,
        }
    }
}

/// The icon shown for a script.
pub open spec fn script_icon(e: ScriptEntry) -> Option<Seq<char>> {
    Some(
        match e.icon {
            Some(i) => i@,
            None => "utilities-terminal"@,
        },
    )
}

/// The result a script gives for the trimmed query `q`: a fuzzy match of
/// its title, keyword and identifier.
pub open spec fn script_hit(e: ScriptEntry, q: Seq<char>, h: HistoryStats) -> Option<ResultView> {
    let kw = match e.keyword {
        Some(k) => k@,
        None => Seq::empty(),
    };
    match skim_score(e.title@ + " "@ + kw + " "@ + e.id@, q) {
        Some(score) => Some(
            scored_view(
                result_id(ResultKind::Script, e.id@),
                ResultKind::Script,
                e.title@,
                opt_view(e.keyword),
                script_icon(e),
                score,
                q,
                h,
            ),
        ),
        None => None,
    }
}

/// The result listing a script when the query is empty.
pub open spec fn script_listing(e: ScriptEntry, h: HistoryStats) -> ResultView {
    scored_view(
        result_id(ResultKind::Script, e.id@),
        ResultKind::Script,
        e.title@,
        opt_view(e.keyword),
        script_icon(e),
        500,
        Seq::empty(),
        h,
    )
}

/// The results of a search over `entries`: with an empty query the first
/// scripts in order, else the fuzzy matches, best first.
pub open spec fn script_results(
    entries: Seq<ScriptEntry>,
    query: Seq<char>,
    h: HistoryStats,
    limit: int,
) -> Seq<ResultView> {
    let q = seq_trim(query);
    if q.len() == 0 {
        take_at_most(entries, limit).map_values(|e: ScriptEntry| script_listing(e, h))
    } else {
        take_at_most(
            sort_by_score(entries.filter_map(|e: ScriptEntry| script_hit(e, q, h))),
            limit,
        )
    }
}

/// The first script with identifier `id`.
pub open spec fn script_with_id(entries: Seq<ScriptEntry>, id: Seq<char>) -> Option<ScriptEntry>
    decreases entries.len(),
{
    if entries.len() == 0 {
        None
    } else if entries[0].id@ == id {
        Some(entries[0])
    } else {
        script_with_id(entries.drop_first(), id)
    }
}

/// The scripts ordered by title, equal titles in load order.
pub open spec fn by_title(entries: Seq<ScriptEntry>) -> Seq<ScriptEntry> {
    sort_lex(entries.map_values(|e: ScriptEntry| (e.title@, e))).map_values(
        |p: (Seq<char>, ScriptEntry)| p.1,
    )
}

/// The arguments a script runs with: each declared argument with `{query}`
/// replaced by the query, then the query itself when the script needs one and
/// the query is not empty.
pub open spec fn script_args(e: ScriptEntry, query: Seq<char>) -> Seq<Seq<char>> {
    let base = string_views(e.args@).map_values(|a: Seq<char>| seq_replace(a, "{query}"@, query));
    if e.needs_query && query.len() > 0 {
        base.push(query)
    } else {
        base
    }
}

fn hit(e: &ScriptEntry, q: &str, history: &HistoryStats) -> (r: Option<SearchResult>)
    ensures
        match r {
            Some(x) => script_hit(*e, q@, *history) == Some(x@),
            None => script_hit(*e, q@, *history) is None,
        },
{
    let kw = match &e.keyword {
        Some(k) => k.clone(),
        None => String::new(),
    };
    let hay = cat5(e.title.as_str(), " ", kw.as_str(), " ", e.id.as_str());
    match fuzzy_score(hay.as_str(), q) {
        Some(score) => Some(
            build_result(
                make_id(ResultKind::Script, e.id.as_str()),
                ResultKind::Script,
                e.title.clone(),
                clone_opt(&e.keyword),
                opt_or(&e.icon, "utilities-terminal"),
                score,
                q,
                history,
            ),
        ),
        None => None,
    }
}

impl ScriptsIndex {
    /// An index over the given scripts, ordered by title.
    pub fn new(entries: Vec<ScriptEntry>) -> (r: Self)
        ensures
            r.entries@ == by_title(entries@),
    {
        let mut keyed: Vec<(Vec<char>, ScriptEntry)> = Vec::new();
        let mut input = entries;
        let ghost orig = input@;
        let total = input.len();
        let mut n: usize = 0;
        while input.len() > 0
            invariant
                n + input@.len() == orig.len(),
                orig.len() == total,
                input@ == orig.subrange(n as int, orig.len() as int),
                keyed_view(keyed@) == orig.take(n as int).map_values(
                    |e: ScriptEntry| (e.title@, e),
                ),
            decreases input.len(),
        {
            let e = input.remove(0);
            let key = chars_of(e.title.as_str());
            let ghost ev = e;
            let ghost before = keyed@;
            keyed.push((key, e));
            proof {
                assert(keyed_view(keyed@) =~= keyed_view(before).push((ev.title@, ev)));
                assert(orig[n as int] == ev);
                assert(orig.take(n + 1) =~= orig.take(n as int).push(ev));
                assert(orig.take(n + 1).map_values(|e: ScriptEntry| (e.title@, e)) =~= orig.take(
                    n as int,
                ).map_values(|e: ScriptEntry| (e.title@, e)).push((ev.title@, ev)));
                assert(input@ =~= orig.subrange(n + 1, orig.len() as int));
            }
            n = n + 1;
        }
        assert(orig.take(n as int) =~= orig);
        let sorted = sort_by_text(keyed);
        let mut out: Vec<ScriptEntry> = Vec::new();
        let mut rest = sorted;
        let ghost sv = rest@;
        let total2 = rest.len();
        let mut m: usize = 0;
        while rest.len() > 0
            invariant
                m + rest@.len() == sv.len(),
                sv.len() == total2,
                rest@ == sv.subrange(m as int, sv.len() as int),
                out@ == keyed_view(sv).take(m as int).map_values(
                    |p: (Seq<char>, ScriptEntry)| p.1,
                ),
            decreases rest.len(),
        {
            let (_, e) = rest.remove(0);
            out.push(e);
            proof {
                assert(out@ =~= keyed_view(sv).take(m + 1).map_values(
                    |p: (Seq<char>, ScriptEntry)| p.1,
                ));
                assert(rest@ =~= sv.subrange(m + 1, sv.len() as int));
            }
            m = m + 1;
        }
        assert(keyed_view(sv).take(m as int) =~= keyed_view(sv));
        ScriptsIndex { entries: out }
    }

    /// Replaces the scripts with a freshly loaded set, ordered by title.
    pub fn reload(&mut self, entries: Vec<ScriptEntry>)
        ensures
            final(self).entries@ == by_title(entries@),
    {
        let fresh = ScriptsIndex::new(entries);
        self.entries = fresh.entries;
    }

    /// With an empty query the first scripts, else the scripts matching
    /// `query`, best first; at most `limit`.
    pub fn search(&self, query: &str, history: &HistoryStats, limit: usize) -> (r: Vec<
        SearchResult,
    >)
        ensures
            result_views(r@) == script_results(self.entries@, query@, *history, limit as int),
    {
        let qv = trimmed_chars(query);
        if qv.len() == 0 {
            let n = if limit < self.entries.len() {
                limit
            } else {
                self.entries.len()
            };
            let ghost g = |e: ScriptEntry| script_listing(e, *history);
            let mut results: Vec<SearchResult> = Vec::new();
            let mut i: usize = 0;
            while i < n
                invariant
                    i <= n <= self.entries@.len(),
                    n == if limit < self.entries@.len() {
                        limit as int
                    } else {
                        self.entries@.len() as int
                    },
                    g == (|e: ScriptEntry| script_listing(e, *history)),
                    result_views(results@) == self.entries@.take(i as int).map_values(g),
                decreases n - i,
            {
                let e = &self.entries[i];
                let x = build_result(
                    make_id(ResultKind::Script, e.id.as_str()),
                    ResultKind::Script,
                    e.title.clone(),
                    clone_opt(&e.keyword),
                    opt_or(&e.icon, "utilities-terminal"),
                    500,
                    "",
                    history,
                );
                let ghost before = results@;
                results.push(x);
                proof {
                    assert(""@ =~= Seq::<char>::empty()) by {
                        reveal_strlit("");
                    }
                    assert(result_views(results@) =~= result_views(before).push(x@));
                    assert(self.entries@.take(i + 1).map_values(g) =~= self.entries@.take(
                        i as int,
                    ).map_values(g).push(g(self.entries@[i as int])));
                }
                i = i + 1;
            }
            proof {
                assert(take_at_most(self.entries@, limit as int) =~= self.entries@.take(n as int));
            }
            return results;
        }
        let q = string_of(qv.as_slice());
        let ghost f = |e: ScriptEntry| script_hit(e, q@, *history);
        let mut results: Vec<SearchResult> = Vec::new();
        let mut i: usize = 0;
        assert(result_views(results@) =~= self.entries@.take(0).filter_map(f));
        while i < self.entries.len()
            invariant
                i <= self.entries@.len(),
                q@ == seq_trim(query@),
                f == (|e: ScriptEntry| script_hit(e, q@, *history)),
                result_views(results@) == self.entries@.take(i as int).filter_map(f),
            decreases self.entries.len() - i,
        {
            let ghost before = results@;
            proof {
                assert(self.entries@.take(i + 1).drop_last() =~= self.entries@.take(i as int));
                assert(self.entries@.take(i + 1).last() == self.entries@[i as int]);
            }
            match hit(&self.entries[i], q.as_str(), history) {
                Some(x) => {
                    results.push(x);
                    assert(result_views(results@) =~= result_views(before) + seq![x@]);
                },
                None => {},
            }
            i = i + 1;
        }
        assert(self.entries@.take(i as int) =~= self.entries@);
        sort_results(&mut results);
        results.truncate(limit);
        results
    }

    fn position(&self, id: &str) -> (r: Option<usize>)
        ensures
            match r {
                Some(i) => i < self.entries@.len() && script_with_id(self.entries@, id@) == Some(
                    self.entries@[i as int],
                ),
                None => script_with_id(self.entries@, id@) is None,
            },
    {
        let key = chars_of(id);
        let mut i: usize = 0;
        assert(self.entries@.subrange(0, self.entries@.len() as int) =~= self.entries@);
        while i < self.entries.len()
            invariant
                i <= self.entries@.len(),
                key@ == id@,
                script_with_id(self.entries@, id@) == script_with_id(
                    self.entries@.subrange(i as int, self.entries@.len() as int),
                    id@,
                ),
            decreases self.entries.len() - i,
        {
            let ghost rest = self.entries@.subrange(i as int, self.entries@.len() as int);
            let cand = chars_of(self.entries[i].id.as_str());
            if chars_eq(cand.as_slice(), key.as_slice()) {
                return Some(i);
            }
            assert(rest.drop_first() =~= self.entries@.subrange(
                i + 1,
                self.entries@.len() as int,
            ));
            i = i + 1;
        }
        None
    }

    /// A copy of the script with identifier `id`.
    pub fn get(&self, id: &str) -> (r: Option<ScriptEntry>)
        ensures
            match script_with_id(self.entries@, id@) {
                Some(e) => r matches Some(x) && x.id == e.id && x.title == e.title && x.command
                    == e.command && string_views(x.args@) == string_views(e.args@) && x.keyword
                    == e.keyword && x.icon == e.icon && x.needs_query == e.needs_query,
                None => r is None,
            },
    {
        match self.position(id) {
            Some(i) => Some(self.entries[i].duplicate()),
            None => None,
        }
    }

    /// The command and arguments that running script `id` with `query`
    /// executes, or the error for an unknown script.
    pub fn run(&self, id: &str, query: &str) -> (r: Result<(String, Vec<String>), String>)
        ensures
            match script_with_id(self.entries@, id@) {
                Some(e) => r matches Ok((cmd, args)) && cmd@ == e.command@ && string_views(args@)
                    == script_args(e, query@),
                None => r matches Err(msg) && msg@ == "Script não encontrado"@,
            },
    {
        let i = match self.position(id) {
            Some(i) => i,
            None => return Err(String::from_str("Script não encontrado")),
        };
        let e = &self.entries[i];
        let qv = chars_of(query);
        let pat = chars_of("{query}");
        proof {
            reveal_strlit("{query}");
        }
        let ghost rep = |a: Seq<char>| seq_replace(a, "{query}"@, query@);
        let mut args: Vec<String> = Vec::new();
        let mut k: usize = 0;
        while k < e.args.len()
            invariant
                k <= e.args@.len(),
                pat@ == "{query}"@,
                pat@.len() > 0,
                qv@ == query@,
                rep == (|a: Seq<char>| seq_replace(a, "{query}"@, query@)),
                string_views(args@) == string_views(e.args@.take(k as int)).map_values(rep),
            decreases e.args.len() - k,
        {
            let av = chars_of(e.args[k].as_str());
            let replaced = replace_all(av.as_slice(), pat.as_slice(), qv.as_slice());
            let ghost before = args@;
            let item = string_of(replaced.as_slice());
            args.push(item);
            assert(string_views(args@) =~= string_views(before).push(rep(e.args@[k as int]@)));
            assert(string_views(e.args@.take(k + 1)).map_values(rep) =~= string_views(
                e.args@.take(k as int),
            ).map_values(rep).push(rep(e.args@[k as int]@)));
            k = k + 1;
        }
        assert(e.args@.take(k as int) =~= e.args@);
        if e.needs_query && qv.len() > 0 {
            let ghost before = args@;
            args.push(String::from_str(query));
            assert(string_views(args@) =~= string_views(before).push(query@));
        }
        Ok((e.command.clone(), args))
    }
}

/// A script read from a file whose `id` is empty takes the file's stem (or
/// `script`) as identifier.
pub fn with_default_id(entry: ScriptEntry, file_stem: Option<String>) -> (r: ScriptEntry)
    ensures
        r.id@ == (if entry.id@.len() == 0 {
            match file_stem {
                Some(s) => s@,
                None => "script"@,
            }
        } else {
            entry.id@
        }),
        r.title == entry.title,
        r.command == entry.command,
        r.args == entry.args,
        r.keyword == entry.keyword,
        r.icon == entry.icon,
        r.needs_query == entry.needs_query,
{
    let mut entry = entry;
    if entry.id.as_str().is_empty() {
        entry.id = match file_stem {
            Some(s) => s,
            None => String::from_str("script"),
        };
    }
    entry
}


/// The index lists the scripts in order of title, each one a script it was
/// given, and as many as it was given.
pub proof fn lemma_scripts_by_title(entries: Seq<ScriptEntry>)
    ensures
        by_title(entries).len() == entries.len(),
        forall|i: int, j: int| #![trigger by_title(entries)[i], by_title(entries)[j]]
            0 <= i < j < entries.len() ==> !lex_lt(by_title(entries)[j].title@, by_title(entries)[i].title@),
        forall|k: int| 0 <= k < entries.len() ==> entries.contains(#[trigger] by_title(entries)[k]),
{
    let keyed = entries.map_values(|e: ScriptEntry| (e.title@, e));
    let sorted = sort_lex(keyed);
    lemma_sort_lex_sorted(keyed);
    let v = by_title(entries);
    assert forall|k: int| 0 <= k < sorted.len() implies (#[trigger] sorted[k]).0 == sorted[k].1.title@
        && entries.contains(sorted[k].1) by {
        assert(keyed.contains(sorted[k]));
        let m = choose|m: int| 0 <= m < keyed.len() && keyed[m] == sorted[k];
        assert(entries[m] == sorted[k].1);
    }
    assert forall|i: int, j: int| #![trigger v[i], v[j]] 0 <= i < j < entries.len() implies !lex_lt(
        v[j].title@,
        v[i].title@,
    ) by {
        assert(v[i] == sorted[i].1 && v[j] == sorted[j].1);
        assert(sorted[i].0 == sorted[i].1.title@);
        assert(sorted[j].0 == sorted[j].1.title@);
    }
    assert forall|k: int| 0 <= k < entries.len() implies entries.contains(#[trigger] v[k]) by {
        assert(v[k] == sorted[k].1);
        assert(entries.contains(sorted[k].1));
    }
}

} // verus!
