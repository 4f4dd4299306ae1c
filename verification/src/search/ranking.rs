//! Scoring and ordering of search results.
//!
//! A result's score mixes three signals: how well the query matched (60%),
//! how recently the result was opened (25%) and how often (15%). Scores are
//! kept in units of 1/2000 so that the mix stays exact in integers.

use vstd::prelude::*;
use crate::search::match_highlight::{compute_match_ranges, match_ranges_of};
use crate::search::types::{MatchRange, ResultKind, SearchResult};
use crate::text::{chars_eq, chars_of, opt_view};

verus! {

/// Launch statistics of one result.
pub struct LaunchStat {
    pub id: String,
    /// How often the result was opened.
    pub count: i64,
    /// Hours since the result was last opened, if ever.
    pub hours_since_launch: Option<i64>,
}

/// The launch history, as the ranking reads it.
pub struct HistoryStats {
    pub entries: Vec<LaunchStat>,
}

/// The statistics recorded for `id`: the first entry with that identifier,
/// or none.
pub open spec fn stat_of(entries: Seq<LaunchStat>, id: Seq<char>) -> Option<LaunchStat>
    decreases entries.len(),
{
    if entries.len() == 0 {
        None
    } else if entries[0].id@ == id {
        Some(entries[0])
    } else {
        stat_of(entries.drop_first(), id)
    }
}

/// How often `id` was opened (0 if never).
pub open spec fn count_of(h: HistoryStats, id: Seq<char>) -> i64 {
    match stat_of(h.entries@, id) {
        Some(s) => s.count,
        None => 0,
    }
}

/// Hours since `id` was last opened.
pub open spec fn hours_of(h: HistoryStats, id: Seq<char>) -> Option<i64> {
    match stat_of(h.entries@, id) {
        Some(s) => s.hours_since_launch,
        None => None,
    }
}

/// The recency weight in tenths: 1.0 within a day, 0.6 within a week, 0.3
/// within thirty days, 0.1 beyond, 0 when never opened.
pub open spec fn recency_tenths(hours: Option<i64>) -> int {
    match hours {
        None => 0,
        Some(h) => if h < 24 {
            10
        } else if h < 168 {
            6
        } else if h < 720 {
            3
        } else {
            1
        },
    }
}

/// The fuzzy score clamped to `0..=100`.
pub open spec fn clamp_fuzzy(f: i64) -> int {
    if f < 0 {
        0
    } else if f > 100 {
        100
    } else {
        f as int
    }
}

/// `2000 * (0.6 * fuzzy/100 + 0.25 * recency + 0.15 * min(count/20, 1))`.
pub open spec fn combined_score(fuzzy: i64, count: i64, hours: Option<i64>) -> int {
    12 * clamp_fuzzy(fuzzy) + 50 * recency_tenths(hours) + 15 * (if count < 20 {
        count as int
    } else {
        20
    })
}

/// A better match, more launches or a more recent launch never lower a
/// result's score; with a launch count that is not negative the score
/// stays within 0 to 2000 units (0 to 1).
pub proof fn lemma_score_monotonic(f1: i64, f2: i64, c1: i64, c2: i64, h1: Option<i64>, h2: Option<i64>)
    ensures
        f1 <= f2 && c1 <= c2 && recency_tenths(h1) <= recency_tenths(h2) ==> combined_score(f1, c1, h1)
            <= combined_score(f2, c2, h2),
        c1 >= 0 ==> 0 <= combined_score(f1, c1, h1) <= 2000,
{
}

/// The score of a result with identifier `id` and fuzzy score `fuzzy`.
pub open spec fn history_score(h: HistoryStats, id: Seq<char>, fuzzy: i64) -> int {
    combined_score(fuzzy, count_of(h, id), hours_of(h, id))
}

impl HistoryStats {
    /// The entry for `id`, if any.
    fn find(&self, id: &str) -> (r: Option<usize>)
        ensures
            match r {
                Some(i) => i < self.entries@.len() && stat_of(self.entries@, id@) == Some(
                    self.entries@[i as int],
                ),
                None => stat_of(self.entries@, id@) is None,
            },
    {
        let key = chars_of(id);
        let mut i: usize = 0;
        assert(self.entries@.subrange(0, self.entries@.len() as int) =~= self.entries@);
        while i < self.entries.len()
            invariant
                i <= self.entries@.len(),
                key@ == id@,
                stat_of(self.entries@, id@) == stat_of(self.entries@.subrange(
                    i as int,
                    self.entries@.len() as int,
                ), id@),
            decreases self.entries.len() - i,
        {
            let ghost rest = self.entries@.subrange(i as int, self.entries@.len() as int);
            let cand = chars_of(self.entries[i].id.as_str());
            if chars_eq(cand.as_slice(), key.as_slice()) {
                return Some(i);
            }
            assert(rest.drop_first() =~= self.entries@.subrange(
                i + 1,
                self.entries@.len() as int,
            ));
            i = i + 1;
        }
        None
    }

    /// How often `id` was opened.
    pub fn get_count(&self, id: &str) -> (r: i64)
        ensures
            r == count_of(*self, id@),
    {
        match self.find(id) {
            Some(i) => self.entries[i].count,
            None => 0,
        }
    }

    /// The recency weight of `id`, in tenths.
    pub fn recency_boost(&self, id: &str) -> (r: i128)
        ensures
            r == recency_tenths(hours_of(*self, id@)),
    {
        let hours = match self.find(id) {
            Some(i) => self.entries[i].hours_since_launch,
            None => None,
        };
        match hours {
            None => 0,
            Some(h) => if h < 24 {
                10
            } else if h < 168 {
                6
            } else if h < 720 {
                3
            } else {
                1
            },
        }
    }
}

/// Sets the score of `result` from its fuzzy score and its launch history.
pub fn apply_history_boost(result: SearchResult, fuzzy_score: i64, history: &HistoryStats) -> (r:
    SearchResult)
    ensures
        r == (SearchResult {
            score: history_score(*history, result.id@, fuzzy_score) as i128,
            ..result
        }),
{
    let frequency = history.get_count(result.id.as_str());
    let recency = history.recency_boost(result.id.as_str());
    let fuzzy: i128 = if fuzzy_score < 0 {
        0
    } else if fuzzy_score > 100 {
        100
    } else {
        fuzzy_score as i128
    };
    let freq: i128 = if frequency < 20 {
        frequency as i128
    } else {
        20
    };
    let mut result = result;
    result.score = 12 * fuzzy + 50 * recency + 15 * freq;
    result
}

/// A scored result whose title is highlighted where the query occurs.
pub fn build_result(
    id: String,
    kind: ResultKind,
    title: String,
    subtitle: Option<String>,
    icon: Option<String>,
    fuzzy_score: i64,
    query: &str,
    history: &HistoryStats,
) -> (r: SearchResult)
    ensures
        r@ == scored_view(
            id@,
            kind,
            title@,
            opt_view(subtitle),
            opt_view(icon),
            fuzzy_score,
            query@,
            *history,
        ),
{
    let match_ranges = compute_match_ranges(title.as_str(), query);
    apply_history_boost(
        SearchResult { id, kind, title, subtitle, icon, score: 0, match_ranges },
        fuzzy_score,
        history,
    )
}

/// The view of a result as the contracts read it: the text of each field.
pub struct ResultView {
    pub id: Seq<char>,
    pub kind: ResultKind,
    pub title: Seq<char>,
    pub subtitle: Option<Seq<char>>,
    pub icon: Option<Seq<char>>,
    pub score: int,
    pub match_ranges: Seq<MatchRange>,
}

impl View for SearchResult {
    type V = ResultView;

    open spec fn view(&self) -> ResultView {
        ResultView {
            id: self.id@,
            kind: self.kind,
            title: self.title@,
            subtitle: opt_view(self.subtitle),
            icon: opt_view(self.icon),
            score: self.score as int,
            match_ranges: self.match_ranges@,
        }
    }
}

/// The views of a sequence of results.
pub open spec fn result_views(s: Seq<SearchResult>) -> Seq<ResultView> {
    s.map_values(|r: SearchResult| r@)
}

/// The view of the result `build_result` makes.
pub open spec fn scored_view(
    id: Seq<char>,
    kind: ResultKind,
    title: Seq<char>,
    subtitle: Option<Seq<char>>,
    icon: Option<Seq<char>>,
    fuzzy: i64,
    query: Seq<char>,
    h: HistoryStats,
) -> ResultView {
    ResultView {
        id,
        kind,
        title,
        subtitle,
        icon,
        score: history_score(h, id, fuzzy),
        match_ranges: match_ranges_of(title, query),
    }
}

/// `s` (ordered by descending score) with `x` placed after every result that
/// scores at least as much.
pub open spec fn insert_by_score(s: Seq<ResultView>, x: ResultView) -> Seq<ResultView>
    decreases s.len(),
{
    if s.len() == 0 {
        seq![x]
    } else if s[0].score < x.score {
        seq![x] + s
    } else {
        seq![s[0]] + insert_by_score(s.drop_first(), x)
    }
}

/// The results ordered by descending score; results with equal scores keep
/// their order (a stable sort).
pub open spec fn sort_by_score(s: Seq<ResultView>) -> Seq<ResultView>
    decreases s.len(),
{
    if s.len() == 0 {
        s
    } else {
        insert_by_score(sort_by_score(s.drop_last()), s.last())
    }
}

/// The first `n` elements of `s`, or all of them (`Iterator::take`).
pub open spec fn take_at_most<T>(s: Seq<T>, n: int) -> Seq<T> {
    if n < s.len() {
        s.take(n)
    } else {
        s
    }
}

proof fn lemma_insert_at(s: Seq<ResultView>, x: ResultView, p: int)
    requires
        0 <= p <= s.len(),
        forall|k: int| 0 <= k < p ==> !(#[trigger] s[k].score < x.score),
        p == s.len() || s[p].score < x.score,
    ensures
        insert_by_score(s, x) == s.insert(p, x),
    decreases p,
{
    if p == 0 {
        if s.len() == 0 {
            assert(s.insert(0, x) =~= seq![x]);
        } else {
            assert(s.insert(0, x) =~= seq![x] + s);
        }
    } else {
        let t = s.drop_first();
        assert forall|k: int| 0 <= k < p - 1 implies !(#[trigger] t[k].score < x.score) by {
            assert(t[k] == s[k + 1]);
        }
        if p < s.len() {
            assert(t[p - 1] == s[p]);
        }
        lemma_insert_at(t, x, p - 1);
        assert(seq![s[0]] + t.insert(p - 1, x) =~= s.insert(p, x));
    }
}

/// Orders the results by descending score, keeping the order of equal
/// scores.
pub fn sort_results(results: &mut Vec<SearchResult>)
    ensures
        result_views(final(results)@) == sort_by_score(result_views(old(results)@)),
{
    let mut input: Vec<SearchResult> = Vec::new();
    std::mem::swap(results, &mut input);
    let ghost orig = input@;
    let total = input.len();
    let mut out: Vec<SearchResult> = Vec::new();
    let mut n: usize = 0;
    assert(result_views(orig).take(0) =~= Seq::<ResultView>::empty());
    assert(result_views(out@) =~= Seq::<ResultView>::empty());
    while input.len() > 0
        invariant
            n + input@.len() == orig.len(),
            orig.len() == total,
            input@ == orig.subrange(n as int, orig.len() as int),
            result_views(out@) == sort_by_score(result_views(orig).take(n as int)),
        decreases input.len(),
    {
        let x = input.remove(0);
        let mut p: usize = 0;
        while p < out.len() && !(out[p].score < x.score)
            invariant
                p <= out@.len(),
                forall|k: int| 0 <= k < p ==> !(#[trigger] out@[k].score < x.score),
            decreases out.len() - p,
        {
            p = p + 1;
        }
        proof {
            let vs = result_views(out@);
            assert forall|k: int| 0 <= k < p implies !(#[trigger] vs[k].score < x@.score) by {
                assert(vs[k] == out@[k]@);
            }
            if p < out@.len() {
                assert(vs[p as int] == out@[p as int]@);
            }
            lemma_insert_at(vs, x@, p as int);
            let ov = result_views(orig);
            assert(ov.take(n + 1).drop_last() =~= ov.take(n as int));
            assert(ov.take(n + 1).last() == x@);
            assert(input@ =~= orig.subrange(n + 1, orig.len() as int));
        }
        let ghost before = out@;
        out.insert(p, x);
        proof {
            assert(result_views(out@) =~= result_views(before).insert(p as int, x@));
        }
        n = n + 1;
    }
    proof {
        assert(result_views(orig).take(n as int) =~= result_views(orig));
    }
    *results = out;
}

/// Whether results are ordered by descending score.
pub open spec fn by_descending_score(s: Seq<ResultView>) -> bool {
    forall|i: int, j: int| #![trigger s[i], s[j]] 0 <= i < j < s.len() ==> s[j].score <= s[i].score
}

proof fn lemma_insert_bounded(s: Seq<ResultView>, x: ResultView, b: int)
    requires
        forall|k: int| 0 <= k < s.len() ==> #[trigger] s[k].score <= b,
        x.score <= b,
    ensures
        insert_by_score(s, x).len() == s.len() + 1,
        forall|k: int| 0 <= k < insert_by_score(s, x).len() ==> #[trigger] insert_by_score(s, x)[k].score <= b,
    decreases s.len(),
{
    if s.len() > 0 && !(s[0].score < x.score) {
        let t = s.drop_first();
        assert forall|k: int| 0 <= k < t.len() implies #[trigger] t[k].score <= b by {
            assert(t[k] == s[k + 1]);
        }
        lemma_insert_bounded(t, x, b);
        let r = insert_by_score(s, x);
        assert forall|k: int| 0 <= k < r.len() implies #[trigger] r[k].score <= b by {
            if k > 0 {
                assert(r[k] == insert_by_score(t, x)[k - 1]);
            }
        }
    }
}

proof fn lemma_insert_sorted(s: Seq<ResultView>, x: ResultView)
    requires
        by_descending_score(s),
    ensures
        by_descending_score(insert_by_score(s, x)),
    decreases s.len(),
{
    let r = insert_by_score(s, x);
    if s.len() == 0 {
    } else if s[0].score < x.score {
        assert forall|i: int, j: int| #![trigger r[i], r[j]] 0 <= i < j < r.len() implies r[j].score <= r[i].score by {
            if i == 0 {
                assert(r[j] == s[j - 1]);
                if j - 1 > 0 {
                    assert(s[j - 1].score <= s[0].score);
                }
            } else {
                assert(r[i] == s[i - 1]);
                assert(r[j] == s[j - 1]);
            }
        }
    } else {
        let t = s.drop_first();
        assert forall|i: int, j: int| #![trigger t[i], t[j]] 0 <= i < j < t.len() implies t[j].score <= t[i].score by {
            assert(t[i] == s[i + 1]);
            assert(t[j] == s[j + 1]);
        }
        lemma_insert_sorted(t, x);
        assert forall|k: int| 0 <= k < t.len() implies #[trigger] t[k].score <= s[0].score by {
            assert(t[k] == s[k + 1]);
        }
        lemma_insert_bounded(t, x, s[0].score);
        let u = insert_by_score(t, x);
        assert forall|i: int, j: int| #![trigger r[i], r[j]] 0 <= i < j < r.len() implies r[j].score <= r[i].score by {
            assert(r[j] == u[j - 1]);
            if i > 0 {
                assert(r[i] == u[i - 1]);
            }
        }
    }
}

/// Sorting by score orders the results by descending score.
pub proof fn lemma_sort_by_score_sorted(s: Seq<ResultView>)
    ensures
        by_descending_score(sort_by_score(s)),
    decreases s.len(),
{
    if s.len() > 0 {
        lemma_sort_by_score_sorted(s.drop_last());
        lemma_insert_sorted(sort_by_score(s.drop_last()), s.last());
    }
}

proof fn lemma_insert_position(s: Seq<ResultView>, x: ResultView) -> (p: int)
    ensures
        0 <= p <= s.len(),
        insert_by_score(s, x) == s.insert(p, x),
    decreases s.len(),
{
    if s.len() == 0 {
        assert(s.insert(0, x) =~= seq![x]);
        0
    } else if s[0].score < x.score {
        assert(s.insert(0, x) =~= seq![x] + s);
        0
    } else {
        let q = lemma_insert_position(s.drop_first(), x);
        assert(seq![s[0]] + s.drop_first().insert(q, x) =~= s.insert(q + 1, x));
        q + 1
    }
}

/// Sorting by score keeps every result, as often as it occurs.
pub proof fn lemma_sort_by_score_permutation(s: Seq<ResultView>)
    ensures
        sort_by_score(s).to_multiset() =~= s.to_multiset(),
    decreases s.len(),
{
    broadcast use vstd::seq_lib::group_to_multiset_ensures;
    if s.len() == 0 {
        assert(s.to_multiset() =~= vstd::multiset::Multiset::<ResultView>::empty());
    } else {
        lemma_sort_by_score_permutation(s.drop_last());
        let t = sort_by_score(s.drop_last());
        let p = lemma_insert_position(t, s.last());
        let u = t.insert(p, s.last());
        assert(u.remove(p) =~= t);
        assert(u[p] == s.last());
        assert(u.contains(s.last()));
        assert(s.drop_last().push(s.last()) =~= s);
    }
}

} // verus!
