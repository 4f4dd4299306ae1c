//! Firefox: the profiles named in `profiles.ini`, and the entries made from
//! the bookmarks and history each profile's `places.sqlite` holds. Reading
//! the files and querying the databases is the caller's.

use vstd::prelude::*;
use crate::browser::{browser_views, concat_all, made, make_entry, BrowserEntry, BrowserEntryKind, BrowserView, HistoryRow};
use crate::paths::{join, join_spec};
use crate::text::{
    cat, chars_of, find_sub_from, lemma_find_sub_bound, lines, seq_find_sub, seq_lines, seq_starts_with, seq_trim,
    signed_decimal, signed_decimal_text, slice_chars, starts_with, string_of, trim_bounds, views,
};

verus! {

/// The pieces of `s` between the occurrences of the nonempty `sep`, as
/// `str::split` gives them.
pub open spec fn split_on(s: Seq<char>, sep: Seq<char>) -> Seq<Seq<char>>
    decreases s.len(),
{
    if sep.len() == 0 {
        seq![s]
    } else {
        let i = seq_find_sub(s, sep);
        if i + sep.len() > s.len() {
            seq![s]
        } else {
            proof {
                lemma_find_sub_bound(s, sep);
            }
            seq![s.take(i)] + split_on(s.subrange(i + sep.len(), s.len() as int), sep)
        }
    }
}

/// The value of the last `Path=` line of a section, both trimmed.
pub open spec fn last_path(ls: Seq<Seq<char>>) -> Option<Seq<char>>
    decreases ls.len(),
{
    if ls.len() == 0 {
        None
    } else if seq_starts_with(seq_trim(ls.last()), "Path="@) {
        Some(seq_trim(seq_trim(ls.last()).subrange(5, seq_trim(ls.last()).len() as int)))
    } else {
        last_path(ls.drop_last())
    }
}

/// Where a profile's path points: an absolute path as it is, a relative
/// one under `base`.
pub open spec fn profile_dir(base: Seq<char>, rel: Seq<char>) -> Seq<char> {
    if rel.len() > 0 && rel[0] == '/' {
        rel
    } else {
        join_spec(base, rel)
    }
}

/// The profile directories `profiles.ini` names, in its order: for each
/// piece of the file between occurrences of `[Profile` that has a `Path=`
/// line, the last such path, under `base` when relative. Whether each
/// exists is for the caller to check.
pub open spec fn profile_dirs(content: Seq<char>, base: Seq<char>) -> Seq<Seq<char>> {
    split_on(content, "[Profile"@).filter_map(
        |sec: Seq<char>| match last_path(seq_lines(sec)) {
            Some(rel) => Some(profile_dir(base, rel)),
            None => None,
        },
    )
}

fn section_path(sec: &[char]) -> (r: Option<Vec<char>>)
    ensures
        match r {
            Some(p) => last_path(seq_lines(sec@)) == Some(p@),
            None => last_path(seq_lines(sec@)) is None,
        },
{
    let ls = lines(sec);
    let ghost lv = views(ls@);
    let key = chars_of("Path=");
    proof {
        reveal_strlit("Path=");
    }
    assert(key@.len() == 5);
    let mut path: Option<Vec<char>> = None;
    let mut i: usize = 0;
    assert(lv.take(0) =~= Seq::<Seq<char>>::empty());
    while i < ls.len()
        invariant
            i <= ls@.len(),
            lv == views(ls@),
            lv == seq_lines(sec@),
            key@ == "Path="@,
            key@.len() == 5,
            match path {
                Some(p) => last_path(lv.take(i as int)) == Some(p@),
                None => last_path(lv.take(i as int)) is None,
            },
        decreases ls.len() - i,
    {
        let (a, b) = trim_bounds(ls[i].as_slice());
        let line = slice_chars(ls[i].as_slice(), a, b);
        proof {
            assert(lv[i as int] == ls@[i as int]@);
            assert(lv.take(i + 1).drop_last() =~= lv.take(i as int));
            assert(lv.take(i + 1).last() == lv[i as int]);
        }
        assert(line@ == seq_trim(lv[i as int]));
        if starts_with(line.as_slice(), key.as_slice()) {
            let rest = slice_chars(line.as_slice(), 5, line.len());
            let (c, d) = trim_bounds(rest.as_slice());
            let value = slice_chars(rest.as_slice(), c, d);
            path = Some(value);
        }
        i = i + 1;
    }
    assert(lv.take(i as int) =~= lv);
    path
}

/// The profile directories named in `profiles.ini` (see `profile_dirs`).
pub fn profile_paths(content: &str, base: &str) -> (r: Vec<String>)
    ensures
        r@.map_values(|s: String| s@) == profile_dirs(content@, base@),
{
    let s = chars_of(content);
    let sep = chars_of("[Profile");
    proof {
        reveal_strlit("[Profile");
    }
    assert(sep@.len() == 8);
    let ghost f = |sec: Seq<char>| match last_path(seq_lines(sec)) {
        Some(rel) => Some(profile_dir(base@, rel)),
        None => None,
    };
    let mut out: Vec<String> = Vec::new();
    let mut p: usize = 0;
    assert(s@.subrange(0, s.len() as int) =~= s@);
    loop
        invariant
            p <= s.len(),
            s@ == content@,
            sep@ == "[Profile"@,
            sep@.len() == 8,
            f == (|sec: Seq<char>| match last_path(seq_lines(sec)) {
                Some(rel) => Some(profile_dir(base@, rel)),
                None => None,
            }),
            out@.map_values(|s: String| s@) + split_on(s@.subrange(p as int, s.len() as int), sep@).filter_map(f)
                == split_on(s@, sep@).filter_map(f),
        decreases s.len() - p,
    {
        let ghost t = s@.subrange(p as int, s.len() as int);
        let i = find_sub_from(s.as_slice(), sep.as_slice(), p);
        proof {
            lemma_find_sub_bound(t, sep@);
        }
        let last = i >= s.len() || sep.len() > s.len() - i;
        let end = if last {
            s.len()
        } else {
            i
        };
        let sec = slice_chars(s.as_slice(), p, end);
        let ghost before = out@.map_values(|s: String| s@);
        match section_path(sec.as_slice()) {
            Some(rel) => {
                let dir = if rel.len() > 0 && rel[0] == '/' {
                    string_of(rel.as_slice())
                } else {
                    join(base, string_of(rel.as_slice()).as_str())
                };
                out.push(dir);
                assert(out@.map_values(|s: String| s@) =~= before.push(profile_dir(base@, rel@)));
            },
            None => {},
        }
        if last {
            proof {
                assert(sec@ =~= t);
                assert(split_on(t, sep@) == seq![t]);
                lemma_filter_map_cons(t, Seq::<Seq<char>>::empty(), f);
                assert(seq![t] + Seq::<Seq<char>>::empty() =~= seq![t]);
                assert(Seq::<Seq<char>>::empty().filter_map(f) =~= Seq::<Seq<char>>::empty());
                assert(out@.map_values(|s: String| s@) =~= before + split_on(t, sep@).filter_map(f));
                assert(s@.subrange(p as int, s.len() as int) == t);
            }
            return out;
        }
        proof {
            let rest = t.subrange(i - p + 8, t.len() as int);
            assert(sec@ =~= t.take(i - p));
            assert(rest =~= s@.subrange(i + 8, s.len() as int));
            assert(split_on(t, sep@) == seq![t.take(i - p)] + split_on(rest, sep@));
            lemma_filter_map_cons(t.take(i - p), split_on(rest, sep@), f);
        }
        p = i + 8;
    }
}

proof fn lemma_filter_map_cons<A, B>(x: A, s: Seq<A>, f: spec_fn(A) -> Option<B>)
    ensures
        (seq![x] + s).filter_map(f) == match f(x) {
            Some(y) => seq![y],
            None => Seq::<B>::empty(),
        } + s.filter_map(f),
    decreases s.len(),
{
    let fx = match f(x) {
        Some(y) => seq![y],
        None => Seq::<B>::empty(),
    };
    if s.len() == 0 {
        assert(seq![x] + s =~= seq![x]);
        assert(seq![x].drop_last() =~= Seq::<A>::empty());
        assert(Seq::<A>::empty().filter_map(f) =~= Seq::<B>::empty());
        assert(seq![x].filter_map(f) =~= fx);
        assert(fx + s.filter_map(f) =~= fx);
    } else {
        lemma_filter_map_cons(x, s.drop_last(), f);
        let xs = seq![x] + s;
        assert(xs.drop_last() =~= seq![x] + s.drop_last());
        assert(xs.last() == s.last());
        match f(s.last()) {
            Some(y) => {
                assert(xs.filter_map(f) == xs.drop_last().filter_map(f) + seq![y]);
                assert(s.filter_map(f) == s.drop_last().filter_map(f) + seq![y]);
                assert(fx + s.drop_last().filter_map(f) + seq![y] =~= fx + (s.drop_last().filter_map(f) + seq![y]));
            },
            None => {
                assert(xs.filter_map(f) == xs.drop_last().filter_map(f));
                assert(s.filter_map(f) == s.drop_last().filter_map(f));
            },
        }
    }
}

/// A bookmark row as `places.sqlite` gives it: its identifier, its title
/// (the place's title, else its URL, when the bookmark has none) and URL.
#[derive(Clone, Debug)]
pub struct BookmarkRow {
    pub id: i64,
    pub title: String,
    pub url: String,
}

/// What one profile's database gave: its bookmarks and its history.
#[derive(Clone, Debug)]
pub struct ProfilePlaces {
    pub bookmarks: Vec<BookmarkRow>,
    pub history: Vec<HistoryRow>,
}

/// The entry of a Firefox bookmark.
pub open spec fn bookmark_view(b: BookmarkRow) -> BrowserView {
    made(
        "bookmark:firefox:"@ + signed_decimal_text(b.id as int),
        BrowserEntryKind::Bookmark,
        b.title@,
        b.url@,
        "Firefox"@,
        0,
    )
}

/// The entry of a place in Firefox's history.
pub open spec fn history_view(h: HistoryRow) -> BrowserView {
    made(
        "browser:firefox:"@ + signed_decimal_text(h.id as int),
        BrowserEntryKind::History,
        h.title@,
        h.url@,
        "Firefox"@,
        h.visit_count,
    )
}

/// The entries of one profile: its bookmarks, then its history.
pub open spec fn places_views(p: ProfilePlaces) -> Seq<BrowserView> {
    p.bookmarks@.map_values(|b: BookmarkRow| bookmark_view(b)) + p.history@.map_values(|h: HistoryRow| history_view(h))
}

/// The entry of a Firefox bookmark (see `bookmark_view`).
pub fn bookmark_entry(row: &BookmarkRow) -> (r: BrowserEntry)
    ensures
        r@ == bookmark_view(*row),
{
    make_entry(
        cat("bookmark:firefox:", signed_decimal(row.id).as_str()),
        BrowserEntryKind::Bookmark,
        row.title.clone(),
        row.url.clone(),
        String::from_str("Firefox"),
        0,
    )
}

/// The entry of a place in Firefox's history (see `history_view`).
pub fn history_entry(row: &HistoryRow) -> (r: BrowserEntry)
    ensures
        r@ == history_view(*row),
{
    make_entry(
        cat("browser:firefox:", signed_decimal(row.id).as_str()),
        BrowserEntryKind::History,
        row.title.clone(),
        row.url.clone(),
        String::from_str("Firefox"),
        row.visit_count,
    )
}

fn places_entries(p: &ProfilePlaces, out: &mut Vec<BrowserEntry>)
    ensures
        browser_views(final(out)@) == browser_views(old(out)@) + places_views(*p),
{
    let ghost start = browser_views(out@);
    let mut i: usize = 0;
    while i < p.bookmarks.len()
        invariant
            i <= p.bookmarks@.len(),
            browser_views(out@) == start + p.bookmarks@.take(i as int).map_values(|b: BookmarkRow| bookmark_view(b)),
        decreases p.bookmarks.len() - i,
    {
        let e = bookmark_entry(&p.bookmarks[i]);
        let ghost before = browser_views(out@);
        out.push(e);
        assert(browser_views(out@) =~= before.push(e@));
        assert(p.bookmarks@.take(i + 1).map_values(|b: BookmarkRow| bookmark_view(b)) =~= p.bookmarks@.take(
            i as int,
        ).map_values(|b: BookmarkRow| bookmark_view(b)).push(bookmark_view(p.bookmarks@[i as int])));
        i = i + 1;
    }
    assert(p.bookmarks@.take(i as int) =~= p.bookmarks@);
    let ghost mid = browser_views(out@);
    let mut j: usize = 0;
    while j < p.history.len()
        invariant
            j <= p.history@.len(),
            browser_views(out@) == mid + p.history@.take(j as int).map_values(|h: HistoryRow| history_view(h)),
        decreases p.history.len() - j,
    {
        let e = history_entry(&p.history[j]);
        let ghost before = browser_views(out@);
        out.push(e);
        assert(browser_views(out@) =~= before.push(e@));
        assert(p.history@.take(j + 1).map_values(|h: HistoryRow| history_view(h)) =~= p.history@.take(
            j as int,
        ).map_values(|h: HistoryRow| history_view(h)).push(history_view(p.history@[j as int])));
        j = j + 1;
    }
    assert(p.history@.take(j as int) =~= p.history@);
    assert(browser_views(out@) =~= start + places_views(*p));
}

/// The Firefox entries of the profiles whose database could be read, one
/// profile after another.
pub fn load_entries(profiles: Vec<ProfilePlaces>) -> (r: Vec<BrowserEntry>)
    ensures
        browser_views(r@) == concat_all(profiles@.map_values(|p: ProfilePlaces| places_views(p))),
{
    let ghost all = profiles@.map_values(|p: ProfilePlaces| places_views(p));
    let mut out: Vec<BrowserEntry> = Vec::new();
    let mut i: usize = 0;
    assert(browser_views(out@) =~= concat_all(all.take(0)));
    while i < profiles.len()
        invariant
            i <= profiles@.len(),
            all == profiles@.map_values(|p: ProfilePlaces| places_views(p)),
            browser_views(out@) == concat_all(all.take(i as int)),
        decreases profiles.len() - i,
    {
        places_entries(&profiles[i], &mut out);
        assert(all.take(i + 1).drop_last() =~= all.take(i as int));
        i = i + 1;
    }
    assert(all.take(i as int) =~= all);
    out
}

} // verus!
