//! Chromium and the browsers built on it: which profile directories are
//! read, and the entries made from each profile's history database and
//! bookmarks file. Listing directories, querying the databases and
//! decoding the bookmarks JSON is the caller's.

use vstd::prelude::*;
use crate::browser::{browser_views, concat_all, made, make_entry, BrowserEntry, BrowserEntryKind, BrowserView, HistoryRow};
use crate::order::{keyed_view, sort_by_text, sort_lex};
use crate::paths::{join, join_spec};
use crate::text::{
    cat, cat3, chars_of, decimal, decimal_text, opt_view, seq_starts_with, signed_decimal, signed_decimal_text,
    starts_with, str_eq,
};

verus! {

/// The browsers read, with their data directories under the home
/// directory.
pub open spec fn browser_table() -> Seq<(Seq<char>, Seq<char>)> {
    seq![
        ("Chrome"@, ".config/google-chrome"@),
        ("Chromium"@, ".config/chromium"@),
        ("Brave"@, ".config/BraveSoftware/Brave-Browser"@),
        ("Edge"@, ".config/microsoft-edge"@),
        ("Vivaldi"@, ".config/vivaldi"@),
    ]
}

/// The browsers read and their data directories (see `browser_table`).
pub fn chromium_browsers() -> (r: Vec<(&'static str, &'static str)>)
    ensures
        r@.map_values(|p: (&'static str, &'static str)| (p.0@, p.1@)) == browser_table(),
{
    let mut v: Vec<(&'static str, &'static str)> = Vec::new();
    v.push(("Chrome", ".config/google-chrome"));
    v.push(("Chromium", ".config/chromium"));
    v.push(("Brave", ".config/BraveSoftware/Brave-Browser"));
    v.push(("Edge", ".config/microsoft-edge"));
    v.push(("Vivaldi", ".config/vivaldi"));
    assert(v@.map_values(|p: (&'static str, &'static str)| (p.0@, p.1@)) =~= browser_table());
    v
}

/// Whether a subdirectory of a browser's data directory is a profile:
/// `Default` or `Profile <n>`.
pub open spec fn is_profile_name(name: Seq<char>) -> bool {
    name == "Default"@ || seq_starts_with(name, "Profile "@)
}

/// The sequence without items equal to the one before them.
pub open spec fn dedup_adjacent(s: Seq<Seq<char>>) -> Seq<Seq<char>>
    decreases s.len(),
{
    if s.len() <= 1 {
        s
    } else if s.last() == s[s.len() - 2] {
        dedup_adjacent(s.drop_last())
    } else {
        dedup_adjacent(s.drop_last()).push(s.last())
    }
}

/// The texts in ascending order.
pub open spec fn sorted_texts(s: Seq<Seq<char>>) -> Seq<Seq<char>> {
    sort_lex(s.map_values(|x: Seq<char>| (x, ()))).map_values(|p: (Seq<char>, ())| p.0)
}

/// The profile directories of a browser's data directory `base`: `base`
/// itself when it holds a `History` or `Bookmarks` file, and each profile
/// subdirectory (see `is_profile_name`), sorted, without repeats.
pub open spec fn profile_dirs(base: Seq<char>, base_has_data: bool, subdirs: Seq<Seq<char>>) -> Seq<Seq<char>> {
    dedup_adjacent(
        sorted_texts(
            (if base_has_data {
                seq![base]
            } else {
                Seq::empty()
            }) + subdirs.filter_map(
                |n: Seq<char>| if is_profile_name(n) {
                    Some(join_spec(base, n))
                } else {
                    None
                },
            ),
        ),
    )
}

proof fn lemma_dedup_last(s: Seq<Seq<char>>)
    requires
        s.len() > 0,
    ensures
        dedup_adjacent(s).len() > 0,
        dedup_adjacent(s).last() == s.last(),
    decreases s.len(),
{
    if s.len() > 1 {
        lemma_dedup_last(s.drop_last());
    }
}

/// The profile directories of `base` (see `profile_dirs`); `subdirs` names
/// the directories in it.
pub fn chromium_profiles(base: &str, base_has_data: bool, subdirs: Vec<String>) -> (r: Vec<String>)
    ensures
        r@.map_values(|s: String| s@) == profile_dirs(base@, base_has_data, subdirs@.map_values(|s: String| s@)),
{
    let ghost names = subdirs@.map_values(|s: String| s@);
    let ghost f = |n: Seq<char>| if is_profile_name(n) {
        Some(join_spec(base@, n))
    } else {
        None
    };
    let mut found: Vec<(Vec<char>, ())> = Vec::new();
    if base_has_data {
        found.push((chars_of(base), ()));
    }
    let ghost head: Seq<Seq<char>> = if base_has_data {
        seq![base@]
    } else {
        Seq::empty()
    };
    assert(keyed_view(found@) =~= (head + names.take(0).filter_map(f)).map_values(|x: Seq<char>| (x, ())));
    let mut i: usize = 0;
    while i < subdirs.len()
        invariant
            i <= subdirs@.len(),
            names == subdirs@.map_values(|s: String| s@),
            f == (|n: Seq<char>| if is_profile_name(n) {
                Some(join_spec(base@, n))
            } else {
                None
            }),
            keyed_view(found@) == (head + names.take(i as int).filter_map(f)).map_values(|x: Seq<char>| (x, ())),
        decreases subdirs.len() - i,
    {
        let name = subdirs[i].as_str();
        proof {
            assert(names.take(i + 1).drop_last() =~= names.take(i as int));
            assert(names.take(i + 1).last() == name@);
            reveal_strlit("Default");
            reveal_strlit("Profile ");
        }
        let ghost before = head + names.take(i as int).filter_map(f);
        if str_eq(name, "Default") || starts_with(chars_of(name).as_slice(), chars_of("Profile ").as_slice()) {
            let p = join(base, name);
            let ghost kb = keyed_view(found@);
            found.push((chars_of(p.as_str()), ()));
            assert(keyed_view(found@) =~= kb.push((join_spec(base@, name@), ())));
            assert(before.push(join_spec(base@, name@)).map_values(|x: Seq<char>| (x, ())) =~= before.map_values(
                |x: Seq<char>| (x, ()),
            ).push((join_spec(base@, name@), ())));
            assert(head + names.take(i + 1).filter_map(f) =~= before.push(join_spec(base@, name@)));
        } else {
            assert(head + names.take(i + 1).filter_map(f) =~= before);
        }
        i = i + 1;
    }
    assert(names.take(i as int) =~= names);
    let ghost all = head + names.filter_map(f);
    let sorted = sort_by_text(found);
    let ghost sv = sort_lex(all.map_values(|x: Seq<char>| (x, ()))).map_values(|p: (Seq<char>, ())| p.0);
    assert(keyed_view(sorted@).map_values(|p: (Seq<char>, ())| p.0) == sv);
    let mut out: Vec<String> = Vec::new();
    let mut j: usize = 0;
    assert(sv.take(0) =~= Seq::<Seq<char>>::empty());
    while j < sorted.len()
        invariant
            j <= sorted@.len(),
            sv.len() == sorted@.len(),
            forall|k: int| 0 <= k < sorted@.len() ==> #[trigger] sorted@[k].0@ == sv[k],
            out@.map_values(|s: String| s@) == dedup_adjacent(sv.take(j as int)),
            j > 0 ==> out@.len() > 0 && out@.last()@ == sv[j - 1],
        decreases sorted.len() - j,
    {
        let ghost before = out@.map_values(|s: String| s@);
        let t = crate::text::string_of(sorted[j].0.as_slice());
        assert(t@ == sv[j as int]);
        proof {
            assert(sv.take(j + 1).drop_last() =~= sv.take(j as int));
            assert(sv.take(j + 1).last() == sv[j as int]);
        }
        let repeat = out.len() > 0 && str_eq(out[out.len() - 1].as_str(), t.as_str());
        if repeat {
            assert(sv.take(j + 1)[j - 1] == sv[j - 1]);
        } else {
            if j > 0 {
                assert(sv.take(j + 1)[j - 1] == sv[j - 1]);
            }
            out.push(t);
            assert(out@.map_values(|s: String| s@) =~= before.push(sv[j as int]));
        }
        j = j + 1;
    }
    assert(sv.take(j as int) =~= sv);
    out
}

/// A node of a browser's bookmarks file: its `type`, `name` and `url`
/// where they are strings, and its `children` where they are a list.
#[derive(Debug)]
pub struct BookmarkNode {
    pub node_type: Option<String>,
    pub name: Option<String>,
    pub url: Option<String>,
    pub children: Vec<BookmarkNode>,
}

/// The three roots of a bookmarks file that are read.
#[derive(Debug)]
pub struct BookmarkRoots {
    pub bookmark_bar: Option<BookmarkNode>,
    pub other: Option<BookmarkNode>,
    pub synced: Option<BookmarkNode>,
}

/// What hashing `s` with a `DefaultHasher::new()` gives. The hasher is not
/// seeded by the process, so this depends on `s` alone for a given build of
/// the standard library.
pub uninterp spec fn default_hash(s: Seq<char>) -> u64;

/// Hashes a string with `BuildHasher::hash_one` on the default builder of
/// `DefaultHasher` (a `DefaultHasher::new()` fed the string,
/// then finished). The contract claims only that the result is the one
/// named by `default_hash`.
#[verifier::external_body]
fn hash_str(s: &str) -> (r: u64)
    ensures
        r == default_hash(s@),
{
    std::hash::BuildHasher::hash_one(
        &std::hash::BuildHasherDefault::<std::collections::hash_map::DefaultHasher>::default(),
        s,
    )
}

/// The entry of a bookmark node of `browser`, if it is one: its type is
/// `url` and its URL is not empty. Its title is its name, or its URL when
/// the name is empty; its identifier holds the hash of its URL.
pub open spec fn own_mark(n: BookmarkNode, browser: Seq<char>) -> Seq<BrowserView> {
    let url = match opt_view(n.url) {
        Some(u) => u,
        None => Seq::empty(),
    };
    let title = match opt_view(n.name) {
        Some(t) => t,
        None => Seq::empty(),
    };
    if opt_view(n.node_type) == Some("url"@) && url.len() > 0 {
        seq![
            made(
                "bookmark:"@ + browser + ":"@ + decimal_text(default_hash(url) as nat),
                BrowserEntryKind::Bookmark,
                if title.len() == 0 {
                    url
                } else {
                    title
                },
                url,
                browser,
                0,
            ),
        ]
    } else {
        Seq::empty()
    }
}

/// The entries of a list of nodes, depth first: each node's own entry,
/// then those of its children, then those of the nodes after it.
pub open spec fn marks(ns: Seq<BookmarkNode>, browser: Seq<char>) -> Seq<BrowserView>
    decreases ns,
{
    if ns.len() == 0 {
        Seq::empty()
    } else {
        proof {
            assert(decreases_to!(ns => ns[0]));
            assert(decreases_to!(ns[0] => ns[0].children));
            assert(decreases_to!(ns[0].children => ns[0].children@));
            assert(decreases_to!(ns => ns.subrange(1, ns.len() as int)));
        }
        own_mark(ns[0], browser) + marks(ns[0].children@, browser) + marks(ns.subrange(1, ns.len() as int), browser)
    }
}

proof fn lemma_marks_append(a: Seq<BookmarkNode>, b: Seq<BookmarkNode>, browser: Seq<char>)
    ensures
        marks(a + b, browser) == marks(a, browser) + marks(b, browser),
    decreases a.len(),
{
    if a.len() == 0 {
        assert(a + b =~= b);
    } else {
        let t = a.subrange(1, a.len() as int);
        lemma_marks_append(t, b, browser);
        assert((a + b)[0] == a[0]);
        assert((a + b).subrange(1, (a + b).len() as int) =~= t + b);
    }
}

/// Adds the entries of a bookmark node and its descendants, depth first.
pub fn walk_bookmark_node(node: &BookmarkNode, browser: &str, out: &mut Vec<BrowserEntry>)
    ensures
        browser_views(final(out)@) == browser_views(old(out)@) + marks(seq![*node], browser@),
    decreases node,
{
    proof {
        reveal_strlit("url");
    }
    let ghost start = browser_views(out@);
    let is_url = match &node.node_type {
        Some(t) => str_eq(t.as_str(), "url"),
        None => false,
    };
    let url = match &node.url {
        Some(u) => u.clone(),
        None => String::new(),
    };
    let title = match &node.name {
        Some(t) => t.clone(),
        None => String::new(),
    };
    if is_url && !url.as_str().is_empty() {
        let shown = if title.as_str().is_empty() {
            url.clone()
        } else {
            title
        };
        let id = cat3(cat("bookmark:", browser).as_str(), ":", decimal(hash_str(url.as_str())).as_str());
        let e = make_entry(id, BrowserEntryKind::Bookmark, shown, url, String::from_str(browser), 0);
        out.push(e);
    }
    assert(browser_views(out@) =~= start + own_mark(*node, browser@));
    let ghost cs = node.children@;
    let mut i: usize = 0;
    assert(cs.take(0) =~= Seq::<BookmarkNode>::empty());
    while i < node.children.len()
        invariant
            i <= cs.len(),
            cs == node.children@,
            browser_views(out@) == start + own_mark(*node, browser@) + marks(cs.take(i as int), browser@),
        decreases node.children.len() - i,
    {
        proof {
            assert(decreases_to!(*node => node.children));
            assert(decreases_to!(node.children => node.children@));
            assert(decreases_to!(node.children@ => node.children@[i as int]));
        }
        let ghost before = browser_views(out@);
        walk_bookmark_node(&node.children[i], browser, out);
        proof {
            assert(cs.take(i + 1) =~= cs.take(i as int) + seq![cs[i as int]]);
            lemma_marks_append(cs.take(i as int), seq![cs[i as int]], browser@);
        }
        i = i + 1;
    }
    assert(cs.take(i as int) =~= cs);
    proof {
        let ns = seq![*node];
        assert(ns.subrange(1, 1) =~= Seq::<BookmarkNode>::empty());
        assert(marks(ns, browser@) == own_mark(*node, browser@) + marks(cs, browser@) + marks(
            ns.subrange(1, 1),
            browser@,
        ));
    }
    assert(browser_views(out@) =~= start + marks(seq![*node], browser@));
}

/// The entries of a root, if it is there.
pub open spec fn root_marks(root: Option<BookmarkNode>, browser: Seq<char>) -> Seq<BrowserView> {
    match root {
        Some(n) => marks(seq![n], browser),
        None => Seq::empty(),
    }
}

/// The entries of a bookmarks file: those under the bookmark bar, then
/// under "other", then under "synced".
pub open spec fn bookmark_views(roots: BookmarkRoots, browser: Seq<char>) -> Seq<BrowserView> {
    root_marks(roots.bookmark_bar, browser) + root_marks(roots.other, browser) + root_marks(roots.synced, browser)
}

fn walk_root(root: &Option<BookmarkNode>, browser: &str, out: &mut Vec<BrowserEntry>)
    ensures
        browser_views(final(out)@) == browser_views(old(out)@) + root_marks(*root, browser@),
{
    match root {
        Some(n) => walk_bookmark_node(n, browser, out),
        None => {
            assert(browser_views(out@) =~= browser_views(out@) + Seq::<BrowserView>::empty());
        },
    }
}

/// The entries of a bookmarks file (see `bookmark_views`).
pub fn load_bookmarks_json(roots: &BookmarkRoots, browser: &str) -> (r: Vec<BrowserEntry>)
    ensures
        browser_views(r@) == bookmark_views(*roots, browser@),
{
    let mut out: Vec<BrowserEntry> = Vec::new();
    walk_root(&roots.bookmark_bar, browser, &mut out);
    walk_root(&roots.other, browser, &mut out);
    walk_root(&roots.synced, browser, &mut out);
    assert(browser_views(out@) =~= bookmark_views(*roots, browser@));
    out
}

/// The entry of a visited page in `browser`'s history.
pub open spec fn history_view(browser: Seq<char>, h: HistoryRow) -> BrowserView {
    made(
        "browser:"@ + browser + ":"@ + signed_decimal_text(h.id as int),
        BrowserEntryKind::History,
        h.title@,
        h.url@,
        browser,
        h.visit_count,
    )
}

/// The entries of `browser`'s history, in the database's order.
pub fn load_history(rows: &Vec<HistoryRow>, browser: &str) -> (r: Vec<BrowserEntry>)
    ensures
        browser_views(r@) == rows@.map_values(|h: HistoryRow| history_view(browser@, h)),
{
    let mut out: Vec<BrowserEntry> = Vec::new();
    let mut i: usize = 0;
    while i < rows.len()
        invariant
            i <= rows@.len(),
            browser_views(out@) == rows@.take(i as int).map_values(|h: HistoryRow| history_view(browser@, h)),
        decreases rows.len() - i,
    {
        let row = &rows[i];
        let id = cat3(cat("browser:", browser).as_str(), ":", signed_decimal(row.id).as_str());
        let e = make_entry(
            id,
            BrowserEntryKind::History,
            row.title.clone(),
            row.url.clone(),
            String::from_str(browser),
            row.visit_count,
        );
        let ghost before = browser_views(out@);
        out.push(e);
        assert(browser_views(out@) =~= before.push(e@));
        assert(rows@.take(i + 1).map_values(|h: HistoryRow| history_view(browser@, h)) =~= rows@.take(
            i as int,
        ).map_values(|h: HistoryRow| history_view(browser@, h)).push(history_view(browser@, rows@[i as int])));
        i = i + 1;
    }
    assert(rows@.take(i as int) =~= rows@);
    out
}

/// What one profile of a browser gave: its history, if its database could
/// be read, and its bookmarks, if its bookmarks file could be decoded.
#[derive(Debug)]
pub struct ChromiumProfile {
    pub browser: String,
    pub history: Option<Vec<HistoryRow>>,
    pub bookmarks: Option<BookmarkRoots>,
}

/// The entries of one profile: its history, then its bookmarks.
pub open spec fn profile_views(p: ChromiumProfile) -> Seq<BrowserView> {
    (match p.history {
        Some(rows) => rows@.map_values(|h: HistoryRow| history_view(p.browser@, h)),
        None => Seq::empty(),
    }) + match p.bookmarks {
        Some(roots) => bookmark_views(roots, p.browser@),
        None => Seq::empty(),
    }
}

/// The entries of every profile read, one profile after another.
pub fn load_entries(profiles: Vec<ChromiumProfile>) -> (r: Vec<BrowserEntry>)
    ensures
        browser_views(r@) == concat_all(profiles@.map_values(|p: ChromiumProfile| profile_views(p))),
{
    let ghost all = profiles@.map_values(|p: ChromiumProfile| profile_views(p));
    let mut out: Vec<BrowserEntry> = Vec::new();
    let mut i: usize = 0;
    assert(browser_views(out@) =~= concat_all(all.take(0)));
    while i < profiles.len()
        invariant
            i <= profiles@.len(),
            all == profiles@.map_values(|p: ChromiumProfile| profile_views(p)),
            browser_views(out@) == concat_all(all.take(i as int)),
        decreases profiles.len() - i,
    {
        let p = &profiles[i];
        let ghost before = browser_views(out@);
        let mut h = match &p.history {
            Some(rows) => load_history(rows, p.browser.as_str()),
            None => Vec::new(),
        };
        let mut b = match &p.bookmarks {
            Some(roots) => load_bookmarks_json(roots, p.browser.as_str()),
            None => Vec::new(),
        };
        let ghost hv = browser_views(h@);
        let ghost bv = browser_views(b@);
        out.append(&mut h);
        out.append(&mut b);
        assert(browser_views(out@) =~= before + hv + bv);
        assert(hv + bv =~= profile_views(*p));
        assert(all.take(i + 1).drop_last() =~= all.take(i as int));
        i = i + 1;
    }
    assert(all.take(i as int) =~= all);
    out
}

} // verus!
