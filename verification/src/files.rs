//! Documents: the file index's results, the files found on disk when the
//! index falls short, previews of text files, and which paths are indexed.
//! The index database, the disk search and the file reads are the caller's.

use vstd::prelude::*;
use crate::matchers::{fuzzy_score, skim_score};
use crate::paths::{file_name_of, join, join_spec, parent_of, path_file_name, path_parent};
use crate::search::ranking::{
    build_result, result_views, scored_view, sort_by_score, sort_results, take_at_most, HistoryStats, ResultView,
};
use crate::search::types::{make_id, result_id, ResultKind, SearchResult};
use crate::text::{
    chars_eq, chars_of, contains, join as join_chars, lines, opt_view, seq_contains, seq_join, seq_lines, seq_trim,
    seq_utf8_len, str_eq, string_of, trimmed_chars, utf8_len_below, views, decimal, decimal_text, slice_chars,
    trim_bounds,
};

verus! {

/// A file the index holds: its path, name and folder.
#[derive(Clone, Debug)]
pub struct IndexedFile {
    pub path: String,
    pub name: String,
    pub parent: String,
}

/// The result of an indexed file for the trimmed query `q`: a fuzzy match
/// of its name.
pub open spec fn indexed_hit(f: IndexedFile, q: Seq<char>, h: HistoryStats) -> Option<ResultView> {
    match skim_score(f.name@, q) {
        Some(score) => Some(
            scored_view(
                result_id(ResultKind::File, f.path@),
                ResultKind::File,
                f.name@,
                Some(f.parent@),
                Some("text-x-generic"@),
                score,
                q,
                h,
            ),
        ),
        None => None,
    }
}

/// The index's results: none before the index is ready or for a trimmed
/// query shorter than two bytes; else the rows the index gave whose name
/// matches, best first, at most `limit`.
pub open spec fn index_results(ready: bool, rows: Seq<IndexedFile>, query: Seq<char>, h: HistoryStats, limit: int) -> Seq<
    ResultView,
> {
    let q = seq_trim(query);
    if !ready || seq_utf8_len(q) < 2 {
        Seq::empty()
    } else {
        take_at_most(sort_by_score(rows.filter_map(|f: IndexedFile| indexed_hit(f, q, h))), limit)
    }
}

/// Whether the index is asked at all: it is ready and the trimmed query
/// has two bytes or more.
pub fn index_queried(ready: bool, query: &str) -> (r: bool)
    ensures
        r == (ready && seq_utf8_len(seq_trim(query@)) >= 2),
{
    ready && !utf8_len_below(trimmed_chars(query).as_slice(), 2)
}

/// The index's results from the rows it gave (see `index_results`).
pub fn search_index(ready: bool, rows: Vec<IndexedFile>, query: &str, history: &HistoryStats, limit: usize) -> (r: Vec<
    SearchResult,
>)
    ensures
        result_views(r@) == index_results(ready, rows@, query@, *history, limit as int),
{
    let qv = trimmed_chars(query);
    if !ready || utf8_len_below(qv.as_slice(), 2) {
        let r: Vec<SearchResult> = Vec::new();
        assert(result_views(r@) =~= Seq::<ResultView>::empty());
        return r;
    }
    let q = string_of(qv.as_slice());
    let ghost f = |x: IndexedFile| indexed_hit(x, q@, *history);
    let mut results: Vec<SearchResult> = Vec::new();
    let mut i: usize = 0;
    assert(result_views(results@) =~= rows@.take(0).filter_map(f));
    while i < rows.len()
        invariant
            i <= rows@.len(),
            q@ == seq_trim(query@),
            f == (|x: IndexedFile| indexed_hit(x, q@, *history)),
            result_views(results@) == rows@.take(i as int).filter_map(f),
        decreases rows.len() - i,
    {
        let ghost before = results@;
        let row = &rows[i];
        proof {
            assert(rows@.take(i + 1).drop_last() =~= rows@.take(i as int));
            assert(rows@.take(i + 1).last() == *row);
        }
        match fuzzy_score(row.name.as_str(), q.as_str()) {
            Some(score) => {
                let x = build_result(
                    make_id(ResultKind::File, row.path.as_str()),
                    ResultKind::File,
                    row.name.clone(),
                    Some(row.parent.clone()),
                    Some(String::from_str("text-x-generic")),
                    score,
                    q.as_str(),
                    history,
                );
                results.push(x);
                assert(result_views(results@) =~= result_views(before) + seq![x@]);
            },
            None => {},
        }
        i = i + 1;
    }
    assert(rows@.take(i as int) =~= rows@);
    sort_results(&mut results);
    results.truncate(limit);
    results
}

/// What `mime_guess::from_path(path).first()` gives: the type and subtype
/// of the first guess, if any.
pub uninterp spec fn mime_of(path: Seq<char>) -> Option<(Seq<char>, Seq<char>)>;

/// `mime_guess::from_path(path).first()` of `mime-guess`, read as type and
/// subtype. The contract claims only that the result is the one named by
/// `mime_of`: a function of the path alone.
#[verifier::external_body]
fn guess_mime(path: &str) -> (r: Option<(String, String)>)
    ensures
        match r {
            Some((t, s)) => mime_of(path@) == Some((t@, s@)),
            None => mime_of(path@) is None,
        },
{
    mime_guess::from_path(path).first().map(|m| (m.type_().as_str().to_string(), m.subtype().as_str().to_string()))
}

/// Whether a path names an image by its extension.
pub fn is_image(path: &str) -> (r: bool)
    ensures
        r == match mime_of(path@) {
            Some((t, _)) => t == "image"@,
            None => false,
        },
{
    match guess_mime(path) {
        Some((t, _)) => str_eq(t.as_str(), "image"),
        None => false,
    }
}

/// The icon of a file found on disk: the file itself, when its type is
/// known by its extension.
pub fn file_icon(path: &str) -> (r: Option<String>)
    ensures
        opt_view(r) == if mime_of(path@) is Some {
            Some(path@)
        } else {
            None
        },
{
    match guess_mime(path) {
        Some(_) => Some(String::from_str(path)),
        None => None,
    }
}

/// What the file search needs: the index's results suffice (fewer than
/// `limit` only when the trimmed query is shorter than four bytes), or the
/// disk is searched for as many more as are missing.
pub enum FileSearchStep {
    Done(Vec<SearchResult>),
    SearchDisk { indexed: Vec<SearchResult>, remaining: usize },
}

/// Whether the file search asks the index at all: the trimmed query has
/// three bytes or more.
pub fn files_queried(query: &str) -> (r: bool)
    ensures
        r == (seq_utf8_len(seq_trim(query@)) >= 3),
{
    !utf8_len_below(trimmed_chars(query).as_slice(), 3)
}

/// What the file search needs after the index answered.
pub fn after_index(query: &str, indexed: Vec<SearchResult>, limit: usize) -> (r: FileSearchStep)
    ensures
        indexed@.len() >= limit || seq_utf8_len(seq_trim(query@)) < 4 ==> (r matches FileSearchStep::Done(v)
            && v@ == indexed@),
        !(indexed@.len() >= limit || seq_utf8_len(seq_trim(query@)) < 4) ==> (r matches FileSearchStep::SearchDisk {
            indexed: v,
            remaining,
        } && v@ == indexed@ && remaining == limit - indexed@.len()),
{
    if indexed.len() >= limit {
        return FileSearchStep::Done(indexed);
    }
    if utf8_len_below(trimmed_chars(query).as_slice(), 4) {
        return FileSearchStep::Done(indexed);
    }
    let remaining = limit - indexed.len();
    FileSearchStep::SearchDisk { indexed, remaining }
}

/// The result of a file found on disk for the trimmed query `q`: a fuzzy
/// match of its name (a path without a name or a folder gives none).
pub open spec fn disk_hit(path: Seq<char>, q: Seq<char>, h: HistoryStats) -> Option<ResultView> {
    match (file_name_of(path), parent_of(path)) {
        (Some(name), Some(parent)) => match skim_score(name, q) {
            Some(score) => Some(
                scored_view(
                    result_id(ResultKind::File, path),
                    ResultKind::File,
                    name,
                    Some(parent),
                    if mime_of(path) is Some {
                        Some(path)
                    } else {
                        None
                    },
                    score,
                    q,
                    h,
                ),
            ),
            None => None,
        },
        _ => None,
    }
}

/// The combined file results: the index's, then the best `remaining` of
/// the disk's (those the index did not give already).
pub open spec fn combined_files(
    indexed: Seq<ResultView>,
    paths: Seq<Seq<char>>,
    query: Seq<char>,
    h: HistoryStats,
    remaining: int,
) -> Seq<ResultView> {
    let q = seq_trim(query);
    let fresh = paths.filter_map(
        |p: Seq<char>| if exists|k: int| 0 <= k < indexed.len() && indexed[k].id == result_id(ResultKind::File, p) {
            None
        } else {
            Some(p)
        },
    );
    indexed + take_at_most(sort_by_score(fresh.filter_map(|p: Seq<char>| disk_hit(p, q, h))), remaining)
}

/// The combined file results (see `combined_files`), with the paths the
/// disk search found.
pub fn merge_disk_results(
    query: &str,
    indexed: Vec<SearchResult>,
    remaining: usize,
    paths: Vec<String>,
    history: &HistoryStats,
) -> (r: Vec<SearchResult>)
    ensures
        result_views(r@) == combined_files(
            result_views(indexed@),
            paths@.map_values(|p: String| p@),
            query@,
            *history,
            remaining as int,
        ),
{
    let q = string_of(trimmed_chars(query).as_slice());
    let ghost iv = result_views(indexed@);
    let ghost pv = paths@.map_values(|p: String| p@);
    let ghost keep = |p: Seq<char>| if exists|k: int| 0 <= k < iv.len() && iv[k].id == result_id(ResultKind::File, p) {
        None
    } else {
        Some(p)
    };
    let ghost hit = |p: Seq<char>| disk_hit(p, q@, *history);
    let mut fresh: Vec<String> = Vec::new();
    let mut i: usize = 0;
    assert(fresh@.map_values(|p: String| p@) =~= pv.take(0).filter_map(keep));
    while i < paths.len()
        invariant
            i <= paths@.len(),
            pv == paths@.map_values(|p: String| p@),
            iv == result_views(indexed@),
            keep == (|p: Seq<char>| if exists|k: int| 0 <= k < iv.len() && iv[k].id == result_id(ResultKind::File, p) {
                None
            } else {
                Some(p)
            }),
            fresh@.map_values(|p: String| p@) == pv.take(i as int).filter_map(keep),
        decreases paths.len() - i,
    {
        proof {
            assert(pv.take(i + 1).drop_last() =~= pv.take(i as int));
            assert(pv.take(i + 1).last() == paths@[i as int]@);
        }
        let id = make_id(ResultKind::File, paths[i].as_str());
        let mut seen = false;
        let mut k: usize = 0;
        while k < indexed.len()
            invariant
                k <= indexed@.len(),
                iv == result_views(indexed@),
                seen == (exists|j: int| 0 <= j < k && iv[j].id == id@),
            decreases indexed.len() - k,
        {
            if str_eq(indexed[k].id.as_str(), id.as_str()) {
                assert(iv[k as int].id == id@);
                seen = true;
            }
            k = k + 1;
        }
        if !seen {
            let ghost before = fresh@.map_values(|p: String| p@);
            fresh.push(paths[i].clone());
            assert(fresh@.map_values(|p: String| p@) =~= before.push(paths@[i as int]@));
        }
        i = i + 1;
    }
    assert(pv.take(i as int) =~= pv);
    let ghost fv = fresh@.map_values(|p: String| p@);
    let mut results: Vec<SearchResult> = Vec::new();
    let mut j: usize = 0;
    assert(result_views(results@) =~= fv.take(0).filter_map(hit));
    while j < fresh.len()
        invariant
            j <= fresh@.len(),
            fv == fresh@.map_values(|p: String| p@),
            q@ == seq_trim(query@),
            hit == (|p: Seq<char>| disk_hit(p, q@, *history)),
            result_views(results@) == fv.take(j as int).filter_map(hit),
        decreases fresh.len() - j,
    {
        let ghost before = results@;
        let p = fresh[j].as_str();
        proof {
            assert(fv.take(j + 1).drop_last() =~= fv.take(j as int));
            assert(fv.take(j + 1).last() == p@);
        }
        match (path_file_name(p), path_parent(p)) {
            (Some(name), Some(parent)) => {
                match fuzzy_score(name.as_str(), q.as_str()) {
                    Some(score) => {
                        let x = build_result(
                            make_id(ResultKind::File, p),
                            ResultKind::File,
                            name,
                            Some(parent),
                            file_icon(p),
                            score,
                            q.as_str(),
                            history,
                        );
                        results.push(x);
                        assert(result_views(results@) =~= result_views(before) + seq![x@]);
                    },
                    None => {},
                }
            },
            _ => {},
        }
        j = j + 1;
    }
    assert(fv.take(j as int) =~= fv);
    sort_results(&mut results);
    results.truncate(remaining);
    let mut combined = indexed;
    let ghost c0 = result_views(combined@);
    let ghost d0 = result_views(results@);
    combined.append(&mut results);
    assert(result_views(combined@) =~= c0 + d0);
    combined
}

/// The preview text of a file's content: its first `max_lines` lines,
/// joined by newlines.
pub open spec fn preview_text_of(content: Seq<char>, max_lines: int) -> Seq<char> {
    seq_join(take_at_most(seq_lines(content), max_lines), "\n"@)
}

/// The preview text of a file (see `preview_text_of`); none for a file of
/// more than 512 000 bytes.
pub fn preview_text(size: u64, content: &str, max_lines: usize) -> (r: Option<String>)
    ensures
        size > 512000 ==> r is None,
        size <= 512000 ==> (r matches Some(t) && t@ == preview_text_of(content@, max_lines as int)),
{
    if size > 512000 {
        return None;
    }
    let ls = lines(chars_of(content).as_slice());
    let mut taken = ls;
    let ghost all = views(taken@);
    taken.truncate(max_lines);
    assert(views(taken@) =~= take_at_most(all, max_lines as int));
    let joined = join_chars(&taken, chars_of("\n").as_slice());
    Some(string_of(joined.as_slice()))
}

/// Whether a path lies in an excluded place: its text holds one of the
/// patterns.
pub open spec fn skipped(path: Seq<char>, excludes: Seq<Seq<char>>) -> bool {
    exists|k: int| 0 <= k < excludes.len() && seq_contains(path, #[trigger] excludes[k])
}

/// Whether a path lies in an excluded place (see `skipped`).
pub fn should_skip(path: &str, excludes: &Vec<String>) -> (r: bool)
    ensures
        r == skipped(path@, excludes@.map_values(|s: String| s@)),
{
    let ghost ev = excludes@.map_values(|s: String| s@);
    let p = chars_of(path);
    let mut i: usize = 0;
    while i < excludes.len()
        invariant
            i <= excludes@.len(),
            p@ == path@,
            ev == excludes@.map_values(|s: String| s@),
            forall|k: int| 0 <= k < i ==> !seq_contains(path@, #[trigger] ev[k]),
        decreases excludes.len() - i,
    {
        if contains(p.as_slice(), chars_of(excludes[i].as_str()).as_slice()) {
            assert(seq_contains(path@, ev[i as int]));
            return true;
        }
        i = i + 1;
    }
    false
}

/// The folders indexed: the configured ones, or else the user's Documents,
/// Downloads and Desktop (the caller keeps those that exist).
pub fn file_roots(configured: &Vec<String>, home: Option<String>) -> (r: Vec<String>)
    ensures
        configured@.len() > 0 ==> r@.map_values(|s: String| s@) == configured@.map_values(|s: String| s@),
        configured@.len() == 0 ==> r@.map_values(|s: String| s@) == match opt_view(home) {
            Some(h) => seq![join_spec(h, "Documents"@), join_spec(h, "Downloads"@), join_spec(h, "Desktop"@)],
            None => Seq::empty(),
        },
{
    let mut out: Vec<String> = Vec::new();
    if configured.len() > 0 {
        let mut i: usize = 0;
        while i < configured.len()
            invariant
                i <= configured@.len(),
                out@.map_values(|s: String| s@) == configured@.take(i as int).map_values(|s: String| s@),
            decreases configured.len() - i,
        {
            let ghost b = out@.map_values(|s: String| s@);
            out.push(configured[i].clone());
            assert(out@.map_values(|s: String| s@) =~= b.push(configured@[i as int]@));
            assert(configured@.take(i + 1).map_values(|s: String| s@) =~= configured@.take(i as int).map_values(
                |s: String| s@,
            ).push(configured@[i as int]@));
            i = i + 1;
        }
        assert(configured@.take(i as int) =~= configured@);
        return out;
    }
    match home {
        Some(h) => {
            out.push(join(h.as_str(), "Documents"));
            out.push(join(h.as_str(), "Downloads"));
            out.push(join(h.as_str(), "Desktop"));
        },
        None => {},
    }
    assert(out@.map_values(|s: String| s@) =~= match opt_view(home) {
        Some(h) => seq![join_spec(h, "Documents"@), join_spec(h, "Downloads"@), join_spec(h, "Desktop"@)],
        None => Seq::empty(),
    });
    out
}

/// The folders the disk search looks in, under the user's home (the caller
/// keeps those that exist).
pub fn file_search_roots(home: &str) -> (r: Vec<String>)
    ensures
        r@.map_values(|s: String| s@) == seq![
            join_spec(home@, "Documents"@),
            join_spec(home@, "Downloads"@),
            join_spec(home@, "Desktop"@),
            join_spec(home@, "Pictures"@),
            join_spec(home@, "Music"@),
            join_spec(home@, "Videos"@),
            join_spec(home@, "Projects"@),
            join_spec(home@, "Projetos"@),
        ],
{
    let mut out: Vec<String> = Vec::new();
    out.push(join(home, "Documents"));
    out.push(join(home, "Downloads"));
    out.push(join(home, "Desktop"));
    out.push(join(home, "Pictures"));
    out.push(join(home, "Music"));
    out.push(join(home, "Videos"));
    out.push(join(home, "Projects"));
    out.push(join(home, "Projetos"));
    assert(out@.map_values(|s: String| s@) =~= seq![
        join_spec(home@, "Documents"@),
        join_spec(home@, "Downloads"@),
        join_spec(home@, "Desktop"@),
        join_spec(home@, "Pictures"@),
        join_spec(home@, "Music"@),
        join_spec(home@, "Videos"@),
        join_spec(home@, "Projects"@),
        join_spec(home@, "Projetos"@),
    ]);
    out
}

/// What the index stores of a file: its name and folder; none for a path
/// without a name.
pub fn index_entry(path: &str) -> (r: Option<IndexedFile>)
    ensures
        match r {
            Some(f) => file_name_of(path@) matches Some(n) && n.len() > 0 && f.name@ == n && f.path@ == path@
                && f.parent@ == match parent_of(path@) {
                    Some(p) => p,
                    None => Seq::empty(),
                },
            None => match file_name_of(path@) {
                Some(n) => n.len() == 0,
                None => true,
            },
        },
{
    let name = match path_file_name(path) {
        Some(n) => n,
        None => return None,
    };
    if name.as_str().is_empty() {
        return None;
    }
    let parent = match path_parent(path) {
        Some(p) => p,
        None => String::new(),
    };
    Some(IndexedFile { path: String::from_str(path), name, parent })
}

/// The result a row of the launch history shows: kind by name ("file",
/// "setting", else application), an empty subtitle or icon as none, score 1
/// (2000 units), nothing highlighted.
pub fn recent_result(id: String, kind: &str, title: String, subtitle: String, icon: String) -> (r: SearchResult)
    ensures
        r@ == (ResultView {
            id: id@,
            kind: if kind@ == "file"@ {
                ResultKind::File
            } else if kind@ == "setting"@ {
                ResultKind::Setting
            } else {
                ResultKind::App
            },
            title: title@,
            subtitle: if subtitle@.len() == 0 {
                None
            } else {
                Some(subtitle@)
            },
            icon: if icon@.len() == 0 {
                None
            } else {
                Some(icon@)
            },
            score: 2000,
            match_ranges: Seq::empty(),
        }),
{
    let k = if str_eq(kind, "file") {
        ResultKind::File
    } else if str_eq(kind, "setting") {
        ResultKind::Setting
    } else {
        ResultKind::App
    };
    let sub = if subtitle.as_str().is_empty() {
        None
    } else {
        Some(subtitle)
    };
    let ic = if icon.as_str().is_empty() {
        None
    } else {
        Some(icon)
    };
    let r = SearchResult { id, kind: k, title, subtitle: sub, icon: ic, score: 2000, match_ranges: Vec::new() };
    assert(r.match_ranges@ =~= Seq::<crate::search::types::MatchRange>::empty());
    r
}

/// The arguments `fd` is run with to find up to `remaining` files
/// matching `query` under `dir`, case-insensitively, skipping version
/// control, dependency, build and cache folders.
pub open spec fn fd_arg_list(query: Seq<char>, remaining: nat, dir: Seq<char>) -> Seq<Seq<char>> {
    seq![
        "-i"@,
        query,
        "--type"@,
        "f"@,
        "--max-results"@,
        decimal_text(remaining),
        "--exclude"@,
        ".git"@,
        "--exclude"@,
        "node_modules"@,
        "--exclude"@,
        "target"@,
        "--exclude"@,
        ".cache"@,
        dir,
    ]
}

/// The arguments of one `fd` run (see `fd_arg_list`).
pub fn fd_args(query: &str, remaining: usize, dir: &str) -> (r: Vec<String>)
    ensures
        r@.map_values(|s: String| s@) == fd_arg_list(query@, remaining as nat, dir@),
{
    let mut v: Vec<String> = Vec::new();
    v.push(String::from_str("-i"));
    v.push(String::from_str(query));
    v.push(String::from_str("--type"));
    v.push(String::from_str("f"));
    v.push(String::from_str("--max-results"));
    v.push(decimal(remaining as u64));
    v.push(String::from_str("--exclude"));
    v.push(String::from_str(".git"));
    v.push(String::from_str("--exclude"));
    v.push(String::from_str("node_modules"));
    v.push(String::from_str("--exclude"));
    v.push(String::from_str("target"));
    v.push(String::from_str("--exclude"));
    v.push(String::from_str(".cache"));
    v.push(String::from_str(dir));
    assert(v@.map_values(|s: String| s@) =~= fd_arg_list(query@, remaining as nat, dir@));
    v
}

/// The paths `fd` printed: each line of its output, trimmed. Which of them
/// exist is for the caller to check.
pub fn fd_paths(output: &str) -> (r: Vec<String>)
    ensures
        r@.map_values(|s: String| s@) == seq_lines(output@).map_values(|l: Seq<char>| seq_trim(l)),
{
    let ls = lines(chars_of(output).as_slice());
    let ghost lv = views(ls@);
    let mut out: Vec<String> = Vec::new();
    let mut i: usize = 0;
    while i < ls.len()
        invariant
            i <= ls@.len(),
            lv == views(ls@),
            lv == seq_lines(output@),
            out@.map_values(|s: String| s@) == lv.take(i as int).map_values(|l: Seq<char>| seq_trim(l)),
        decreases ls.len() - i,
    {
        let ghost before = out@.map_values(|s: String| s@);
        let (a, b) = trim_bounds(ls[i].as_slice());
        let t = string_of(slice_chars(ls[i].as_slice(), a, b).as_slice());
        assert(lv[i as int] == ls@[i as int]@);
        out.push(t);
        assert(out@.map_values(|s: String| s@) =~= before.push(seq_trim(lv[i as int])));
        assert(lv.take(i + 1).map_values(|l: Seq<char>| seq_trim(l)) =~= lv.take(i as int).map_values(
            |l: Seq<char>| seq_trim(l),
        ).push(seq_trim(lv[i as int])));
        i = i + 1;
    }
    assert(lv.take(i as int) =~= lv);
    out
}

} // verus!
