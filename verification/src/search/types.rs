//! Result kinds, result identifiers and the shapes of search responses.

use vstd::prelude::*;
use vstd::string::*;
use crate::text::{chars_of, find_char_from, lemma_find_char_at, push_char, seq_split_once, str_eq};

verus! {

/// The kind of a search result; it prefixes every result identifier.
#[derive(Clone, Copy, PartialEq, Eq, Debug, Structural)]
pub enum ResultKind {
    App,
    File,
    Setting,
    Recent,
    Web,
    Bookmark,
    Browser,
    Contact,
    Quicklink,
    Snippet,
    Script,
    Clipboard,
    Extension,
    Window,
}

/// The name of a kind, as it appears in identifiers.
pub open spec fn kind_name(k: ResultKind) -> Seq<char> {
    match k {
        ResultKind::App => "app"@,
        ResultKind::File => "file"@,
        ResultKind::Setting => "setting"@,
        ResultKind::Recent => "recent"@,
        ResultKind::Web => "web"@,
        ResultKind::Bookmark => "bookmark"@,
        ResultKind::Browser => "browser"@,
        ResultKind::Contact => "contact"@,
        ResultKind::Quicklink => "quicklink"@,
        ResultKind::Snippet => "snippet"@,
        ResultKind::Script => "script"@,
        ResultKind::Clipboard => "clipboard"@,
        ResultKind::Extension => "extension"@,
        ResultKind::Window => "window"@,
    }
}

/// The kind whose name is `s`, if any.
pub open spec fn kind_from_name(s: Seq<char>) -> Option<ResultKind> {
    if s == "app"@ {
        Some(ResultKind::App)
    } else if s == "file"@ {
        Some(ResultKind::File)
    } else if s == "setting"@ {
        Some(ResultKind::Setting)
    } else if s == "recent"@ {
        Some(ResultKind::Recent)
    } else if s == "web"@ {
        Some(ResultKind::Web)
    } else if s == "bookmark"@ {
        Some(ResultKind::Bookmark)
    } else if s == "browser"@ {
        Some(ResultKind::Browser)
    } else if s == "contact"@ {
        Some(ResultKind::Contact)
    } else if s == "quicklink"@ {
        Some(ResultKind::Quicklink)
    } else if s == "snippet"@ {
        Some(ResultKind::Snippet)
    } else if s == "script"@ {
        Some(ResultKind::Script)
    } else if s == "clipboard"@ {
        Some(ResultKind::Clipboard)
    } else if s == "extension"@ {
        Some(ResultKind::Extension)
    } else if s == "window"@ {
        Some(ResultKind::Window)
    } else {
        None
    }
}

/// The identifier of the result of kind `k` with key `key`: `kind:key`.
pub open spec fn result_id(k: ResultKind, key: Seq<char>) -> Seq<char> {
    kind_name(k) + seq![':'] + key
}

/// What `parse_id` gives for an identifier: the kind before the first `:`
/// and the key after it.
pub open spec fn parsed_id(id: Seq<char>) -> Option<(ResultKind, Seq<char>)> {
    match seq_split_once(id, ':') {
        Some((k, rest)) => match kind_from_name(k) {
            Some(kind) => Some((kind, rest)),
            None => None,
        },
        None => None,
    }
}

impl ResultKind {
    pub fn as_str(self) -> (r: &'static str)
        ensures
            r@ == kind_name(self),
    {
        match self {
            Self::App => "app",
            Self::File => "file",
            Self::Setting => "setting",
            Self::Recent => "recent",
            Self::Web => "web",
            Self::Bookmark => "bookmark",
            Self::Browser => "browser",
            Self::Contact => "contact",
            Self::Quicklink => "quicklink",
            Self::Snippet => "snippet",
            Self::Script => "script",
            Self::Clipboard => "clipboard",
            Self::Extension => "extension",
            Self::Window => "window",
        }
    }

    pub fn from_str(s: &str) -> (r: Option<Self>)
        ensures
            r == kind_from_name(s@),
    {
        if str_eq(s, "app") {
            Some(Self::App)
        } else if str_eq(s, "file") {
            Some(Self::File)
        } else if str_eq(s, "setting") {
            Some(Self::Setting)
        } else if str_eq(s, "recent") {
            Some(Self::Recent)
        } else if str_eq(s, "web") {
            Some(Self::Web)
        } else if str_eq(s, "bookmark") {
            Some(Self::Bookmark)
        } else if str_eq(s, "browser") {
            Some(Self::Browser)
        } else if str_eq(s, "contact") {
            Some(Self::Contact)
        } else if str_eq(s, "quicklink") {
            Some(Self::Quicklink)
        } else if str_eq(s, "snippet") {
            Some(Self::Snippet)
        } else if str_eq(s, "script") {
            Some(Self::Script)
        } else if str_eq(s, "clipboard") {
            Some(Self::Clipboard)
        } else if str_eq(s, "extension") {
            Some(Self::Extension)
        } else if str_eq(s, "window") {
            Some(Self::Window)
        } else {
            None
        }
    }
}

/// A highlighted span of a title, in bytes.
#[derive(Clone, Copy, PartialEq, Eq, Debug, Structural)]
pub struct MatchRange {
    pub start: usize,
    pub end: usize,
}

/// One result of a search. `score` counts in units of 1/2000, so that the
/// weighted ranking formula stays in integers.
#[derive(Clone)]
pub struct SearchResult {
    pub id: String,
    pub kind: ResultKind,
    pub title: String,
    pub subtitle: Option<String>,
    pub icon: Option<String>,
    pub score: i128,
    pub match_ranges: Vec<MatchRange>,
}

/// A titled group of results.
#[derive(Clone)]
pub struct ResultSection {
    pub id: String,
    pub title: String,
    pub results: Vec<SearchResult>,
}

/// A quick answer shown above the results.
#[derive(Clone)]
pub struct QuickAnswer {
    pub kind: String,
    pub label: String,
    pub value: String,
    pub hint: Option<String>,
}

/// The answer to a query.
#[derive(Clone)]
pub struct SearchResponse {
    pub quick_answer: Option<QuickAnswer>,
    pub sections: Vec<ResultSection>,
}

/// The identifier `kind:key` of a result.
pub fn make_id(kind: ResultKind, key: &str) -> (r: String)
    ensures
        r@ == result_id(kind, key@),
{
    let mut s = String::from_str(kind.as_str());
    push_char(&mut s, ':');
    s.append(key);
    s
}

/// Splits an identifier into its kind and key.
pub fn parse_id(id: &str) -> (r: Option<(ResultKind, &str)>)
    ensures
        match r {
            Some((k, key)) => parsed_id(id@) == Some((k, key@)),
            None => parsed_id(id@) is None,
        },
{
    let v = chars_of(id);
    let i = find_char_from(v.as_slice(), ':', 0);
    assert(v@.subrange(0, v.len() as int) =~= v@);
    if i >= v.len() {
        return None;
    }
    let head = id.substring_char(0, i);
    let key = id.substring_char(i + 1, v.len());
    match ResultKind::from_str(head) {
        Some(kind) => Some((kind, key)),
        None => None,
    }
}

/// No kind name holds a `:`.
pub proof fn lemma_kind_name_no_colon(k: ResultKind)
    ensures
        forall|i: int| 0 <= i < kind_name(k).len() ==> kind_name(k)[i] != ':',
{
    reveal_strlit("app");
    reveal_strlit("file");
    reveal_strlit("setting");
    reveal_strlit("recent");
    reveal_strlit("web");
    reveal_strlit("bookmark");
    reveal_strlit("browser");
    reveal_strlit("contact");
    reveal_strlit("quicklink");
    reveal_strlit("snippet");
    reveal_strlit("script");
    reveal_strlit("clipboard");
    reveal_strlit("extension");
    reveal_strlit("window");
}

/// Reading a kind back from its name gives the kind.
pub proof fn lemma_kind_name_roundtrip(k: ResultKind)
    ensures
        kind_from_name(kind_name(k)) == Some(k),
{
    reveal_strlit("app");
    reveal_strlit("file");
    reveal_strlit("setting");
    reveal_strlit("recent");
    reveal_strlit("web");
    reveal_strlit("bookmark");
    reveal_strlit("browser");
    reveal_strlit("contact");
    reveal_strlit("quicklink");
    reveal_strlit("snippet");
    reveal_strlit("script");
    reveal_strlit("clipboard");
    reveal_strlit("extension");
    reveal_strlit("window");
    let s = kind_name(k);
    assert(s.len() != "app"@.len() || s[0] != "app"@[0] || s[1] != "app"@[1] || s == "app"@);
    assert(s.len() != "file"@.len() || s[0] != "file"@[0] || s[1] != "file"@[1] || s == "file"@);
    assert(s.len() != "setting"@.len() || s[0] != "setting"@[0] || s[1] != "setting"@[1] || s == "setting"@);
    assert(s.len() != "recent"@.len() || s[0] != "recent"@[0] || s[1] != "recent"@[1] || s == "recent"@);
    assert(s.len() != "web"@.len() || s[0] != "web"@[0] || s[1] != "web"@[1] || s == "web"@);
    assert(s.len() != "bookmark"@.len() || s[0] != "bookmark"@[0] || s[1] != "bookmark"@[1] || s == "bookmark"@);
    assert(s.len() != "browser"@.len() || s[0] != "browser"@[0] || s[1] != "browser"@[1] || s == "browser"@);
    assert(s.len() != "contact"@.len() || s[0] != "contact"@[0] || s[1] != "contact"@[1] || s == "contact"@);
    assert(s.len() != "quicklink"@.len() || s[0] != "quicklink"@[0] || s[1] != "quicklink"@[1] || s == "quicklink"@);
    assert(s.len() != "snippet"@.len() || s[0] != "snippet"@[0] || s[1] != "snippet"@[1] || s == "snippet"@);
    assert(s.len() != "script"@.len() || s[0] != "script"@[0] || s[1] != "script"@[1] || s == "script"@);
    assert(s.len() != "clipboard"@.len() || s[0] != "clipboard"@[0] || s[1] != "clipboard"@[1] || s == "clipboard"@);
    assert(s.len() != "extension"@.len() || s[0] != "extension"@[0] || s[1] != "extension"@[1] || s == "extension"@);
    assert(s.len() != "window"@.len() || s[0] != "window"@[0] || s[1] != "window"@[1] || s == "window"@);
}

/// Parsing the identifier built from a kind and a key gives back that kind
/// and that key, whatever the key holds (colons included).
pub proof fn lemma_parse_make_id(k: ResultKind, key: Seq<char>)
    ensures
        parsed_id(result_id(k, key)) == Some((k, key)),
{
    let id = result_id(k, key);
    let n = kind_name(k).len() as int;
    lemma_kind_name_no_colon(k);
    assert forall|i: int| 0 <= i < n implies #[trigger] id[i] != ':' by {
        assert(id[i] == kind_name(k)[i]);
    }
    assert(id[n] == ':');
    lemma_find_char_at(id, ':', n);
    assert(id.subrange(0, n) =~= kind_name(k));
    assert(id.subrange(n + 1, id.len() as int) =~= key);
    lemma_kind_name_roundtrip(k);
}

/// The key of a parsed identifier is shorter than the identifier.
pub proof fn lemma_parsed_key_shorter(id: Seq<char>)
    ensures
        match parsed_id(id) {
            Some((_, key)) => key.len() < id.len(),
            None => true,
        },
{
    crate::text::lemma_find_char_bound(id, ':');
}

} // verus!
