//! Definitions: "define word", "o que é palavra". The word and the address
//! of its entry are read here; the lookup is the caller's.

use vstd::prelude::*;
use crate::matchers::{group, regex_captures, regex_captures_of};
use crate::quick_answers::currency::cap;
use crate::quick_answers::QuickAnswer;
use crate::text::{
    cat, chars_of, contains, opt_view, replace_all, seq_contains, seq_replace, seq_trim,
    seq_words, string_of, trimmed_chars, words,
};

verus! {

/// The pattern of a question for a definition.
pub open spec fn define_pattern() -> Seq<char> {
    r"(?i)^(?:define|definir|o que é|what is)\s+(.+)$"@
}

/// A word to define and the address of its dictionary entry.
#[derive(Clone, Debug)]
pub struct DefinitionRequest {
    pub word: String,
    pub url: String,
}

/// The address of the entry of a word: spaces become `%20`.
pub open spec fn entry_url(word: Seq<char>) -> Seq<char> {
    "https://api.dictionaryapi.dev/api/v2/entries/en/"@ + seq_replace(word, " "@, "%20"@)
}

/// The word a captured text gives: trimmed; none when empty, or when it has
/// a space and more than three words.
pub open spec fn word_of(c: Seq<char>) -> Option<Seq<char>> {
    let w = seq_trim(c);
    if w.len() == 0 || (seq_contains(w, " "@) && seq_words(w).len() > 3) {
        None
    } else {
        Some(w)
    }
}

/// What `try_define` reads from a query: the word of the captures of the
/// pattern on the trimmed query.
pub open spec fn definition_query(query: Seq<char>) -> Option<Seq<char>> {
    match regex_captures_of(define_pattern(), seq_trim(query)) {
        Some(caps) => match cap(caps, 1) {
            Some(c) => word_of(c),
            None => None,
        },
        None => None,
    }
}

/// The word a query asks to define and its entry's address (see
/// `definition_query` and `entry_url`).
pub fn try_define(query: &str) -> (r: Option<DefinitionRequest>)
    ensures
        match r {
            Some(d) => definition_query(query@) == Some(d.word@) && d.url@ == entry_url(d.word@),
            None => definition_query(query@) is None,
        },
{
    let q = string_of(trimmed_chars(query).as_slice());
    let caps = match regex_captures(r"(?i)^(?:define|definir|o que é|what is)\s+(.+)$", q.as_str()) {
        Some(c) => c,
        None => return None,
    };
    let c = match group(&caps, 1) {
        Some(x) => x,
        None => return None,
    };
    let w = trimmed_chars(c.as_str());
    proof {
        reveal_strlit(" ");
        reveal_strlit("%20");
    }
    if w.len() == 0 || (contains(w.as_slice(), chars_of(" ").as_slice()) && words(w.as_slice()).len()
        > 3) {
        return None;
    }
    let encoded = replace_all(w.as_slice(), chars_of(" ").as_slice(), chars_of("%20").as_slice());
    let word = string_of(w.as_slice());
    let url = cat("https://api.dictionaryapi.dev/api/v2/entries/en/", string_of(encoded.as_slice()).as_str());
    Some(DefinitionRequest { word, url })
}

/// The answer: the word and its first definition.
pub fn answer(word: &str, meaning: &str) -> (r: QuickAnswer)
    ensures
        r.kind@ == "definition"@,
        r.label@ == word@,
        r.value@ == meaning@,
        opt_view(r.hint) == Some("Enter para copiar"@),
{
    QuickAnswer {
        kind: String::from_str("definition"),
        label: String::from_str(word),
        value: String::from_str(meaning),
        hint: Some(String::from_str("Enter para copiar")),
    }
}

} // verus!
