//! The built-in extensions: emoji, translation, the assistant,
//! integrations, the calculator, Docker, systemd and Git. Their results are
//! made here from the query and, where a program's output is needed, from
//! that output; what running one does is planned here and carried out by
//! the caller.

use vstd::prelude::*;
use crate::extensions::{texts, BuiltinInfo};
use crate::quick_answers::QuickAnswer;
use crate::search::ranking::{build_result, result_views, scored_view, take_at_most, HistoryStats, ResultView};
use crate::search::types::{make_id, result_id, ResultKind, SearchResult};
use crate::text::{
    cat, cat3, chars_of, clone_opt, contains, lines, lowercase, opt_view, seq_contains, seq_lines,
    seq_split, seq_starts_with, seq_trim, seq_words, slice_chars, split_char, str_eq, string_of,
    strip_prefix, to_lowercase, trim_bounds, trimmed_chars, views, words, decimal, decimal_text,
    starts_with, signed_decimal, signed_decimal_text, string_of_range,
};

verus! {

/// The text a command prints, read as the caller got it.
pub open spec fn str_list(v: Seq<&str>) -> Seq<Seq<char>> {
    v.map_values(|s: &str| s@)
}

fn owned(v: Vec<&str>) -> (r: Vec<String>)
    ensures
        texts(r@) == str_list(v@),
{
    let mut out: Vec<String> = Vec::new();
    let mut i: usize = 0;
    while i < v.len()
        invariant
            i <= v@.len(),
            texts(out@) == str_list(v@).take(i as int),
        decreases v.len() - i,
    {
        let ghost before = texts(out@);
        out.push(String::from_str(v[i]));
        assert(texts(out@) =~= before.push(v@[i as int]@));
        assert(str_list(v@).take(i + 1) =~= str_list(v@).take(i as int).push(v@[i as int]@));
        i = i + 1;
    }
    assert(str_list(v@).take(i as int) =~= str_list(v@));
    out
}

/// `s` without the prefix `p`, or `None`.
pub open spec fn without_prefix(s: Seq<char>, p: Seq<char>) -> Option<Seq<char>> {
    if seq_starts_with(s, p) {
        Some(s.subrange(p.len() as int, s.len() as int))
    } else {
        None
    }
}

fn strip(s: &str, p: &str) -> (r: Option<String>)
    ensures
        opt_view(r) == without_prefix(s@, p@),
{
    match strip_prefix(chars_of(s).as_slice(), chars_of(p).as_slice()) {
        Some(rest) => Some(string_of(rest.as_slice())),
        None => None,
    }
}

/// The emoji the emoji extension offers, with their search tags.
pub open spec fn emoji_table() -> Seq<(Seq<char>, Seq<char>)> {
    seq![
        ("😀"@, "grinning face smile feliz"@),
        ("😂"@, "joy laugh rir"@),
        ("❤️"@, "heart love amor coração"@),
        ("👍"@, "thumbs up ok positivo"@),
        ("🔥"@, "fire fogo quente"@),
        ("✅"@, "check done feito"@),
        ("🚀"@, "rocket foguete launch"@),
        ("☕"@, "coffee café"@),
        ("🐧"@, "penguin linux tux"@),
        ("🎉"@, "party festa celebração"@)
    ]
}

fn emoji_list() -> (r: Vec<(&'static str, &'static str)>)
    ensures
        r@.map_values(|p: (&str, &str)| (p.0@, p.1@)) == emoji_table(),
{
    let mut v: Vec<(&'static str, &'static str)> = Vec::new();
    v.push(("😀", "grinning face smile feliz"));
    v.push(("😂", "joy laugh rir"));
    v.push(("❤️", "heart love amor coração"));
    v.push(("👍", "thumbs up ok positivo"));
    v.push(("🔥", "fire fogo quente"));
    v.push(("✅", "check done feito"));
    v.push(("🚀", "rocket foguete launch"));
    v.push(("☕", "coffee café"));
    v.push(("🐧", "penguin linux tux"));
    v.push(("🎉", "party festa celebração"));
    assert(v@.map_values(|p: (&str, &str)| (p.0@, p.1@)) =~= emoji_table());
    v
}

/// The emoji extension.
pub struct EmojiExtension;

/// The result of an emoji for the lowercase, trimmed query `q`: shown when
/// `q` is empty, its lowercase tags hold `q`, or `q` holds its tags.
pub open spec fn emoji_hit(e: (Seq<char>, Seq<char>), q: Seq<char>, query: Seq<char>, h: HistoryStats) -> Option<ResultView> {
    if q.len() == 0 || seq_contains(lowercase(e.1), q) || seq_contains(q, e.1) {
        Some(
            scored_view(
                result_id(ResultKind::Extension, "emoji:"@ + e.0),
                ResultKind::Extension,
                e.0 + " "@ + e.1,
                Some("Emoji"@),
                Some("face-smile"@),
                900,
                query,
                h,
            ),
        )
    } else {
        None
    }
}

/// The emoji results: the matching emoji in table order, at most `limit`.
pub open spec fn emoji_results(query: Seq<char>, h: HistoryStats, limit: int) -> Seq<ResultView> {
    take_at_most(
        emoji_table().filter_map(|e: (Seq<char>, Seq<char>)| emoji_hit(e, lowercase(seq_trim(query)), query, h)),
        limit,
    )
}

impl EmojiExtension {
    /// The emoji matching `query` (see `emoji_results`).
    pub fn search(&self, query: &str, history: &HistoryStats, limit: usize) -> (r: Vec<SearchResult>)
        ensures
            result_views(r@) == emoji_results(query@, *history, limit as int),
    {
        let q = chars_of(to_lowercase(string_of(trimmed_chars(query).as_slice()).as_str()).as_str());
        let table = emoji_list();
        let ghost tv = table@.map_values(|p: (&str, &str)| (p.0@, p.1@));
        let ghost f = |e: (Seq<char>, Seq<char>)| emoji_hit(e, lowercase(seq_trim(query@)), query@, *history);
        let mut results: Vec<SearchResult> = Vec::new();
        let mut i: usize = 0;
        assert(result_views(results@) =~= tv.take(0).filter_map(f));
        while i < table.len()
            invariant
                i <= table@.len(),
                tv == table@.map_values(|p: (&str, &str)| (p.0@, p.1@)),
                q@ == lowercase(seq_trim(query@)),
                f == (|e: (Seq<char>, Seq<char>)| emoji_hit(e, lowercase(seq_trim(query@)), query@, *history)),
                result_views(results@) == tv.take(i as int).filter_map(f),
            decreases table.len() - i,
        {
            let ghost before = results@;
            let (emoji, tags) = table[i];
            proof {
                assert(tv.take(i + 1).drop_last() =~= tv.take(i as int));
                assert(tv.take(i + 1).last() == (emoji@, tags@));
            }
            let shown = q.len() == 0 || contains(chars_of(to_lowercase(tags).as_str()).as_slice(), q.as_slice())
                || contains(q.as_slice(), chars_of(tags).as_slice());
            if shown {
                let x = build_result(
                    make_id(ResultKind::Extension, cat("emoji:", emoji).as_str()),
                    ResultKind::Extension,
                    cat3(emoji, " ", tags),
                    Some(String::from_str("Emoji")),
                    Some(String::from_str("face-smile")),
                    900,
                    query,
                    history,
                );
                results.push(x);
                assert(result_views(results@) =~= result_views(before) + seq![x@]);
            }
            i = i + 1;
        }
        assert(tv.take(i as int) =~= tv);
        results.truncate(limit);
        results
    }

    /// What running an emoji action does: the emoji (the action without its
    /// `emoji:` prefix) is copied, with the message "Copiado <emoji>".
    pub fn run(&self, action_id: &str) -> (r: (String, String))
        ensures
            r.0@ == match without_prefix(action_id@, "emoji:"@) {
                Some(e) => e,
                None => action_id@,
            },
            r.1@ == "Copiado "@ + r.0@,
    {
        let emoji = match strip(action_id, "emoji:") {
            Some(e) => e,
            None => String::from_str(action_id),
        };
        let msg = cat("Copiado ", emoji.as_str());
        (emoji, msg)
    }
}

/// The text a translation query asks to translate: the query without `tr `
/// or `translate `, trimmed.
pub open spec fn translate_text(query: Seq<char>) -> Seq<char> {
    seq_trim(
        match without_prefix(query, "tr "@) {
            Some(t) => t,
            None => match without_prefix(query, "translate "@) {
                Some(t) => t,
                None => query,
            },
        },
    )
}

/// The translation extension.
pub struct TranslateExtension;

/// The translation results: one result offering to translate the text,
/// unless it is empty or `limit` is 0.
pub open spec fn translate_results(query: Seq<char>, h: HistoryStats, limit: int) -> Seq<ResultView> {
    let text = translate_text(query);
    if text.len() == 0 {
        Seq::empty()
    } else {
        take_at_most(
            seq![
                scored_view(
                    result_id(ResultKind::Extension, "translate:"@ + text),
                    ResultKind::Extension,
                    "Traduzir \""@ + text + "\""@,
                    Some("LibreTranslate / configurável"@),
                    Some("preferences-desktop-locale"@),
                    900,
                    query,
                    h,
                ),
            ],
            limit,
        )
    }
}

/// What a translation asks: a call to the configured service, or opening
/// Google Translate.
#[derive(Debug)]
pub enum TranslatePlan {
    /// Post the text to `endpoint` with the target language; copy the
    /// translation.
    Service { endpoint: String, text: String, target: String },
    /// Open the address.
    OpenUrl(String),
}

/// The text in a Google Translate address: spaces become `+`.
pub open spec fn plus_spaces(s: Seq<char>) -> Seq<char> {
    s.map_values(|c: char| if c == ' ' { '+' } else { c })
}

impl TranslateExtension {
    /// The translation results (see `translate_results`).
    pub fn search(&self, query: &str, history: &HistoryStats, limit: usize) -> (r: Vec<SearchResult>)
        ensures
            result_views(r@) == translate_results(query@, *history, limit as int),
    {
        let raw = match strip(query, "tr ") {
            Some(t) => t,
            None => match strip(query, "translate ") {
                Some(t) => t,
                None => String::from_str(query),
            },
        };
        let text = string_of(trimmed_chars(raw.as_str()).as_slice());
        let mut r: Vec<SearchResult> = Vec::new();
        if text.as_str().is_empty() {
            assert(result_views(r@) =~= Seq::<ResultView>::empty());
            return r;
        }
        let x = build_result(
            make_id(ResultKind::Extension, cat("translate:", text.as_str()).as_str()),
            ResultKind::Extension,
            cat3("Traduzir \"", text.as_str(), "\""),
            Some(String::from_str("LibreTranslate / configurável")),
            Some(String::from_str("preferences-desktop-locale")),
            900,
            query,
            history,
        );
        r.push(x);
        assert(result_views(r@) =~= seq![x@]);
        r.truncate(limit);
        r
    }

    /// What translating `action_id` asks (the text is the action without its
    /// `translate:` prefix): the configured service at `<url>/translate`, or
    /// else Google Translate into `target`.
    pub fn run(&self, action_id: &str, service_url: Option<String>, target: &str) -> (r: TranslatePlan)
        ensures
            ({
                let text = match without_prefix(action_id@, "translate:"@) {
                    Some(t) => t,
                    None => action_id@,
                };
                match opt_view(service_url) {
                    Some(u) => r matches TranslatePlan::Service { endpoint, text: t, target: g }
                        && endpoint@ == u + "/translate"@ && t@ == text && g@ == target@,
                    None => r matches TranslatePlan::OpenUrl(a) && a@
                        == "https://translate.google.com/?sl=auto&tl="@ + target@ + "&text="@
                        + plus_spaces(text),
                }
            }),
    {
        let text = match strip(action_id, "translate:") {
            Some(t) => t,
            None => String::from_str(action_id),
        };
        match service_url {
            Some(u) => TranslatePlan::Service {
                endpoint: cat(u.as_str(), "/translate"),
                text,
                target: String::from_str(target),
            },
            None => {
                let enc = crate::quick_answers::amount::replace_char(chars_of(text.as_str()).as_slice(), ' ', '+');
                assert(enc@ =~= plus_spaces(text@));
                TranslatePlan::OpenUrl(
                    cat3(
                        cat("https://translate.google.com/?sl=auto&tl=", target).as_str(),
                        "&text=",
                        string_of(enc.as_slice()).as_str(),
                    ),
                )
            },
        }
    }
}

/// The assistant extension, on when the configuration enables it.
pub struct AiExtension {
    enabled: bool,
}

/// The question an assistant query asks: the query without `ai ` or
/// `> ask `, trimmed.
pub open spec fn ai_text(query: Seq<char>) -> Seq<char> {
    seq_trim(
        match without_prefix(query, "ai "@) {
            Some(t) => t,
            None => match without_prefix(query, "> ask "@) {
                Some(t) => t,
                None => query,
            },
        },
    )
}

/// The assistant results: none when it is off; an invitation to ask for
/// an empty question; else one result offering to ask, unless `limit` is 0.
pub open spec fn ai_results(enabled: bool, query: Seq<char>, h: HistoryStats, limit: int) -> Seq<ResultView> {
    let text = ai_text(query);
    if !enabled {
        Seq::empty()
    } else if text.len() == 0 {
        seq![
            scored_view(
                result_id(ResultKind::Extension, "ai:prompt"@),
                ResultKind::Extension,
                "Perguntar à IA…"@,
                Some("Digite sua pergunta após 'ai '"@),
                Some("dialog-information"@),
                500,
                query,
                h,
            ),
        ]
    } else {
        take_at_most(
            seq![
                scored_view(
                    result_id(ResultKind::Extension, "ai:"@ + text),
                    ResultKind::Extension,
                    "Perguntar: "@ + text,
                    Some("Ollama / API"@),
                    Some("dialog-information"@),
                    950,
                    query,
                    h,
                ),
            ],
            limit,
        )
    }
}

/// Where a question to the assistant goes.
#[derive(Debug)]
pub struct AiRequest {
    pub prompt: String,
    pub endpoint: String,
    /// Sent to the configured API (answers under `response` or the first
    /// choice's message); else to Ollama.
    pub via_api: bool,
}

impl AiExtension {
    /// The assistant, on or off.
    pub fn new(enabled: bool) -> (r: Self)
        ensures
            r.enabled_spec() == enabled,
    {
        AiExtension { enabled }
    }

    /// Whether the assistant is on.
    pub closed spec fn enabled_spec(&self) -> bool {
        self.enabled
    }

    /// The assistant results (see `ai_results`).
    pub fn search(&self, query: &str, history: &HistoryStats, limit: usize) -> (r: Vec<SearchResult>)
        ensures
            result_views(r@) == ai_results(self.enabled_spec(), query@, *history, limit as int),
    {
        let mut r: Vec<SearchResult> = Vec::new();
        if !self.enabled {
            assert(result_views(r@) =~= Seq::<ResultView>::empty());
            return r;
        }
        let raw = match strip(query, "ai ") {
            Some(t) => t,
            None => match strip(query, "> ask ") {
                Some(t) => t,
                None => String::from_str(query),
            },
        };
        let text = string_of(trimmed_chars(raw.as_str()).as_slice());
        if text.as_str().is_empty() {
            let x = build_result(
                make_id(ResultKind::Extension, "ai:prompt"),
                ResultKind::Extension,
                String::from_str("Perguntar à IA…"),
                Some(String::from_str("Digite sua pergunta após 'ai '")),
                Some(String::from_str("dialog-information")),
                500,
                query,
                history,
            );
            r.push(x);
            assert(result_views(r@) =~= seq![x@]);
            return r;
        }
        let x = build_result(
            make_id(ResultKind::Extension, cat("ai:", text.as_str()).as_str()),
            ResultKind::Extension,
            cat("Perguntar: ", text.as_str()),
            Some(String::from_str("Ollama / API")),
            Some(String::from_str("dialog-information")),
            950,
            query,
            history,
        );
        r.push(x);
        assert(result_views(r@) =~= seq![x@]);
        r.truncate(limit);
        r
    }

    /// Where asking `action_id` goes (the prompt is the action without its
    /// `ai:` prefix): the configured API, else the configured Ollama
    /// address, else Ollama on this machine; the error "IA desabilitada nas
    /// configurações" when the assistant is off.
    pub fn run(&self, action_id: &str, api_url: Option<String>, ollama_url: Option<String>) -> (r: Result<
        AiRequest,
        String,
    >)
        ensures
            !self.enabled_spec() ==> (r matches Err(e) && e@ == "IA desabilitada nas configurações"@),
            self.enabled_spec() ==> (r matches Ok(q) && q.prompt@ == match without_prefix(action_id@, "ai:"@) {
                Some(p) => p,
                None => action_id@,
            } && match opt_view(api_url) {
                Some(u) => q.via_api && q.endpoint@ == u,
                None => !q.via_api && q.endpoint@ == match opt_view(ollama_url) {
                    Some(o) => o,
                    None => "http://localhost:11434/api/generate"@,
                },
            }),
    {
        if !self.enabled {
            return Err(String::from_str("IA desabilitada nas configurações"));
        }
        let prompt = match strip(action_id, "ai:") {
            Some(p) => p,
            None => String::from_str(action_id),
        };
        match api_url {
            Some(u) => Ok(AiRequest { prompt, endpoint: u, via_api: true }),
            None => Ok(
                AiRequest {
                    prompt,
                    endpoint: match ollama_url {
                        Some(o) => o,
                        None => String::from_str("http://localhost:11434/api/generate"),
                    },
                    via_api: false,
                },
            ),
        }
    }
}

/// The integrations extension: screenshots and the calendar.
pub struct IntegrationsExtension;

/// The integration results for the lowercase query `q`: the two screenshot
/// tools when `q` is empty or names a screenshot or print, the calendar
/// when it is empty or names the calendar; at most `limit`.
pub open spec fn integration_results(query: Seq<char>, h: HistoryStats, limit: int) -> Seq<ResultView> {
    let q = lowercase(query);
    let shots = if q.len() == 0 || seq_contains(q, "screenshot"@) || seq_contains(q, "print"@) {
        seq![
            scored_view(
                result_id(ResultKind::Extension, "integrations:flameshot"@),
                ResultKind::Extension,
                "Captura de tela (Flameshot)"@,
                Some("flameshot gui"@),
                Some("camera-photo"@),
                700,
                query,
                h,
            ),
            scored_view(
                result_id(ResultKind::Extension, "integrations:grim"@),
                ResultKind::Extension,
                "Captura de tela (grim)"@,
                Some("grim -g \"$(slurp)\""@),
                Some("camera-photo"@),
                680,
                query,
                h,
            ),
        ]
    } else {
        Seq::empty()
    };
    let cal = if q.len() == 0 || seq_contains(q, "calendar"@) || seq_contains(q, "calend"@) {
        seq![
            scored_view(
                result_id(ResultKind::Extension, "integrations:calendar"@),
                ResultKind::Extension,
                "Abrir calendário (khal)"@,
                Some("khal calendar"@),
                Some("office-calendar"@),
                650,
                query,
                h,
            ),
        ]
    } else {
        Seq::empty()
    };
    take_at_most(shots + cal, limit)
}

/// The program to start for an integration, and the message once it
/// started; the error "Integração desconhecida" for another action.
pub open spec fn integration_plan(action_id: Seq<char>) -> Result<(Seq<Seq<char>>, Seq<char>), Seq<char>> {
    if action_id == "integrations:flameshot"@ {
        Ok((seq!["flameshot"@, "gui"@], "Flameshot iniciado"@))
    } else if action_id == "integrations:grim"@ {
        Ok((seq!["sh"@, "-c"@, "grim -g \"$(slurp)\""@], "grim iniciado"@))
    } else if action_id == "integrations:calendar"@ {
        Ok((seq!["khal"@, "calendar"@], "khal calendar"@))
    } else {
        Err("Integração desconhecida"@)
    }
}

impl IntegrationsExtension {
    /// The integration results (see `integration_results`).
    pub fn search(&self, query: &str, history: &HistoryStats, limit: usize) -> (r: Vec<SearchResult>)
        ensures
            result_views(r@) == integration_results(query@, *history, limit as int),
    {
        let q = chars_of(to_lowercase(query).as_str());
        let mut results: Vec<SearchResult> = Vec::new();
        let shots = q.len() == 0 || contains(q.as_slice(), chars_of("screenshot").as_slice()) || contains(
            q.as_slice(),
            chars_of("print").as_slice(),
        );
        if shots {
            results.push(
                build_result(
                    make_id(ResultKind::Extension, "integrations:flameshot"),
                    ResultKind::Extension,
                    String::from_str("Captura de tela (Flameshot)"),
                    Some(String::from_str("flameshot gui")),
                    Some(String::from_str("camera-photo")),
                    700,
                    query,
                    history,
                ),
            );
            results.push(
                build_result(
                    make_id(ResultKind::Extension, "integrations:grim"),
                    ResultKind::Extension,
                    String::from_str("Captura de tela (grim)"),
                    Some(String::from_str("grim -g \"$(slurp)\"")),
                    Some(String::from_str("camera-photo")),
                    680,
                    query,
                    history,
                ),
            );
        }
        let ghost first = result_views(results@);
        let cal = q.len() == 0 || contains(q.as_slice(), chars_of("calendar").as_slice()) || contains(
            q.as_slice(),
            chars_of("calend").as_slice(),
        );
        if cal {
            results.push(
                build_result(
                    make_id(ResultKind::Extension, "integrations:calendar"),
                    ResultKind::Extension,
                    String::from_str("Abrir calendário (khal)"),
                    Some(String::from_str("khal calendar")),
                    Some(String::from_str("office-calendar")),
                    650,
                    query,
                    history,
                ),
            );
        }
        let ghost all = result_views(results@);
        proof {
            let h = *history;
            let shots_s = if shots {
                seq![
                    scored_view(
                        result_id(ResultKind::Extension, "integrations:flameshot"@),
                        ResultKind::Extension,
                        "Captura de tela (Flameshot)"@,
                        Some("flameshot gui"@),
                        Some("camera-photo"@),
                        700,
                        query@,
                        h,
                    ),
                    scored_view(
                        result_id(ResultKind::Extension, "integrations:grim"@),
                        ResultKind::Extension,
                        "Captura de tela (grim)"@,
                        Some("grim -g \"$(slurp)\""@),
                        Some("camera-photo"@),
                        680,
                        query@,
                        h,
                    ),
                ]
            } else {
                Seq::<ResultView>::empty()
            };
            assert(first =~= shots_s);
        }
        results.truncate(limit);
        results
    }

    /// The program an integration starts (see `integration_plan`).
    pub fn run(&self, action_id: &str) -> (r: Result<(Vec<String>, String), String>)
        ensures
            match r {
                Ok((argv, msg)) => integration_plan(action_id@) == Ok::<(Seq<Seq<char>>, Seq<char>), Seq<char>>(
                    (texts(argv@), msg@),
                ),
                Err(e) => integration_plan(action_id@) == Err::<(Seq<Seq<char>>, Seq<char>), Seq<char>>(e@),
            },
    {
        if str_eq(action_id, "integrations:flameshot") {
            let parts = vec!["flameshot", "gui"];
            assert(str_list(parts@) =~= seq!["flameshot"@, "gui"@]);
            Ok((owned(parts), String::from_str("Flameshot iniciado")))
        } else if str_eq(action_id, "integrations:grim") {
            let parts = vec!["sh", "-c", "grim -g \"$(slurp)\""];
            assert(str_list(parts@) =~= seq!["sh"@, "-c"@, "grim -g \"$(slurp)\""@]);
            Ok((owned(parts), String::from_str("grim iniciado")))
        } else if str_eq(action_id, "integrations:calendar") {
            let parts = vec!["khal", "calendar"];
            assert(str_list(parts@) =~= seq!["khal"@, "calendar"@]);
            Ok((owned(parts), String::from_str("khal calendar")))
        } else {
            Err(String::from_str("Integração desconhecida"))
        }
    }
}

/// The calculator extension.
pub struct CalculatorExtension;

/// The calculator result for the query's quick answer, if it has one.
pub open spec fn calculator_results(answer: Option<QuickAnswer>, query: Seq<char>, h: HistoryStats) -> Seq<ResultView> {
    match answer {
        Some(qa) => seq![
            scored_view(
                result_id(ResultKind::Extension, "calc:"@ + qa.value@),
                ResultKind::Extension,
                qa.label@ + " = "@ + qa.value@,
                opt_view(qa.hint),
                Some("accessories-calculator"@),
                2000,
                query,
                h,
            ),
        ],
        None => Seq::empty(),
    }
}

impl CalculatorExtension {
    /// The calculator result for the quick answer the query got (see
    /// `calculator_results`).
    pub fn search(&self, answer: Option<QuickAnswer>, query: &str, history: &HistoryStats) -> (r: Vec<
        SearchResult,
    >)
        ensures
            result_views(r@) == calculator_results(answer, query@, *history),
    {
        let mut r: Vec<SearchResult> = Vec::new();
        match &answer {
            Some(qa) => {
                let x = build_result(
                    make_id(ResultKind::Extension, cat("calc:", qa.value.as_str()).as_str()),
                    ResultKind::Extension,
                    cat3(qa.label.as_str(), " = ", qa.value.as_str()),
                    clone_opt(&qa.hint),
                    Some(String::from_str("accessories-calculator")),
                    2000,
                    query,
                    history,
                );
                r.push(x);
                assert(result_views(r@) =~= seq![x@]);
            },
            None => {
                assert(result_views(r@) =~= Seq::<ResultView>::empty());
            },
        }
        r
    }

    /// The value a calculator action copies: the action after `calc:`; the
    /// error "Sem resultado" for another action.
    pub fn run(&self, action_id: &str) -> (r: Result<String, String>)
        ensures
            match without_prefix(action_id@, "calc:"@) {
                Some(v) => r matches Ok(x) && x@ == v,
                None => r matches Err(e) && e@ == "Sem resultado"@,
            },
    {
        match strip(action_id, "calc:") {
            Some(v) => Ok(v),
            None => Err(String::from_str("Sem resultado")),
        }
    }
}

/// `l`, when it is no blank line and the lowercase query `q` is empty or
/// its lowercase form holds `q`.
pub open spec fn listed_line(l: Seq<char>, q: Seq<char>) -> Option<Seq<char>> {
    if seq_trim(l).len() > 0 && (q.len() == 0 || seq_contains(lowercase(l), q)) {
        Some(l)
    } else {
        None
    }
}

/// The lines of a program's output that a query selects, at most `limit`.
pub open spec fn selected_lines(output: Seq<char>, query: Seq<char>, limit: int) -> Seq<Seq<char>> {
    take_at_most(seq_lines(output).filter_map(|l: Seq<char>| listed_line(l, lowercase(query))), limit)
}

fn select_lines(output: &str, query: &str, limit: usize) -> (r: Vec<Vec<char>>)
    ensures
        views(r@) == selected_lines(output@, query@, limit as int),
{
    let q = chars_of(to_lowercase(query).as_str());
    let ls = lines(chars_of(output).as_slice());
    let ghost lv = views(ls@);
    let ghost f = |l: Seq<char>| listed_line(l, lowercase(query@));
    let mut out: Vec<Vec<char>> = Vec::new();
    let mut i: usize = 0;
    assert(views(out@) =~= lv.take(0).filter_map(f));
    while i < ls.len()
        invariant
            i <= ls@.len(),
            lv == views(ls@),
            lv == seq_lines(output@),
            q@ == lowercase(query@),
            f == (|l: Seq<char>| listed_line(l, lowercase(query@))),
            views(out@) == lv.take(i as int).filter_map(f),
        decreases ls.len() - i,
    {
        proof {
            assert(lv.take(i + 1).drop_last() =~= lv.take(i as int));
            assert(lv.take(i + 1).last() == ls@[i as int]@);
        }
        let l = &ls[i];
        let (a, b) = trim_bounds(l.as_slice());
        let shown = b > a && (q.len() == 0 || contains(
            chars_of(to_lowercase(string_of(l.as_slice()).as_str()).as_str()).as_slice(),
            q.as_slice(),
        ));
        if shown {
            let ghost before = views(out@);
            out.push(l.clone());
            assert(views(out@) =~= before.push(l@));
        }
        i = i + 1;
    }
    assert(lv.take(i as int) =~= lv);
    out.truncate(limit);
    out
}

/// The piece of a tab-separated line at position `i`, if there is one.
pub open spec fn field(l: Seq<char>, i: int) -> Option<Seq<char>> {
    let parts = seq_split(l, '\t');
    if 0 <= i < parts.len() {
        Some(parts[i])
    } else {
        None
    }
}

/// The Docker extension: running containers from `docker ps`.
pub struct DockerExtension;

/// The result of a `docker ps` line (identifier, name, status separated by
/// tabs).
pub open spec fn docker_result(l: Seq<char>, query: Seq<char>, h: HistoryStats) -> ResultView {
    let id = match field(l, 0) {
        Some(x) => x,
        None => Seq::empty(),
    };
    let name = match field(l, 1) {
        Some(x) => x,
        None => id,
    };
    scored_view(
        result_id(ResultKind::Extension, "docker:"@ + id),
        ResultKind::Extension,
        name,
        field(l, 2),
        Some("docker"@),
        800,
        query,
        h,
    )
}

impl DockerExtension {
    /// The containers the query selects from the output of `docker ps`.
    pub fn search(&self, output: &str, query: &str, history: &HistoryStats, limit: usize) -> (r: Vec<
        SearchResult,
    >)
        ensures
            result_views(r@) == selected_lines(output@, query@, limit as int).map_values(
                |l: Seq<char>| docker_result(l, query@, *history),
            ),
    {
        let sel = select_lines(output, query, limit);
        let ghost sv = views(sel@);
        let ghost g = |l: Seq<char>| docker_result(l, query@, *history);
        let mut results: Vec<SearchResult> = Vec::new();
        let mut i: usize = 0;
        while i < sel.len()
            invariant
                i <= sel@.len(),
                sv == views(sel@),
                g == (|l: Seq<char>| docker_result(l, query@, *history)),
                result_views(results@) == sv.take(i as int).map_values(g),
            decreases sel.len() - i,
        {
            let parts = split_char(sel[i].as_slice(), '\t');
            let ghost pv = views(parts@);
            assert(sv[i as int] == sel@[i as int]@);
            let id = if parts.len() > 0 {
                assert(pv[0] == parts@[0]@);
                string_of(parts[0].as_slice())
            } else {
                String::new()
            };
            let name = if parts.len() > 1 {
                assert(pv[1] == parts@[1]@);
                string_of(parts[1].as_slice())
            } else {
                id.clone()
            };
            let status = if parts.len() > 2 {
                assert(pv[2] == parts@[2]@);
                Some(string_of(parts[2].as_slice()))
            } else {
                None
            };
            let x = build_result(
                make_id(ResultKind::Extension, cat("docker:", id.as_str()).as_str()),
                ResultKind::Extension,
                name,
                status,
                Some(String::from_str("docker")),
                800,
                query,
                history,
            );
            let ghost before = result_views(results@);
            results.push(x);
            assert(result_views(results@) =~= before.push(x@));
            assert(sv.take(i + 1).map_values(g) =~= sv.take(i as int).map_values(g).push(g(sv[i as int])));
            i = i + 1;
        }
        assert(sv.take(i as int) =~= sv);
        results
    }

    /// The command that shows a container's logs: `docker logs --tail 50
    /// <id>` for `docker:<id>`; the error "Container não encontrado" for
    /// another action.
    pub fn run(&self, action_id: &str) -> (r: Result<Vec<String>, String>)
        ensures
            match without_prefix(action_id@, "docker:"@) {
                Some(id) => r matches Ok(argv) && texts(argv@) == seq![
                    "docker"@,
                    "logs"@,
                    "--tail"@,
                    "50"@,
                    id,
                ],
                None => r matches Err(e) && e@ == "Container não encontrado"@,
            },
    {
        match strip(action_id, "docker:") {
            Some(id) => {
                let parts = vec!["docker", "logs", "--tail", "50", id.as_str()];
                assert(str_list(parts@) =~= seq!["docker"@, "logs"@, "--tail"@, "50"@, id@]);
                Ok(owned(parts))
            },
            None => Err(String::from_str("Container não encontrado")),
        }
    }
}

/// The systemd extension: the user's services.
pub struct SystemdExtension;

/// The first word of a line, or the line itself.
pub open spec fn first_word(l: Seq<char>) -> Seq<char> {
    let ws = seq_words(l);
    if ws.len() > 0 {
        ws[0]
    } else {
        l
    }
}

/// The result of a line of `systemctl --user list-units`.
pub open spec fn systemd_result(l: Seq<char>, query: Seq<char>, h: HistoryStats) -> ResultView {
    let name = first_word(l);
    scored_view(
        result_id(ResultKind::Extension, "systemd:"@ + name),
        ResultKind::Extension,
        name,
        Some("Serviço systemd"@),
        Some("system-run"@),
        750,
        query,
        h,
    )
}

impl SystemdExtension {
    /// The services the query selects from the output of `systemctl`.
    pub fn search(&self, output: &str, query: &str, history: &HistoryStats, limit: usize) -> (r: Vec<
        SearchResult,
    >)
        ensures
            result_views(r@) == selected_lines(output@, query@, limit as int).map_values(
                |l: Seq<char>| systemd_result(l, query@, *history),
            ),
    {
        let sel = select_lines(output, query, limit);
        let ghost sv = views(sel@);
        let ghost g = |l: Seq<char>| systemd_result(l, query@, *history);
        let mut results: Vec<SearchResult> = Vec::new();
        let mut i: usize = 0;
        while i < sel.len()
            invariant
                i <= sel@.len(),
                sv == views(sel@),
                g == (|l: Seq<char>| systemd_result(l, query@, *history)),
                result_views(results@) == sv.take(i as int).map_values(g),
            decreases sel.len() - i,
        {
            assert(sv[i as int] == sel@[i as int]@);
            let ws = words(sel[i].as_slice());
            let name = if ws.len() > 0 {
                assert(views(ws@)[0] == ws@[0]@);
                string_of(ws[0].as_slice())
            } else {
                string_of(sel[i].as_slice())
            };
            let x = build_result(
                make_id(ResultKind::Extension, cat("systemd:", name.as_str()).as_str()),
                ResultKind::Extension,
                name,
                Some(String::from_str("Serviço systemd")),
                Some(String::from_str("system-run")),
                750,
                query,
                history,
            );
            let ghost before = result_views(results@);
            results.push(x);
            assert(result_views(results@) =~= before.push(x@));
            assert(sv.take(i + 1).map_values(g) =~= sv.take(i as int).map_values(g).push(g(sv[i as int])));
            i = i + 1;
        }
        assert(sv.take(i as int) =~= sv);
        results
    }

    /// The command for a service action: `systemctl --user <args> <name>`
    /// for `systemd:<name>` (`restart` when `args` is empty) and the message
    /// "<action> <name>"; the error "Serviço não encontrado" for another
    /// action.
    pub fn run(&self, action_id: &str, args: &str) -> (r: Result<(Vec<String>, String), String>)
        ensures
            match without_prefix(action_id@, "systemd:"@) {
                Some(name) => {
                    let action = if args@.len() == 0 {
                        "restart"@
                    } else {
                        args@
                    };
                    r matches Ok((argv, msg)) && texts(argv@) == seq![
                        "systemctl"@,
                        "--user"@,
                        action,
                        name,
                    ] && msg@ == action + " "@ + name
                },
                None => r matches Err(e) && e@ == "Serviço não encontrado"@,
            },
    {
        match strip(action_id, "systemd:") {
            Some(name) => {
                let action = if args.is_empty() {
                    "restart"
                } else {
                    args
                };
                let parts = vec!["systemctl", "--user", action, name.as_str()];
                assert(str_list(parts@) =~= seq!["systemctl"@, "--user"@, action@, name@]);
                let msg = cat3(action, " ", name.as_str());
                Ok((owned(parts), msg))
            },
            None => Err(String::from_str("Serviço não encontrado")),
        }
    }
}

/// The Git extension: the working tree's status and branches.
pub struct GitExtension;

/// Whether a query asks for the status: empty, or naming "status" or
/// "git".
pub open spec fn status_wanted(query: Seq<char>) -> bool {
    query.len() == 0 || seq_contains(query, "status"@) || seq_contains(query, "git"@)
}

/// Whether a query asks for the branches: empty, or naming "branch".
pub open spec fn branch_wanted(query: Seq<char>) -> bool {
    query.len() == 0 || seq_contains(query, "branch"@)
}

/// The lines with their positions.
pub open spec fn indexed(ls: Seq<Seq<char>>) -> Seq<(int, Seq<char>)> {
    Seq::new(ls.len(), |i: int| (i, ls[i]))
}

/// The result of the `i`-th line of `git status --short`, unless blank.
pub open spec fn status_hit(p: (int, Seq<char>), query: Seq<char>, h: HistoryStats) -> Option<ResultView> {
    if seq_trim(p.1).len() == 0 {
        None
    } else {
        Some(
            scored_view(
                result_id(ResultKind::Extension, "git:status:"@ + decimal_text(p.0 as nat)),
                ResultKind::Extension,
                seq_trim(p.1),
                Some("git status"@),
                Some("git"@),
                800,
                query,
                h,
            ),
        )
    }
}

/// The name of a line of `git branch --list`: trimmed, without the `*` of
/// the current branch.
pub open spec fn branch_name(l: Seq<char>) -> Seq<char> {
    seq_trim(crate::platform::strip_start_char(seq_trim(l), '*'))
}

/// The result of a line of `git branch --list`, unless its name is empty.
pub open spec fn branch_hit(l: Seq<char>, query: Seq<char>, h: HistoryStats) -> Option<ResultView> {
    let name = branch_name(l);
    if name.len() == 0 {
        None
    } else {
        Some(
            scored_view(
                result_id(ResultKind::Extension, "git:branch:"@ + name),
                ResultKind::Extension,
                name,
                Some("Branch"@),
                Some("git"@),
                750,
                query,
                h,
            ),
        )
    }
}

/// The Git results: the first `limit` status lines (when asked for and
/// `git status` ran), then the first five branches (when asked for and `git
/// branch` ran), at most `limit` in all.
pub open spec fn git_results(
    query: Seq<char>,
    status: Option<Seq<char>>,
    branches: Option<Seq<char>>,
    h: HistoryStats,
    limit: int,
) -> Seq<ResultView> {
    let s = match status {
        Some(out) => if status_wanted(query) {
            indexed(take_at_most(seq_lines(out), limit)).filter_map(
                |p: (int, Seq<char>)| status_hit(p, query, h),
            )
        } else {
            Seq::empty()
        },
        None => Seq::empty(),
    };
    let b = match branches {
        Some(out) => if branch_wanted(query) {
            take_at_most(seq_lines(out), 5).filter_map(|l: Seq<char>| branch_hit(l, query, h))
        } else {
            Seq::empty()
        },
        None => Seq::empty(),
    };
    take_at_most(s + b, limit)
}

/// What a Git action does: check out the branch of `git:branch:<name>`
/// ("Checkout <name>"); any other action does nothing ("Git").
pub struct GitPlan {
    pub command: Option<Vec<String>>,
    pub message: String,
}

impl GitExtension {
    /// Whether `git status` is to be run for the query.
    pub fn wants_status(&self, query: &str) -> (r: bool)
        ensures
            r == status_wanted(query@),
    {
        let q = chars_of(query);
        q.len() == 0 || contains(q.as_slice(), chars_of("status").as_slice()) || contains(
            q.as_slice(),
            chars_of("git").as_slice(),
        )
    }

    /// Whether `git branch` is to be run for the query.
    pub fn wants_branches(&self, query: &str) -> (r: bool)
        ensures
            r == branch_wanted(query@),
    {
        let q = chars_of(query);
        q.len() == 0 || contains(q.as_slice(), chars_of("branch").as_slice())
    }

    /// The Git results from the outputs of the commands that ran (see
    /// `git_results`).
    pub fn search(
        &self,
        query: &str,
        status_output: Option<&str>,
        branch_output: Option<&str>,
        history: &HistoryStats,
        limit: usize,
    ) -> (r: Vec<SearchResult>)
        ensures
            result_views(r@) == git_results(
                query@,
                match status_output {
                    Some(o) => Some(o@),
                    None => None,
                },
                match branch_output {
                    Some(o) => Some(o@),
                    None => None,
                },
                *history,
                limit as int,
            ),
    {
        let mut results: Vec<SearchResult> = Vec::new();
        let ghost h = *history;
        let ghost st = match status_output {
            Some(o) => Some(o@),
            None => None::<Seq<char>>,
        };
        let ghost br = match branch_output {
            Some(o) => Some(o@),
            None => None::<Seq<char>>,
        };
        match status_output {
            Some(out) => {
                if self.wants_status(query) {
                    let ls = lines(chars_of(out).as_slice());
                    let ghost lv = views(ls@);
                    let n = if limit < ls.len() {
                        limit
                    } else {
                        ls.len()
                    };
                    let ghost taken = take_at_most(lv, limit as int);
                    assert(taken =~= lv.take(n as int));
                    let ghost f = |p: (int, Seq<char>)| status_hit(p, query@, h);
                    let mut i: usize = 0;
                    assert(result_views(results@) =~= indexed(taken).take(0).filter_map(f));
                    while i < n
                        invariant
                            i <= n <= ls@.len(),
                            lv == views(ls@),
                            taken == lv.take(n as int),
                            h == *history,
                            f == (|p: (int, Seq<char>)| status_hit(p, query@, h)),
                            result_views(results@) == indexed(taken).take(i as int).filter_map(f),
                        decreases n - i,
                    {
                        proof {
                            assert(indexed(taken).take(i + 1).drop_last() =~= indexed(taken).take(i as int));
                            assert(indexed(taken).take(i + 1).last() == (i as int, ls@[i as int]@));
                        }
                        let (a, b) = trim_bounds(ls[i].as_slice());
                        if b > a {
                            let t = slice_chars(ls[i].as_slice(), a, b);
                            let x = build_result(
                                make_id(ResultKind::Extension, cat("git:status:", decimal(i as u64).as_str()).as_str()),
                                ResultKind::Extension,
                                string_of(t.as_slice()),
                                Some(String::from_str("git status")),
                                Some(String::from_str("git")),
                                800,
                                query,
                                history,
                            );
                            let ghost before = result_views(results@);
                            results.push(x);
                            assert(result_views(results@) =~= before.push(x@));
                        }
                        i = i + 1;
                    }
                    assert(indexed(taken).take(i as int) =~= indexed(taken));
                } else {
                    assert(result_views(results@) =~= Seq::<ResultView>::empty());
                }
            },
            None => {
                assert(result_views(results@) =~= Seq::<ResultView>::empty());
            },
        }
        let ghost first = result_views(results@);
        match branch_output {
            Some(out) => {
                if self.wants_branches(query) {
                    let ls = lines(chars_of(out).as_slice());
                    let ghost lv = views(ls@);
                    let n: usize = if 5 < ls.len() {
                        5
                    } else {
                        ls.len()
                    };
                    let ghost taken = take_at_most(lv, 5);
                    assert(taken =~= lv.take(n as int));
                    let ghost f = |l: Seq<char>| branch_hit(l, query@, h);
                    let mut i: usize = 0;
                    assert(result_views(results@) =~= first + taken.take(0).filter_map(f));
                    while i < n
                        invariant
                            i <= n <= ls@.len(),
                            lv == views(ls@),
                            taken == lv.take(n as int),
                            h == *history,
                            f == (|l: Seq<char>| branch_hit(l, query@, h)),
                            result_views(results@) == first + taken.take(i as int).filter_map(f),
                        decreases n - i,
                    {
                        proof {
                            assert(taken.take(i + 1).drop_last() =~= taken.take(i as int));
                            assert(taken.take(i + 1).last() == ls@[i as int]@);
                        }
                        let (a, b) = trim_bounds(ls[i].as_slice());
                        let t = slice_chars(ls[i].as_slice(), a, b);
                        let u = crate::platform::strip_start_char_exec(t.as_slice(), '*');
                        let (c, d) = trim_bounds(u.as_slice());
                        let name = slice_chars(u.as_slice(), c, d);
                        if name.len() > 0 {
                            let nm = string_of(name.as_slice());
                            let x = build_result(
                                make_id(ResultKind::Extension, cat("git:branch:", nm.as_str()).as_str()),
                                ResultKind::Extension,
                                nm,
                                Some(String::from_str("Branch")),
                                Some(String::from_str("git")),
                                750,
                                query,
                                history,
                            );
                            let ghost before = result_views(results@);
                            results.push(x);
                            assert(result_views(results@) =~= before.push(x@));
                            assert(first + taken.take(i + 1).filter_map(f) =~= (first + taken.take(i as int).filter_map(f)).push(x@));
                        }
                        i = i + 1;
                    }
                    assert(taken.take(i as int) =~= taken);
                } else {
                    assert(result_views(results@) =~= first + Seq::<ResultView>::empty());
                }
            },
            None => {
                assert(result_views(results@) =~= first + Seq::<ResultView>::empty());
            },
        }
        results.truncate(limit);
        results
    }

    /// What a Git action does (see `GitPlan`).
    pub fn run(&self, action_id: &str) -> (r: GitPlan)
        ensures
            match without_prefix(action_id@, "git:branch:"@) {
                Some(b) => r.command matches Some(argv) && texts(argv@) == seq!["git"@, "checkout"@, b]
                    && r.message@ == "Checkout "@ + b,
                None => r.command is None && r.message@ == "Git"@,
            },
    {
        match strip(action_id, "git:branch:") {
            Some(b) => {
                let parts = vec!["git", "checkout", b.as_str()];
                assert(str_list(parts@) =~= seq!["git"@, "checkout"@, b@]);
                GitPlan { command: Some(owned(parts)), message: cat("Checkout ", b.as_str()) }
            },
            None => GitPlan { command: None, message: String::from_str("Git") },
        }
    }
}


fn names1(a: &str) -> (r: Vec<String>)
    ensures
        texts(r@) == seq![a@],
{
    let mut v: Vec<String> = Vec::new();
    v.push(String::from_str(a));
    assert(texts(v@) =~= seq![a@]);
    v
}

fn names2(a: &str, b: &str) -> (r: Vec<String>)
    ensures
        texts(r@) == seq![a@, b@],
{
    let mut v: Vec<String> = Vec::new();
    v.push(String::from_str(a));
    v.push(String::from_str(b));
    assert(texts(v@) =~= seq![a@, b@]);
    v
}

fn names3(a: &str, b: &str, c: &str) -> (r: Vec<String>)
    ensures
        texts(r@) == seq![a@, b@, c@],
{
    let mut v: Vec<String> = Vec::new();
    v.push(String::from_str(a));
    v.push(String::from_str(b));
    v.push(String::from_str(c));
    assert(texts(v@) =~= seq![a@, b@, c@]);
    v
}

impl EmojiExtension {
    /// The identifier, "emoji".
    pub fn id(&self) -> (r: String)
        ensures
            r@ == "emoji"@,
    {
        String::from_str("emoji")
    }

    /// The title, "Emoji".
    pub fn title(&self) -> (r: String)
        ensures
            r@ == "Emoji"@,
    {
        String::from_str("Emoji")
    }

    /// The keywords: "emoji" and "e ".
    pub fn keywords(&self) -> (r: Vec<String>)
        ensures
            texts(r@) == seq!["emoji"@, "e "@],
    {
        names2("emoji", "e ")
    }
}

impl TranslateExtension {
    /// The identifier, "translate".
    pub fn id(&self) -> (r: String)
        ensures
            r@ == "translate"@,
    {
        String::from_str("translate")
    }

    /// The title, "Traduzir".
    pub fn title(&self) -> (r: String)
        ensures
            r@ == "Traduzir"@,
    {
        String::from_str("Traduzir")
    }

    /// The keywords: "tr " and "translate".
    pub fn keywords(&self) -> (r: Vec<String>)
        ensures
            texts(r@) == seq!["tr "@, "translate"@],
    {
        names2("tr ", "translate")
    }
}

impl AiExtension {
    /// The identifier, "ai".
    pub fn id(&self) -> (r: String)
        ensures
            r@ == "ai"@,
    {
        String::from_str("ai")
    }

    /// The title, "Ask AI".
    pub fn title(&self) -> (r: String)
        ensures
            r@ == "Ask AI"@,
    {
        String::from_str("Ask AI")
    }

    /// The keywords: "ai" and "> ask".
    pub fn keywords(&self) -> (r: Vec<String>)
        ensures
            texts(r@) == seq!["ai"@, "> ask"@],
    {
        names2("ai", "> ask")
    }
}

impl IntegrationsExtension {
    /// The identifier, "integrations".
    pub fn id(&self) -> (r: String)
        ensures
            r@ == "integrations"@,
    {
        String::from_str("integrations")
    }

    /// The title, "Integrações".
    pub fn title(&self) -> (r: String)
        ensures
            r@ == "Integrações"@,
    {
        String::from_str("Integrações")
    }

    /// The keywords: "screenshot", "print" and "calendar".
    pub fn keywords(&self) -> (r: Vec<String>)
        ensures
            texts(r@) == seq!["screenshot"@, "print"@, "calendar"@],
    {
        names3("screenshot", "print", "calendar")
    }
}

impl CalculatorExtension {
    /// The identifier, "calculator".
    pub fn id(&self) -> (r: String)
        ensures
            r@ == "calculator"@,
    {
        String::from_str("calculator")
    }

    /// The title, "Calculadora".
    pub fn title(&self) -> (r: String)
        ensures
            r@ == "Calculadora"@,
    {
        String::from_str("Calculadora")
    }

    /// The keywords: "=" and "calc".
    pub fn keywords(&self) -> (r: Vec<String>)
        ensures
            texts(r@) == seq!["="@, "calc"@],
    {
        names2("=", "calc")
    }
}

impl DockerExtension {
    /// The identifier, "docker".
    pub fn id(&self) -> (r: String)
        ensures
            r@ == "docker"@,
    {
        String::from_str("docker")
    }

    /// The title, "Docker".
    pub fn title(&self) -> (r: String)
        ensures
            r@ == "Docker"@,
    {
        String::from_str("Docker")
    }

    /// The keywords: "docker".
    pub fn keywords(&self) -> (r: Vec<String>)
        ensures
            texts(r@) == seq!["docker"@],
    {
        names1("docker")
    }
}

impl SystemdExtension {
    /// The identifier, "systemd".
    pub fn id(&self) -> (r: String)
        ensures
            r@ == "systemd"@,
    {
        String::from_str("systemd")
    }

    /// The title, "Systemd".
    pub fn title(&self) -> (r: String)
        ensures
            r@ == "Systemd"@,
    {
        String::from_str("Systemd")
    }

    /// The keywords: "systemd" and "service".
    pub fn keywords(&self) -> (r: Vec<String>)
        ensures
            texts(r@) == seq!["systemd"@, "service"@],
    {
        names2("systemd", "service")
    }
}

impl GitExtension {
    /// The identifier, "git".
    pub fn id(&self) -> (r: String)
        ensures
            r@ == "git"@,
    {
        String::from_str("git")
    }

    /// The title, "Git".
    pub fn title(&self) -> (r: String)
        ensures
            r@ == "Git"@,
    {
        String::from_str("Git")
    }

    /// The keywords: "git".
    pub fn keywords(&self) -> (r: Vec<String>)
        ensures
            texts(r@) == seq!["git"@],
    {
        names1("git")
    }
}

/// The notes extension. The notes themselves live in the caller's
/// database, which gives the rows that match a query, newest first.
pub struct NotesExtension;

/// A note as the database gives it.
#[derive(Clone, Debug)]
pub struct NoteRow {
    pub id: i64,
    pub title: String,
    pub body: String,
}

/// At most the first eighty characters of `s`.
pub open spec fn first_eighty(s: Seq<char>) -> Seq<char> {
    if s.len() <= 80 {
        s
    } else {
        s.take(80)
    }
}

/// The result of a note: its title, the start of its body as the
/// subtitle, and the action `notes:<id>`.
pub open spec fn note_result(n: NoteRow, query: Seq<char>, h: HistoryStats) -> ResultView {
    scored_view(
        result_id(ResultKind::Extension, "notes:"@ + signed_decimal_text(n.id as int)),
        ResultKind::Extension,
        n.title@,
        Some(first_eighty(n.body@)),
        Some("text-x-generic"@),
        850,
        query,
        h,
    )
}

/// What an action of the notes extension asks of the notes database.
#[derive(Debug)]
pub enum NoteAction {
    /// Insert a note with this title and an empty body; then answer
    /// "Nota criada".
    Create(String),
    /// Copy the body of the note with this identifier; then answer
    /// "Nota copiada".
    CopyBody(String),
}

impl NotesExtension {
    /// The identifier, "notes".
    pub fn id(&self) -> (r: String)
        ensures
            r@ == "notes"@,
    {
        String::from_str("notes")
    }

    /// The title, "Notas".
    pub fn title(&self) -> (r: String)
        ensures
            r@ == "Notas"@,
    {
        String::from_str("Notas")
    }

    /// The keywords: "notes" and "nota".
    pub fn keywords(&self) -> (r: Vec<String>)
        ensures
            texts(r@) == seq!["notes"@, "nota"@],
    {
        names2("notes", "nota")
    }

    /// The results of the notes the database found, in its order.
    pub fn search(&self, rows: Vec<NoteRow>, query: &str, history: &HistoryStats) -> (r: Vec<SearchResult>)
        ensures
            result_views(r@) == rows@.map_values(|n: NoteRow| note_result(n, query@, *history)),
    {
        let ghost f = |n: NoteRow| note_result(n, query@, *history);
        let mut results: Vec<SearchResult> = Vec::new();
        let mut i: usize = 0;
        while i < rows.len()
            invariant
                i <= rows@.len(),
                f == (|n: NoteRow| note_result(n, query@, *history)),
                result_views(results@) == rows@.take(i as int).map_values(f),
            decreases rows.len() - i,
        {
            let ghost before = result_views(results@);
            let row = &rows[i];
            let body = chars_of(row.body.as_str());
            let end: usize = if body.len() <= 80 {
                body.len()
            } else {
                80
            };
            let preview = string_of_range(body.as_slice(), 0, end);
            assert(preview@ == first_eighty(row.body@));
            let x = build_result(
                make_id(ResultKind::Extension, cat("notes:", signed_decimal(row.id).as_str()).as_str()),
                ResultKind::Extension,
                row.title.clone(),
                Some(preview),
                Some(String::from_str("text-x-generic")),
                850,
                query,
                history,
            );
            results.push(x);
            assert(result_views(results@) =~= before.push(x@));
            assert(rows@.take(i + 1).map_values(f) =~= rows@.take(i as int).map_values(f).push(f(rows@[i as int])));
            i = i + 1;
        }
        assert(rows@.take(i as int) =~= rows@);
        results
    }

    /// What an action does: `new` creates a note titled `args`;
    /// `notes:<id>` copies that note's body; any other action is refused
    /// with "Ação desconhecida".
    pub fn run(&self, action_id: &str, args: &str) -> (r: Result<NoteAction, String>)
        ensures
            action_id@ == "new"@ ==> (r matches Ok(NoteAction::Create(t)) && t@ == args@),
            action_id@ != "new"@ ==> match without_prefix(action_id@, "notes:"@) {
                Some(id) => (r matches Ok(NoteAction::CopyBody(i)) && i@ == id),
                None => (r matches Err(e) && e@ == "Ação desconhecida"@),
            },
    {
        if str_eq(action_id, "new") {
            return Ok(NoteAction::Create(String::from_str(args)));
        }
        match strip(action_id, "notes:") {
            Some(id) => Ok(NoteAction::CopyBody(id)),
            None => Err(String::from_str("Ação desconhecida")),
        }
    }
}

/// The identifier, title and keywords of each built-in extension, in the
/// order the registry takes them; the assistant comes last, and only when
/// the configuration enables it.
pub open spec fn builtin_table(ai_enabled: bool) -> Seq<(Seq<char>, Seq<char>, Seq<Seq<char>>)> {
    seq![
        ("emoji"@, "Emoji"@, seq!["emoji"@, "e "@]),
        ("notes"@, "Notas"@, seq!["notes"@, "nota"@]),
        ("git"@, "Git"@, seq!["git"@]),
        ("docker"@, "Docker"@, seq!["docker"@]),
        ("systemd"@, "Systemd"@, seq!["systemd"@, "service"@]),
        ("calculator"@, "Calculadora"@, seq!["="@, "calc"@]),
        ("translate"@, "Traduzir"@, seq!["tr "@, "translate"@]),
        ("integrations"@, "Integrações"@, seq!["screenshot"@, "print"@, "calendar"@]),
    ] + if ai_enabled {
        seq![("ai"@, "Ask AI"@, seq!["ai"@, "> ask"@])]
    } else {
        Seq::empty()
    }
}

/// The identifier, title and keywords of a built-in extension.
pub open spec fn builtin_view(b: BuiltinInfo) -> (Seq<char>, Seq<char>, Seq<Seq<char>>) {
    (b.id@, b.title@, texts(b.keywords@))
}

fn info(id: String, title: String, keywords: Vec<String>) -> (r: BuiltinInfo)
    ensures
        builtin_view(r) == (id@, title@, texts(keywords@)),
{
    BuiltinInfo { id, title, keywords }
}

/// The built-in extensions (see `builtin_table`).
pub fn all_builtin(ai_enabled: bool) -> (r: Vec<BuiltinInfo>)
    ensures
        r@.map_values(|b: BuiltinInfo| builtin_view(b)) == builtin_table(ai_enabled),
{
    let mut v: Vec<BuiltinInfo> = Vec::new();
    let e = EmojiExtension;
    v.push(info(e.id(), e.title(), e.keywords()));
    let n = NotesExtension;
    v.push(info(n.id(), n.title(), n.keywords()));
    let g = GitExtension;
    v.push(info(g.id(), g.title(), g.keywords()));
    let d = DockerExtension;
    v.push(info(d.id(), d.title(), d.keywords()));
    let s = SystemdExtension;
    v.push(info(s.id(), s.title(), s.keywords()));
    let c = CalculatorExtension;
    v.push(info(c.id(), c.title(), c.keywords()));
    let t = TranslateExtension;
    v.push(info(t.id(), t.title(), t.keywords()));
    let i = IntegrationsExtension;
    v.push(info(i.id(), i.title(), i.keywords()));
    if ai_enabled {
        let a = AiExtension::new(true);
        v.push(info(a.id(), a.title(), a.keywords()));
    }
    assert(v@.map_values(|b: BuiltinInfo| builtin_view(b)) =~= builtin_table(ai_enabled));
    v
}

} // verus!
