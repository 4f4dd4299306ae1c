//! The clipboard history: what is kept, how entries read in lists and
//! search results, the paste stack, and the pixel and text encodings of
//! images. The history itself lives in a database the caller keeps.

use vstd::prelude::*;
use vstd::arithmetic::div_mod::lemma_fundamental_div_mod_converse;
use crate::matchers::{fuzzy_score, skim_score};
use crate::search::ranking::{build_result, result_views, scored_view, take_at_most, HistoryStats, ResultView};
use crate::search::types::{make_id, result_id, ResultKind, SearchResult};
use crate::text::{
    cat, cat3, chars_of, contains, decimal, decimal_text, lines, lowercase, opt_view, push_char,
    seq_contains, seq_lines, seq_trim, signed_decimal, signed_decimal_text, slice_chars, str_eq,
    clone_opt, string_of, to_lowercase, trim_bounds, trimmed_chars, utf8_len_below, seq_utf8_len, seq_join, join, views,
    hex, hex_text,
};

verus! {

/// How many characters of a text entry its preview shows.
pub const PREVIEW_LEN: usize = 90;

/// An entry as the clipboard list shows it.
#[derive(Clone, Debug)]
pub struct ClipboardItem {
    pub id: String,
    pub preview: String,
    pub subtitle: String,
    pub content_type: String,
    pub preview_image: Option<String>,
    pub pinned: bool,
}

/// Which entries a list shows.
#[derive(Clone, Copy, Debug, PartialEq, Eq, Structural)]
pub enum ClipboardFilter {
    All,
    Text,
    Image,
    Pinned,
}

impl Default for ClipboardFilter {
    fn default() -> (r: Self)
        ensures
            r == ClipboardFilter::All,
    {
        ClipboardFilter::All
    }
}

/// Whether a list with `filter` shows an entry of type `content_type`.
pub open spec fn filter_keeps_spec(filter: ClipboardFilter, content_type: Seq<char>, pinned: bool) -> bool {
    match filter {
        ClipboardFilter::All => true,
        ClipboardFilter::Text => content_type == "text"@,
        ClipboardFilter::Image => content_type == "image"@,
        ClipboardFilter::Pinned => pinned,
    }
}

/// Whether a list with `filter` shows an entry (see `filter_keeps_spec`).
pub fn filter_keeps(filter: ClipboardFilter, content_type: &str, pinned: bool) -> (r: bool)
    ensures
        r == filter_keeps_spec(filter, content_type@, pinned),
{
    match filter {
        ClipboardFilter::All => true,
        ClipboardFilter::Text => str_eq(content_type, "text"),
        ClipboardFilter::Image => str_eq(content_type, "image"),
        ClipboardFilter::Pinned => pinned,
    }
}

/// The filter a list request names, in any case: "text" or "texto";
/// "image", "imagem" or "imagens"; "pinned", "fixados" or "fixado";
/// anything else shows all entries.
pub open spec fn filter_named(name: Seq<char>) -> ClipboardFilter {
    let n = lowercase(name);
    if n == "text"@ || n == "texto"@ {
        ClipboardFilter::Text
    } else if n == "image"@ || n == "imagem"@ || n == "imagens"@ {
        ClipboardFilter::Image
    } else if n == "pinned"@ || n == "fixados"@ || n == "fixado"@ {
        ClipboardFilter::Pinned
    } else {
        ClipboardFilter::All
    }
}

/// The filter a list request names (see `filter_named`).
pub fn parse_filter(name: &str) -> (r: ClipboardFilter)
    ensures
        r == filter_named(name@),
{
    let lower = to_lowercase(name);
    let n = lower.as_str();
    if str_eq(n, "text") || str_eq(n, "texto") {
        ClipboardFilter::Text
    } else if str_eq(n, "image") || str_eq(n, "imagem") || str_eq(n, "imagens") {
        ClipboardFilter::Image
    } else if str_eq(n, "pinned") || str_eq(n, "fixados") || str_eq(n, "fixado") {
        ClipboardFilter::Pinned
    } else {
        ClipboardFilter::All
    }
}

/// The text a copied text is kept as: trimmed; none when that is empty or
/// longer than 200 000 bytes.
pub open spec fn kept_text(text: Seq<char>) -> Option<Seq<char>> {
    let t = seq_trim(text);
    if t.len() == 0 || seq_utf8_len(t) > 200000 {
        None
    } else {
        Some(t)
    }
}

/// The text a copied text is kept as (see `kept_text`).
pub fn text_to_keep(text: &str) -> (r: Option<String>)
    ensures
        opt_view(r) == kept_text(text@),
{
    let t = trimmed_chars(text);
    if t.len() == 0 || !utf8_len_below(t.as_slice(), 200001) {
        None
    } else {
        Some(string_of(t.as_slice()))
    }
}

/// Whether a copied image is kept: it has bytes, at most 8 000 000.
pub fn image_size_ok(len: usize) -> (r: bool)
    ensures
        r == (0 < len <= 8000000),
{
    len > 0 && len <= 8000000
}

/// Whether a new entry repeats the last one kept (same content hash).
pub fn is_duplicate(last_hash: &Option<String>, hash: &str) -> (r: bool)
    ensures
        r == (opt_view(*last_hash) == Some(hash@)),
{
    match last_hash {
        Some(h) => str_eq(h.as_str(), hash),
        None => false,
    }
}

/// The preview of a text entry: its first line, trimmed, cut to
/// `PREVIEW_LEN` characters with "…" when longer.
pub open spec fn text_preview(content: Seq<char>) -> Seq<char> {
    let ls = seq_lines(content);
    let line = seq_trim(
        if ls.len() > 0 {
            ls[0]
        } else {
            content
        },
    );
    if line.len() > PREVIEW_LEN {
        line.take(PREVIEW_LEN as int) + "…"@
    } else {
        line
    }
}

/// The preview of a text entry (see `text_preview`).
pub fn make_text_preview(content: &str) -> (r: String)
    ensures
        r@ == text_preview(content@),
{
    let cv = chars_of(content);
    let ls = lines(cv.as_slice());
    let first = if ls.len() > 0 {
        assert(views(ls@)[0] == ls@[0]@);
        ls[0].clone()
    } else {
        cv
    };
    let (a, b) = trim_bounds(first.as_slice());
    let line = slice_chars(first.as_slice(), a, b);
    if line.len() > PREVIEW_LEN {
        let cut = slice_chars(line.as_slice(), 0, PREVIEW_LEN);
        assert(cut@ =~= line@.take(PREVIEW_LEN as int));
        cat(string_of(cut.as_slice()).as_str(), "…")
    } else {
        string_of(line.as_slice())
    }
}

/// How many whole kilobytes a byte length rounds to (half a kilobyte
/// rounds up); a negative length counts as 0.
pub open spec fn rounded_kb(byte_len: i64) -> int {
    if byte_len < 0 {
        0
    } else {
        (byte_len + 512) / 1024
    }
}

/// The preview of an entry: "Imagem (N KB)" for an image, else the preview
/// of its text (see `text_preview`).
pub open spec fn preview_of(content_type: Seq<char>, content: Seq<char>, byte_len: i64) -> Seq<char> {
    if content_type == "image"@ {
        "Imagem ("@ + decimal_text(rounded_kb(byte_len) as nat) + " KB)"@
    } else {
        text_preview(content)
    }
}

/// The preview of an entry (see `preview_of`).
pub fn make_preview(content_type: &str, content: &str, byte_len: i64) -> (r: String)
    ensures
        r@ == preview_of(content_type@, content@, byte_len),
{
    if str_eq(content_type, "image") {
        let kb: u64 = if byte_len < 0 {
            0
        } else {
            ((byte_len as u64) + 512) / 1024
        };
        cat3("Imagem (", decimal(kb).as_str(), " KB)")
    } else {
        make_text_preview(content)
    }
}

/// How long ago, in words, from the minutes elapsed: "agora" under a
/// minute, then minutes, hours and days (rounded down).
pub open spec fn relative_time(mins: int) -> Seq<char> {
    if mins < 1 {
        "agora"@
    } else if mins < 60 {
        "há "@ + decimal_text(mins as nat) + " min"@
    } else if mins / 60 < 24 {
        "há "@ + decimal_text((mins / 60) as nat) + " h"@
    } else {
        "há "@ + decimal_text((mins / 60 / 24) as nat) + " dias"@
    }
}

/// How long ago, in words (see `relative_time`).
pub fn format_relative_time(mins: i64) -> (r: String)
    ensures
        r@ == relative_time(mins as int),
{
    if mins < 1 {
        String::from_str("agora")
    } else if mins < 60 {
        cat3("há ", decimal(mins as u64).as_str(), " min")
    } else {
        let hours = mins / 60;
        if hours < 24 {
            cat3("há ", decimal(hours as u64).as_str(), " h")
        } else {
            cat3("há ", decimal((hours / 24) as u64).as_str(), " dias")
        }
    }
}

/// The subtitle of an entry: "W×H · time" for an image, "N caracteres ·
/// time" for text (N its byte length, at least 0).
pub open spec fn subtitle_of(time: Seq<char>, content_type: Seq<char>, byte_len: i64, w: i64, h: i64) -> Seq<char> {
    if content_type == "image"@ {
        signed_decimal_text(w as int) + "×"@ + signed_decimal_text(h as int) + " · "@ + time
    } else {
        decimal_text(if byte_len < 0 { 0 } else { byte_len as nat }) + " caracteres · "@ + time
    }
}

/// The subtitle of an entry (see `subtitle_of`), with the time in words.
pub fn make_subtitle(time: &str, content_type: &str, byte_len: i64, w: i64, h: i64) -> (r: String)
    ensures
        r@ == subtitle_of(time@, content_type@, byte_len, w, h),
{
    if str_eq(content_type, "image") {
        let dims = cat3(signed_decimal(w).as_str(), "×", signed_decimal(h).as_str());
        cat3(dims.as_str(), " · ", time)
    } else {
        let chars: u64 = if byte_len < 0 {
            0
        } else {
            byte_len as u64
        };
        cat3(decimal(chars).as_str(), " caracteres · ", time)
    }
}

/// The result of a listed entry for the trimmed, lowercase query `q`: every
/// entry for an empty query; else one whose "preview subtitle" holds `q` in
/// lower case, or else matches `query` fuzzily.
pub open spec fn item_hit(item: ClipboardItem, q: Seq<char>, query: Seq<char>, h: HistoryStats) -> Option<ResultView> {
    let text = item.preview@ + " "@ + item.subtitle@;
    if q.len() > 0 && !seq_contains(lowercase(text), q) && skim_score(text, query) is None {
        None
    } else {
        Some(
            scored_view(
                result_id(ResultKind::Clipboard, item.id@),
                ResultKind::Clipboard,
                item.preview@,
                Some(item.subtitle@),
                Some(
                    if item.content_type@ == "image"@ {
                        "image-x-generic"@
                    } else {
                        "edit-copy"@
                    },
                ),
                800,
                query,
                h,
            ),
        )
    }
}

/// The clipboard results: the listed entries that match, in list order, at
/// most `limit` and at most the history's size.
pub open spec fn clipboard_results(items: Seq<ClipboardItem>, query: Seq<char>, h: HistoryStats, limit: int, kept: int) -> Seq<ResultView> {
    take_at_most(
        items.filter_map(|it: ClipboardItem| item_hit(it, lowercase(seq_trim(query)), query, h)),
        if limit < kept { limit } else { kept },
    )
}

/// The clipboard results among the listed entries (see
/// `clipboard_results`); `kept` is the configured size of the history.
pub fn search_items(items: Vec<ClipboardItem>, query: &str, history: &HistoryStats, limit: usize, kept: usize) -> (r: Vec<
    SearchResult,
>)
    ensures
        result_views(r@) == clipboard_results(items@, query@, *history, limit as int, kept as int),
{
    let q = chars_of(to_lowercase(string_of(trimmed_chars(query).as_slice()).as_str()).as_str());
    let ghost f = |it: ClipboardItem| item_hit(it, lowercase(seq_trim(query@)), query@, *history);
    let mut results: Vec<SearchResult> = Vec::new();
    let mut i: usize = 0;
    assert(result_views(results@) =~= items@.take(0).filter_map(f));
    while i < items.len()
        invariant
            i <= items@.len(),
            q@ == lowercase(seq_trim(query@)),
            f == (|it: ClipboardItem| item_hit(it, lowercase(seq_trim(query@)), query@, *history)),
            result_views(results@) == items@.take(i as int).filter_map(f),
        decreases items.len() - i,
    {
        let ghost before = results@;
        let it = &items[i];
        proof {
            assert(items@.take(i + 1).drop_last() =~= items@.take(i as int));
            assert(items@.take(i + 1).last() == *it);
        }
        let text = cat3(it.preview.as_str(), " ", it.subtitle.as_str());
        let shown = if q.len() == 0 {
            true
        } else if contains(chars_of(to_lowercase(text.as_str()).as_str()).as_slice(), q.as_slice()) {
            true
        } else {
            fuzzy_score(text.as_str(), query).is_some()
        };
        if shown {
            let icon = if str_eq(it.content_type.as_str(), "image") {
                "image-x-generic"
            } else {
                "edit-copy"
            };
            let x = build_result(
                make_id(ResultKind::Clipboard, it.id.as_str()),
                ResultKind::Clipboard,
                it.preview.clone(),
                Some(it.subtitle.clone()),
                Some(String::from_str(icon)),
                800,
                query,
                history,
            );
            results.push(x);
            assert(result_views(results@) =~= result_views(before) + seq![x@]);
        }
        i = i + 1;
    }
    assert(items@.take(i as int) =~= items@);
    let n = if limit < kept {
        limit
    } else {
        kept
    };
    results.truncate(n);
    results
}

/// The entries marked for pasting together, in the order they were added.
pub struct PasteStack {
    ids: Vec<String>,
}

/// The texts of a list of strings.
pub open spec fn texts(v: Seq<String>) -> Seq<Seq<char>> {
    v.map_values(|s: String| s@)
}

/// The stack's identifiers once `id` is added: unchanged when it is there
/// already, else with `id` last.
pub open spec fn added(ids: Seq<Seq<char>>, id: Seq<char>) -> Seq<Seq<char>> {
    if ids.contains(id) {
        ids
    } else {
        ids.push(id)
    }
}

/// The paste stack never holds an entry twice: adding to a stack without
/// repeats gives a stack without repeats, which holds the entry added.
pub proof fn lemma_paste_stack_unique(ids: Seq<Seq<char>>, id: Seq<char>)
    requires
        ids.no_duplicates(),
    ensures
        added(ids, id).no_duplicates(),
        added(ids, id).contains(id),
{
    if !ids.contains(id) {
        let r = ids.push(id);
        assert(r[ids.len() as int] == id);
        assert forall|i: int, j: int| 0 <= i < r.len() && 0 <= j < r.len() && i != j implies r[i] != r[j] by {
            if i < ids.len() && j < ids.len() {
                assert(r[i] == ids[i] && r[j] == ids[j]);
            } else if i < ids.len() {
                assert(r[i] == ids[i]);
                assert(ids.contains(ids[i]));
            } else {
                assert(r[j] == ids[j]);
                assert(ids.contains(ids[j]));
            }
        }
    }
}

impl PasteStack {
    /// The identifiers in the stack.
    pub closed spec fn ids(&self) -> Seq<Seq<char>> {
        texts(self.ids@)
    }

    /// An empty stack.
    pub fn new() -> (r: Self)
        ensures
            r.ids() == Seq::<Seq<char>>::empty(),
    {
        let r = PasteStack { ids: Vec::new() };
        assert(r.ids() =~= Seq::<Seq<char>>::empty());
        r
    }

    /// Adds the entry `id` unless it is there already, and gives the size of
    /// the stack; the error "Item não encontrado" when the entry does not
    /// exist (`exists` is what the history said).
    pub fn add(&mut self, id: &str, exists: bool) -> (r: Result<usize, String>)
        ensures
            !exists ==> final(self).ids() == old(self).ids() && (r matches Err(e) && e@ == "Item não encontrado"@),
            exists ==> final(self).ids() == added(old(self).ids(), id@) && r == Ok::<usize, String>(
                final(self).ids().len() as usize,
            ),
    {
        if !exists {
            return Err(String::from_str("Item não encontrado"));
        }
        let ghost before = texts(self.ids@);
        let mut found = false;
        let mut i: usize = 0;
        while i < self.ids.len()
            invariant
                i <= self.ids@.len(),
                before == texts(self.ids@),
                found == (exists|k: int| 0 <= k < i && before[k] == id@),
            decreases self.ids.len() - i,
        {
            if str_eq(self.ids[i].as_str(), id) {
                assert(before[i as int] == id@);
                found = true;
            }
            i = i + 1;
        }
        if !found {
            self.ids.push(String::from_str(id));
            assert(texts(self.ids@) =~= before.push(id@));
        }
        Ok(self.ids.len())
    }

    /// The number of entries in the stack.
    pub fn count(&self) -> (r: usize)
        ensures
            r == self.ids().len(),
    {
        self.ids.len()
    }

    /// Empties the stack.
    pub fn clear(&mut self)
        ensures
            final(self).ids() == Seq::<Seq<char>>::empty(),
    {
        self.ids = Vec::new();
        assert(texts(self.ids@) =~= Seq::<Seq<char>>::empty());
    }

    /// A copy of the identifiers, for the caller to read the entries.
    pub fn entry_ids(&self) -> (r: Vec<String>)
        ensures
            texts(r@) == self.ids(),
    {
        let mut out: Vec<String> = Vec::new();
        let mut i: usize = 0;
        while i < self.ids.len()
            invariant
                i <= self.ids@.len(),
                texts(out@) == texts(self.ids@).take(i as int),
            decreases self.ids.len() - i,
        {
            let ghost b = texts(out@);
            out.push(self.ids[i].clone());
            assert(texts(out@) =~= b.push(self.ids@[i as int]@));
            assert(texts(self.ids@).take(i + 1) =~= texts(self.ids@).take(i as int).push(self.ids@[i as int]@));
            i = i + 1;
        }
        assert(texts(self.ids@).take(i as int) =~= texts(self.ids@));
        out
    }
}

/// The text pasted for the stack's entries (type and content of each entry
/// still there, in stack order): the texts joined by blank lines; the error
/// "Stack vazio" for an empty stack, and "Stack só contém imagens — copie
/// uma por vez" when no entry is text.
pub open spec fn paste_text_of(stack_len: nat, entries: Seq<(Seq<char>, Seq<char>)>) -> Result<Seq<char>, Seq<char>> {
    let parts = entries.filter_map(|e: (Seq<char>, Seq<char>)| if e.0 == "text"@ { Some(e.1) } else { None });
    if stack_len == 0 {
        Err("Stack vazio"@)
    } else if parts.len() == 0 {
        Err("Stack só contém imagens — copie uma por vez"@)
    } else {
        Ok(seq_join(parts, "\n\n"@))
    }
}

/// The views of read entries.
pub open spec fn entry_views(v: Seq<(String, String)>) -> Seq<(Seq<char>, Seq<char>)> {
    v.map_values(|e: (String, String)| (e.0@, e.1@))
}

/// The text pasted for the stack (see `paste_text_of`); `entries` are the
/// type and content of each entry of the stack that still exists.
pub fn paste_text(stack_len: usize, entries: &Vec<(String, String)>) -> (r: Result<String, String>)
    ensures
        match r {
            Ok(t) => paste_text_of(stack_len as nat, entry_views(entries@)) == Ok::<Seq<char>, Seq<char>>(t@),
            Err(e) => paste_text_of(stack_len as nat, entry_views(entries@)) == Err::<Seq<char>, Seq<char>>(e@),
        },
{
    if stack_len == 0 {
        return Err(String::from_str("Stack vazio"));
    }
    let ghost ev = entry_views(entries@);
    let ghost f = |e: (Seq<char>, Seq<char>)| if e.0 == "text"@ { Some(e.1) } else { None };
    let mut parts: Vec<Vec<char>> = Vec::new();
    let mut i: usize = 0;
    assert(views(parts@) =~= ev.take(0).filter_map(f));
    while i < entries.len()
        invariant
            i <= entries@.len(),
            ev == entry_views(entries@),
            f == (|e: (Seq<char>, Seq<char>)| if e.0 == "text"@ { Some(e.1) } else { None }),
            views(parts@) == ev.take(i as int).filter_map(f),
        decreases entries.len() - i,
    {
        proof {
            assert(ev.take(i + 1).drop_last() =~= ev.take(i as int));
            assert(ev.take(i + 1).last() == (entries@[i as int].0@, entries@[i as int].1@));
        }
        if str_eq(entries[i].0.as_str(), "text") {
            let ghost b = views(parts@);
            parts.push(chars_of(entries[i].1.as_str()));
            assert(views(parts@) =~= b.push(entries@[i as int].1@));
        }
        i = i + 1;
    }
    assert(ev.take(i as int) =~= ev);
    if parts.len() == 0 {
        return Err(String::from_str("Stack só contém imagens — copie uma por vez"));
    }
    let joined = join(&parts, chars_of("\n\n").as_slice());
    Ok(string_of(joined.as_slice()))
}

/// Whether bytes start with the PNG signature.
pub open spec fn is_png_spec(b: Seq<u8>) -> bool {
    b.len() >= 8 && b[0] == 0x89 && b[1] == 0x50 && b[2] == 0x4e && b[3] == 0x47 && b[4] == 0x0d
        && b[5] == 0x0a && b[6] == 0x1a && b[7] == 0x0a
}

/// Whether bytes start with the PNG signature.
pub fn is_png_bytes(bytes: &[u8]) -> (r: bool)
    ensures
        r == is_png_spec(bytes@),
{
    bytes.len() >= 8 && bytes[0] == 0x89 && bytes[1] == 0x50 && bytes[2] == 0x4e && bytes[3] == 0x47
        && bytes[4] == 0x0d && bytes[5] == 0x0a && bytes[6] == 0x1a && bytes[7] == 0x0a
}

/// What `image::load_from_memory(bytes)` then `to_rgba8()` gives: the width,
/// height and RGBA pixels of the decoded image, or none.
pub uninterp spec fn decoded_image(bytes: Seq<u8>) -> Option<(u32, u32, Seq<u8>)>;

/// Decodes an image with `image::load_from_memory` and converts it with
/// `DynamicImage::to_rgba8`. The contract claims only that the result is
/// the one named by `decoded_image`: a function of the bytes alone.
#[verifier::external_body]
pub(crate) fn decode_image(bytes: &[u8]) -> (r: Option<(u32, u32, Vec<u8>)>)
    ensures
        match r {
            Some((w, h, px)) => decoded_image(bytes@) == Some((w, h, px@)),
            None => decoded_image(bytes@) is None,
        },
{
    match image::load_from_memory(bytes) {
        Ok(img) => {
            let rgba = img.to_rgba8();
            Some((rgba.width(), rgba.height(), rgba.into_raw()))
        },
        Err(_) => None,
    }
}

/// The first `h` rows of `row_len` bytes, row `r` starting at `r * stride`.
pub open spec fn rows(b: Seq<u8>, stride: int, row_len: int, h: nat) -> Seq<u8>
    decreases h,
{
    if h == 0 {
        Seq::empty()
    } else {
        let r = h - 1;
        rows(b, stride, row_len, (h - 1) as nat) + b.subrange(r * stride, r * stride + row_len)
    }
}

/// The RGBA pixels of a copied image of `w` × `h` pixels: none for an
/// empty size or one whose byte count overflows; the bytes as they are when
/// they have exactly that count; a decoded PNG's pixels; else rows read
/// with the stride the byte count gives, none when rows are too short.
pub open spec fn normalized_rgba(w: usize, h: usize, b: Seq<u8>) -> Option<Seq<u8>> {
    if w == 0 || h == 0 || w * h * 4 > usize::MAX {
        None
    } else if b.len() == w * h * 4 {
        Some(b)
    } else if is_png_spec(b) {
        match decoded_image(b) {
            Some((_, _, px)) => Some(px),
            None => None,
        }
    } else {
        let stride = b.len() as int / h as int;
        if stride < w * 4 {
            None
        } else {
            Some(rows(b, stride, w * 4, h as nat))
        }
    }
}

proof fn lemma_row_fits(len: int, h: int, r: int, w4: int)
    requires
        h > 0,
        0 <= r < h,
        len >= 0,
        w4 <= len / h,
    ensures
        r * (len / h) + w4 <= len,
        0 <= r * (len / h),
{
    let s = len / h;
    assert(s >= 0) by (nonlinear_arith)
        requires
            len >= 0,
            h > 0,
            s == len / h,
    ;
    assert(h * s <= len) by (nonlinear_arith)
        requires
            h > 0,
            s == len / h,
            len >= 0,
    ;
    assert(r * s + s <= h * s) by (nonlinear_arith)
        requires
            0 <= r < h,
            s >= 0,
    ;
    assert(0 <= r * s) by (nonlinear_arith)
        requires
            0 <= r,
            s >= 0,
    ;
}

/// The RGBA pixels of a copied image (see `normalized_rgba`).
pub fn normalize_rgba(width: usize, height: usize, bytes: &[u8]) -> (r: Option<Vec<u8>>)
    ensures
        match r {
            Some(v) => normalized_rgba(width, height, bytes@) == Some(v@),
            None => normalized_rgba(width, height, bytes@) is None,
        },
{
    if width == 0 || height == 0 {
        return None;
    }
    let wh = match width.checked_mul(height) {
        Some(x) => x,
        None => {
            assert(width * height * 4 > usize::MAX) by (nonlinear_arith)
                requires
                    width * height > usize::MAX,
            ;
            return None;
        },
    };
    let needed = match wh.checked_mul(4) {
        Some(x) => x,
        None => return None,
    };
    if bytes.len() == needed {
        let mut v: Vec<u8> = Vec::new();
        let mut i: usize = 0;
        while i < bytes.len()
            invariant
                i <= bytes.len(),
                v@ == bytes@.take(i as int),
            decreases bytes.len() - i,
        {
            v.push(bytes[i]);
            assert(bytes@.take(i + 1) =~= bytes@.take(i as int).push(bytes@[i as int]));
            i = i + 1;
        }
        assert(bytes@.take(i as int) =~= bytes@);
        return Some(v);
    }
    if is_png_bytes(bytes) {
        return match decode_image(bytes) {
            Some((_, _, px)) => Some(px),
            None => None,
        };
    }
    let stride = bytes.len() / height;
    assert(width * 4 <= width * height * 4) by (nonlinear_arith)
        requires
            height >= 1,
    ;
    let row_len = width * 4;
    if stride < row_len {
        return None;
    }
    let mut out: Vec<u8> = Vec::new();
    let mut row: usize = 0;
    let blen = bytes.len();
    while row < height
        invariant
            row <= height,
            blen == bytes@.len(),
            height > 0,
            stride == bytes@.len() as int / height as int,
            row_len == width * 4,
            row_len <= stride,
            out@ == rows(bytes@, stride as int, row_len as int, row as nat),
        decreases height - row,
    {
        proof {
            lemma_row_fits(bytes@.len() as int, height as int, row as int, row_len as int);
            assert(row * stride + row_len <= blen);
        }
        let start = row * stride;
        let mut k: usize = 0;
        let ghost before = out@;
        while k < row_len
            invariant
                k <= row_len,
                blen == bytes@.len(),
                start + row_len <= bytes@.len(),
                out@ == before + bytes@.subrange(start as int, start + k),
            decreases row_len - k,
        {
            out.push(bytes[start + k]);
            assert(bytes@.subrange(start as int, start + k + 1) =~= bytes@.subrange(start as int, start + k).push(
                bytes@[start + k],
            ));
            k = k + 1;
        }
        row = row + 1;
    }
    Some(out)
}

/// The base64 alphabet.
pub open spec fn b64_alphabet() -> Seq<char> {
    "ABCDEFGHIJKLMNOPQRSTUVWXYZabcdefghijklmnopqrstuvwxyz0123456789+/"@
}

/// The base64 text of one group of one to three bytes, padded with `=`.
pub open spec fn b64_group(c: Seq<u8>) -> Seq<char> {
    let b0 = c[0] as int;
    let b1 = if c.len() > 1 { c[1] as int } else { 0 };
    let b2 = if c.len() > 2 { c[2] as int } else { 0 };
    let n = b0 * 65536 + b1 * 256 + b2;
    seq![
        b64_alphabet()[(n / 262144) % 64],
        b64_alphabet()[(n / 4096) % 64],
        if c.len() > 1 { b64_alphabet()[(n / 64) % 64] } else { '=' },
        if c.len() > 2 { b64_alphabet()[n % 64] } else { '=' },
    ]
}

/// Standard base64 with padding: each group of three bytes (the last one
/// possibly shorter) as four characters.
pub open spec fn base64(d: Seq<u8>) -> Seq<char>
    decreases d.len(),
{
    if d.len() == 0 {
        Seq::empty()
    } else if d.len() <= 3 {
        b64_group(d)
    } else {
        b64_group(d.take(3)) + base64(d.subrange(3, d.len() as int))
    }
}

/// Standard base64 with padding (see `base64`).
pub fn base64_encode(data: &[u8]) -> (r: String)
    ensures
        r@ == base64(data@),
{
    let alpha = chars_of("ABCDEFGHIJKLMNOPQRSTUVWXYZabcdefghijklmnopqrstuvwxyz0123456789+/");
    proof {
        reveal_strlit("ABCDEFGHIJKLMNOPQRSTUVWXYZabcdefghijklmnopqrstuvwxyz0123456789+/");
    }
    assert(alpha@.len() == 64);
    let mut out = String::new();
    let mut i: usize = 0;
    assert(data@.subrange(0, data@.len() as int) =~= data@);
    while i < data.len()
        invariant
            i <= data@.len(),
            alpha@ == b64_alphabet(),
            alpha@.len() == 64,
            out@ + base64(data@.subrange(i as int, data@.len() as int)) == base64(data@),
        decreases data.len() - i,
    {
        let ghost t = data@.subrange(i as int, data@.len() as int);
        let n_left = data.len() - i;
        let len: usize = if n_left < 3 {
            n_left
        } else {
            3
        };
        let b0 = data[i] as u32;
        let b1: u32 = if len > 1 {
            data[i + 1] as u32
        } else {
            0
        };
        let b2: u32 = if len > 2 {
            data[i + 2] as u32
        } else {
            0
        };
        let n = b0 * 65536 + b1 * 256 + b2;
        let ghost before = out@;
        push_char(&mut out, alpha[((n / 262144) % 64) as usize]);
        push_char(&mut out, alpha[((n / 4096) % 64) as usize]);
        push_char(&mut out, if len > 1 { alpha[((n / 64) % 64) as usize] } else { '=' });
        push_char(&mut out, if len > 2 { alpha[(n % 64) as usize] } else { '=' });
        proof {
            let g = t.take(len as int);
            assert(g.len() == len);
            assert(g[0] == data@[i as int]);
            if len > 1 {
                assert(g[1] == data@[i + 1]);
            }
            if len > 2 {
                assert(g[2] == data@[i + 2]);
            }
            assert(out@ =~= before + b64_group(g));
            if t.len() <= 3 {
                assert(g =~= t);
                assert(data@.subrange(i + len, data@.len() as int) =~= Seq::<u8>::empty());
            } else {
                assert(t.subrange(3, t.len() as int) =~= data@.subrange(i + 3, data@.len() as int));
            }
        }
        i = i + len;
    }
    assert(data@.subrange(i as int, data@.len() as int) =~= Seq::<u8>::empty());
    assert(out@ + Seq::<char>::empty() =~= out@);
    out
}

/// The data address of PNG bytes: "data:image/png;base64," and their base64
/// text.
pub fn png_data_url(png: &[u8]) -> (r: String)
    ensures
        r@ == "data:image/png;base64,"@ + base64(png@),
{
    cat("data:image/png;base64,", base64_encode(png).as_str())
}

/// What copying a clipboard entry again puts on the clipboard.
#[derive(Debug)]
pub enum CopyPlan {
    /// The image file's pixels, of the given size.
    Image { path: String, width: usize, height: usize },
    Text(String),
}

/// What copying an entry of type `content_type` puts on the clipboard: the
/// image its content names, or its text.
pub fn copy_plan(content_type: &str, content: String, width: u32, height: u32) -> (r: CopyPlan)
    ensures
        content_type@ == "image"@ ==> (r matches CopyPlan::Image { path, width: w, height: h } && path == content
            && w == width && h == height),
        content_type@ != "image"@ ==> (r matches CopyPlan::Text(t) && t == content),
{
    if str_eq(content_type, "image") {
        CopyPlan::Image { path: content, width: width as usize, height: height as usize }
    } else {
        CopyPlan::Text(content)
    }
}

/// A row of the clipboard database as the list reads it, newest first
/// with pinned rows ahead: how many minutes ago it was copied, and for an
/// image the data URL of its PNG when that could be read.
#[derive(Clone, Debug)]
pub struct ClipboardRow {
    pub id: String,
    pub content: String,
    pub minutes_ago: i64,
    pub content_type: String,
    pub width: i64,
    pub height: i64,
    pub byte_len: i64,
    pub pinned: i64,
    pub preview_image: Option<String>,
}

/// Everything a listed entry shows.
pub open spec fn item_full(i: ClipboardItem) -> (Seq<char>, Seq<char>, Seq<char>, Seq<char>, Option<Seq<char>>, bool) {
    (i.id@, i.preview@, i.subtitle@, i.content_type@, opt_view(i.preview_image), i.pinned)
}

/// The listed entry of a row the filter keeps: its preview, its subtitle
/// with the time in words, and the image preview for an image only.
pub open spec fn row_item(r: ClipboardRow, filter: ClipboardFilter) -> Option<
    (Seq<char>, Seq<char>, Seq<char>, Seq<char>, Option<Seq<char>>, bool),
> {
    let pinned = r.pinned != 0;
    if filter_keeps_spec(filter, r.content_type@, pinned) {
        Some(
            (
                r.id@,
                preview_of(r.content_type@, r.content@, r.byte_len),
                subtitle_of(relative_time(r.minutes_ago as int), r.content_type@, r.byte_len, r.width, r.height),
                r.content_type@,
                if r.content_type@ == "image"@ {
                    opt_view(r.preview_image)
                } else {
                    None
                },
                pinned,
            ),
        )
    } else {
        None
    }
}

/// The listed entries of the rows the filter keeps, in the rows' order.
pub fn list_entries(rows: Vec<ClipboardRow>, filter: ClipboardFilter) -> (r: Vec<ClipboardItem>)
    ensures
        r@.map_values(|i: ClipboardItem| item_full(i)) == rows@.filter_map(
            |x: ClipboardRow| row_item(x, filter),
        ),
{
    let ghost f = |x: ClipboardRow| row_item(x, filter);
    let mut out: Vec<ClipboardItem> = Vec::new();
    let mut i: usize = 0;
    assert(out@.map_values(|i: ClipboardItem| item_full(i)) =~= rows@.take(0).filter_map(f));
    while i < rows.len()
        invariant
            i <= rows@.len(),
            f == (|x: ClipboardRow| row_item(x, filter)),
            out@.map_values(|i: ClipboardItem| item_full(i)) == rows@.take(i as int).filter_map(f),
        decreases rows.len() - i,
    {
        let row = &rows[i];
        proof {
            assert(rows@.take(i + 1).drop_last() =~= rows@.take(i as int));
            assert(rows@.take(i + 1).last() == *row);
        }
        let ghost before = out@.map_values(|i: ClipboardItem| item_full(i));
        let pinned = row.pinned != 0;
        if filter_keeps(filter, row.content_type.as_str(), pinned) {
            let is_image = str_eq(row.content_type.as_str(), "image");
            let preview_image = if is_image {
                clone_opt(&row.preview_image)
            } else {
                None
            };
            let time = format_relative_time(row.minutes_ago);
            let item = ClipboardItem {
                id: row.id.clone(),
                preview: make_preview(row.content_type.as_str(), row.content.as_str(), row.byte_len),
                subtitle: make_subtitle(time.as_str(), row.content_type.as_str(), row.byte_len, row.width, row.height),
                content_type: row.content_type.clone(),
                preview_image,
                pinned,
            };
            out.push(item);
            assert(out@.map_values(|i: ClipboardItem| item_full(i)) =~= before.push(item_full(item)));
        }
        i = i + 1;
    }
    assert(rows@.take(i as int) =~= rows@);
    out
}

/// What hashing bytes with a `DefaultHasher::new()` gives. The hasher is
/// not seeded by the process, so this depends on the bytes alone for a
/// given build of the standard library.
pub uninterp spec fn bytes_hash(data: Seq<u8>) -> u64;

/// Hashes bytes with `BuildHasher::hash_one` on the default builder of
/// `DefaultHasher` (a `DefaultHasher::new()` fed the bytes,
/// then finished). The contract claims only that the result is the one
/// named by `bytes_hash`.
#[verifier::external_body]
fn hash_bytes(data: &[u8]) -> (r: u64)
    ensures
        r == bytes_hash(data@),
{
    std::hash::BuildHasher::hash_one(
        &std::hash::BuildHasherDefault::<std::collections::hash_map::DefaultHasher>::default(),
        data,
    )
}

/// The content hash of a kept text: the hash of its UTF-8 bytes in
/// hexadecimal.
pub fn hash_str(s: &str) -> (r: String)
    ensures
        r@ == text_hash(s@),
{
    hex(hash_bytes(s.as_bytes()))
}

/// The content hash of an image: `img:` and the hash of its bytes in
/// hexadecimal.
pub fn image_hash(bytes: &[u8]) -> (r: String)
    ensures
        r@ == "img:"@ + hex_text(bytes_hash(bytes@) as nat),
{
    cat("img:", hex(hash_bytes(bytes)).as_str())
}

/// The content hash of a kept text: its UTF-8 bytes hashed, in
/// hexadecimal.
pub open spec fn text_hash(t: Seq<char>) -> Seq<char> {
    hex_text(bytes_hash(vstd::utf8::encode_utf8(t)) as nat)
}

/// The size and RGBA pixels a copied image is stored with: a PNG is
/// decoded; other bytes are raw pixels of the size the clipboard gave (see
/// `normalized_rgba`); none when that fails or a side is zero.
pub open spec fn stored_pixels(width: usize, height: usize, bytes: Seq<u8>) -> Option<(u32, u32, Seq<u8>)> {
    let px = if is_png_spec(bytes) {
        decoded_image(bytes)
    } else {
        match normalized_rgba(width, height, bytes) {
            Some(p) => Some((width as u32, height as u32, p)),
            None => None,
        }
    };
    match px {
        Some((w, h, p)) => if w == 0 || h == 0 {
            None
        } else {
            Some((w, h, p))
        },
        None => None,
    }
}

/// The size and pixels a copied image is stored with (see `stored_pixels`).
pub fn image_pixels(width: usize, height: usize, bytes: &[u8]) -> (r: Option<(u32, u32, Vec<u8>)>)
    ensures
        match r {
            Some((w, h, p)) => stored_pixels(width, height, bytes@) == Some((w, h, p@)),
            None => stored_pixels(width, height, bytes@) is None,
        },
{
    let px = if is_png_bytes(bytes) {
        decode_image(bytes)
    } else {
        match normalize_rgba(width, height, bytes) {
            Some(p) => Some((width as u32, height as u32, p)),
            None => None,
        }
    };
    match px {
        Some((w, h, p)) => if w == 0 || h == 0 {
            None
        } else {
            Some((w, h, p))
        },
        None => None,
    }
}

/// What a copied text adds to the history, given the hash of the last
/// entry kept: the kept text (see `kept_text`) and its hash; none when
/// nothing is kept or its hash is the last one.
pub open spec fn recorded_text(text: Seq<char>, last: Option<Seq<char>>) -> Option<(Seq<char>, Seq<char>)> {
    match kept_text(text) {
        Some(t) => if last == Some(text_hash(t)) {
            None
        } else {
            Some((t, text_hash(t)))
        },
        None => None,
    }
}

/// What a copied text adds to the history (see `recorded_text`).
pub fn text_entry(text: &str, last_hash: &Option<String>) -> (r: Option<(String, String)>)
    ensures
        match r {
            Some((t, h)) => recorded_text(text@, opt_view(*last_hash)) == Some((t@, h@)),
            None => recorded_text(text@, opt_view(*last_hash)) is None,
        },
{
    let t = match text_to_keep(text) {
        Some(t) => t,
        None => return None,
    };
    let h = hash_str(t.as_str());
    if is_duplicate(last_hash, h.as_str()) {
        return None;
    }
    Some((t, h))
}

/// The hash under which a copied image is added to the history, given the
/// hash of the last entry kept; none when it has no bytes or more than
/// 8 000 000, or repeats the last entry.
pub open spec fn recorded_image(bytes: Seq<u8>, last: Option<Seq<char>>) -> Option<Seq<char>> {
    let h = "img:"@ + hex_text(bytes_hash(bytes) as nat);
    if !(0 < bytes.len() <= 8000000) || last == Some(h) {
        None
    } else {
        Some(h)
    }
}

/// The hash under which a copied image is added to the history (see
/// `recorded_image`).
pub fn image_entry(bytes: &[u8], last_hash: &Option<String>) -> (r: Option<String>)
    ensures
        opt_view(r) == recorded_image(bytes@, opt_view(*last_hash)),
{
    if !image_size_ok(bytes.len()) {
        return None;
    }
    let h = image_hash(bytes);
    if is_duplicate(last_hash, h.as_str()) {
        return None;
    }
    Some(h)
}

/// Base64 writes every group of up to three bytes as four characters: the
/// text of `n` bytes is 4 * ceil(n / 3) long.
pub proof fn lemma_base64_len(d: Seq<u8>)
    ensures
        base64(d).len() == 4 * ((d.len() + 2) / 3),
    decreases d.len(),
{
    if d.len() > 3 {
        lemma_base64_len(d.subrange(3, d.len() as int));
    }
}


/// The value of a base64 digit (RFC 4648): `A`-`Z` are 0 to 25, `a`-`z`
/// 26 to 51, `0`-`9` 52 to 61, `+` 62 and `/` 63; any other character has
/// none (-1).
pub open spec fn b64_value(c: char) -> int {
    if 'A' <= c && c <= 'Z' {
        (c as u32) as int - ('A' as u32) as int
    } else if 'a' <= c && c <= 'z' {
        (c as u32) as int - ('a' as u32) as int + 26
    } else if '0' <= c && c <= '9' {
        (c as u32) as int - ('0' as u32) as int + 52
    } else if c == '+' {
        62
    } else if c == '/' {
        63
    } else {
        -1
    }
}

/// The bytes a base64 text decodes to: each group of four digits gives
/// three bytes, or two when it ends in `=`, or one when it ends in `==`.
pub open spec fn b64_decode(s: Seq<char>) -> Seq<int>
    decreases s.len(),
{
    if s.len() < 4 {
        Seq::empty()
    } else {
        let v2 = if s[2] == '=' { 0 } else { b64_value(s[2]) };
        let v3 = if s[3] == '=' { 0 } else { b64_value(s[3]) };
        let n = b64_value(s[0]) * 262144 + b64_value(s[1]) * 4096 + v2 * 64 + v3;
        let bytes = if s[2] == '=' {
            seq![n / 65536]
        } else if s[3] == '=' {
            seq![n / 65536, (n / 256) % 256]
        } else {
            seq![n / 65536, (n / 256) % 256, n % 256]
        };
        bytes + b64_decode(s.subrange(4, s.len() as int))
    }
}

/// The byte values of `d`.
pub open spec fn byte_values(d: Seq<u8>) -> Seq<int> {
    d.map_values(|b: u8| b as int)
}

proof fn lemma_b64_digit(i: int)
    requires
        0 <= i < 64,
    ensures
        b64_value(b64_alphabet()[i]) == i,
{
    reveal_strlit("ABCDEFGHIJKLMNOPQRSTUVWXYZabcdefghijklmnopqrstuvwxyz0123456789+/");
    if i == 0 {
    } else if i == 1 {
    } else if i == 2 {
    } else if i == 3 {
    } else if i == 4 {
    } else if i == 5 {
    } else if i == 6 {
    } else if i == 7 {
    } else if i == 8 {
    } else if i == 9 {
    } else if i == 10 {
    } else if i == 11 {
    } else if i == 12 {
    } else if i == 13 {
    } else if i == 14 {
    } else if i == 15 {
    } else if i == 16 {
    } else if i == 17 {
    } else if i == 18 {
    } else if i == 19 {
    } else if i == 20 {
    } else if i == 21 {
    } else if i == 22 {
    } else if i == 23 {
    } else if i == 24 {
    } else if i == 25 {
    } else if i == 26 {
    } else if i == 27 {
    } else if i == 28 {
    } else if i == 29 {
    } else if i == 30 {
    } else if i == 31 {
    } else if i == 32 {
    } else if i == 33 {
    } else if i == 34 {
    } else if i == 35 {
    } else if i == 36 {
    } else if i == 37 {
    } else if i == 38 {
    } else if i == 39 {
    } else if i == 40 {
    } else if i == 41 {
    } else if i == 42 {
    } else if i == 43 {
    } else if i == 44 {
    } else if i == 45 {
    } else if i == 46 {
    } else if i == 47 {
    } else if i == 48 {
    } else if i == 49 {
    } else if i == 50 {
    } else if i == 51 {
    } else if i == 52 {
    } else if i == 53 {
    } else if i == 54 {
    } else if i == 55 {
    } else if i == 56 {
    } else if i == 57 {
    } else if i == 58 {
    } else if i == 59 {
    } else if i == 60 {
    } else if i == 61 {
    } else if i == 62 {
    } else if i == 63 {
    }
}

proof fn lemma_b64_arith(b0: int, b1: int, b2: int)
    requires
        0 <= b0 < 256,
        0 <= b1 < 256,
        0 <= b2 < 256,
    ensures
        ({
            let n = b0 * 65536 + b1 * 256 + b2;
            &&& ((n / 262144) % 64) * 262144 + ((n / 4096) % 64) * 4096 + ((n / 64) % 64) * 64 + n % 64 == n
            &&& n / 65536 == b0
            &&& (n / 256) % 256 == b1
            &&& n % 256 == b2
            &&& b2 == 0 ==> n % 64 == 0
            &&& b1 == 0 && b2 == 0 ==> (n / 64) % 64 == 0
        }),
{
    let n = b0 * 65536 + b1 * 256 + b2;
    let d0 = b0 / 4;
    let d1 = (b0 % 4) * 16 + b1 / 16;
    let d2 = (b1 % 16) * 4 + b2 / 64;
    let d3 = b2 % 64;
    assert(n == d0 * 262144 + d1 * 4096 + d2 * 64 + d3);
    lemma_fundamental_div_mod_converse(n, 262144, d0, d1 * 4096 + d2 * 64 + d3);
    lemma_fundamental_div_mod_converse(d0, 64, 0, d0);
    lemma_fundamental_div_mod_converse(n, 4096, d0 * 64 + d1, d2 * 64 + d3);
    lemma_fundamental_div_mod_converse(d0 * 64 + d1, 64, d0, d1);
    lemma_fundamental_div_mod_converse(n, 64, d0 * 4096 + d1 * 64 + d2, d3);
    lemma_fundamental_div_mod_converse(d0 * 4096 + d1 * 64 + d2, 64, d0 * 64 + d1, d2);
    lemma_fundamental_div_mod_converse(n, 65536, b0, b1 * 256 + b2);
    lemma_fundamental_div_mod_converse(n, 256, b0 * 256 + b1, b2);
    lemma_fundamental_div_mod_converse(b0 * 256 + b1, 256, b0, b1);
}

proof fn lemma_b64_group_decodes(c: Seq<u8>, r: Seq<char>)
    requires
        1 <= c.len() <= 3,
    ensures
        b64_decode(b64_group(c) + r) == byte_values(c) + b64_decode(r),
{
    let g = b64_group(c);
    let s = g + r;
    let b0 = c[0] as int;
    let b1 = if c.len() > 1 { c[1] as int } else { 0 };
    let b2 = if c.len() > 2 { c[2] as int } else { 0 };
    let n = b0 * 65536 + b1 * 256 + b2;
    lemma_b64_arith(b0, b1, b2);
    lemma_b64_digit((n / 262144) % 64);
    lemma_b64_digit((n / 4096) % 64);
    lemma_b64_digit((n / 64) % 64);
    lemma_b64_digit(n % 64);
    assert(s[0] == g[0] && s[1] == g[1] && s[2] == g[2] && s[3] == g[3]);
    assert(s.subrange(4, s.len() as int) =~= r);
    if c.len() == 1 {
        assert(byte_values(c) =~= seq![b0]);
    } else if c.len() == 2 {
        assert(byte_values(c) =~= seq![b0, b1]);
    } else {
        assert(byte_values(c) =~= seq![b0, b1, b2]);
    }
}

/// Base64 loses nothing: the text `base64` writes decodes, by the
/// standard alphabet, to the bytes it was made from.
pub proof fn lemma_base64_decodes(d: Seq<u8>)
    ensures
        b64_decode(base64(d)) == byte_values(d),
    decreases d.len(),
{
    if d.len() == 0 {
        assert(byte_values(d) =~= Seq::<int>::empty());
    } else if d.len() <= 3 {
        lemma_b64_group_decodes(d, Seq::empty());
        assert(b64_group(d) + Seq::<char>::empty() =~= b64_group(d));
        assert(b64_decode(Seq::<char>::empty()) =~= Seq::<int>::empty());
        assert(byte_values(d) + Seq::<int>::empty() =~= byte_values(d));
    } else {
        let rest = d.subrange(3, d.len() as int);
        lemma_base64_decodes(rest);
        lemma_b64_group_decodes(d.take(3), base64(rest));
        assert(byte_values(d) =~= byte_values(d.take(3)) + byte_values(rest));
    }
}

/// A copy recorded in the history is not recorded again when the same text
/// or image is copied right after: the second copy repeats the hash the
/// first was recorded under.
pub proof fn lemma_repeated_copy_ignored(text: Seq<char>, bytes: Seq<u8>, last: Option<Seq<char>>)
    ensures
        recorded_text(text, last) matches Some((t, h)) ==> recorded_text(text, Some(h)) is None,
        recorded_image(bytes, last) matches Some(h) ==> recorded_image(bytes, Some(h)) is None,
{
}

} // verus!
