//! Contacts: read from vCard files and address books, searched by name,
//! e-mail and phone.

use vstd::prelude::*;
use crate::matchers::{fuzzy_score, skim_score};
use crate::search::ranking::{
    build_result, result_views, scored_view, sort_by_score, sort_results, take_at_most,
    HistoryStats, ResultView,
};
use crate::search::types::{make_id, result_id, ResultKind, SearchResult};
use crate::text::{
    cat, cat3, cat5, chars_eq, chars_of, clone_opt, contains, lines, lowercase, opt_view,
    seq_contains, seq_lines, seq_split, seq_starts_with, seq_trim, seq_utf8_len, slice_chars,
    split_char, starts_with, string_of, to_lowercase, trim_bounds, trimmed_chars,
    utf8_len_below, views, signed_decimal, signed_decimal_text,
};

verus! {

/// A contact.
#[derive(Clone, Debug)]
pub struct ContactEntry {
    pub id: String,
    pub name: String,
    pub email: Option<String>,
    pub phone: Option<String>,
}

/// The text of a contact's fields.
pub struct ContactView {
    pub id: Seq<char>,
    pub name: Seq<char>,
    pub email: Option<Seq<char>>,
    pub phone: Option<Seq<char>>,
}

impl View for ContactEntry {
    type V = ContactView;

    open spec fn view(&self) -> ContactView {
        ContactView {
            id: self.id@,
            name: self.name@,
            email: opt_view(self.email),
            phone: opt_view(self.phone),
        }
    }
}

/// The views of a sequence of contacts.
pub open spec fn contact_views(s: Seq<ContactEntry>) -> Seq<ContactView> {
    s.map_values(|e: ContactEntry| e@)
}

impl ContactEntry {
    /// A copy of the contact.
    pub fn duplicate(&self) -> (r: Self)
        ensures
            r == *self,
    {
        ContactEntry {
            id: self.id.clone(),
            name: self.name.clone(),
            email: clone_opt(&self.email),
            phone: clone_opt(&self.phone),
        }
    }
}

/// The known contacts. A new index is empty until the contacts gathered in
/// the background replace its entries.
pub struct ContactsIndex {
    entries: Vec<ContactEntry>,
}

/// The text of an optional field, or nothing.
pub open spec fn or_empty(o: Option<Seq<char>>) -> Seq<char> {
    match o {
        Some(s) => s,
        None => Seq::empty(),
    }
}

/// Whether the contact is a candidate for the lowercase query `ql`: its
/// lowercase name holds it, or else the lowercase text "e-mail phone".
pub open spec fn contact_candidate(c: ContactView, ql: Seq<char>) -> bool {
    seq_contains(lowercase(c.name), ql) || seq_contains(
        lowercase(or_empty(c.email) + " "@ + or_empty(c.phone)),
        ql,
    )
}

/// The text the fuzzy matcher reads: "name e-mail phone".
pub open spec fn contact_haystack(c: ContactView) -> Seq<char> {
    c.name + " "@ + or_empty(c.email) + " "@ + or_empty(c.phone)
}

/// The subtitle of a contact: its e-mail, else its phone, else "Contato".
pub open spec fn contact_subtitle(c: ContactView) -> Seq<char> {
    match c.email {
        Some(e) => e,
        None => match c.phone {
            Some(p) => p,
            None => "Contato"@,
        },
    }
}

/// The result a contact gives for the trimmed query `q`.
pub open spec fn contact_hit(c: ContactView, q: Seq<char>, h: HistoryStats) -> Option<ResultView> {
    if !contact_candidate(c, lowercase(q)) {
        None
    } else {
        match skim_score(contact_haystack(c), q) {
            Some(score) => Some(
                scored_view(
                    c.id,
                    ResultKind::Contact,
                    c.name,
                    Some(contact_subtitle(c)),
                    Some("contact-new"@),
                    score,
                    q,
                    h,
                ),
            ),
            None => None,
        }
    }
}

/// The results of a search: none for a query shorter than two bytes once
/// trimmed; else the matching contacts, best first, at most `limit`.
pub open spec fn contact_results(
    entries: Seq<ContactView>,
    query: Seq<char>,
    h: HistoryStats,
    limit: int,
) -> Seq<ResultView> {
    let q = seq_trim(query);
    if seq_utf8_len(q) < 2 {
        Seq::empty()
    } else {
        take_at_most(
            sort_by_score(entries.filter_map(|c: ContactView| contact_hit(c, q, h))),
            limit,
        )
    }
}

/// The first contact with identifier `id`.
pub open spec fn contact_for(entries: Seq<ContactView>, id: Seq<char>) -> Option<ContactView>
    decreases entries.len(),
{
    if entries.len() == 0 {
        None
    } else if entries[0].id == id {
        Some(entries[0])
    } else {
        contact_for(entries.drop_first(), id)
    }
}

fn opt_str(o: &Option<String>) -> (r: &str)
    ensures
        r@ == or_empty(opt_view(*o)),
{
    match o {
        Some(s) => s.as_str(),
        None => {
            proof {
                reveal_strlit("");
            }
            ""
        },
    }
}

impl ContactsIndex {
    /// The contacts, in the order they were gathered.
    pub closed spec fn contacts(&self) -> Seq<ContactView> {
        contact_views(self.entries@)
    }

    /// An empty index.
    pub fn new() -> (r: Self)
        ensures
            r.contacts() == Seq::<ContactView>::empty(),
    {
        let r = ContactsIndex { entries: Vec::new() };
        assert(r.contacts() =~= Seq::<ContactView>::empty());
        r
    }

    /// Replaces the contacts with those gathered by a refresh.
    pub fn replace(&mut self, collected: Vec<ContactEntry>)
        ensures
            final(self).contacts() == contact_views(collected@),
    {
        self.entries = collected;
    }

    /// The contacts matching `query` (see `contact_results`).
    pub fn search(&self, query: &str, history: &HistoryStats, limit: usize) -> (r: Vec<
        SearchResult,
    >)
        ensures
            result_views(r@) == contact_results(self.contacts(), query@, *history, limit as int),
    {
        let qv = trimmed_chars(query);
        if utf8_len_below(qv.as_slice(), 2) {
            let r: Vec<SearchResult> = Vec::new();
            assert(result_views(r@) =~= Seq::<ResultView>::empty());
            return r;
        }
        let q = string_of(qv.as_slice());
        let ql = chars_of(to_lowercase(q.as_str()).as_str());
        let ghost all = contact_views(self.entries@);
        let ghost f = |c: ContactView| contact_hit(c, q@, *history);
        let mut results: Vec<SearchResult> = Vec::new();
        let mut i: usize = 0;
        assert(result_views(results@) =~= all.take(0).filter_map(f));
        while i < self.entries.len()
            invariant
                i <= self.entries@.len(),
                all == contact_views(self.entries@),
                q@ == seq_trim(query@),
                ql@ == lowercase(q@),
                f == (|c: ContactView| contact_hit(c, q@, *history)),
                result_views(results@) == all.take(i as int).filter_map(f),
            decreases self.entries.len() - i,
        {
            let ghost before = results@;
            proof {
                assert(all.take(i + 1).drop_last() =~= all.take(i as int));
                assert(all.take(i + 1).last() == self.entries@[i as int]@);
            }
            let c = &self.entries[i];
            let email = opt_str(&c.email);
            let phone = opt_str(&c.phone);
            let name_lower = to_lowercase(c.name.as_str());
            let candidate = if contains(chars_of(name_lower.as_str()).as_slice(), ql.as_slice()) {
                true
            } else {
                let extra = to_lowercase(cat3(email, " ", phone).as_str());
                contains(chars_of(extra.as_str()).as_slice(), ql.as_slice())
            };
            if candidate {
                let haystack = cat5(c.name.as_str(), " ", email, " ", phone);
                match fuzzy_score(haystack.as_str(), q.as_str()) {
                    Some(score) => {
                        let subtitle = match &c.email {
                            Some(e) => e.clone(),
                            None => match &c.phone {
                                Some(p) => p.clone(),
                                None => String::from_str("Contato"),
                            },
                        };
                        let x = build_result(
                            c.id.clone(),
                            ResultKind::Contact,
                            c.name.clone(),
                            Some(subtitle),
                            Some(String::from_str("contact-new")),
                            score,
                            q.as_str(),
                            history,
                        );
                        results.push(x);
                        assert(result_views(results@) =~= result_views(before) + seq![x@]);
                    },
                    None => {},
                }
            }
            i = i + 1;
        }
        assert(all.take(i as int) =~= all);
        sort_results(&mut results);
        results.truncate(limit);
        results
    }

    /// A copy of the first contact with identifier `id`.
    pub fn get(&self, id: &str) -> (r: Option<ContactEntry>)
        ensures
            match contact_for(self.contacts(), id@) {
                Some(v) => r matches Some(e) && e@ == v,
                None => r is None,
            },
    {
        let key = chars_of(id);
        let ghost all = contact_views(self.entries@);
        let mut i: usize = 0;
        assert(all.subrange(0, all.len() as int) =~= all);
        while i < self.entries.len()
            invariant
                i <= self.entries@.len(),
                key@ == id@,
                all == contact_views(self.entries@),
                contact_for(all, id@) == contact_for(all.subrange(i as int, all.len() as int), id@),
            decreases self.entries.len() - i,
        {
            let ghost rest = all.subrange(i as int, all.len() as int);
            let c = &self.entries[i];
            if chars_eq(chars_of(c.id.as_str()).as_slice(), key.as_slice()) {
                return Some(c.duplicate());
            }
            assert(rest.drop_first() =~= all.subrange(i + 1, all.len() as int));
            i = i + 1;
        }
        None
    }
}

/// Where opening a contact leads: `mailto:` its e-mail, else `tel:` its
/// phone, else the error "Contato sem e-mail ou telefone".
pub open spec fn contact_target(c: ContactView) -> Result<Seq<char>, Seq<char>> {
    match c.email {
        Some(e) => Ok("mailto:"@ + e),
        None => match c.phone {
            Some(p) => Ok("tel:"@ + p),
            None => Err("Contato sem e-mail ou telefone"@),
        },
    }
}

/// The address that opens the contact (see `contact_target`).
pub fn open_contact_target(entry: &ContactEntry) -> (r: Result<String, String>)
    ensures
        match r {
            Ok(u) => contact_target(entry@) == Ok::<Seq<char>, Seq<char>>(u@),
            Err(e) => contact_target(entry@) == Err::<Seq<char>, Seq<char>>(e@),
        },
{
    match &entry.email {
        Some(e) => Ok(cat("mailto:", e.as_str())),
        None => match &entry.phone {
            Some(p) => Ok(cat("tel:", p.as_str())),
            None => Err(String::from_str("Contato sem e-mail ou telefone")),
        },
    }
}

/// What a scan of a vCard has gathered so far; `failed` once a field line
/// had no value after a colon.
pub struct VcardScan {
    pub name: Option<Seq<char>>,
    pub email: Option<Seq<char>>,
    pub phone: Option<Seq<char>>,
    pub failed: bool,
}

/// The text between the first and the second colon of a line
/// (`line.split(':').nth(1)`), trimmed.
pub open spec fn second_field(line: Seq<char>) -> Option<Seq<char>> {
    let parts = seq_split(line, ':');
    if parts.len() > 1 {
        Some(seq_trim(parts[1]))
    } else {
        None
    }
}

/// One line of a vCard: `FN:`/`FN;` gives the name, `EMAIL...` the e-mail,
/// `TEL...` the phone.
pub open spec fn vcard_step(st: VcardScan, raw: Seq<char>) -> VcardScan {
    let line = seq_trim(raw);
    if st.failed {
        st
    } else if seq_starts_with(line, "FN:"@) || seq_starts_with(line, "FN;"@) {
        match second_field(line) {
            Some(v) => VcardScan { name: Some(v), ..st },
            None => VcardScan { failed: true, ..st },
        }
    } else if seq_starts_with(line, "EMAIL"@) {
        match second_field(line) {
            Some(v) => VcardScan { email: Some(v), ..st },
            None => VcardScan { failed: true, ..st },
        }
    } else if seq_starts_with(line, "TEL"@) {
        match second_field(line) {
            Some(v) => VcardScan { phone: Some(v), ..st },
            None => VcardScan { failed: true, ..st },
        }
    } else {
        st
    }
}

/// The scan before the first line.
pub open spec fn vcard_start() -> VcardScan {
    VcardScan { name: None, email: None, phone: None, failed: false }
}

/// The contact a vCard file at `path` describes: one with a name, unless a
/// field line has no value.
pub open spec fn parsed_vcard(content: Seq<char>, path: Seq<char>) -> Option<ContactView> {
    let st = seq_lines(content).fold_left(
        vcard_start(),
        |s: VcardScan, l: Seq<char>| vcard_step(s, l),
    );
    if st.failed {
        None
    } else {
        match st.name {
            Some(name) => Some(
                ContactView {
                    id: result_id(ResultKind::Contact, path),
                    name,
                    email: st.email,
                    phone: st.phone,
                },
            ),
            None => None,
        }
    }
}

fn field_after_colon(line: &[char]) -> (r: Option<Vec<char>>)
    ensures
        match r {
            Some(v) => second_field(line@) == Some(v@),
            None => second_field(line@) is None,
        },
{
    let parts = split_char(line, ':');
    proof {
        assert(views(parts@).len() == parts@.len());
    }
    if parts.len() > 1 {
        assert(views(parts@)[1] == parts@[1]@);
        let (a, b) = trim_bounds(parts[1].as_slice());
        Some(slice_chars(parts[1].as_slice(), a, b))
    } else {
        None
    }
}

struct VcardState {
    name: Option<Vec<char>>,
    email: Option<Vec<char>>,
    phone: Option<Vec<char>>,
    failed: bool,
}

/// The view of an optional vector.
pub open spec fn opt_vec(o: Option<Vec<char>>) -> Option<Seq<char>> {
    match o {
        Some(v) => Some(v@),
        None => None,
    }
}

impl View for VcardState {
    type V = VcardScan;

    closed spec fn view(&self) -> VcardScan {
        VcardScan {
            name: opt_vec(self.name),
            email: opt_vec(self.email),
            phone: opt_vec(self.phone),
            failed: self.failed,
        }
    }
}

fn vcard_line(st: &mut VcardState, raw: &[char])
    ensures
        final(st)@ == vcard_step(old(st)@, raw@),
{
    if st.failed {
        return;
    }
    let (a, b) = trim_bounds(raw);
    let line = slice_chars(raw, a, b);
    let l = line.as_slice();
    if starts_with(l, chars_of("FN:").as_slice()) || starts_with(l, chars_of("FN;").as_slice()) {
        match field_after_colon(l) {
            Some(v) => st.name = Some(v),
            None => st.failed = true,
        }
    } else if starts_with(l, chars_of("EMAIL").as_slice()) {
        match field_after_colon(l) {
            Some(v) => st.email = Some(v),
            None => st.failed = true,
        }
    } else if starts_with(l, chars_of("TEL").as_slice()) {
        match field_after_colon(l) {
            Some(v) => st.phone = Some(v),
            None => st.failed = true,
        }
    }
}

/// The contact a vCard with the given content and path describes (see
/// `parsed_vcard`).
pub fn parse_vcard(content: &str, path: &str) -> (r: Option<ContactEntry>)
    ensures
        match r {
            Some(e) => parsed_vcard(content@, path@) == Some(e@),
            None => parsed_vcard(content@, path@) is None,
        },
{
    let cv = chars_of(content);
    let ls = lines(cv.as_slice());
    let mut st = VcardState { name: None, email: None, phone: None, failed: false };
    let ghost f = |s: VcardScan, l: Seq<char>| vcard_step(s, l);
    let ghost lv = views(ls@);
    let mut i: usize = 0;
    while i < ls.len()
        invariant
            i <= ls@.len(),
            lv == views(ls@),
            lv == seq_lines(cv@),
            cv@ == content@,
            f == (|s: VcardScan, l: Seq<char>| vcard_step(s, l)),
            lv.take(i as int).fold_left(vcard_start(), f) == st@,
        decreases ls.len() - i,
    {
        proof {
            assert(lv.take(i + 1).drop_last() =~= lv.take(i as int));
            assert(lv.take(i + 1).last() == ls@[i as int]@);
        }
        vcard_line(&mut st, ls[i].as_slice());
        i = i + 1;
    }
    assert(lv.take(i as int) =~= lv);
    if st.failed {
        return None;
    }
    match st.name {
        Some(name) => Some(
            ContactEntry {
                id: make_id(ResultKind::Contact, path),
                name: string_of(name.as_slice()),
                email: match st.email {
                    Some(x) => Some(string_of(x.as_slice())),
                    None => None,
                },
                phone: match st.phone {
                    Some(x) => Some(string_of(x.as_slice())),
                    None => None,
                },
            },
        ),
        None => None,
    }
}

/// A card of a Thunderbird address book: its row identifier, display
/// name and primary e-mail, if any.
#[derive(Clone, Debug)]
pub struct ThunderbirdCard {
    pub id: i64,
    pub display_name: String,
    pub primary_email: Option<String>,
}

/// The contact of a Thunderbird card.
pub open spec fn card_contact(c: ThunderbirdCard) -> ContactView {
    ContactView {
        id: "contact:thunderbird:"@ + signed_decimal_text(c.id as int),
        name: c.display_name@,
        email: opt_view(c.primary_email),
        phone: None,
    }
}

/// The contacts of the cards an address book gave, in its order.
pub fn thunderbird_contacts(cards: &Vec<ThunderbirdCard>) -> (r: Vec<ContactEntry>)
    ensures
        contact_views(r@) == cards@.map_values(|c: ThunderbirdCard| card_contact(c)),
{
    let mut out: Vec<ContactEntry> = Vec::new();
    let mut i: usize = 0;
    while i < cards.len()
        invariant
            i <= cards@.len(),
            contact_views(out@) == cards@.take(i as int).map_values(|c: ThunderbirdCard| card_contact(c)),
        decreases cards.len() - i,
    {
        let c = &cards[i];
        let e = ContactEntry {
            id: cat("contact:thunderbird:", signed_decimal(c.id).as_str()),
            name: c.display_name.clone(),
            email: clone_opt(&c.primary_email),
            phone: None,
        };
        let ghost before = contact_views(out@);
        out.push(e);
        assert(contact_views(out@) =~= before.push(e@));
        assert(cards@.take(i + 1).map_values(|c: ThunderbirdCard| card_contact(c)) =~= cards@.take(
            i as int,
        ).map_values(|c: ThunderbirdCard| card_contact(c)).push(card_contact(cards@[i as int])));
        i = i + 1;
    }
    assert(cards@.take(i as int) =~= cards@);
    out
}

} // verus!
