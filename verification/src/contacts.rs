//! Contacts of the phone's address book: reading them from `content query`
//! output, normalising phone numbers, searching and formatting for WhatsApp.
use vstd::prelude::*;
use crate::adb::{opt_view, shell_argv, AdbClient, AdbError};
use crate::text::{
    occurs_at, all_digits, chars_of, contains, contains_exec, find, find_exec, is_digit, keep_digits,
    keep_digits_exec, lemma_find, lines, lines_exec, lowercase, slice, split, split_exec,
    split_once, split_once_exec, starts_with, starts_with_exec, starts_with_str, string_of, to_lowercase,
    trim, trim_end, trim_exec, trim_start, views, is_ws, eq_str,
};

verus! {

/// A contact of the address book.
#[derive(Debug, Clone, PartialEq, Eq)]
pub struct Contact {
    pub id: Option<String>,
    pub name: String,
    /// The number as `sanitize_phone` leaves it: an optional `+` and digits.
    pub phone: String,
    /// The number as the address book holds it.
    pub raw_phone: String,
}

/// A `Contact` as plain values.
pub struct ContactView {
    pub id: Option<Seq<char>>,
    pub name: Seq<char>,
    pub phone: Seq<char>,
    pub raw_phone: Seq<char>,
}

impl Contact {
    pub open spec fn view(&self) -> ContactView {
        ContactView {
            id: opt_view(self.id),
            name: self.name@,
            phone: self.phone@,
            raw_phone: self.raw_phone@,
        }
    }
}

pub open spec fn contact_views(s: Seq<Contact>) -> Seq<ContactView> {
    s.map_values(|c: Contact| c.view())
}

/// A phone number reduced to an optional leading `+` and its digits.
pub open spec fn sanitized(raw: Seq<char>) -> Seq<char> {
    let t = trim(raw);
    if t.len() > 0 && t[0] == '+' {
        seq!['+'] + keep_digits(t)
    } else {
        keep_digits(t)
    }
}

/// The number WhatsApp is given: its digits, with the default country code's
/// digits put in front when it does not start with them and has at most ten digits.
pub open spec fn whatsapp_number(phone: Seq<char>, country_code: Option<Seq<char>>) -> Seq<char> {
    let digits = keep_digits(phone);
    match country_code {
        None => digits,
        Some(cc) => {
            let clean_cc = keep_digits(cc);
            if !starts_with(digits, clean_cc) && digits.len() <= 10 {
                clean_cc + digits
            } else {
                digits
            }
        },
    }
}

/// The query a search runs with: trimmed and lower-cased.
pub open spec fn search_query(query: Seq<char>) -> Seq<char> {
    lowercase(trim(query))
}

/// Whether a contact matches a (prepared, non-empty) query: by name, or by the
/// query's digits within the phone number.
pub open spec fn matches_query(c: ContactView, q: Seq<char>) -> bool {
    let q_digits = keep_digits(q);
    contains(lowercase(c.name), q) || (q_digits.len() > 0 && contains(c.phone, q_digits))
}

/// The contacts a search for `query` lists, in their order.
pub open spec fn search_result(cs: Seq<ContactView>, query: Seq<char>) -> Seq<ContactView>
    decreases cs.len(),
{
    let q = search_query(query);
    if cs.len() == 0 {
        Seq::empty()
    } else if q.len() == 0 || matches_query(cs.last(), q) {
        search_result(cs.drop_last(), query).push(cs.last())
    } else {
        search_result(cs.drop_last(), query)
    }
}

/// The name and number that the `key=value` fields of a row give; a later field wins.
pub open spec fn field_values(fields: Seq<Seq<char>>) -> (Option<Seq<char>>, Option<Seq<char>>)
    decreases fields.len(),
{
    if fields.len() == 0 {
        (None, None)
    } else {
        let (n, p) = field_values(fields.drop_last());
        let parts = split_once(fields.last(), seq!['=']);
        if parts.len() == 2 {
            let key = trim(parts[0]);
            let val = trim(parts[1]);
            if key == "display_name"@ {
                (Some(val), p)
            } else if key == "data1"@ || key == "number"@ {
                (n, Some(val))
            } else {
                (n, p)
            }
        } else {
            (n, p)
        }
    }
}

/// The `key=value` fields of what follows `Row:`: after the row number when
/// one comes first.
pub open spec fn fields_text(after: Seq<char>) -> Seq<char> {
    match find(after, seq![' ']) {
        Some(q) => if q > 0 && all_digits(after.take(q)) {
            after.skip(q + 1)
        } else {
            after
        },
        None => after,
    }
}

/// The contact that a row such as `Row: 0 display_name=Ana, data1=+54 11` gives:
/// both a name and a number must be present and non-empty.
pub open spec fn row_contact(row: Seq<char>) -> Option<ContactView> {
    match find(row, seq![' ']) {
        None => None,
        Some(pos) => {
            let fields = split(fields_text(row.skip(pos + 1)), ", "@);
            match field_values(fields) {
                (Some(n), Some(p)) => if n.len() > 0 && p.len() > 0 {
                    Some(ContactView { id: None, name: n, phone: sanitized(p), raw_phone: p })
                } else {
                    None
                },
                _ => None,
            }
        },
    }
}

/// The contacts that the `Row:` lines among `ls` give, in order.
pub open spec fn row_contacts(ls: Seq<Seq<char>>) -> Seq<ContactView>
    decreases ls.len(),
{
    if ls.len() == 0 {
        Seq::empty()
    } else {
        let t = trim(ls.last());
        if starts_with(t, "Row:"@) {
            match row_contact(t) {
                Some(c) => row_contacts(ls.drop_last()).push(c),
                None => row_contacts(ls.drop_last()),
            }
        } else {
            row_contacts(ls.drop_last())
        }
    }
}

pub open spec fn phone_seen(s: Seq<ContactView>, phone: Seq<char>) -> bool {
    exists|i: int| 0 <= i < s.len() && s[i].phone == phone
}

/// The contacts with a number, each number kept once (its first contact).
pub open spec fn distinct_phones(s: Seq<ContactView>) -> Seq<ContactView>
    decreases s.len(),
{
    if s.len() == 0 {
        Seq::empty()
    } else {
        let prev = distinct_phones(s.drop_last());
        let c = s.last();
        if c.phone.len() > 0 && !phone_seen(prev, c.phone) {
            prev.push(c)
        } else {
            prev
        }
    }
}

/// Strict lexicographic order on character codes (the order of `String`).
pub open spec fn lex_lt(a: Seq<char>, b: Seq<char>) -> bool
    decreases a.len(),
{
    if a.len() == 0 {
        b.len() > 0
    } else if b.len() == 0 {
        false
    } else if a[0] != b[0] {
        (a[0] as u32) < (b[0] as u32)
    } else {
        lex_lt(a.drop_first(), b.drop_first())
    }
}

pub open spec fn name_key(c: ContactView) -> Seq<char> {
    lowercase(c.name)
}

/// The contacts of `s` whose sort key is `k`, in order.
pub open spec fn with_key(s: Seq<ContactView>, k: Seq<char>) -> Seq<ContactView>
    decreases s.len(),
{
    if s.len() == 0 {
        Seq::empty()
    } else if name_key(s.last()) == k {
        with_key(s.drop_last(), k).push(s.last())
    } else {
        with_key(s.drop_last(), k)
    }
}

pub open spec fn sorted_by_name(s: Seq<ContactView>) -> bool {
    forall|i: int, j: int| 0 <= i < j < s.len() ==> !lex_lt(name_key(s[j]), name_key(s[i]))
}

/// `out` is `input` sorted by lower-cased name, contacts with equal keys in their input order.
pub open spec fn stable_sorted_by_name(out: Seq<ContactView>, input: Seq<ContactView>) -> bool {
    &&& out.len() == input.len()
    &&& sorted_by_name(out)
    &&& forall|k: Seq<char>| #[trigger] with_key(out, k) == with_key(input, k)
}

/// The contacts that `content query` output lists, before sorting.
pub open spec fn listed_contacts(raw: Seq<char>) -> Seq<ContactView> {
    distinct_phones(row_contacts(lines(raw)))
}

/// Whether an output of the modern contacts query can be used.
pub open spec fn usable_output(output: Result<Seq<char>, AdbError>) -> bool {
    match output {
        Ok(text) => trim(text).len() > 0 && !contains(text, "Error"@),
        Err(_) => false,
    }
}

// ---------------------------------------------------------------------------
// Lemmas
// ---------------------------------------------------------------------------

pub proof fn lemma_lex_irreflexive(a: Seq<char>)
    ensures
        !lex_lt(a, a),
    decreases a.len(),
{
    if a.len() > 0 {
        lemma_lex_irreflexive(a.drop_first());
    }
}

pub proof fn lemma_lex_total(a: Seq<char>, b: Seq<char>)
    ensures
        lex_lt(a, b) || a == b || lex_lt(b, a),
    decreases a.len(),
{
    if a.len() == 0 {
        if b.len() == 0 {
            assert(a =~= b);
        }
    } else if b.len() == 0 {
    } else if a[0] != b[0] {
        let x = a[0] as u32;
        let y = b[0] as u32;
        vstd::utf8::char_u32_cast(a[0], x);
        vstd::utf8::char_u32_cast(b[0], y);
    } else {
        lemma_lex_total(a.drop_first(), b.drop_first());
        if a.drop_first() == b.drop_first() {
            assert(a =~= seq![a[0]] + a.drop_first());
            assert(b =~= seq![b[0]] + b.drop_first());
        }
    }
}

pub proof fn lemma_lex_asymmetric(a: Seq<char>, b: Seq<char>)
    ensures
        lex_lt(a, b) ==> !lex_lt(b, a),
    decreases a.len(),
{
    if a.len() > 0 && b.len() > 0 && a[0] == b[0] {
        lemma_lex_asymmetric(a.drop_first(), b.drop_first());
    }
}

pub proof fn lemma_lex_transitive(a: Seq<char>, b: Seq<char>, c: Seq<char>)
    requires
        lex_lt(a, b),
        lex_lt(b, c),
    ensures
        lex_lt(a, c),
    decreases a.len(),
{
    if a.len() > 0 && b.len() > 0 && c.len() > 0 && a[0] == b[0] && b[0] == c[0] {
        lemma_lex_transitive(a.drop_first(), b.drop_first(), c.drop_first());
    }
}

pub proof fn lemma_with_key_concat(a: Seq<ContactView>, b: Seq<ContactView>, k: Seq<char>)
    ensures
        with_key(a + b, k) == with_key(a, k) + with_key(b, k),
    decreases b.len(),
{
    if b.len() == 0 {
        assert(a + b =~= a);
        assert(with_key(a, k) + with_key(b, k) =~= with_key(a, k));
    } else {
        assert((a + b).drop_last() =~= a + b.drop_last());
        lemma_with_key_concat(a, b.drop_last(), k);
        if name_key(b.last()) == k {
            assert(with_key(a, k) + with_key(b, k) =~= (with_key(a, k) + with_key(b.drop_last(), k)).push(
                b.last(),
            ));
        }
    }
}

/// `with_key` of a single contact.
pub proof fn lemma_with_key_single(c: ContactView, k: Seq<char>)
    ensures
        with_key(seq![c], k) == (if name_key(c) == k {
            seq![c]
        } else {
            Seq::<ContactView>::empty()
        }),
{
    assert(seq![c].drop_last() =~= Seq::<ContactView>::empty());
    assert(seq![c].last() == c);
    assert(with_key(Seq::<ContactView>::empty(), k) == Seq::<ContactView>::empty());
    if name_key(c) == k {
        assert(Seq::<ContactView>::empty().push(c) =~= seq![c]);
    }
}

/// No contact with key `k` when every key is strictly above it.
pub proof fn lemma_with_key_above(s: Seq<ContactView>, k: Seq<char>)
    requires
        forall|i: int| 0 <= i < s.len() ==> lex_lt(k, #[trigger] name_key(s[i])),
    ensures
        with_key(s, k) == Seq::<ContactView>::empty(),
    decreases s.len(),
{
    if s.len() > 0 {
        lemma_lex_irreflexive(k);
        lemma_with_key_above(s.drop_last(), k);
    }
}

pub proof fn lemma_keep_digits_concat(a: Seq<char>, b: Seq<char>)
    ensures
        keep_digits(a + b) == keep_digits(a) + keep_digits(b),
    decreases b.len(),
{
    if b.len() == 0 {
        assert(a + b =~= a);
        assert(keep_digits(a) + keep_digits(b) =~= keep_digits(a));
    } else {
        assert((a + b).drop_last() =~= a + b.drop_last());
        lemma_keep_digits_concat(a, b.drop_last());
        if is_digit(b.last()) {
            assert(keep_digits(a) + keep_digits(b) =~= (keep_digits(a) + keep_digits(b.drop_last())).push(
                b.last(),
            ));
        }
    }
}

/// A string is all digits exactly when it keeps all its characters.
pub proof fn lemma_all_digits_iff_kept(s: Seq<char>)
    ensures
        all_digits(s) <==> keep_digits(s).len() == s.len(),
    decreases s.len(),
{
    lemma_keep_digits_len(s);
    if s.len() > 0 {
        lemma_all_digits_iff_kept(s.drop_last());
        if all_digits(s) {
            assert(all_digits(s.drop_last()));
        } else if keep_digits(s).len() == s.len() {
            lemma_keep_digits_len(s.drop_last());
            assert(is_digit(s.last()));
            assert(all_digits(s.drop_last()));
            assert forall|i: int| 0 <= i < s.len() implies is_digit(#[trigger] s[i]) by {
                if i < s.len() - 1 {
                    assert(s[i] == s.drop_last()[i]);
                }
            };
        }
    }
}

pub proof fn lemma_keep_digits_len(s: Seq<char>)
    ensures
        keep_digits(s).len() <= s.len(),
    decreases s.len(),
{
    if s.len() > 0 {
        lemma_keep_digits_len(s.drop_last());
    }
}

/// A string of digits keeps all its characters.
pub proof fn lemma_keep_digits_of_digits(s: Seq<char>)
    requires
        all_digits(s),
    ensures
        keep_digits(s) == s,
    decreases s.len(),
{
    if s.len() > 0 {
        assert(all_digits(s.drop_last()));
        lemma_keep_digits_of_digits(s.drop_last());
        assert(s.drop_last().push(s.last()) =~= s);
    }
}

pub proof fn lemma_keep_digits_all_digits(s: Seq<char>)
    ensures
        all_digits(keep_digits(s)),
    decreases s.len(),
{
    if s.len() > 0 {
        lemma_keep_digits_all_digits(s.drop_last());
    }
}

/// A string without whitespace is its own trim.
pub proof fn lemma_trim_no_ws(s: Seq<char>)
    requires
        forall|i: int| 0 <= i < s.len() ==> !is_ws(#[trigger] s[i]),
    ensures
        trim(s) == s,
{
    assert(trim_start(s) == s);
    assert(trim_end(s) == s);
}

// ---------------------------------------------------------------------------
// Contact
// ---------------------------------------------------------------------------

impl Contact {
    /// A contact whose `phone` is `raw_phone` sanitized.
    pub fn new(id: Option<String>, name: String, raw_phone: String) -> (c: Self)
        ensures
            c.id == id,
            c.name == name,
            c.raw_phone == raw_phone,
            c.phone@ == sanitized(raw_phone@),
    {
        let phone = Self::sanitize_phone(raw_phone.as_str());
        Contact { id, name, phone, raw_phone }
    }

    /// Keeps a leading `+` (after trimming) and the ASCII digits of `raw`.
    pub fn sanitize_phone(raw: &str) -> (r: String)
        ensures
            r@ == sanitized(raw@),
    {
        let v = chars_of(raw);
        let t = trim_exec(&v);
        let digits = keep_digits_exec(&t);
        let mut out: Vec<char> = Vec::new();
        if t.len() > 0 && t[0] == '+' {
            out.push('+');
        }
        crate::text::append(&mut out, &digits);
        proof {
            if t@.len() > 0 && t@[0] == '+' {
                assert(out@ =~= seq!['+'] + keep_digits(t@));
            } else {
                assert(out@ =~= keep_digits(t@));
            }
        }
        string_of(&out)
    }
}

/// Sanitizing a sanitized number changes nothing.
pub proof fn law_sanitize_idempotent(raw: Seq<char>)
    ensures
        sanitized(sanitized(raw)) == sanitized(raw),
{
    let t = trim(raw);
    let d = keep_digits(t);
    lemma_keep_digits_all_digits(t);
    lemma_keep_digits_of_digits(d);
    let s = sanitized(raw);
    assert forall|i: int| 0 <= i < s.len() implies !is_ws(#[trigger] s[i]) by {
        if t.len() > 0 && t[0] == '+' {
            if i > 0 {
                assert(s[i] == d[i - 1]);
            }
        } else {
            assert(s[i] == d[i]);
        }
    };
    lemma_trim_no_ws(s);
    if t.len() > 0 && t[0] == '+' {
        lemma_keep_digits_concat(seq!['+'], d);
        assert(keep_digits(seq!['+']) =~= Seq::<char>::empty()) by {
            assert(seq!['+'].drop_last() =~= Seq::<char>::empty());
            assert(seq!['+'].last() == '+');
            assert(!is_digit('+'));
            assert(keep_digits(Seq::<char>::empty()) == Seq::<char>::empty());
        };
        assert(Seq::<char>::empty() + d =~= d);
    } else if s.len() > 0 {
        assert(is_digit(d[0]));
    }
}

/// A sanitized number is an optional `+` followed by digits only.
pub proof fn law_sanitized_shape(raw: Seq<char>)
    ensures
        forall|i: int| 0 <= i < sanitized(raw).len() ==> (is_digit(#[trigger] sanitized(raw)[i]) || (i
            == 0 && sanitized(raw)[i] == '+')),
{
    let t = trim(raw);
    lemma_keep_digits_all_digits(t);
}

// ---------------------------------------------------------------------------
// Matching and formatting
// ---------------------------------------------------------------------------

/// Searches and formats the contacts of the address book.
pub struct ContactMatcher;

impl ContactMatcher {
    /// The contacts that match `query` (trimmed, lower-cased) by name, or by its
    /// digits within their number; all of them for an empty query.
    pub fn search<'a>(contacts: &'a [Contact], query: &str) -> (r: Vec<&'a Contact>)
        ensures
            r@.map_values(|c: &Contact| c.view()) == search_result(contact_views(contacts@), query@),
    {
        let qv = chars_of(query);
        let qt = trim_exec(&qv);
        let qs = string_of(&qt);
        let ql = to_lowercase(qs.as_str());
        let q = chars_of(ql.as_str());
        let q_digits = keep_digits_exec(&q);
        let ghost cs = contact_views(contacts@);
        let mut r: Vec<&'a Contact> = Vec::new();
        let mut i: usize = 0;
        while i < contacts.len()
            invariant
                i <= contacts.len(),
                cs == contact_views(contacts@),
                q@ == search_query(query@),
                q_digits@ == keep_digits(q@),
                r@.map_values(|c: &Contact| c.view()) == search_result(cs.take(i as int), query@),
            decreases contacts.len() - i,
        {
            let c = &contacts[i];
            assert(cs.take(i + 1).drop_last() =~= cs.take(i as int));
            assert(cs.take(i + 1).last() == c.view());
            let keep = if q.len() == 0 {
                true
            } else {
                let name_lower = to_lowercase(c.name.as_str());
                let nl = chars_of(name_lower.as_str());
                let by_name = contains_exec(&nl, &q);
                let by_phone = if q_digits.len() > 0 {
                    let ph = chars_of(c.phone.as_str());
                    contains_exec(&ph, &q_digits)
                } else {
                    false
                };
                by_name || by_phone
            };
            let ghost before = r@;
            if keep {
                r.push(c);
                assert(r@.map_values(|c: &Contact| c.view()) =~= before.map_values(
                    |c: &Contact| c.view(),
                ).push(c.view()));
            }
            i += 1;
        }
        assert(cs.take(contacts.len() as int) =~= cs);
        r
    }

    /// The number WhatsApp is given for `phone`: its digits, with the digits of
    /// `default_country_code` in front when they are not already its start and
    /// the number has at most ten digits.
    pub fn format_for_whatsapp(phone: &str, default_country_code: Option<&str>) -> (r: String)
        ensures
            r@ == whatsapp_number(
                phone@,
                match default_country_code {
                    Some(cc) => Some(cc@),
                    None => None,
                },
            ),
    {
        let pv = chars_of(phone);
        let digits = keep_digits_exec(&pv);
        match default_country_code {
            None => string_of(&digits),
            Some(cc) => {
                let ccv = chars_of(cc);
                let clean_cc = keep_digits_exec(&ccv);
                if !starts_with_exec(&digits, &clean_cc) && digits.len() <= 10 {
                    let mut out = clean_cc.clone();
                    crate::text::append(&mut out, &digits);
                    string_of(&out)
                } else {
                    string_of(&digits)
                }
            },
        }
    }
}

/// A search lists only contacts of the book, each matching the query (any
/// contact when the query is blank).
pub proof fn law_search_filters(cs: Seq<ContactView>, query: Seq<char>)
    ensures
        forall|i: int|
            0 <= i < search_result(cs, query).len() ==> cs.contains(
                #[trigger] search_result(cs, query)[i],
            ) && (search_query(query).len() == 0 || matches_query(
                search_result(cs, query)[i],
                search_query(query),
            )),
    decreases cs.len(),
{
    if cs.len() > 0 {
        let c0 = cs.drop_last();
        law_search_filters(c0, query);
        let prev = search_result(c0, query);
        let all = search_result(cs, query);
        let q = search_query(query);
        assert forall|i: int| 0 <= i < all.len() implies cs.contains(#[trigger] all[i]) && (q.len()
            == 0 || matches_query(all[i], q)) by {
            if i < prev.len() {
                assert(all[i] == prev[i]);
                let x = prev[i];
                assert(c0.contains(x));
                let p = choose|p: int| 0 <= p < c0.len() && c0[p] == x;
                assert(cs[p] == x);
            } else {
                assert(all[i] == cs.last());
                assert(cs[cs.len() - 1] == cs.last());
            }
        };
    }
}

/// A search lists every contact of the book whose lower-cased name holds the
/// (trimmed, lower-cased) query, and every contact whose number holds the
/// query's ASCII digits when it has any, whatever spaces, dashes or brackets
/// the query also holds; a blank query lists the whole book.
pub proof fn law_search_finds_matches(cs: Seq<ContactView>, query: Seq<char>, c: ContactView)
    requires
        cs.contains(c),
    ensures
        contains(lowercase(c.name), search_query(query)) ==> search_result(cs, query).contains(c),
        keep_digits(search_query(query)).len() > 0 && contains(
            c.phone,
            keep_digits(search_query(query)),
        ) ==> search_result(cs, query).contains(c),
        search_query(query).len() == 0 ==> search_result(cs, query) == cs,
    decreases cs.len(),
{
    let q = search_query(query);
    let d = keep_digits(q);
    let hit = contains(lowercase(c.name), q) || (d.len() > 0 && contains(c.phone, d));
    let last = cs.last();
    let prev = search_result(cs.drop_last(), query);
    if last == c {
        if hit {
            assert(search_result(cs, query) == prev.push(c));
            assert(search_result(cs, query)[prev.len() as int] == c);
        }
    } else {
        let i = choose|i: int| 0 <= i < cs.len() && cs[i] == c;
        assert(i != cs.len() - 1);
        assert(cs.drop_last()[i] == c);
        law_search_finds_matches(cs.drop_last(), query, c);
        if hit {
            let j = choose|j: int| 0 <= j < prev.len() && prev[j] == c;
            let all = search_result(cs, query);
            assert(all[j] == c);
        }
    }
    if q.len() == 0 {
        lemma_search_blank(cs, query);
    }
}

proof fn lemma_search_blank(cs: Seq<ContactView>, query: Seq<char>)
    requires
        search_query(query).len() == 0,
    ensures
        search_result(cs, query) == cs,
    decreases cs.len(),
{
    if cs.len() > 0 {
        lemma_search_blank(cs.drop_last(), query);
        assert(cs.drop_last().push(cs.last()) =~= cs);
    }
}

/// Formatting a number already formatted for WhatsApp changes nothing.
pub proof fn law_whatsapp_number_idempotent(phone: Seq<char>, cc: Option<Seq<char>>)
    ensures
        whatsapp_number(whatsapp_number(phone, cc), cc) == whatsapp_number(phone, cc),
{
    let digits = keep_digits(phone);
    lemma_keep_digits_all_digits(phone);
    lemma_keep_digits_of_digits(digits);
    match cc {
        None => {},
        Some(c) => {
            let clean_cc = keep_digits(c);
            lemma_keep_digits_all_digits(c);
            if !starts_with(digits, clean_cc) && digits.len() <= 10 {
                let out = clean_cc + digits;
                assert(all_digits(out));
                lemma_keep_digits_of_digits(out);
                assert(out.take(clean_cc.len() as int) =~= clean_cc);
            }
        },
    }
}

/// A number formatted for WhatsApp holds digits only.
pub proof fn law_whatsapp_number_digits(phone: Seq<char>, cc: Option<Seq<char>>)
    ensures
        all_digits(whatsapp_number(phone, cc)),
{
    lemma_keep_digits_all_digits(phone);
    match cc {
        None => {},
        Some(c) => {
            lemma_keep_digits_all_digits(c);
        },
    }
}

// ---------------------------------------------------------------------------
// Reading the address book
// ---------------------------------------------------------------------------

/// Why the address book could not be read.
#[derive(Debug, Clone, PartialEq, Eq)]
pub enum ContactsError {
    /// Neither query gave any output.
    Unavailable,
}

/// Reads contacts from the device through `content query`.
pub struct ContactExtractor<'a> {
    pub adb: &'a AdbClient,
}

impl<'a> ContactExtractor<'a> {
    pub fn new(adb: &'a AdbClient) -> (r: Self)
        ensures
            r.adb == adb,
    {
        ContactExtractor { adb }
    }

    /// The query of the modern contacts provider.
    pub fn primary_query(&self) -> (r: Vec<String>)
        ensures
            crate::text::string_views(r@) == shell_argv(
                opt_view(self.adb.selected_device),
                "content query --uri content://com.android.contacts/data/phones --projection display_name:data1"@,
            ),
    {
        self.adb.shell_args(
            &chars_of(
                "content query --uri content://com.android.contacts/data/phones --projection display_name:data1",
            ),
        )
    }

    /// The query of the classic contacts provider, run when the first gives nothing usable.
    pub fn fallback_query(&self) -> (r: Vec<String>)
        ensures
            crate::text::string_views(r@) == shell_argv(
                opt_view(self.adb.selected_device),
                "content query --uri content://contacts/phones/ --projection display_name:number"@,
            ),
    {
        self.adb.shell_args(
            &chars_of(
                "content query --uri content://contacts/phones/ --projection display_name:number",
            ),
        )
    }

    /// Whether the modern query's output can be used: it ran, is not blank and
    /// reports no error.
    pub fn is_usable(output: &Result<String, AdbError>) -> (r: bool)
        ensures
            r == usable_output(crate::adb::result_view(*output)),
    {
        match output {
            Ok(text) => {
                let t = chars_of(text.as_str());
                let tt = trim_exec(&t);
                tt.len() > 0 && !crate::text::contains_str(&t, "Error")
            },
            Err(_) => false,
        }
    }

    /// The contacts from the query outputs: the modern one when usable, the
    /// classic one otherwise (nothing when it failed).
    pub fn fetch_contacts(
        &self,
        primary: Result<String, AdbError>,
        fallback: Result<String, AdbError>,
    ) -> (r: Result<Vec<Contact>, ContactsError>)
        ensures
            ({
                let raw = if usable_output(crate::adb::result_view(primary)) {
                    crate::adb::result_view(primary)->Ok_0
                } else {
                    match fallback {
                        Ok(t) => t@,
                        Err(_) => Seq::<char>::empty(),
                    }
                };
                contacts_result(raw, r)
            }),
    {
        let usable = Self::is_usable(&primary);
        if usable {
            match primary {
                Ok(text) => {
                    assert(crate::adb::result_view(primary)->Ok_0 == text@);
                    Self::parse_contacts(text.as_str())
                },
                Err(_) => Err(ContactsError::Unavailable),
            }
        } else {
            match fallback {
                Ok(text) => Self::parse_contacts(text.as_str()),
                Err(_) => {
                    proof {
                        reveal_strlit("");
                    }
                    Self::parse_contacts("")
                },
            }
        }
    }

    /// The contacts listed in `content query` output: each `Row:` line with a
    /// name and number, numbers kept once, sorted by lower-cased name.
    pub fn parse_contacts(raw_text: &str) -> (r: Result<Vec<Contact>, ContactsError>)
        ensures
            contacts_result(raw_text@, r),
    {
        let raw = chars_of(raw_text);
        let tr = trim_exec(&raw);
        if tr.len() == 0 {
            return Err(ContactsError::Unavailable);
        }
        let ls = lines_exec(&raw);
        let ghost all = views(ls@);
        let mut contacts: Vec<Contact> = Vec::new();
        let ghost mut cands: Seq<ContactView> = Seq::empty();
        let mut i: usize = 0;
        while i < ls.len()
            invariant
                i <= ls.len(),
                all == views(ls@),
                all == lines(raw_text@),
                cands == row_contacts(all.take(i as int)),
                contact_views(contacts@) == distinct_phones(cands),
            decreases ls.len() - i,
        {
            assert(all.take(i + 1).drop_last() =~= all.take(i as int));
            assert(all.take(i + 1).last() == ls@[i as int]@);
            let line = trim_exec(&ls[i]);
            if starts_with_str(&line, "Row:") {
                let ls_str = string_of(&line);
                match Self::parse_row(ls_str.as_str()) {
                    Some(contact) => {
                        let ghost cv = contact.view();
                        let ghost prev = cands;
                        proof {
                            cands = cands.push(cv);
                        }
                        assert(cands.drop_last() =~= prev);
                        let ph = chars_of(contact.phone.as_str());
                        if ph.len() > 0 && !has_phone(&contacts, &ph) {
                            let ghost before = contacts@;
                            contacts.push(contact);
                            assert(contact_views(contacts@) =~= contact_views(before).push(cv));
                        }
                    },
                    None => {},
                }
            }
            i += 1;
        }
        assert(all.take(ls.len() as int) =~= all);
        let ghost listed = contact_views(contacts@);
        let sorted = sort_by_name(contacts);
        Ok(sorted)
    }

    /// The contact that one `Row:` line names.
    pub fn parse_row(row: &str) -> (r: Option<Contact>)
        ensures
            match row_contact(row@) {
                Some(c) => r matches Some(x) && x.view() == c,
                None => r is None,
            },
    {
        let rv = chars_of(row);
        let mut sp: Vec<char> = Vec::new();
        sp.push(' ');
        assert(sp@ =~= seq![' ']);
        proof {
            lemma_find(rv@, sp@);
        }
        let pos = match find_exec(&rv, &sp) {
            Some(p) => p,
            None => {
                return None;
            },
        };
        assert(occurs_at(rv@, sp@, pos as int));
        assert(pos < rv.len());
        let after0 = slice(&rv, pos + 1, rv.len());
        assert(after0@ =~= rv@.skip(pos + 1));
        proof {
            lemma_find(after0@, sp@);
        }
        let after = match find_exec(&after0, &sp) {
            Some(q) => {
                assert(occurs_at(after0@, sp@, q as int));
                let idx = slice(&after0, 0, q);
                assert(idx@ =~= after0@.take(q as int));
                if q > 0 && keep_digits_exec(&idx).len() == q {
                    proof {
                        lemma_all_digits_iff_kept(idx@);
                    }
                    let a = slice(&after0, q + 1, after0.len());
                    assert(a@ =~= after0@.skip(q + 1));
                    a
                } else {
                    proof {
                        lemma_all_digits_iff_kept(idx@);
                    }
                    after0
                }
            },
            None => after0,
        };
        assert(after@ == fields_text(rv@.skip(pos + 1)));
        let sep = chars_of(", ");
        proof {
            reveal_strlit(", ");
        }
        let fields = split_exec(&after, &sep);
        let ghost fv = views(fields@);
        let mut eq_sign: Vec<char> = Vec::new();
        eq_sign.push('=');
        assert(eq_sign@ =~= seq!['=']);
        let mut name: Option<Vec<char>> = None;
        let mut phone: Option<Vec<char>> = None;
        let mut k: usize = 0;
        while k < fields.len()
            invariant
                k <= fields.len(),
                fv == views(fields@),
                eq_sign@ == seq!['='],
                (opt_chars(name), opt_chars(phone)) == field_values(fv.take(k as int)),
            decreases fields.len() - k,
        {
            assert(fv.take(k + 1).drop_last() =~= fv.take(k as int));
            assert(fv.take(k + 1).last() == fields@[k as int]@);
            let parts = split_once_exec(&fields[k], &eq_sign);
            if parts.len() == 2 {
                let key = trim_exec(&parts[0]);
                let val = trim_exec(&parts[1]);
                if eq_str(&key, "display_name") {
                    name = Some(val);
                } else if eq_str(&key, "data1") || eq_str(&key, "number") {
                    phone = Some(val);
                }
            }
            k += 1;
        }
        assert(fv.take(fields.len() as int) =~= fv);
        match (name, phone) {
            (Some(n), Some(p)) => {
                if n.len() > 0 && p.len() > 0 {
                    Some(Contact::new(None, string_of(&n), string_of(&p)))
                } else {
                    None
                }
            },
            _ => None,
        }
    }
}

pub open spec fn opt_chars(o: Option<Vec<char>>) -> Option<Seq<char>> {
    match o {
        Some(v) => Some(v@),
        None => None,
    }
}

/// What `parse_contacts` gives for `raw`.
pub open spec fn contacts_result(raw: Seq<char>, r: Result<Vec<Contact>, ContactsError>) -> bool {
    if trim(raw).len() == 0 {
        r == Err::<Vec<Contact>, ContactsError>(ContactsError::Unavailable)
    } else {
        r matches Ok(cs) && stable_sorted_by_name(contact_views(cs@), listed_contacts(raw))
    }
}

/// Whether some contact already has the number `phone`.
fn has_phone(contacts: &Vec<Contact>, phone: &Vec<char>) -> (r: bool)
    ensures
        r == phone_seen(contact_views(contacts@), phone@),
{
    let ghost cs = contact_views(contacts@);
    let mut i: usize = 0;
    while i < contacts.len()
        invariant
            i <= contacts.len(),
            cs == contact_views(contacts@),
            forall|j: int| 0 <= j < i ==> cs[j].phone != phone@,
        decreases contacts.len() - i,
    {
        if eq_str(phone, contacts[i].phone.as_str()) {
            assert(cs[i as int].phone == phone@);
            return true;
        }
        i += 1;
    }
    false
}

/// Whether `a` comes strictly before `b` in the order of `String`.
pub fn lex_lt_exec(a: &Vec<char>, b: &Vec<char>) -> (r: bool)
    ensures
        r == lex_lt(a@, b@),
{
    let mut i: usize = 0;
    assert(a@.skip(0) =~= a@);
    assert(b@.skip(0) =~= b@);
    loop
        invariant
            i <= a.len(),
            i <= b.len(),
            lex_lt(a@, b@) == lex_lt(a@.skip(i as int), b@.skip(i as int)),
        decreases a.len() - i,
    {
        if i == a.len() {
            return i < b.len();
        }
        if i == b.len() {
            return false;
        }
        let x = a[i];
        let y = b[i];
        if x != y {
            return (x as u32) < (y as u32);
        }
        assert(a@.skip(i as int).drop_first() =~= a@.skip(i + 1));
        assert(b@.skip(i as int).drop_first() =~= b@.skip(i + 1));
        i += 1;
    }
}

/// No two contacts of `s` share a number.
pub open spec fn numbers_distinct(s: Seq<ContactView>) -> bool {
    forall|i: int, j: int| 0 <= i < j < s.len() ==> (#[trigger] s[i]).phone != (#[trigger] s[j]).phone
}

/// Every contact of `s` has a number.
pub open spec fn numbers_present(s: Seq<ContactView>) -> bool {
    forall|i: int| 0 <= i < s.len() ==> (#[trigger] s[i]).phone.len() > 0
}

proof fn lemma_distinct_phones_distinct(s: Seq<ContactView>)
    ensures
        numbers_distinct(distinct_phones(s)),
        numbers_present(distinct_phones(s)),
    decreases s.len(),
{
    if s.len() > 0 {
        lemma_distinct_phones_distinct(s.drop_last());
        let prev = distinct_phones(s.drop_last());
        let c = s.last();
        if c.phone.len() > 0 && !phone_seen(prev, c.phone) {
            let d = prev.push(c);
            assert forall|i: int, j: int| 0 <= i < j < d.len() implies (#[trigger] d[i]).phone != (
            #[trigger] d[j]).phone by {
                assert(d[i] == prev[i]);
                if j == prev.len() {
                    assert(d[j] == c);
                    if prev[i].phone == c.phone {
                        assert(phone_seen(prev, c.phone));
                    }
                } else {
                    assert(d[j] == prev[j]);
                }
            };
            assert forall|i: int| 0 <= i < d.len() implies (#[trigger] d[i]).phone.len() > 0 by {
                if i < prev.len() {
                    assert(d[i] == prev[i]);
                }
            };
        }
    }
}

/// The contacts of `with_key(s, k)` come from `s` and have key `k`.
proof fn lemma_with_key_sub(s: Seq<ContactView>, k: Seq<char>)
    ensures
        forall|a: int|
            0 <= a < with_key(s, k).len() ==> s.contains(#[trigger] with_key(s, k)[a]) && name_key(
                with_key(s, k)[a],
            ) == k,
    decreases s.len(),
{
    if s.len() > 0 {
        let s0 = s.drop_last();
        lemma_with_key_sub(s0, k);
        let w0 = with_key(s0, k);
        let w = with_key(s, k);
        assert forall|a: int| 0 <= a < w.len() implies s.contains(#[trigger] w[a]) && name_key(w[a])
            == k by {
            if a < w0.len() {
                assert(w[a] == w0[a]);
                let x = w0[a];
                assert(s0.contains(x));
                let p = choose|p: int| 0 <= p < s0.len() && s0[p] == x;
                assert(s[p] == x);
            } else {
                assert(w[a] == s.last());
                assert(s[s.len() - 1] == s.last());
            }
        };
    }
}

/// A contact of `s` with key `k` is in `with_key(s, k)`.
proof fn lemma_with_key_has(s: Seq<ContactView>, k: Seq<char>, i: int)
    requires
        0 <= i < s.len(),
        name_key(s[i]) == k,
    ensures
        exists|a: int| 0 <= a < with_key(s, k).len() && #[trigger] with_key(s, k)[a] == s[i],
    decreases s.len(),
{
    let s0 = s.drop_last();
    let w0 = with_key(s0, k);
    let w = with_key(s, k);
    if i == s.len() - 1 {
        assert(w[w.len() - 1] == s[i]);
    } else {
        assert(s0[i] == s[i]);
        lemma_with_key_has(s0, k, i);
        let a = choose|a: int| 0 <= a < w0.len() && #[trigger] w0[a] == s0[i];
        assert(w[a] == w0[a]);
    }
}

/// Two contacts of `s` with key `k` keep their order in `with_key(s, k)`.
proof fn lemma_with_key_pair(s: Seq<ContactView>, k: Seq<char>, i: int, j: int)
    requires
        0 <= i < j < s.len(),
        name_key(s[i]) == k,
        name_key(s[j]) == k,
    ensures
        exists|a: int, b: int|
            0 <= a < b < with_key(s, k).len() && #[trigger] with_key(s, k)[a] == s[i]
                && #[trigger] with_key(s, k)[b] == s[j],
    decreases s.len(),
{
    let s0 = s.drop_last();
    let w0 = with_key(s0, k);
    let w = with_key(s, k);
    assert(s0[i] == s[i]);
    if j == s.len() - 1 {
        lemma_with_key_has(s0, k, i);
        let a = choose|a: int| 0 <= a < w0.len() && #[trigger] w0[a] == s0[i];
        assert(w[a] == w0[a]);
        assert(w[w.len() - 1] == s[j]);
    } else {
        assert(s0[j] == s[j]);
        lemma_with_key_pair(s0, k, i, j);
        let (a, b) = choose|a: int, b: int|
            0 <= a < b < w0.len() && #[trigger] w0[a] == s0[i] && #[trigger] w0[b] == s0[j];
        assert(w[a] == w0[a]);
        assert(w[b] == w0[b]);
    }
}

/// Picking the contacts of one key keeps numbers distinct.
proof fn lemma_with_key_distinct(s: Seq<ContactView>, k: Seq<char>)
    requires
        numbers_distinct(s),
    ensures
        numbers_distinct(with_key(s, k)),
    decreases s.len(),
{
    if s.len() > 0 {
        let s0 = s.drop_last();
        assert forall|i: int, j: int| 0 <= i < j < s0.len() implies (#[trigger] s0[i]).phone != (
        #[trigger] s0[j]).phone by {
            assert(s0[i] == s[i] && s0[j] == s[j]);
        };
        lemma_with_key_distinct(s0, k);
        lemma_with_key_sub(s0, k);
        let w0 = with_key(s0, k);
        let w = with_key(s, k);
        if name_key(s.last()) == k {
            assert forall|i: int, j: int| 0 <= i < j < w.len() implies (#[trigger] w[i]).phone != (
            #[trigger] w[j]).phone by {
                assert(w[i] == w0[i]);
                if j == w0.len() {
                    let x = w0[i];
                    assert(s0.contains(x));
                    let p = choose|p: int| 0 <= p < s0.len() && s0[p] == x;
                    assert(s[p] == x);
                    assert(s[s.len() - 1] == s.last());
                    assert(w[j] == s.last());
                } else {
                    assert(w[j] == w0[j]);
                }
            };
        }
    }
}

/// The address book lists each number once, and every contact it lists has one.
pub proof fn law_listed_numbers_distinct(raw: Seq<char>, r: Result<Vec<Contact>, ContactsError>)
    requires
        contacts_result(raw, r),
    ensures
        r matches Ok(v) ==> numbers_distinct(contact_views(v@)) && numbers_present(contact_views(v@)),
{
    if let Ok(v) = r {
        let out = contact_views(v@);
        let input = listed_contacts(raw);
        lemma_distinct_phones_distinct(row_contacts(lines(raw)));
        assert forall|i: int| 0 <= i < out.len() implies (#[trigger] out[i]).phone.len() > 0 by {
            let k = name_key(out[i]);
            lemma_with_key_has(out, k, i);
            assert(with_key(out, k) == with_key(input, k));
            lemma_with_key_sub(input, k);
            let a = choose|a: int| 0 <= a < with_key(out, k).len() && #[trigger] with_key(out, k)[a] == out[i];
            assert(input.contains(with_key(input, k)[a]));
            let p = choose|p: int| 0 <= p < input.len() && input[p] == out[i];
        };
        assert forall|i: int, j: int| 0 <= i < j < out.len() implies (#[trigger] out[i]).phone != (
        #[trigger] out[j]).phone by {
            if out[i].phone == out[j].phone {
                let k1 = name_key(out[i]);
                let k2 = name_key(out[j]);
                if k1 == k2 {
                    lemma_with_key_pair(out, k1, i, j);
                    assert(with_key(out, k1) == with_key(input, k1));
                    lemma_with_key_distinct(input, k1);
                    let w = with_key(input, k1);
                    let (a, b) = choose|a: int, b: int|
                        0 <= a < b < with_key(out, k1).len() && #[trigger] with_key(out, k1)[a] == out[i]
                            && #[trigger] with_key(out, k1)[b] == out[j];
                    assert(w[a].phone != w[b].phone);
                } else {
                    lemma_with_key_has(out, k1, i);
                    lemma_with_key_has(out, k2, j);
                    assert(with_key(out, k1) == with_key(input, k1));
                    assert(with_key(out, k2) == with_key(input, k2));
                    lemma_with_key_sub(input, k1);
                    lemma_with_key_sub(input, k2);
                    let a = choose|a: int| 0 <= a < with_key(out, k1).len() && #[trigger] with_key(out, k1)[a] == out[i];
                    let b = choose|b: int| 0 <= b < with_key(out, k2).len() && #[trigger] with_key(out, k2)[b] == out[j];
                    assert(input.contains(with_key(input, k1)[a]));
                    assert(input.contains(with_key(input, k2)[b]));
                    let p = choose|p: int| 0 <= p < input.len() && input[p] == out[i];
                    let q = choose|q: int| 0 <= q < input.len() && input[q] == out[j];
                    assert(p != q);
                    if p < q {
                        assert(input[p].phone != input[q].phone);
                    } else {
                        assert(input[q].phone != input[p].phone);
                    }
                }
            }
        };
    }
}

/// Sorts contacts by lower-cased name; contacts with equal keys keep their order.
pub fn sort_by_name(contacts: Vec<Contact>) -> (r: Vec<Contact>)
    ensures
        stable_sorted_by_name(contact_views(r@), contact_views(contacts@)),
{
    let ghost input = contact_views(contacts@);
    let mut out: Vec<Contact> = Vec::new();
    let mut keys: Vec<Vec<char>> = Vec::new();
    let mut rest = contacts;
    let n = rest.len();
    let mut i: usize = 0;
    while i < n
        invariant
            i <= n,
            n == input.len(),
            contact_views(rest@) == input.skip(i as int),
            rest@.len() == n - i,
            keys@.len() == out@.len(),
            out@.len() == i,
            forall|j: int| 0 <= j < keys@.len() ==> (#[trigger] keys@[j])@ == name_key(out@[j].view()),
            sorted_by_name(contact_views(out@)),
            forall|k: Seq<char>| #[trigger] with_key(contact_views(out@), k) == with_key(input.take(i as int), k),
        decreases n - i,
    {
        let ghost before_rest = rest@;
        let c = rest.remove(0);
        let ghost cv = c.view();
        assert(contact_views(before_rest)[0] == cv);
        assert(input.skip(i as int)[0] == input[i as int]);
        assert(cv == input[i as int]);
        assert(contact_views(rest@) =~= contact_views(before_rest).skip(1));
        assert(input.skip(i as int).skip(1) =~= input.skip(i + 1));
        let kl = to_lowercase(c.name.as_str());
        let key = chars_of(kl.as_str());
        let mut p: usize = 0;
        while p < keys.len() && !lex_lt_exec(&key, &keys[p])
            invariant
                p <= keys@.len(),
                forall|j: int| 0 <= j < p ==> !lex_lt(key@, (#[trigger] keys@[j])@),
            decreases keys@.len() - p,
        {
            p += 1;
        }
        let ghost old_out = contact_views(out@);
        proof {
            assert forall|j: int| 0 <= j < p implies !lex_lt(name_key(cv), #[trigger] name_key(old_out[j])) by {
                assert(keys@[j]@ == name_key(old_out[j]));
            };
            if p < old_out.len() {
                assert(keys@[p as int]@ == name_key(old_out[p as int]));
            }
            lemma_insert_sorted(old_out, cv, p as int);
            let pre = input.take(i as int);
            assert(input.take(i + 1) =~= pre.push(cv));
            assert forall|k: Seq<char>| #[trigger] with_key(old_out.insert(p as int, cv), k) == with_key(input.take(i + 1), k) by {
                lemma_with_key_concat(pre, seq![cv], k);
                assert(pre.push(cv) =~= pre + seq![cv]);
                assert(with_key(old_out, k) == with_key(pre, k));
            };
        }
        let ghost old_keys = keys@;
        out.insert(p, c);
        keys.insert(p, key);
        assert(contact_views(out@) =~= old_out.insert(p as int, cv));
        assert forall|j: int| 0 <= j < keys@.len() implies (#[trigger] keys@[j])@ == name_key(out@[j].view()) by {
            if j < p {
                assert(keys@[j] == old_keys[j]);
            } else if j > p {
                assert(keys@[j] == old_keys[j - 1]);
            }
        };
        i += 1;
    }
    assert(input.take(n as int) =~= input);
    out
}

/// Every key from position `p` on is strictly above that of `c`.
pub proof fn lemma_sorted_above(s: Seq<ContactView>, c: ContactView, p: int)
    requires
        0 <= p < s.len(),
        sorted_by_name(s),
        lex_lt(name_key(c), name_key(s[p])),
    ensures
        forall|q: int| p <= q < s.len() ==> lex_lt(name_key(c), #[trigger] name_key(s[q])),
{
    assert forall|q: int| p <= q < s.len() implies lex_lt(name_key(c), #[trigger] name_key(s[q])) by {
        if q > p {
            lemma_lex_total(name_key(s[p]), name_key(s[q]));
            if name_key(s[p]) != name_key(s[q]) {
                lemma_lex_transitive(name_key(c), name_key(s[p]), name_key(s[q]));
            }
        }
    };
}

/// Inserting a contact before the first strictly greater key keeps the order
/// and adds it after the contacts that share its key.
pub proof fn lemma_insert_sorted(s: Seq<ContactView>, c: ContactView, p: int)
    requires
        0 <= p <= s.len(),
        sorted_by_name(s),
        forall|j: int| 0 <= j < p ==> !lex_lt(name_key(c), #[trigger] name_key(s[j])),
        p < s.len() ==> lex_lt(name_key(c), name_key(s[p])),
    ensures
        sorted_by_name(s.insert(p, c)),
        forall|k: Seq<char>| #[trigger] with_key(s.insert(p, c), k) == with_key(s, k) + with_key(
            seq![c],
            k,
        ),
{
    let t = s.insert(p, c);
    if p < s.len() {
        lemma_sorted_above(s, c, p);
    }
    assert forall|i: int, j: int| 0 <= i < j < t.len() implies !lex_lt(name_key(t[j]), name_key(t[i])) by {
        if i == p {
            assert(t[j] == s[j - 1]);
            lemma_lex_asymmetric(name_key(c), name_key(s[j - 1]));
        } else if j == p {
            assert(t[i] == s[i]);
        } else if j < p {
            assert(t[i] == s[i] && t[j] == s[j]);
        } else if i < p {
            assert(t[i] == s[i] && t[j] == s[j - 1]);
        } else {
            assert(t[i] == s[i - 1] && t[j] == s[j - 1]);
        }
    };
    let a = s.take(p);
    let b = s.skip(p);
    assert(t =~= a + seq![c] + b);
    assert(s =~= a + b);
    assert forall|k: Seq<char>| #[trigger] with_key(t, k) == with_key(s, k) + with_key(seq![c], k) by {
        lemma_with_key_concat(a + seq![c], b, k);
        lemma_with_key_concat(a, seq![c], k);
        lemma_with_key_concat(a, b, k);
        lemma_with_key_single(c, k);
        if name_key(c) == k {
            assert forall|i: int| 0 <= i < b.len() implies lex_lt(k, #[trigger] name_key(b[i])) by {
                assert(b[i] == s[p + i]);
            };
            lemma_with_key_above(b, k);
            assert(with_key(a, k) + with_key(seq![c], k) + with_key(b, k) =~= with_key(a, k) + with_key(b, k) + with_key(seq![c], k));
        } else {
            assert(with_key(a, k) + with_key(seq![c], k) + with_key(b, k) =~= with_key(a, k) + with_key(b, k) + with_key(seq![c], k));
        }
    };
}

} // verus!
