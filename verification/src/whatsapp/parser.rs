//! Reading WhatsApp notifications out of `dumpsys notification`.
use vstd::prelude::*;
use crate::matching::{all_captures, captures_view, groups_view, matches_of};
use crate::text::{contains, contains_str, find_from, lemma_find, occurs_at, split, split_str, starts_with, starts_with_str, trim, trim_exec, views, chars_of, string_of, eq_str};
use super::models::{notification_fields, WhatsAppMessage};

verus! {

/// Group `i` of a match, when present.
pub open spec fn group_opt(c: Seq<Option<Seq<char>>>, i: int) -> Option<Seq<char>> {
    if 0 <= i < c.len() {
        c[i]
    } else {
        None
    }
}

/// Group 1 of the first match of `pattern` in `s`, when there is a match and it took part.
pub open spec fn first_group(pattern: Seq<char>, s: Seq<char>) -> Option<Seq<char>> {
    let m = all_captures(pattern, s);
    if m.len() > 0 {
        group_opt(m[0], 1)
    } else {
        None
    }
}

/// Extracts messages from the notification dump; holds the patterns it matches.
pub struct WhatsAppParser {
    pub re_title: String,
    pub re_text: String,
    pub re_big_text: String,
    pub re_key: String,
}

/// The sender a notification record names, if it is a real chat notification.
pub open spec fn record_title(p: WhatsAppParser, record: Seq<char>) -> Option<Seq<char>> {
    match first_group(p.re_title@, record) {
        Some(m) => {
            let t = trim(m);
            if t.len() > 0 && t != "WhatsApp"@ && !starts_with(t, "Comprobando si hay mensajes"@) {
                Some(t)
            } else {
                None
            }
        },
        None => None,
    }
}

/// The text of a record: its big text when that pattern matches, else its text.
pub open spec fn record_text(p: WhatsAppParser, record: Seq<char>) -> Option<Seq<char>> {
    let big = all_captures(p.re_big_text@, record);
    let m = if big.len() > 0 {
        group_opt(big[0], 1)
    } else {
        first_group(p.re_text@, record)
    };
    match m {
        Some(t) => if trim(t).len() > 0 {
            Some(trim(t))
        } else {
            None
        },
        None => None,
    }
}

/// Title, text and key of a WhatsApp record that yields a message.
pub open spec fn record_message(p: WhatsAppParser, record: Seq<char>) -> Option<
    (Seq<char>, Seq<char>, Option<Seq<char>>),
> {
    if !(contains(record, "pkg=com.whatsapp"@) || contains(record, "com.whatsapp"@)) {
        None
    } else {
        match (record_title(p, record), record_text(p, record)) {
            (Some(sender), Some(content)) => {
                if sender == "WhatsApp Web"@ || (contains(content, "mensajes nuevos"@) && sender
                    == "WhatsApp"@) {
                    None
                } else {
                    Some((sender, content, first_group(p.re_key@, record)))
                }
            },
            _ => None,
        }
    }
}

/// The messages that the records yield, in order.
pub open spec fn record_messages(p: WhatsAppParser, records: Seq<Seq<char>>) -> Seq<
    (Seq<char>, Seq<char>, Option<Seq<char>>),
>
    decreases records.len(),
{
    if records.len() == 0 {
        Seq::empty()
    } else {
        match record_message(p, records.last()) {
            Some(m) => record_messages(p, records.drop_last()).push(m),
            None => record_messages(p, records.drop_last()),
        }
    }
}

/// The messages of a whole dump: its records are the text between `NotificationRecord(` marks.
pub open spec fn dump_messages(p: WhatsAppParser, dump: Seq<char>) -> Seq<
    (Seq<char>, Seq<char>, Option<Seq<char>>),
> {
    record_messages(p, split(dump, "NotificationRecord("@))
}

/// A message read from notifications has a sender and a text, and never comes
/// from WhatsApp Web's own notification.
pub open spec fn real_message(m: (Seq<char>, Seq<char>, Option<Seq<char>>)) -> bool {
    m.0.len() > 0 && m.1.len() > 0 && m.0 != "WhatsApp Web"@ && m.0 != "WhatsApp"@
}

proof fn lemma_record_messages_real(p: WhatsAppParser, records: Seq<Seq<char>>)
    ensures
        forall|i: int|
            0 <= i < record_messages(p, records).len() ==> real_message(
                #[trigger] record_messages(p, records)[i],
            ),
    decreases records.len(),
{
    if records.len() > 0 {
        lemma_record_messages_real(p, records.drop_last());
        let prev = record_messages(p, records.drop_last());
        let all = record_messages(p, records);
        assert forall|i: int| 0 <= i < all.len() implies real_message(#[trigger] all[i]) by {
            if i < prev.len() {
                assert(all[i] == prev[i]);
            }
        };
    }
}

/// Every message read from a dump names a sender and has a text; notifications
/// of WhatsApp itself and of WhatsApp Web yield none.
pub proof fn law_dump_messages_real(p: WhatsAppParser, dump: Seq<char>)
    ensures
        forall|i: int|
            0 <= i < dump_messages(p, dump).len() ==> real_message(#[trigger] dump_messages(p, dump)[i]),
{
    lemma_record_messages_real(p, split(dump, "NotificationRecord("@));
}

/// A notification record that mentions `com.whatsapp` (so also WhatsApp
/// Business, `com.whatsapp.w4b`) and has a title and a non-blank text gives
/// exactly that sender, text and key, unless it is WhatsApp Web's or WhatsApp's
/// own "new messages" summary; a record without `com.whatsapp` gives nothing.
pub proof fn law_whatsapp_records_read(p: WhatsAppParser, record: Seq<char>)
    ensures
        !contains(record, "com.whatsapp"@) ==> record_message(p, record) is None,
        contains(record, "com.whatsapp"@) ==> match (record_title(p, record), record_text(p, record)) {
            (Some(sender), Some(text)) => if sender == "WhatsApp Web"@ || (sender == "WhatsApp"@
                && contains(text, "mensajes nuevos"@)) {
                record_message(p, record) is None
            } else {
                record_message(p, record) == Some((sender, text, first_group(p.re_key@, record)))
            },
            _ => record_message(p, record) is None,
        },
{
    reveal_strlit("pkg=com.whatsapp");
    reveal_strlit("com.whatsapp");
    let long = "pkg=com.whatsapp"@;
    let short = "com.whatsapp"@;
    if contains(record, long) {
        let i = choose|i: int| occurs_at(record, long, i);
        assert(record.subrange(i + 4, i + 4 + short.len()) =~= long.subrange(4, long.len() as int));
        assert(long.subrange(4, long.len() as int) =~= short);
        assert(occurs_at(record, short, i + 4));
    }
}

/// A dump holding one notification record reads as that record alone.
pub proof fn law_single_record_dump(p: WhatsAppParser, record: Seq<char>)
    requires
        !contains(record, "NotificationRecord("@),
    ensures
        dump_messages(p, "NotificationRecord("@ + record) == match record_message(p, record) {
            Some(m) => seq![m],
            None => Seq::empty(),
        },
{
    let sep = "NotificationRecord("@;
    let dump = sep + record;
    reveal_strlit("NotificationRecord(");
    assert(dump.subrange(0, sep.len() as int) =~= sep);
    assert(find_from(dump, sep, 0) == Some(0int));
    assert(dump.skip(sep.len() as int) =~= record);
    lemma_find(record, sep);
    assert(dump.take(0) =~= Seq::<char>::empty());
    let parts = split(dump, sep);
    assert(split(record, sep) == seq![record]);
    assert(parts =~= seq![Seq::<char>::empty(), record]);
    let e = Seq::<char>::empty();
    assert(!contains(e, "com.whatsapp"@)) by {
        reveal_strlit("com.whatsapp");
    };
    assert(!contains(e, "pkg=com.whatsapp"@)) by {
        reveal_strlit("pkg=com.whatsapp");
    };
    assert(record_message(p, e) is None);
    assert(parts.drop_last() =~= seq![e]);
    assert(seq![e].drop_last() =~= Seq::<Seq<char>>::empty());
    assert(seq![e].last() == e);
    assert(record_messages(p, Seq::<Seq<char>>::empty()) == Seq::<(Seq<char>, Seq<char>, Option<Seq<char>>)>::empty());
    assert(record_messages(p, seq![e]) =~= Seq::empty());
    assert(parts.last() == record);
    match record_message(p, record) {
        Some(m) => assert(Seq::<(Seq<char>, Seq<char>, Option<Seq<char>>)>::empty().push(m) =~= seq![m]),
        None => {},
    }
}

/// Group 1 of the first match, when present.
fn first_group_exec(pattern: &str, s: &str) -> (r: Option<Vec<char>>)
    ensures
        match first_group(pattern@, s@) {
            Some(t) => r matches Some(v) && v@ == t,
            None => r is None,
        },
{
    let m = matches_of(pattern, s);
    if m.len() > 0 {
        assert(captures_view(m@)[0] == groups_view(m@[0]));
        group_opt_exec(&m[0], 1)
    } else {
        None
    }
}

/// Group `i` of a match, when present.
fn group_opt_exec(c: &Vec<Option<String>>, i: usize) -> (r: Option<Vec<char>>)
    ensures
        match group_opt(groups_view(*c), i as int) {
            Some(t) => r matches Some(v) && v@ == t,
            None => r is None,
        },
{
    if i < c.len() {
        match &c[i] {
            Some(t) => Some(chars_of(t.as_str())),
            None => None,
        }
    } else {
        None
    }
}

impl WhatsAppParser {
    pub fn new() -> (p: Self)
        ensures
            p.re_title@ == "android\\.title=String\\s*\\((.*?)\\)"@,
            p.re_text@ == "android\\.text=String\\s*\\((.*?)\\)"@,
            p.re_big_text@ == "android\\.bigText=String\\s*\\((.*?)\\)"@,
            p.re_key@ == "key=([^\\s]+)"@,
    {
        WhatsAppParser {
            re_title: crate::adb::owned("android\\.title=String\\s*\\((.*?)\\)"),
            re_text: crate::adb::owned("android\\.text=String\\s*\\((.*?)\\)"),
            re_big_text: crate::adb::owned("android\\.bigText=String\\s*\\((.*?)\\)"),
            re_key: crate::adb::owned("key=([^\\s]+)"),
        }
    }

    /// Title, text and key of one record, when it is a WhatsApp chat notification.
    pub fn parse_record(&self, record: &str) -> (r: Option<(String, String, Option<String>)>)
        ensures
            match record_message(*self, record@) {
                Some((t, c, k)) => r matches Some((rt, rc, rk)) && rt@ == t && rc@ == c
                    && crate::adb::opt_view(rk) == k,
                None => r is None,
            },
    {
        let rv = chars_of(record);
        if !(contains_str(&rv, "pkg=com.whatsapp") || contains_str(&rv, "com.whatsapp")) {
            return None;
        }
        let title: Option<Vec<char>> = match first_group_exec(self.re_title.as_str(), record) {
            Some(m) => {
                let t = trim_exec(&m);
                if t.len() > 0 && !eq_str(&t, "WhatsApp") && !starts_with_str(
                    &t,
                    "Comprobando si hay mensajes",
                ) {
                    Some(t)
                } else {
                    None
                }
            },
            None => None,
        };
        let big = matches_of(self.re_big_text.as_str(), record);
        let m = if big.len() > 0 {
            assert(captures_view(big@)[0] == groups_view(big@[0]));
            group_opt_exec(&big[0], 1)
        } else {
            first_group_exec(self.re_text.as_str(), record)
        };
        let text: Option<Vec<char>> = match m {
            Some(t) => {
                let tt = trim_exec(&t);
                if tt.len() > 0 {
                    Some(tt)
                } else {
                    None
                }
            },
            None => None,
        };
        match (title, text) {
            (Some(sender), Some(content)) => {
                if eq_str(&sender, "WhatsApp Web") || (contains_str(&content, "mensajes nuevos")
                    && eq_str(&sender, "WhatsApp")) {
                    None
                } else {
                    let key = match first_group_exec(self.re_key.as_str(), record) {
                        Some(k) => Some(string_of(&k)),
                        None => None,
                    };
                    Some((string_of(&sender), string_of(&content), key))
                }
            },
            _ => None,
        }
    }

    /// The WhatsApp messages among the notifications of a `dumpsys notification` output.
    pub fn parse_dumpsys(&self, dumpsys_output: &str) -> (r: Vec<WhatsAppMessage>)
        ensures
            r@.len() == dump_messages(*self, dumpsys_output@).len(),
            forall|i: int|
                0 <= i < r@.len() ==> notification_fields(
                    #[trigger] r@[i],
                    dump_messages(*self, dumpsys_output@)[i].0,
                    dump_messages(*self, dumpsys_output@)[i].1,
                    dump_messages(*self, dumpsys_output@)[i].2,
                ),
    {
        let dv = chars_of(dumpsys_output);
        proof {
            reveal_strlit("NotificationRecord(");
        }
        let records = split_str(&dv, "NotificationRecord(");
        let ghost rs = views(records@);
        let mut out: Vec<WhatsAppMessage> = Vec::new();
        let mut i: usize = 0;
        while i < records.len()
            invariant
                i <= records.len(),
                rs == views(records@),
                rs == split(dumpsys_output@, "NotificationRecord("@),
                out@.len() == record_messages(*self, rs.take(i as int)).len(),
                forall|j: int|
                    0 <= j < out@.len() ==> notification_fields(
                        #[trigger] out@[j],
                        record_messages(*self, rs.take(i as int))[j].0,
                        record_messages(*self, rs.take(i as int))[j].1,
                        record_messages(*self, rs.take(i as int))[j].2,
                    ),
            decreases records.len() - i,
        {
            assert(rs.take(i + 1).drop_last() =~= rs.take(i as int));
            assert(rs.take(i + 1).last() == records@[i as int]@);
            let rec = string_of(&records[i]);
            match self.parse_record(rec.as_str()) {
                Some((sender, content, key)) => {
                    let msg = WhatsAppMessage::new(sender, content, key);
                    out.push(msg);
                },
                None => {},
            }
            i += 1;
        }
        assert(rs.take(records.len() as int) =~= rs);
        out
    }
}

} // verus!
