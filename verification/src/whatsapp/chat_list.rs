//! The list of chats and groups on WhatsApp's main screen.
use vstd::prelude::*;
use crate::adb::{opt_view, shell_argv, AdbClient, AdbError};
use crate::matching::{all_captures, captures_view, group_chars, group_text, groups_view, matches_of};
use crate::text::{chars_of, eq_str, half, int_or_zero, int_or_zero_exec, midpoint, string_of, trim, trim_exec};
use super::models::WhatsAppError;

verus! {

/// The pattern of a chat row: its name, then its bounds `[x1,y1][x2,y2]`.
pub const CHAT_ROW_PATTERN: &'static str = "<node[^>]*?text=\"([^\"]+)\"[^>]*?resource-id=\"[^\"]*?(?:conversations_row_contact_name|conversation_contact_name|chat_title)\"[^>]*?bounds=\"\\[(\\d+),(\\d+)\\]\\[(\\d+),(\\d+)\\]\"";

/// A chat or group on the main screen, and where to tap to open it.
#[derive(Debug)]
pub struct ChatSummary {
    pub title: String,
    pub last_message: Option<String>,
    pub unread_count: Option<String>,
    pub bounds_center: (i32, i32),
}

impl Clone for ChatSummary {
    fn clone(&self) -> (r: Self)
        ensures
            r.view() == self.view(),
    {
        ChatSummary {
            title: self.title.clone(),
            last_message: self.last_message.clone(),
            unread_count: self.unread_count.clone(),
            bounds_center: (self.bounds_center.0, self.bounds_center.1),
        }
    }
}

/// A `ChatSummary` as plain values.
pub struct ChatSummaryView {
    pub title: Seq<char>,
    pub last_message: Option<Seq<char>>,
    pub unread_count: Option<Seq<char>>,
    pub bounds_center: (i32, i32),
}

impl ChatSummary {
    pub open spec fn view(&self) -> ChatSummaryView {
        ChatSummaryView {
            title: self.title@,
            last_message: opt_view(self.last_message),
            unread_count: opt_view(self.unread_count),
            bounds_center: self.bounds_center,
        }
    }
}

/// The chat that one match names, unless its title is a screen label.
pub open spec fn chat_of_match(c: Seq<Option<Seq<char>>>) -> Option<ChatSummaryView> {
    let title = trim(group_text(c, 1));
    let x1 = int_or_zero(group_text(c, 2));
    let y1 = int_or_zero(group_text(c, 3));
    let x2 = int_or_zero(group_text(c, 4));
    let y2 = int_or_zero(group_text(c, 5));
    if title.len() > 0 && title != "WhatsApp"@ && title != "Buscar"@ && title != "Search"@ {
        Some(
            ChatSummaryView {
                title,
                last_message: None,
                unread_count: None,
                bounds_center: (half(x1 + x2) as i32, half(y1 + y2) as i32),
            },
        )
    } else {
        None
    }
}

/// The chats that the matches name, in order.
pub open spec fn chats_of_matches(ms: Seq<Seq<Option<Seq<char>>>>) -> Seq<ChatSummaryView>
    decreases ms.len(),
{
    if ms.len() == 0 {
        Seq::empty()
    } else {
        match chat_of_match(ms.last()) {
            Some(c) => chats_of_matches(ms.drop_last()).push(c),
            None => chats_of_matches(ms.drop_last()),
        }
    }
}

/// Every chat listed has a title, and none is one of the screen's own labels.
pub proof fn law_chats_titled(ms: Seq<Seq<Option<Seq<char>>>>)
    ensures
        forall|i: int|
            0 <= i < chats_of_matches(ms).len() ==> {
                let t = (#[trigger] chats_of_matches(ms)[i]).title;
                t.len() > 0 && t != "WhatsApp"@ && t != "Buscar"@ && t != "Search"@
            },
    decreases ms.len(),
{
    if ms.len() > 0 {
        law_chats_titled(ms.drop_last());
        let prev = chats_of_matches(ms.drop_last());
        let all = chats_of_matches(ms);
        assert forall|i: int| 0 <= i < all.len() implies {
            let t = (#[trigger] all[i]).title;
            t.len() > 0 && t != "WhatsApp"@ && t != "Buscar"@ && t != "Search"@
        } by {
            if i < prev.len() {
                assert(all[i] == prev[i]);
            }
        };
    }
}

/// Whether a chat row shows a real chat: its trimmed title is not blank nor
/// one of the screen's labels.
pub open spec fn is_chat_row(m: Seq<Option<Seq<char>>>) -> bool {
    let t = trim(group_text(m, 1));
    t.len() > 0 && t != "WhatsApp"@ && t != "Buscar"@ && t != "Search"@
}

/// The trimmed title of a row and the centre of its bounds `[x1,y1][x2,y2]`,
/// each coordinate sum halved toward zero as Rust's `/ 2` does.
pub open spec fn row_title_and_centre(m: Seq<Option<Seq<char>>>) -> (Seq<char>, (int, int)) {
    let sx = int_or_zero(group_text(m, 2)) + int_or_zero(group_text(m, 4));
    let sy = int_or_zero(group_text(m, 3)) + int_or_zero(group_text(m, 5));
    (
        trim(group_text(m, 1)),
        (
            if sx >= 0 { sx / 2 } else { -((-sx) / 2) },
            if sy >= 0 { sy / 2 } else { -((-sy) / 2) },
        ),
    )
}

/// Every chat row with a real title gives exactly one chat, in the order of
/// the rows, with that trimmed title and the centre of the row's bounds; no
/// other row gives one.
pub proof fn law_chat_rows_listed(ms: Seq<Seq<Option<Seq<char>>>>)
    ensures
        chats_of_matches(ms).map_values(
            |c: ChatSummaryView| (c.title, (c.bounds_center.0 as int, c.bounds_center.1 as int)),
        ) == ms.filter(|m: Seq<Option<Seq<char>>>| is_chat_row(m)).map_values(
            |m: Seq<Option<Seq<char>>>| row_title_and_centre(m),
        ),
    decreases ms.len(),
{
    let f = |c: ChatSummaryView| (c.title, (c.bounds_center.0 as int, c.bounds_center.1 as int));
    let g = |m: Seq<Option<Seq<char>>>| row_title_and_centre(m);
    let pred = |m: Seq<Option<Seq<char>>>| is_chat_row(m);
    if ms.len() == 0 {
        reveal(Seq::filter);
        assert(chats_of_matches(ms).map_values(f) =~= ms.filter(pred).map_values(g));
    } else {
        law_chat_rows_listed(ms.drop_last());
        let prev = chats_of_matches(ms.drop_last());
        let fprev = ms.drop_last().filter(pred);
        let m = ms.last();
        assert(ms.drop_last().push(m) =~= ms);
        ms.drop_last().lemma_filter_push(m, pred);
        if is_chat_row(m) {
            let c = chat_of_match(m)->Some_0;
            let x1 = int_or_zero(group_text(m, 2));
            let x2 = int_or_zero(group_text(m, 4));
            let y1 = int_or_zero(group_text(m, 3));
            let y2 = int_or_zero(group_text(m, 5));
            assert(half(x1 + x2) == row_title_and_centre(m).1.0);
            assert(half(y1 + y2) == row_title_and_centre(m).1.1);
            assert(-0x8000_0000 <= half(x1 + x2) < 0x8000_0000);
            assert(-0x8000_0000 <= half(y1 + y2) < 0x8000_0000);
            assert(f(c) == g(m));
            assert(prev.push(c).map_values(f) =~= prev.map_values(f).push(f(c)));
            assert(fprev.push(m).map_values(g) =~= fprev.map_values(g).push(g(m)));
        }
    }
}

pub open spec fn chat_views(s: Seq<ChatSummary>) -> Seq<ChatSummaryView> {
    s.map_values(|c: ChatSummary| c.view())
}

/// Reads the chats shown on WhatsApp's main screen.
pub struct ChatListExtractor<'a> {
    pub adb: &'a AdbClient,
}

impl<'a> ChatListExtractor<'a> {
    pub fn new(adb: &'a AdbClient) -> (r: Self)
        ensures
            r.adb == adb,
    {
        ChatListExtractor { adb }
    }

    /// The command that brings WhatsApp's main screen to the front.
    pub fn open_main_args(&self) -> (r: Vec<String>)
        ensures
            crate::text::string_views(r@) == shell_argv(
                opt_view(self.adb.selected_device),
                "am start -n com.whatsapp/.Main"@,
            ),
    {
        self.adb.shell_args(&chars_of("am start -n com.whatsapp/.Main"))
    }

    /// The chats from the screen dump taken after opening the main screen.
    pub fn get_visible_chats(xml: Result<String, AdbError>) -> (r: Result<
        Vec<ChatSummary>,
        WhatsAppError,
    >)
        ensures
            match xml {
                Err(e) => r == Err::<Vec<ChatSummary>, WhatsAppError>(WhatsAppError::Adb(e)),
                Ok(x) => if trim(x@).len() == 0 {
                    r == Err::<Vec<ChatSummary>, WhatsAppError>(WhatsAppError::EmptyScreen)
                } else {
                    r matches Ok(cs) && chat_views(cs@) == chats_of_matches(
                        all_captures(CHAT_ROW_PATTERN@, x@),
                    )
                },
            },
    {
        match xml {
            Err(e) => Err(WhatsAppError::Adb(e)),
            Ok(x) => {
                let xv = chars_of(x.as_str());
                if trim_exec(&xv).len() == 0 {
                    Err(WhatsAppError::EmptyScreen)
                } else {
                    Ok(Self::parse_chats_from_xml(x.as_str()))
                }
            },
        }
    }

    /// The chats listed in a screen dump.
    pub fn parse_chats_from_xml(xml: &str) -> (r: Vec<ChatSummary>)
        ensures
            chat_views(r@) == chats_of_matches(all_captures(CHAT_ROW_PATTERN@, xml@)),
    {
        let m = matches_of(CHAT_ROW_PATTERN, xml);
        Self::chats_from_matches(&m)
    }

    /// The chats that the matches of the chat-row pattern name.
    pub fn chats_from_matches(matches: &Vec<Vec<Option<String>>>) -> (r: Vec<ChatSummary>)
        ensures
            chat_views(r@) == chats_of_matches(captures_view(matches@)),
    {
        let ghost ms = captures_view(matches@);
        let mut r: Vec<ChatSummary> = Vec::new();
        let mut i: usize = 0;
        while i < matches.len()
            invariant
                i <= matches.len(),
                ms == captures_view(matches@),
                chat_views(r@) == chats_of_matches(ms.take(i as int)),
            decreases matches.len() - i,
        {
            assert(ms.take(i + 1).drop_last() =~= ms.take(i as int));
            assert(ms.take(i + 1).last() == groups_view(matches@[i as int]));
            let c = &matches[i];
            let title = trim_exec(&group_chars(c, 1));
            let x1 = int_or_zero_exec(&group_chars(c, 2));
            let y1 = int_or_zero_exec(&group_chars(c, 3));
            let x2 = int_or_zero_exec(&group_chars(c, 4));
            let y2 = int_or_zero_exec(&group_chars(c, 5));
            if title.len() > 0 && !eq_str(&title, "WhatsApp") && !eq_str(&title, "Buscar")
                && !eq_str(&title, "Search") {
                let ghost before = r@;
                r.push(
                    ChatSummary {
                        title: string_of(&title),
                        last_message: None,
                        unread_count: None,
                        bounds_center: (midpoint(x1, x2), midpoint(y1, y2)),
                    },
                );
                assert(chat_views(r@) =~= chat_views(before).push(r@.last().view()));
            }
            i += 1;
        }
        assert(ms.take(matches.len() as int) =~= ms);
        r
    }
}

} // verus!
