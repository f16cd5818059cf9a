//! Reading the open conversation from a dump of the screen.
use vstd::prelude::*;
use crate::adb::{opt_view, screen_size_of, shell_argv, AdbClient, AdbError};
use crate::matching::{all_captures, captures_view, group_chars, group_text, groups_view, matches_of};
use crate::text::{
    append, append_str, chars_of, contains, contains_str, eq_str, half, int_or_zero, int_or_zero_exec,
    keep_digits, keep_digits_exec, midpoint, string_of, trim, trim_exec,
};
use super::models::{ChatMessage, MessageDirection, WhatsAppError};

verus! {

/// A text node of the dump: its text, resource id and bounds.
pub const NODE_PATTERN: &'static str = "<node[^>]*?text=\"([^\"]*)\"[^>]*?resource-id=\"([^\"]*)\"[^>]*?bounds=\"\\[(\\d+),(\\d+)\\]\\[(\\d+),(\\d+)\\]\"";

/// The title bar of a conversation.
pub const TITLE_PATTERN: &'static str = "<node[^>]*?text=\"([^\"]+)\"[^>]*?resource-id=\"[^\"]*?(?:conversation_contact_name|conversation_title|title)\"[^>]*?>";

/// A text node of the screen dump.
pub struct NodeView {
    pub text: Seq<char>,
    pub res_id: Seq<char>,
    pub x1: i32,
    pub y1: i32,
    pub x2: i32,
    pub y2: i32,
}

#[derive(Debug)]
struct ParsedNode {
    text: Vec<char>,
    res_id: Vec<char>,
    x1: i32,
    y1: i32,
    x2: i32,
    y2: i32,
}

impl ParsedNode {
    spec fn view(&self) -> NodeView {
        NodeView {
            text: self.text@,
            res_id: self.res_id@,
            x1: self.x1,
            y1: self.y1,
            x2: self.x2,
            y2: self.y2,
        }
    }
}

/// The node one match describes.
pub open spec fn node_of_match(c: Seq<Option<Seq<char>>>) -> NodeView {
    NodeView {
        text: trim(group_text(c, 1)),
        res_id: group_text(c, 2),
        x1: int_or_zero(group_text(c, 3)),
        y1: int_or_zero(group_text(c, 4)),
        x2: int_or_zero(group_text(c, 5)),
        y2: int_or_zero(group_text(c, 6)),
    }
}

/// Nodes of the title bar and the input bar, and empty ones, are not messages.
pub open spec fn node_kept(n: NodeView) -> bool {
    &&& n.text.len() > 0
    &&& !contains(n.res_id, "entry"@)
    &&& !(n.y1 < 160 && (contains(n.res_id, "title"@) || contains(
        n.res_id,
        "conversation_contact_name"@,
    )))
    &&& !contains(n.res_id, "conversation_contact_status"@)
    &&& n.text != "Escribe un mensaje"@
    &&& n.text != "Mensaje"@
    &&& n.text != "Type a message"@
}

/// The kept nodes of the matches, in order.
pub open spec fn kept_nodes(ms: Seq<Seq<Option<Seq<char>>>>) -> Seq<NodeView>
    decreases ms.len(),
{
    if ms.len() == 0 {
        Seq::empty()
    } else {
        let n = node_of_match(ms.last());
        if node_kept(n) {
            kept_nodes(ms.drop_last()).push(n)
        } else {
            kept_nodes(ms.drop_last())
        }
    }
}

/// `n` placed after every node of `s` that is not lower on the screen.
pub open spec fn insert_by_y(s: Seq<NodeView>, n: NodeView) -> Seq<NodeView>
    decreases s.len(),
{
    if s.len() == 0 || s.last().y1 <= n.y1 {
        s.push(n)
    } else {
        insert_by_y(s.drop_last(), n).push(s.last())
    }
}

/// The nodes top to bottom; nodes at the same height keep their order (`sort_by_key`).
pub open spec fn sort_by_y(s: Seq<NodeView>) -> Seq<NodeView>
    decreases s.len(),
{
    if s.len() == 0 {
        Seq::empty()
    } else {
        insert_by_y(sort_by_y(s.drop_last()), s.last())
    }
}

/// A message as plain values.
pub struct MessageView {
    pub text: Seq<char>,
    pub author: Option<Seq<char>>,
    pub time_str: Option<Seq<char>>,
    pub direction: MessageDirection,
    pub status: Option<Seq<char>>,
}

pub open spec fn message_view(m: ChatMessage) -> MessageView {
    MessageView {
        text: m.text@,
        author: opt_view(m.author),
        time_str: opt_view(m.time_str),
        direction: m.direction,
        status: opt_view(m.status),
    }
}

/// A message read from a chat screen: no time or status is read off the screen.
pub open spec fn screen_message(
    text: Seq<char>,
    author: Option<Seq<char>>,
    direction: MessageDirection,
) -> MessageView {
    MessageView { text, author, time_str: None, direction, status: None }
}

pub open spec fn message_views(s: Seq<ChatMessage>) -> Seq<MessageView> {
    s.map_values(|m: ChatMessage| message_view(m))
}

/// A bubble on the right half of the screen is one's own.
pub open spec fn is_outgoing(n: NodeView, screen_width: i32) -> bool {
    half(n.x1 + n.x2) > half(screen_width as int)
}

/// The name of the author above an incoming message in a group.
pub open spec fn is_author_node(n: NodeView, screen_width: i32) -> bool {
    (contains(n.res_id, "name"@) || contains(n.res_id, "author"@) || contains(n.res_id, "sender"@))
        && !is_outgoing(n, screen_width) && !contains(n.res_id, "message_text"@)
}

/// The text of a message bubble.
pub open spec fn is_message_node(n: NodeView) -> bool {
    contains(n.res_id, "message_text"@) || contains(n.res_id, "caption"@) || n.res_id.len() == 0
}

pub open spec fn direction_of(n: NodeView, screen_width: i32) -> MessageDirection {
    if is_outgoing(n, screen_width) {
        MessageDirection::Outgoing
    } else {
        MessageDirection::Incoming
    }
}

/// The messages of the nodes top to bottom; an author name applies to the next
/// incoming message.
pub open spec fn bubble_messages(
    nodes: Seq<NodeView>,
    screen_width: i32,
    pending: Option<Seq<char>>,
) -> Seq<MessageView>
    decreases nodes.len(),
{
    if nodes.len() == 0 {
        Seq::empty()
    } else {
        let n = nodes[0];
        let rest = nodes.drop_first();
        if is_author_node(n, screen_width) {
            bubble_messages(rest, screen_width, Some(n.text))
        } else if is_message_node(n) {
            if is_outgoing(n, screen_width) {
                seq![screen_message(n.text, None, MessageDirection::Outgoing)]
                    + bubble_messages(rest, screen_width, pending)
            } else {
                seq![screen_message(n.text, pending, MessageDirection::Incoming)]
                    + bubble_messages(rest, screen_width, None)
            }
        } else {
            bubble_messages(rest, screen_width, pending)
        }
    }
}

/// Every node as a message, by side of the screen.
pub open spec fn plain_messages(nodes: Seq<NodeView>, screen_width: i32) -> Seq<MessageView> {
    nodes.map_values(
        |n: NodeView| screen_message(n.text, None, direction_of(n, screen_width)),
    )
}

/// The messages of the sorted nodes; every node when none is recognised as a message.
pub open spec fn chat_messages(nodes: Seq<NodeView>, screen_width: i32) -> Seq<MessageView> {
    let m = bubble_messages(nodes, screen_width, None);
    if m.len() == 0 {
        plain_messages(nodes, screen_width)
    } else {
        m
    }
}

/// The messages that the node matches of a dump give.
pub open spec fn messages_of_matches(ms: Seq<Seq<Option<Seq<char>>>>, screen_width: i32) -> Seq<
    MessageView,
> {
    chat_messages(sort_by_y(kept_nodes(ms)), screen_width)
}

/// The first title among the matches that is not blank nor `WhatsApp`.
pub open spec fn title_of_matches(ms: Seq<Seq<Option<Seq<char>>>>) -> Option<Seq<char>>
    decreases ms.len(),
{
    if ms.len() == 0 {
        None
    } else {
        let t = trim(group_text(ms[0], 1));
        if t.len() > 0 && t != "WhatsApp"@ {
            Some(t)
        } else {
            title_of_matches(ms.drop_first())
        }
    }
}

/// Inserting before the first node from the end that is not lower.
pub proof fn lemma_insert_by_y(s: Seq<NodeView>, n: NodeView, p: int)
    requires
        0 <= p <= s.len(),
        p == 0 || s[p - 1].y1 <= n.y1,
        forall|j: int| p <= j < s.len() ==> (#[trigger] s[j]).y1 > n.y1,
    ensures
        insert_by_y(s, n) == s.insert(p, n),
    decreases s.len(),
{
    if s.len() == 0 {
        assert(s.push(n) =~= s.insert(p, n));
    } else if p == s.len() {
        assert(s.push(n) =~= s.insert(p, n));
    } else {
        lemma_insert_by_y(s.drop_last(), n, p);
        assert(s.drop_last().insert(p, n).push(s.last()) =~= s.insert(p, n));
    }
}

/// What a bubble read from a screen holds: a side, no author on one's own, and
/// no time or status.
pub open spec fn bubble_well_read(m: MessageView) -> bool {
    &&& m.direction != MessageDirection::Unknown
    &&& m.direction == MessageDirection::Outgoing ==> m.author is None
    &&& m.time_str is None
    &&& m.status is None
}

proof fn lemma_bubbles_well_read(nodes: Seq<NodeView>, screen_width: i32, pending: Option<Seq<char>>)
    ensures
        forall|i: int|
            0 <= i < bubble_messages(nodes, screen_width, pending).len() ==> bubble_well_read(
                #[trigger] bubble_messages(nodes, screen_width, pending)[i],
            ),
    decreases nodes.len(),
{
    if nodes.len() > 0 {
        let n = nodes[0];
        let rest = nodes.drop_first();
        lemma_bubbles_well_read(rest, screen_width, Some(n.text));
        lemma_bubbles_well_read(rest, screen_width, pending);
        lemma_bubbles_well_read(rest, screen_width, None);
        let all = bubble_messages(nodes, screen_width, pending);
        if is_author_node(n, screen_width) {
            assert(all == bubble_messages(rest, screen_width, Some(n.text)));
        } else if is_message_node(n) {
            let (head, tail) = if is_outgoing(n, screen_width) {
                (
                    screen_message(n.text, None, MessageDirection::Outgoing),
                    bubble_messages(rest, screen_width, pending),
                )
            } else {
                (
                    screen_message(n.text, pending, MessageDirection::Incoming),
                    bubble_messages(rest, screen_width, None),
                )
            };
            assert(all == seq![head] + tail);
            assert(bubble_well_read(head));
            assert forall|i: int| 0 <= i < all.len() implies bubble_well_read(#[trigger] all[i]) by {
                if i > 0 {
                    assert(all[i] == tail[i - 1]);
                } else {
                    assert(all[i] == head);
                }
            };
        } else {
            assert(all == bubble_messages(rest, screen_width, pending));
        }
    }
}

/// Every message read from a chat screen is incoming or outgoing, carries no
/// time or status, and one's own messages never carry an author's name.
pub proof fn law_messages_well_read(ms: Seq<Seq<Option<Seq<char>>>>, screen_width: i32)
    ensures
        forall|i: int|
            0 <= i < messages_of_matches(ms, screen_width).len() ==> bubble_well_read(
                #[trigger] messages_of_matches(ms, screen_width)[i],
            ),
{
    let nodes = sort_by_y(kept_nodes(ms));
    lemma_bubbles_well_read(nodes, screen_width, None);
    let p = plain_messages(nodes, screen_width);
    assert forall|i: int| 0 <= i < p.len() implies bubble_well_read(#[trigger] p[i]) by {};
}

/// The message `m` is what the dump row `c` shows on a screen `screen_width`
/// wide: the row's trimmed text, not blank, on the right (one's own) exactly
/// when the centre `(x1 + x2) / 2` of its bounds, halved as Rust's `/ 2` does,
/// is past `screen_width / 2`, and on the left (incoming) otherwise.
pub open spec fn shows_row(c: Seq<Option<Seq<char>>>, screen_width: i32, m: MessageView) -> bool {
    let text = trim(group_text(c, 1));
    let sx = int_or_zero(group_text(c, 3)) + int_or_zero(group_text(c, 5));
    let centre = if sx >= 0 { sx / 2 } else { -((-sx) / 2) };
    let w = screen_width as int;
    let mid = if w >= 0 { w / 2 } else { -((-w) / 2) };
    &&& m.text == text
    &&& text.len() > 0
    &&& (m.direction == MessageDirection::Outgoing <==> centre > mid)
    &&& (m.direction == MessageDirection::Incoming <==> !(centre > mid))
}

/// What a message takes from the node it is read from.
spec fn from_node(n: NodeView, screen_width: i32, m: MessageView) -> bool {
    &&& m.text == n.text
    &&& (m.direction == MessageDirection::Outgoing <==> is_outgoing(n, screen_width))
    &&& (m.direction == MessageDirection::Incoming <==> !is_outgoing(n, screen_width))
}

proof fn lemma_kept_from(ms: Seq<Seq<Option<Seq<char>>>>)
    ensures
        forall|j: int|
            0 <= j < kept_nodes(ms).len() ==> exists|k: int|
                0 <= k < ms.len() && #[trigger] kept_nodes(ms)[j] == node_of_match(ms[k]) && node_kept(
                    kept_nodes(ms)[j],
                ),
    decreases ms.len(),
{
    if ms.len() > 0 {
        let d = ms.drop_last();
        lemma_kept_from(d);
        let prev = kept_nodes(d);
        let all = kept_nodes(ms);
        assert forall|j: int| 0 <= j < all.len() implies exists|k: int|
            0 <= k < ms.len() && #[trigger] all[j] == node_of_match(ms[k]) && node_kept(all[j]) by {
            if j < prev.len() {
                assert(all[j] == prev[j]);
                let k = choose|k: int| 0 <= k < d.len() && prev[j] == node_of_match(d[k]) && node_kept(prev[j]);
                assert(ms[k] == d[k]);
            } else {
                assert(all[j] == node_of_match(ms[ms.len() - 1]));
            }
        };
    }
}

proof fn lemma_insert_members(s: Seq<NodeView>, n: NodeView)
    ensures
        forall|j: int|
            0 <= j < insert_by_y(s, n).len() ==> #[trigger] insert_by_y(s, n)[j] == n || s.contains(
                insert_by_y(s, n)[j],
            ),
    decreases s.len(),
{
    if s.len() > 0 && s.last().y1 > n.y1 {
        let d = s.drop_last();
        lemma_insert_members(d, n);
        let prev = insert_by_y(d, n);
        let all = insert_by_y(s, n);
        assert forall|j: int| 0 <= j < all.len() implies #[trigger] all[j] == n || s.contains(all[j]) by {
            if j < prev.len() {
                assert(all[j] == prev[j]);
                if prev[j] != n {
                    let k = choose|k: int| 0 <= k < d.len() && d[k] == prev[j];
                    assert(s[k] == d[k]);
                }
            } else {
                assert(all[j] == s.last());
                assert(s[s.len() - 1] == s.last());
            }
        };
    } else {
        let all = insert_by_y(s, n);
        assert forall|j: int| 0 <= j < all.len() implies #[trigger] all[j] == n || s.contains(all[j]) by {
            if j < s.len() {
                assert(all[j] == s[j]);
            }
        };
    }
}

proof fn lemma_sort_members(s: Seq<NodeView>)
    ensures
        forall|j: int| 0 <= j < sort_by_y(s).len() ==> s.contains(#[trigger] sort_by_y(s)[j]),
    decreases s.len(),
{
    if s.len() > 0 {
        let d = s.drop_last();
        lemma_sort_members(d);
        lemma_insert_members(sort_by_y(d), s.last());
        let all = sort_by_y(s);
        assert forall|j: int| 0 <= j < all.len() implies s.contains(#[trigger] all[j]) by {
            if all[j] == s.last() {
                assert(s[s.len() - 1] == s.last());
            } else {
                assert(sort_by_y(d).contains(all[j]));
                let a = choose|a: int| 0 <= a < sort_by_y(d).len() && sort_by_y(d)[a] == all[j];
                assert(d.contains(sort_by_y(d)[a]));
                let k = choose|k: int| 0 <= k < d.len() && d[k] == all[j];
                assert(s[k] == d[k]);
            }
        };
    }
}

proof fn lemma_bubbles_from(nodes: Seq<NodeView>, screen_width: i32, pending: Option<Seq<char>>)
    ensures
        forall|i: int|
            0 <= i < bubble_messages(nodes, screen_width, pending).len() ==> exists|j: int|
                0 <= j < nodes.len() && from_node(
                    nodes[j],
                    screen_width,
                    #[trigger] bubble_messages(nodes, screen_width, pending)[i],
                ),
    decreases nodes.len(),
{
    if nodes.len() > 0 {
        let n = nodes[0];
        let rest = nodes.drop_first();
        lemma_bubbles_from(rest, screen_width, Some(n.text));
        lemma_bubbles_from(rest, screen_width, pending);
        lemma_bubbles_from(rest, screen_width, None);
        let all = bubble_messages(nodes, screen_width, pending);
        let tail = if is_author_node(n, screen_width) {
            bubble_messages(rest, screen_width, Some(n.text))
        } else if is_message_node(n) && is_outgoing(n, screen_width) {
            bubble_messages(rest, screen_width, pending)
        } else if is_message_node(n) {
            bubble_messages(rest, screen_width, None)
        } else {
            bubble_messages(rest, screen_width, pending)
        };
        let skip: int = if !is_author_node(n, screen_width) && is_message_node(n) { 1 } else { 0 };
        assert(all.len() == tail.len() + skip);
        assert forall|i: int| 0 <= i < all.len() implies exists|j: int|
            0 <= j < nodes.len() && from_node(nodes[j], screen_width, #[trigger] all[i]) by {
            if skip == 1 && i == 0 {
                assert(from_node(nodes[0], screen_width, all[0]));
            } else {
                assert(all[i] == tail[i - skip]);
                let j = choose|j: int| 0 <= j < rest.len() && from_node(rest[j], screen_width, tail[i - skip]);
                assert(nodes[j + 1] == rest[j]);
            }
        };
    }
}

/// Every message read from a chat screen is one row of the dump as it shows:
/// that row's trimmed text, and one's own exactly when the centre of the row's
/// bounds is past the middle of the screen (incoming otherwise).
pub proof fn law_messages_from_rows(ms: Seq<Seq<Option<Seq<char>>>>, screen_width: i32)
    ensures
        forall|i: int|
            0 <= i < messages_of_matches(ms, screen_width).len() ==> exists|k: int|
                0 <= k < ms.len() && shows_row(
                    ms[k],
                    screen_width,
                    #[trigger] messages_of_matches(ms, screen_width)[i],
                ),
{
    let kept = kept_nodes(ms);
    let nodes = sort_by_y(kept);
    lemma_kept_from(ms);
    lemma_sort_members(kept);
    lemma_bubbles_from(nodes, screen_width, None);
    let all = messages_of_matches(ms, screen_width);
    let bub = bubble_messages(nodes, screen_width, None);
    assert forall|i: int| 0 <= i < all.len() implies exists|k: int|
        0 <= k < ms.len() && shows_row(ms[k], screen_width, #[trigger] all[i]) by {
        let j = if bub.len() == 0 {
            let p = plain_messages(nodes, screen_width);
            assert(all[i] == p[i]);
            assert(from_node(nodes[i], screen_width, all[i]));
            i
        } else {
            assert(all[i] == bub[i]);
            choose|j: int| 0 <= j < nodes.len() && from_node(nodes[j], screen_width, bub[i])
        };
        let n = nodes[j];
        assert(kept.contains(n));
        let a = choose|a: int| 0 <= a < kept.len() && kept[a] == n;
        let k = choose|k: int| 0 <= k < ms.len() && kept[a] == node_of_match(ms[k]) && node_kept(kept[a]);
        assert(shows_row(ms[k], screen_width, all[i]));
    };
}

/// Reads the open conversation.
pub struct WhatsAppReader<'a> {
    pub adb: &'a AdbClient,
}

impl<'a> WhatsAppReader<'a> {
    pub fn new(adb: &'a AdbClient) -> (r: Self)
        ensures
            r.adb == adb,
    {
        WhatsAppReader { adb }
    }

    /// The command that opens the conversation with `phone_number` (its digits);
    /// `InvalidPhone` when it has none.
    pub fn read_conversation_by_phone(&self, phone_number: &str) -> (r: Result<
        Vec<String>,
        WhatsAppError,
    >)
        ensures
            keep_digits(phone_number@).len() == 0 ==> r == Err::<Vec<String>, WhatsAppError>(
                WhatsAppError::InvalidPhone,
            ),
            keep_digits(phone_number@).len() > 0 ==> (r matches Ok(args)
                && crate::text::string_views(args@) == shell_argv(
                opt_view(self.adb.selected_device),
                "am start -a android.intent.action.VIEW -d \"https://api.whatsapp.com/send?phone="@
                    + keep_digits(phone_number@) + "\""@,
            )),
    {
        let pv = chars_of(phone_number);
        let clean = keep_digits_exec(&pv);
        if clean.len() == 0 {
            return Err(WhatsAppError::InvalidPhone);
        }
        let mut cmd = chars_of(
            "am start -a android.intent.action.VIEW -d \"https://api.whatsapp.com/send?phone=",
        );
        append(&mut cmd, &clean);
        append_str(&mut cmd, "\"");
        Ok(self.adb.shell_args(&cmd))
    }

    /// The open conversation's title and messages from the results of `wm size`
    /// and of the screen dump.
    pub fn read_active_chat(
        screen_size: Result<String, AdbError>,
        xml: Result<String, AdbError>,
    ) -> (r: Result<(String, Vec<ChatMessage>), WhatsAppError>)
        ensures
            match xml {
                Err(e) => r == Err::<(String, Vec<ChatMessage>), WhatsAppError>(WhatsAppError::Adb(e)),
                Ok(x) => if trim(x@).len() == 0 {
                    r == Err::<(String, Vec<ChatMessage>), WhatsAppError>(WhatsAppError::EmptyScreen)
                } else {
                    r matches Ok((title, msgs)) && title@ == (match title_of_matches(
                        all_captures(TITLE_PATTERN@, x@),
                    ) {
                        Some(t) => t,
                        None => "Conversación Actual"@,
                    }) && message_views(msgs@) == messages_of_matches(
                        all_captures(NODE_PATTERN@, x@),
                        match screen_size {
                            Ok(out) => screen_size_of(out@).0,
                            Err(_) => 1080,
                        },
                    )
                },
            },
    {
        let width: i32 = match crate::adb::AdbClient::get_screen_size(screen_size) {
            Ok((w, _)) => w,
            Err(_) => 1080,
        };
        match xml {
            Err(e) => Err(WhatsAppError::Adb(e)),
            Ok(x) => {
                let xv = chars_of(x.as_str());
                if trim_exec(&xv).len() == 0 {
                    return Err(WhatsAppError::EmptyScreen);
                }
                let title = match Self::extract_chat_title(x.as_str()) {
                    Some(t) => t,
                    None => crate::adb::owned("Conversación Actual"),
                };
                let messages = Self::parse_chat_xml(x.as_str(), width);
                Ok((title, messages))
            },
        }
    }

    /// The conversation's title from the title bar of a dump.
    pub fn extract_chat_title(xml: &str) -> (r: Option<String>)
        ensures
            match title_of_matches(all_captures(TITLE_PATTERN@, xml@)) {
                Some(t) => r matches Some(s) && s@ == t,
                None => r is None,
            },
    {
        let m = matches_of(TITLE_PATTERN, xml);
        let ghost ms = captures_view(m@);
        let mut i: usize = 0;
        assert(ms.skip(0) =~= ms);
        while i < m.len()
            invariant
                i <= m.len(),
                ms == captures_view(m@),
                ms == all_captures(TITLE_PATTERN@, xml@),
                title_of_matches(ms) == title_of_matches(ms.skip(i as int)),
            decreases m.len() - i,
        {
            assert(ms.skip(i as int)[0] == groups_view(m@[i as int]));
            assert(ms.skip(i as int).drop_first() =~= ms.skip(i + 1));
            let t = trim_exec(&group_chars(&m[i], 1));
            assert(t@ == trim(group_text(ms.skip(i as int)[0], 1)));
            if t.len() > 0 && !eq_str(&t, "WhatsApp") {
                assert(title_of_matches(ms.skip(i as int)) == Some(t@));
                return Some(string_of(&t));
            }
            assert(title_of_matches(ms.skip(i as int)) == title_of_matches(ms.skip(i + 1)));
            i += 1;
        }
        assert(ms.skip(i as int) =~= Seq::<Seq<Option<Seq<char>>>>::empty());
        None
    }

    /// The messages of a dump, reading bubbles right of the middle as one's own.
    pub fn parse_chat_xml(xml: &str, screen_width: i32) -> (r: Vec<ChatMessage>)
        ensures
            message_views(r@) == messages_of_matches(all_captures(NODE_PATTERN@, xml@), screen_width),
    {
        let m = matches_of(NODE_PATTERN, xml);
        Self::messages_from_matches(&m, screen_width)
    }

    /// The messages that the node matches of a dump give.
    pub fn messages_from_matches(matches: &Vec<Vec<Option<String>>>, screen_width: i32) -> (r: Vec<
        ChatMessage,
    >)
        ensures
            message_views(r@) == messages_of_matches(captures_view(matches@), screen_width),
    {
        let ghost ms = captures_view(matches@);
        // Kept nodes, sorted top to bottom as they come.
        let mut nodes: Vec<ParsedNode> = Vec::new();
        let mut i: usize = 0;
        while i < matches.len()
            invariant
                i <= matches.len(),
                ms == captures_view(matches@),
                nodes@.map_values(|n: ParsedNode| n.view()) == sort_by_y(kept_nodes(ms.take(i as int))),
            decreases matches.len() - i,
        {
            assert(ms.take(i + 1).drop_last() =~= ms.take(i as int));
            assert(ms.take(i + 1).last() == groups_view(matches@[i as int]));
            let c = &matches[i];
            let node = ParsedNode {
                text: trim_exec(&group_chars(c, 1)),
                res_id: group_chars(c, 2),
                x1: int_or_zero_exec(&group_chars(c, 3)),
                y1: int_or_zero_exec(&group_chars(c, 4)),
                x2: int_or_zero_exec(&group_chars(c, 5)),
                y2: int_or_zero_exec(&group_chars(c, 6)),
            };
            assert(node.view() == node_of_match(ms[i as int]));
            let ghost prev = kept_nodes(ms.take(i as int));
            if node_kept_exec(&node) {
                assert(kept_nodes(ms.take(i + 1)) == prev.push(node.view()));
                assert(prev.push(node.view()).drop_last() =~= prev);
                assert(sort_by_y(prev.push(node.view())) == insert_by_y(sort_by_y(prev), node.view()));
                let ghost s = nodes@.map_values(|n: ParsedNode| n.view());
                let ghost nv = node.view();
                let mut p: usize = nodes.len();
                while p > 0 && nodes[p - 1].y1 > node.y1
                    invariant
                        p <= nodes@.len(),
                        s == nodes@.map_values(|n: ParsedNode| n.view()),
                        nv == node.view(),
                        forall|j: int| p <= j < s.len() ==> (#[trigger] s[j]).y1 > nv.y1,
                    decreases p,
                {
                    assert(s[p - 1] == nodes@[p - 1].view());
                    p -= 1;
                }
                proof {
                    lemma_insert_by_y(s, nv, p as int);
                }
                nodes.insert(p, node);
                assert(nodes@.map_values(|n: ParsedNode| n.view()) =~= s.insert(p as int, nv));
            } else {
                assert(kept_nodes(ms.take(i + 1)) == prev);
            }
            i += 1;
        }
        assert(ms.take(matches.len() as int) =~= ms);
        let ghost sorted = nodes@.map_values(|n: ParsedNode| n.view());
        // Messages top to bottom.
        let half_width = screen_width / 2;
        assert(half_width as int == half(screen_width as int));
        let mut out: Vec<ChatMessage> = Vec::new();
        let mut pending: Option<Vec<char>> = None;
        let mut k: usize = 0;
        assert(sorted.skip(0) =~= sorted);
        while k < nodes.len()
            invariant
                k <= nodes.len(),
                sorted == nodes@.map_values(|n: ParsedNode| n.view()),
                half_width as int == half(screen_width as int),
                message_views(out@) + bubble_messages(
                    sorted.skip(k as int),
                    screen_width,
                    match pending {
                        Some(p) => Some(p@),
                        None => None,
                    },
                ) == bubble_messages(sorted, screen_width, None),
            decreases nodes.len() - k,
        {
            let node = &nodes[k];
            let ghost n = sorted[k as int];
            assert(sorted.skip(k as int)[0] == n);
            assert(sorted.skip(k as int).drop_first() =~= sorted.skip(k + 1));
            let center_x = midpoint(node.x1, node.x2);
            let outgoing = center_x > half_width;
            let named = contains_str(&node.res_id, "name") || contains_str(&node.res_id, "author")
                || contains_str(&node.res_id, "sender");
            let is_text = contains_str(&node.res_id, "message_text");
            if named && !outgoing && !is_text {
                pending = Some(node.text.clone());
            } else if is_text || contains_str(&node.res_id, "caption") || node.res_id.len() == 0 {
                let ghost before = out@;
                if outgoing {
                    out.push(
                        ChatMessage::new(
                            string_of(&node.text),
                            None,
                            None,
                            MessageDirection::Outgoing,
                            None,
                        ),
                    );
                } else {
                    let author = match pending {
                        Some(p) => Some(string_of(&p)),
                        None => None,
                    };
                    pending = None;
                    out.push(
                        ChatMessage::new(
                            string_of(&node.text),
                            author,
                            None,
                            MessageDirection::Incoming,
                            None,
                        ),
                    );
                }
                assert(message_views(out@) =~= message_views(before).push(message_view(out@.last())));
            }
            k += 1;
        }
        assert(sorted.skip(nodes.len() as int) =~= Seq::<NodeView>::empty());
        assert(message_views(out@) =~= bubble_messages(sorted, screen_width, None));
        if out.len() > 0 {
            return out;
        }
        // No bubble recognised: every node, by side of the screen.
        let mut all: Vec<ChatMessage> = Vec::new();
        let mut j: usize = 0;
        while j < nodes.len()
            invariant
                j <= nodes.len(),
                sorted == nodes@.map_values(|n: ParsedNode| n.view()),
                half_width as int == half(screen_width as int),
                message_views(all@) == plain_messages(sorted.take(j as int), screen_width),
            decreases nodes.len() - j,
        {
            let node = &nodes[j];
            let center_x = midpoint(node.x1, node.x2);
            let direction = if center_x > half_width {
                MessageDirection::Outgoing
            } else {
                MessageDirection::Incoming
            };
            assert(sorted[j as int] == node.view());
            let ghost before = all@;
            all.push(ChatMessage::new(string_of(&node.text), None, None, direction, None));
            assert(message_views(all@) =~= message_views(before).push(message_view(all@.last())));
            assert(message_view(all@.last()) == screen_message(
                sorted[j as int].text,
                None,
                direction_of(sorted[j as int], screen_width),
            ));
            assert(sorted.take(j + 1) =~= sorted.take(j as int).push(sorted[j as int]));
            assert(plain_messages(sorted.take(j + 1), screen_width) =~= plain_messages(
                sorted.take(j as int),
                screen_width,
            ).push(message_view(all@.last())));
            j += 1;
        }
        assert(sorted.take(nodes.len() as int) =~= sorted);
        all
    }
}

/// Whether a parsed node may be a message.
fn node_kept_exec(n: &ParsedNode) -> (r: bool)
    ensures
        r == node_kept(n.view()),
{
    n.text.len() > 0 && !contains_str(&n.res_id, "entry") && !(n.y1 < 160 && (contains_str(
        &n.res_id,
        "title",
    ) || contains_str(&n.res_id, "conversation_contact_name"))) && !contains_str(
        &n.res_id,
        "conversation_contact_status",
    ) && !eq_str(&n.text, "Escribe un mensaje") && !eq_str(&n.text, "Mensaje") && !eq_str(
        &n.text,
        "Type a message",
    )
}

} // verus!
