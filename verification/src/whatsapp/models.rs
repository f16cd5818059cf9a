//! Messages as they are read from notifications and from chat screens.
use vstd::prelude::*;
use crate::adb::{opt_view, AdbError};
use crate::text::{contains, lemma_find, split_once, trim};

verus! {

/// Reads the system clock with `std::time::SystemTime::now` and measures it
/// against `UNIX_EPOCH` with `SystemTime::duration_since`: `Ok` with the
/// milliseconds since the epoch, or `Err` with the milliseconds before it when
/// the clock reads earlier. The reading is the current time, so nothing is
/// claimed of it.
#[verifier::external_body]
fn read_clock_millis() -> (r: Result<u128, u128>) {
    match std::time::SystemTime::now().duration_since(std::time::UNIX_EPOCH) {
        Ok(d) => Ok(d.as_millis()),
        Err(e) => Err(e.duration().as_millis()),
    }
}

/// Milliseconds since the epoch from a clock reading (negative before it),
/// held to the range of `i64`.
pub open spec fn clock_timestamp(reading: Result<u128, u128>) -> i64 {
    match reading {
        Ok(ms) => if ms <= i64::MAX {
            ms as i64
        } else {
            i64::MAX
        },
        Err(ms) => if ms <= i64::MAX {
            (-(ms as int)) as i64
        } else {
            (-(i64::MAX as int)) as i64
        },
    }
}

/// The time stamp of a clock reading: `Ok` counts after the Unix epoch, `Err`
/// before it, in milliseconds, held to the range of `i64`.
pub fn timestamp_from_clock(reading: Result<u128, u128>) -> (t: i64)
    ensures
        t == clock_timestamp(reading),
{
    let max: u128 = 0x7fff_ffff_ffff_ffff;
    match reading {
        Ok(ms) => if ms <= max {
            ms as i64
        } else {
            0x7fff_ffff_ffff_ffff
        },
        Err(ms) => if ms <= max {
            let v: i64 = ms as i64;
            0 - v
        } else {
            -0x7fff_ffff_ffff_ffff
        },
    }
}

/// Why reading or driving WhatsApp failed.
#[derive(Debug, Clone, PartialEq, Eq)]
pub enum WhatsAppError {
    /// A command to the device failed.
    Adb(AdbError),
    /// The screen dump was empty.
    EmptyScreen,
    /// The phone number has no digits.
    InvalidPhone,
}

/// A message taken from a WhatsApp notification.
#[derive(Debug, Clone, PartialEq, Eq, Hash)]
pub struct WhatsAppMessage {
    pub id: String,
    pub sender: String,
    pub content: String,
    /// When the message was read, in milliseconds since the Unix epoch.
    pub timestamp: i64,
    pub is_group: bool,
    pub group_name: Option<String>,
    pub notification_key: Option<String>,
    pub phone_number: Option<String>,
}

impl WhatsAppMessage {
    /// A message from a notification titled `sender` (`Group: Person` in groups)
    /// with text `content`, stamped with the current time.
    pub fn new(sender: String, content: String, notification_key: Option<String>) -> (m: Self)
        ensures
            notification_fields(m, sender@, content@, opt_view(notification_key)),
    {
        let now = timestamp_from_clock(read_clock_millis());
        Self::new_at(sender, content, notification_key, now)
    }

    /// As `new`, stamped with `timestamp`.
    pub fn new_at(
        sender: String,
        content: String,
        notification_key: Option<String>,
        timestamp: i64,
    ) -> (m: Self)
        ensures
            notification_fields(m, sender@, content@, opt_view(notification_key)),
            m.timestamp == timestamp,
    {
        let sv = crate::text::chars_of(sender.as_str());
        let is_group = crate::text::contains_str(&sv, "@") || crate::text::contains_str(&sv, ":");
        let mut colon: Vec<char> = Vec::new();
        colon.push(':');
        assert(colon@ =~= seq![':']);
        let parts = crate::text::split_once_exec(&sv, &colon);
        let mut group_name: Option<String> = None;
        let mut actual: Vec<char> = sv.clone();
        if parts.len() == 2 && crate::text::contains_str(&sv, ":") {
            group_name = Some(crate::text::string_of(&crate::text::trim_exec(&parts[0])));
            actual = crate::text::trim_exec(&parts[1]);
        }
        let mut id = actual.clone();
        crate::text::append_str(&mut id, "_");
        crate::text::append_str(&mut id, content.as_str());
        crate::text::append_str(&mut id, "_");
        match &notification_key {
            Some(k) => crate::text::append_str(&mut id, k.as_str()),
            None => {},
        }
        WhatsAppMessage {
            id: crate::text::string_of(&id),
            sender: crate::text::string_of(&actual),
            content,
            timestamp,
            is_group,
            group_name,
            notification_key,
            phone_number: None,
        }
    }
}

/// The sender and group that a notification title names: `Group: Person`
/// splits at its first colon.
pub open spec fn title_parts(title: Seq<char>) -> (Option<Seq<char>>, Seq<char>) {
    let parts = split_once(title, seq![':']);
    if contains(title, ":"@) && parts.len() == 2 {
        (Some(trim(parts[0])), trim(parts[1]))
    } else {
        (None, title)
    }
}

/// The fields of a message built from a notification, all but its time.
pub open spec fn notification_fields(
    m: WhatsAppMessage,
    title: Seq<char>,
    content: Seq<char>,
    key: Option<Seq<char>>,
) -> bool {
    let (group, sender) = title_parts(title);
    &&& m.sender@ == sender
    &&& opt_view(m.group_name) == group
    &&& m.content@ == content
    &&& m.is_group == (contains(title, "@"@) || contains(title, ":"@))
    &&& opt_view(m.notification_key) == key
    &&& m.phone_number is None
    &&& m.id@ == sender + "_"@ + content + "_"@ + (match key {
        Some(k) => k,
        None => Seq::empty(),
    })
}

/// A notification titled with a colon comes from a group, and names it; a
/// message names a group only when it is marked as a group's.
pub proof fn law_group_titles(
    m: WhatsAppMessage,
    title: Seq<char>,
    content: Seq<char>,
    key: Option<Seq<char>>,
)
    requires
        notification_fields(m, title, content, key),
    ensures
        contains(title, ":"@) ==> m.is_group && m.group_name is Some,
        m.group_name is Some ==> m.is_group,
{
    reveal_strlit(":");
    assert(":"@ =~= seq![':']);
    lemma_find(title, seq![':']);
}

/// Who wrote a message on a chat screen.
#[derive(Debug, Clone, Copy, PartialEq, Eq, Structural)]
pub enum MessageDirection {
    Incoming,
    Outgoing,
    Unknown,
}

/// A message bubble of a chat screen.
#[derive(Debug, Clone, PartialEq, Eq)]
pub struct ChatMessage {
    pub text: String,
    pub author: Option<String>,
    pub time_str: Option<String>,
    pub direction: MessageDirection,
    pub status: Option<String>,
}

impl ChatMessage {
    pub fn new(
        text: String,
        author: Option<String>,
        time_str: Option<String>,
        direction: MessageDirection,
        status: Option<String>,
    ) -> (m: Self)
        ensures
            m.text == text,
            m.author == author,
            m.time_str == time_str,
            m.direction == direction,
            m.status == status,
    {
        ChatMessage { text, author, time_str, direction, status }
    }
}

} // verus!
